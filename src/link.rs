use crate::cache::{is_live, stamped, CacheValue, MemoryCache, FIVE_MINUTES};
use crate::digest::{md5_hex, md5_hex_of};
use crate::records::MemberSyncResult;
use crate::text::{decimal, push_decimal};
use vstd::prelude::*;
use vstd::string::StrSliceExecFns;

verus! {

/// The text whose digest is a link code: the member's secret, name, the time
/// of issue and the member's token.
pub open spec fn link_code_input(m: MemberSyncResult, now: u64) -> Seq<char> {
    m.account_token_secret@ + "@"@ + m.username@ + "::"@ + decimal(now as nat) + "@"@
        + m.account_token@
}

/// The link code of a member issued at `now`.
pub open spec fn link_code_of(m: MemberSyncResult, now: u64) -> Seq<char> {
    md5_hex(link_code_input(m, now))
}

/// What issuing a link code does to the model of the code cache.
pub open spec fn issued(
    before: Map<Seq<char>, CacheValue<MemberSyncResult>>,
    after: Map<Seq<char>, CacheValue<MemberSyncResult>>,
    member: MemberSyncResult,
    now: u64,
    code: Seq<char>,
) -> bool {
    &&& code == link_code_of(member, now)
    &&& after == before.insert(code, stamped(member, FIVE_MINUTES, FIVE_MINUTES, now))
}

/// What redeeming `code` at `now` does to the model of the code cache and
/// returns: the member, where the code is live, and the code is gone either
/// way.
pub open spec fn redeemed(
    before: Map<Seq<char>, CacheValue<MemberSyncResult>>,
    after: Map<Seq<char>, CacheValue<MemberSyncResult>>,
    code: Seq<char>,
    now: u64,
    r: Option<MemberSyncResult>,
) -> bool {
    &&& r is Some <==> before.contains_key(code) && is_live(before[code], now)
    &&& r matches Some(m) ==> m == before[code].data
    &&& after == before.remove(code)
}

/// A request for a link code carries the server's account key: a missing
/// header counts as the empty key.
pub open spec fn key_accepted(server_key: Seq<char>, header: Option<String>) -> bool {
    server_key == match header {
        Some(h) => h@,
        None => Seq::<char>::empty(),
    }
}

/// Whether a request with the given `Account-Key` header may have a link code.
pub fn account_key_matches(server_key: &String, header: &Option<String>) -> (r: bool)
    ensures
        r == key_accepted(server_key@, *header),
{
    match header {
        Some(h) => *server_key == *h,
        None => {
            let empty = server_key.as_str().unicode_len() == 0;
            assert(empty ==> server_key@ =~= Seq::<char>::empty());
            empty
        },
    }
}

/// The link code of `member` issued at `now`.
pub fn link_code(member: &MemberSyncResult, now: u64) -> (r: String)
    ensures
        r@ == link_code_of(*member, now),
{
    let mut input = member.account_token_secret.clone();
    input.append("@");
    input.append(member.username.as_str());
    input.append("::");
    push_decimal(&mut input, now);
    input.append("@");
    input.append(member.account_token.as_str());
    assert(input@ =~= link_code_input(*member, now));
    md5_hex_of(input.as_str())
}

/// Issues a link code for a resolved member: the code is stored with the
/// member for five minutes, however often it is read.
pub fn issue_link_code(codes: &mut MemoryCache<MemberSyncResult>, member: MemberSyncResult, now: u64) -> (r: String)
    requires
        old(codes).wf(),
    ensures
        final(codes).wf(),
        issued(old(codes)@, final(codes)@, member, now, r@),
{
    let code = link_code(&member, now);
    let value = CacheValue::with_duration(member, FIVE_MINUTES, FIVE_MINUTES, now);
    codes.write(code.clone(), value);
    code
}

/// Redeems a link code: returns its member where the code is live, and
/// removes the code, so that no second redemption succeeds.
pub fn redeem_link_code(codes: &mut MemoryCache<MemberSyncResult>, code: &String, now: u64) -> (r: Option<
    MemberSyncResult,
>)
    requires
        old(codes).wf(),
    ensures
        final(codes).wf(),
        redeemed(old(codes)@, final(codes)@, code@, now, r),
{
    codes.take(code, now)
}

/// A code redeemed twice gives its member the first time and nothing the
/// second.
pub proof fn lemma_redeem_twice(
    m0: Map<Seq<char>, CacheValue<MemberSyncResult>>,
    m1: Map<Seq<char>, CacheValue<MemberSyncResult>>,
    m2: Map<Seq<char>, CacheValue<MemberSyncResult>>,
    code: Seq<char>,
    t1: u64,
    t2: u64,
    r1: Option<MemberSyncResult>,
    r2: Option<MemberSyncResult>,
)
    requires
        m0.contains_key(code),
        is_live(m0[code], t1),
        redeemed(m0, m1, code, t1, r1),
        redeemed(m1, m2, code, t2, r2),
    ensures
        r1 == Some(m0[code].data),
        r2 is None,
{
}

/// A code issued at `t0` and redeemed at or after `t0` plus its five-minute
/// lifetime gives nothing.
pub proof fn lemma_redeem_after_lifetime(
    m0: Map<Seq<char>, CacheValue<MemberSyncResult>>,
    m1: Map<Seq<char>, CacheValue<MemberSyncResult>>,
    m2: Map<Seq<char>, CacheValue<MemberSyncResult>>,
    member: MemberSyncResult,
    code: Seq<char>,
    t0: u64,
    t1: u64,
    r: Option<MemberSyncResult>,
)
    requires
        issued(m0, m1, member, t0, code),
        redeemed(m1, m2, code, t1, r),
        t1 >= t0 + FIVE_MINUTES,
    ensures
        r is None,
{
}

} // verus!
