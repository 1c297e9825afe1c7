use crate::digest::{md5_hex, random_uuid};
use crate::platform::AccountPlatformType;
use crate::records::{Account, AccountPlatform, NewAccountPlatformData, ResolutionError};
use crate::store::{
    token_taken, written, account_of, apply_writes, attribute_map, has_room, is_linked, is_new_account, is_new_link,
    link_matches, store_wf, touched, AccountStore, StoreModel,
};
use crate::text::{decimal, push_decimal};
use vstd::prelude::*;

verus! {

/// The canonical account that an external identity resolved to.
pub struct ResolvedIdentity {
    pub account: Account,
    pub link: AccountPlatform,
    /// Whether this resolution created the account.
    pub created: bool,
}

/// The seed of a new account's token: the time, the external id and a random
/// component.
pub open spec fn account_token_seed(now: u64, external_id: Seq<char>, random: Seq<char>) -> Seq<
    char,
> {
    decimal(now as nat) + "||"@ + external_id + "||"@ + random
}

/// The seed of a new account's secret: the token seed, a second random
/// component and the time.
pub open spec fn account_secret_seed(token_seed: Seq<char>, random: Seq<char>, now: u64) -> Seq<
    char,
> {
    ".."@ + token_seed + "..||.."@ + random + "..||.."@ + decimal(now as nat) + ".."@
}

/// The attribute rows after a sync for `link`: the attributes written in
/// order where the row ids suffice for them, each row written belonging to
/// the link's account; else, and where there is nothing to write, unchanged.
pub open spec fn attributes_synced(
    before: StoreModel,
    after: StoreModel,
    link: AccountPlatform,
    attributes: Seq<NewAccountPlatformData>,
) -> bool {
    if before.next_row_id + attributes.len() < i64::MAX && attributes.len() > 0 {
        &&& attribute_map(after.rows) == apply_writes(attribute_map(before.rows), link.id, attributes)
        &&& after.next_row_id <= before.next_row_id + attributes.len()
        &&& forall|i: int|
            0 <= i < after.rows.len() && (#[trigger] after.rows[i]).platform == link.id && written(
                attributes,
                after.rows[i].key@,
            ) ==> after.rows[i].account == link.account
    } else {
        after.rows == before.rows && after.next_row_id == before.next_row_id
    }
}

/// The outcome of the create path, where the random seeds were `r1` and
/// `r2`: a new account and its link, both at once, unless the account token
/// is already stored, in which case nothing changes.
pub open spec fn creation_outcome(
    before: StoreModel,
    after: StoreModel,
    p: AccountPlatformType,
    external_id: Seq<char>,
    attributes: Seq<NewAccountPlatformData>,
    now: u64,
    r: Result<ResolvedIdentity, ResolutionError>,
    r1: Seq<char>,
    r2: Seq<char>,
) -> bool {
    if token_taken(before, md5_hex(account_token_seed(now, external_id, r1))) {
        &&& r == Err::<ResolvedIdentity, ResolutionError>(ResolutionError::StoreUnavailable)
        &&& after == before
    } else {
        &&& r is Ok
        &&& r->Ok_0.created
        &&& is_new_account(
            r->Ok_0.account,
            before,
            account_token_seed(now, external_id, r1),
            account_secret_seed(account_token_seed(now, external_id, r1), r2, now),
            now,
        )
        &&& is_new_link(r->Ok_0.link, before, r->Ok_0.account.id, p, external_id, now)
        &&& after.accounts == before.accounts.push(r->Ok_0.account)
        &&& after.links == before.links.push(r->Ok_0.link)
        &&& after.next_link_id == before.next_link_id + 1
        &&& attributes_synced(before, after, r->Ok_0.link, attributes)
    }
}

/// What a resolution of (`p`, `external_id`) at `now` does to the records and
/// returns.
///
/// An identity that is linked already resolves to the account of its link,
/// whose update time is stamped; no account is created. An identity that is
/// not linked gets a new account, with tokens from random seeds, and a link
/// to it, both at once, or nothing at all where the records have no room or
/// the new token is already stored. Either way the attributes are then
/// synced, best effort.
pub open spec fn resolution_outcome(
    before: StoreModel,
    after: StoreModel,
    p: AccountPlatformType,
    external_id: Seq<char>,
    attributes: Seq<NewAccountPlatformData>,
    now: u64,
    r: Result<ResolvedIdentity, ResolutionError>,
) -> bool {
    if is_linked(before, p, external_id) {
        &&& r is Ok
        &&& !r->Ok_0.created
        &&& exists|i: int|
            0 <= i < before.links.len() && link_matches(#[trigger] before.links[i], p, external_id)
                && r->Ok_0.account == account_of(before, before.links[i]) && r->Ok_0.link
                == touched(before.links[i], now) && after.links == before.links.update(
                i,
                r->Ok_0.link,
            )
        &&& after.accounts == before.accounts
        &&& after.next_link_id == before.next_link_id
        &&& attributes_synced(before, after, r->Ok_0.link, attributes)
    } else if has_room(before) {
        exists|r1: Seq<char>, r2: Seq<char>|
            creation_outcome(before, after, p, external_id, attributes, now, r, r1, r2)
    } else {
        &&& r == Err::<ResolvedIdentity, ResolutionError>(ResolutionError::StoreUnavailable)
        &&& after == before
    }
}

fn account_token_seed_of(now: u64, external_id: &String, random: &String) -> (r: String)
    ensures
        r@ == account_token_seed(now, external_id@, random@),
{
    let mut s = String::new();
    push_decimal(&mut s, now);
    s.append("||");
    s.append(external_id.as_str());
    s.append("||");
    s.append(random.as_str());
    assert(s@ =~= account_token_seed(now, external_id@, random@));
    s
}

fn account_secret_seed_of(token_seed: &String, random: &String, now: u64) -> (r: String)
    ensures
        r@ == account_secret_seed(token_seed@, random@, now),
{
    let mut s = String::new();
    s.append("..");
    s.append(token_seed.as_str());
    s.append("..||..");
    s.append(random.as_str());
    s.append("..||..");
    push_decimal(&mut s, now);
    s.append("..");
    assert(s@ =~= account_secret_seed(token_seed@, random@, now));
    s
}

/// The refresh path: stamps the link found for the identity and syncs its
/// attributes.
fn refresh(
    store: &mut AccountStore,
    link: AccountPlatform,
    p: AccountPlatformType,
    external_id: &String,
    attributes: &Vec<NewAccountPlatformData>,
    now: u64,
) -> (r: Result<ResolvedIdentity, ResolutionError>)
    requires
        old(store).wf(),
        exists|i: int|
            0 <= i < old(store)@.links.len() && link == #[trigger] old(store)@.links[i]
                && link_matches(link, p, external_id@),
    ensures
        final(store).wf(),
        resolution_outcome(old(store)@, final(store)@, p, external_id@, attributes@, now, r),
{
    let ghost i = choose|i: int|
        0 <= i < old(store)@.links.len() && link == #[trigger] old(store)@.links[i] && link_matches(
            link,
            p,
            external_id@,
        );
    let ghost before = store@;
    assert(is_linked(before, p, external_id@));
    let touched_link = store.update(link.id, now);
    match touched_link {
        Some(t) => {
            let ghost mid = store@;
            proof {
                let j = choose|j: int|
                    0 <= j < before.links.len() && (#[trigger] before.links[j]).id == link.id && t
                        == touched(before.links[j], now) && mid == (StoreModel {
                        links: before.links.update(j, t),
                        ..before
                    });
                if j < i {
                    assert(before.links[j].id < before.links[i].id);
                } else if i < j {
                    assert(before.links[i].id < before.links[j].id);
                }
                assert(j == i);
                assert(before.links[i].account >= 1);
            }
            let account = store.account(t.account);
            match account {
                Some(a) => {
                    let _ = store.write(&t, attributes, now);
                    Ok(ResolvedIdentity { account: a, link: t, created: false })
                },
                None => Err(ResolutionError::StoreUnavailable),
            }
        },
        None => Err(ResolutionError::StoreUnavailable),
    }
}

/// Resolves an external identity to its canonical account and syncs the
/// attributes that the platform supplied.
///
/// Callers that may resolve the same identity at once hold the per-key guard
/// of that identity around this call.
pub fn resolve(
    store: &mut AccountStore,
    platform: AccountPlatformType,
    external_id: &String,
    attributes: &Vec<NewAccountPlatformData>,
    now: u64,
) -> (r: Result<ResolvedIdentity, ResolutionError>)
    requires
        old(store).wf(),
    ensures
        final(store).wf(),
        resolution_outcome(old(store)@, final(store)@, platform, external_id@, attributes@, now, r),
{
    match store.read(platform, external_id) {
        Some(link) => refresh(store, link, platform, external_id, attributes, now),
        None => {
            let first = random_uuid();
            let second = random_uuid();
            let token_seed = account_token_seed_of(now, external_id, &first);
            let secret_seed = account_secret_seed_of(&token_seed, &second, now);
            let ghost before = store@;
            let r = match store.create(&token_seed, &secret_seed, platform, external_id, now) {
                Ok((account, link)) => {
                    let _ = store.write(&link, attributes, now);
                    assert(is_new_account(
                        account,
                        before,
                        account_token_seed(now, external_id@, first@),
                        account_secret_seed(account_token_seed(now, external_id@, first@), second@, now),
                        now,
                    ));
                    Ok(ResolvedIdentity { account, link, created: true })
                },
                Err(ResolutionError::RaceLost) => match store.read(platform, external_id) {
                    Some(link) => refresh(store, link, platform, external_id, attributes, now),
                    None => Err(ResolutionError::RaceLost),
                },
                Err(e) => Err(e),
            };
            proof {
                if has_room(before) {
                    assert(creation_outcome(
                        before,
                        store@,
                        platform,
                        external_id@,
                        attributes@,
                        now,
                        r,
                        first@,
                        second@,
                    ));
                }
            }
            r
        },
    }
}

/// Two resolutions of the same identity, one after the other, give the same
/// account: only the first can create it, and the second creates none.
pub proof fn lemma_resolve_twice(
    s0: StoreModel,
    s1: StoreModel,
    s2: StoreModel,
    p: AccountPlatformType,
    external_id: Seq<char>,
    first_attributes: Seq<NewAccountPlatformData>,
    second_attributes: Seq<NewAccountPlatformData>,
    t1: u64,
    t2: u64,
    r1: Result<ResolvedIdentity, ResolutionError>,
    r2: Result<ResolvedIdentity, ResolutionError>,
)
    requires
        store_wf(s0),
        store_wf(s1),
        resolution_outcome(s0, s1, p, external_id, first_attributes, t1, r1),
        resolution_outcome(s1, s2, p, external_id, second_attributes, t2, r2),
        r1 is Ok,
    ensures
        r2 is Ok,
        r2->Ok_0.account == r1->Ok_0.account,
        !r2->Ok_0.created,
        s2.accounts == s1.accounts,
        !is_linked(s0, p, external_id) ==> r1->Ok_0.created && s2.accounts.len() == s0.accounts.len()
            + 1,
        is_linked(s0, p, external_id) ==> !r1->Ok_0.created && s2.accounts == s0.accounts,
{
    let a1 = r1->Ok_0;
    // after the first call, the identity's link stands at some position k of s1
    let k: int = if is_linked(s0, p, external_id) {
        choose|i: int|
            0 <= i < s0.links.len() && link_matches(#[trigger] s0.links[i], p, external_id)
                && a1.account == account_of(s0, s0.links[i]) && a1.link == touched(s0.links[i], t1)
                && s1.links == s0.links.update(i, a1.link)
    } else {
        s0.links.len() as int
    };
    assert(s1.links[k] == a1.link);
    assert(link_matches(s1.links[k], p, external_id));
    assert(a1.account == account_of(s1, s1.links[k]));
    assert(is_linked(s1, p, external_id));
    let a2 = r2->Ok_0;
    let j = choose|i: int|
        0 <= i < s1.links.len() && link_matches(#[trigger] s1.links[i], p, external_id)
            && a2.account == account_of(s1, s1.links[i]) && a2.link == touched(s1.links[i], t2)
            && s2.links == s1.links.update(i, a2.link);
    if j < k {
        assert(!(s1.links[j].platform == s1.links[k].platform && s1.links[j].platform_user@
            == s1.links[k].platform_user@));
    } else if k < j {
        assert(!(s1.links[k].platform == s1.links[j].platform && s1.links[k].platform_user@
            == s1.links[j].platform_user@));
    }
}

} // verus!
