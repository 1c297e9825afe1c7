use crate::digest::{md5_hex, md5_hex_of};
use crate::platform::{platform_name, AccountPlatformType};
use crate::records::{
    Account, AccountLinkedPlatformDataResult, AccountPlatform, AccountPlatformData,
    AccountPlatformDataSlim, NewAccountPlatformData, ResolutionError,
};
use crate::text::{decimal, push_decimal};
use vstd::prelude::*;

verus! {

/// The model of the account records: accounts, platform links and attribute
/// rows, with the next ids to be given out.
pub struct StoreModel {
    pub accounts: Seq<Account>,
    pub links: Seq<AccountPlatform>,
    pub rows: Seq<AccountPlatformData>,
    pub next_link_id: int,
    pub next_row_id: int,
}

/// A link binds the given platform identity and is not deleted.
pub open spec fn link_matches(l: AccountPlatform, p: AccountPlatformType, user: Seq<char>) -> bool {
    l.platform == p && l.platform_user@ == user && l.deleted_at == 0
}

/// Some live link binds the given platform identity.
pub open spec fn is_linked(m: StoreModel, p: AccountPlatformType, user: Seq<char>) -> bool {
    exists|i: int| 0 <= i < m.links.len() && link_matches(#[trigger] m.links[i], p, user)
}

/// A row holds the attribute `key` of link `link`.
pub open spec fn row_matches(r: AccountPlatformData, link: i64, key: Seq<char>) -> bool {
    r.platform == link && r.key@ == key
}

/// The attributes of all links, by link id and key.
pub open spec fn attribute_map(rows: Seq<AccountPlatformData>) -> Map<(i64, Seq<char>), Seq<char>> {
    Map::new(
        |lk: (i64, Seq<char>)| exists|i: int| 0 <= i < rows.len() && row_matches(#[trigger] rows[i], lk.0, lk.1),
        |lk: (i64, Seq<char>)|
            rows[choose|i: int| 0 <= i < rows.len() && row_matches(#[trigger] rows[i], lk.0, lk.1)].value@,
    )
}

/// The attributes after writing `values` in order for link `link`: a key
/// written again takes the later value, keys not written keep theirs.
pub open spec fn apply_writes(
    m: Map<(i64, Seq<char>), Seq<char>>,
    link: i64,
    values: Seq<NewAccountPlatformData>,
) -> Map<(i64, Seq<char>), Seq<char>>
    decreases values.len(),
{
    if values.len() == 0 {
        m
    } else {
        apply_writes(m, link, values.drop_last()).insert(
            (link, values.last().key@),
            values.last().value@,
        )
    }
}

/// Some fact among `values` has key `key`.
pub open spec fn written(values: Seq<NewAccountPlatformData>, key: Seq<char>) -> bool {
    exists|j: int| 0 <= j < values.len() && (#[trigger] values[j]).key@ == key
}

/// The text from which a platform link's token is derived.
pub open spec fn link_token_seed(p: AccountPlatformType, user: Seq<char>, now: u64) -> Seq<char> {
    platform_name(p) + "||"@ + user + "||"@ + decimal(now as nat)
}

/// The account records behind identity resolution.
///
/// Account ids are their positions plus one. Among the links, a platform
/// identity occurs at most once; among the attribute rows, a (link, key) pair
/// occurs at most once.
pub struct AccountStore {
    accounts: Vec<Account>,
    links: Vec<AccountPlatform>,
    rows: Vec<AccountPlatformData>,
    next_link_id: i64,
    next_row_id: i64,
}

impl View for AccountStore {
    type V = StoreModel;

    closed spec fn view(&self) -> StoreModel {
        StoreModel {
            accounts: self.accounts@,
            links: self.links@,
            rows: self.rows@,
            next_link_id: self.next_link_id as int,
            next_row_id: self.next_row_id as int,
        }
    }
}

/// The invariant of the account records.
pub open spec fn store_wf(m: StoreModel) -> bool {
    &&& m.accounts.len() < i64::MAX
    &&& forall|i: int| 0 <= i < m.accounts.len() ==> (#[trigger] m.accounts[i]).id == i + 1
    &&& 1 <= m.next_link_id <= i64::MAX
    &&& 1 <= m.next_row_id <= i64::MAX
    &&& forall|i: int|
        0 <= i < m.links.len() ==> {
            &&& 1 <= (#[trigger] m.links[i]).id < m.next_link_id
            &&& 1 <= m.links[i].account <= m.accounts.len()
            &&& m.links[i].deleted_at == 0
        }
    &&& forall|i: int, j: int|
        0 <= i < j < m.links.len() ==> (#[trigger] m.links[i]).id < (#[trigger] m.links[j]).id
            && !(m.links[i].platform == m.links[j].platform && m.links[i].platform_user@
            == m.links[j].platform_user@) && !(m.links[i].account == m.links[j].account
            && m.links[i].platform == m.links[j].platform)
    &&& forall|i: int, j: int|
        0 <= i < j < m.accounts.len() ==> (#[trigger] m.accounts[i]).token@ != (
        #[trigger] m.accounts[j]).token@
    &&& rows_unique(m.rows)
}

/// No (link, key) pair has two rows.
pub open spec fn rows_unique(rows: Seq<AccountPlatformData>) -> bool {
    forall|i: int, j: int|
        0 <= i < j < rows.len() ==> !row_matches(
            #[trigger] rows[i],
            (#[trigger] rows[j]).platform,
            rows[j].key@,
        )
}

/// The row at position `i` gives the attribute map its value for its link and
/// key, and no other row holds that pair.
pub proof fn lemma_attribute_at(rows: Seq<AccountPlatformData>, i: int)
    requires
        rows_unique(rows),
        0 <= i < rows.len(),
    ensures
        attribute_map(rows).contains_key((rows[i].platform, rows[i].key@)),
        attribute_map(rows)[(rows[i].platform, rows[i].key@)] == rows[i].value@,
        forall|j: int|
            0 <= j < rows.len() && row_matches(#[trigger] rows[j], rows[i].platform, rows[i].key@)
                ==> j == i,
{
    let lk = (rows[i].platform, rows[i].key@);
    assert(row_matches(rows[i], lk.0, lk.1));
    let c = choose|c: int| 0 <= c < rows.len() && row_matches(#[trigger] rows[c], lk.0, lk.1);
    assert forall|j: int|
        0 <= j < rows.len() && row_matches(#[trigger] rows[j], rows[i].platform, rows[i].key@)
            implies j == i by {
        if j < i {
            assert(!row_matches(rows[j], rows[i].platform, rows[i].key@));
        } else if i < j {
            assert(!row_matches(rows[i], rows[j].platform, rows[j].key@));
        }
    }
    assert(c == i);
}

/// Every pair of the attribute map has a row.
pub proof fn lemma_attribute_row(rows: Seq<AccountPlatformData>, lk: (i64, Seq<char>)) -> (i: int)
    requires
        attribute_map(rows).contains_key(lk),
    ensures
        0 <= i < rows.len(),
        row_matches(rows[i], lk.0, lk.1),
{
    choose|i: int| 0 <= i < rows.len() && row_matches(#[trigger] rows[i], lk.0, lk.1)
}

/// The attributes after writing one fact.
pub proof fn lemma_apply_one(m: Map<(i64, Seq<char>), Seq<char>>, link: i64, d: NewAccountPlatformData)
    ensures
        apply_writes(m, link, seq![d]) == m.insert((link, d.key@), d.value@),
{
    assert(seq![d].drop_last() =~= Seq::<NewAccountPlatformData>::empty());
    assert(seq![d].last() == d);
    assert(apply_writes(m, link, Seq::<NewAccountPlatformData>::empty()) == m);
}

/// Writing an attribute key of a link twice leaves exactly one row for it,
/// with the later value; writing a different key afterwards removes neither.
pub proof fn lemma_upsert_twice(
    rows0: Seq<AccountPlatformData>,
    rows1: Seq<AccountPlatformData>,
    rows2: Seq<AccountPlatformData>,
    rows3: Seq<AccountPlatformData>,
    link: i64,
    first: NewAccountPlatformData,
    second: NewAccountPlatformData,
    third: NewAccountPlatformData,
)
    requires
        rows_unique(rows3),
        attribute_map(rows1) == apply_writes(attribute_map(rows0), link, seq![first]),
        attribute_map(rows2) == apply_writes(attribute_map(rows1), link, seq![second]),
        attribute_map(rows3) == apply_writes(attribute_map(rows2), link, seq![third]),
        second.key@ == first.key@,
        third.key@ != first.key@,
    ensures
        attribute_map(rows3).contains_key((link, first.key@)),
        attribute_map(rows3)[(link, first.key@)] == second.value@,
        attribute_map(rows3).contains_key((link, third.key@)),
        attribute_map(rows3)[(link, third.key@)] == third.value@,
        exists|i: int|
            0 <= i < rows3.len() && row_matches(#[trigger] rows3[i], link, first.key@) && forall|j: int|
                0 <= j < rows3.len() && row_matches(#[trigger] rows3[j], link, first.key@) ==> j == i,
{
    lemma_apply_one(attribute_map(rows0), link, first);
    lemma_apply_one(attribute_map(rows1), link, second);
    lemma_apply_one(attribute_map(rows2), link, third);
    let i = lemma_attribute_row(rows3, (link, first.key@));
    lemma_attribute_at(rows3, i);
}

/// The attributes left after removing those of link `link`.
pub open spec fn without_link(m: Map<(i64, Seq<char>), Seq<char>>, link: i64) -> Map<
    (i64, Seq<char>),
    Seq<char>,
> {
    Map::new(|lk: (i64, Seq<char>)| m.contains_key(lk) && lk.0 != link, |lk: (i64, Seq<char>)| m[lk])
}

/// Some link of the model has id `id`.
pub open spec fn has_link_id(m: StoreModel, id: i64) -> bool {
    exists|i: int| 0 <= i < m.links.len() && (#[trigger] m.links[i]).id == id
}

/// The link of the model with id `id`.
pub open spec fn link_with_id(m: StoreModel, id: i64) -> AccountPlatform {
    m.links[choose|i: int| 0 <= i < m.links.len() && (#[trigger] m.links[i]).id == id]
}

/// An attribute of an account as listed: platform name, platform identity,
/// key and value.
pub open spec fn listed(d: AccountLinkedPlatformDataResult) -> (Seq<char>, Seq<char>, Seq<char>, Seq<char>) {
    (d.platform@, d.platform_user@, d.key@, d.value@)
}

/// The attributes of account `account` among `rows`, in row order, each
/// with the platform and identity of its link.
pub open spec fn account_data(m: StoreModel, account: i64, rows: Seq<AccountPlatformData>) -> Seq<
    (Seq<char>, Seq<char>, Seq<char>, Seq<char>),
>
    decreases rows.len(),
{
    if rows.len() == 0 {
        Seq::empty()
    } else {
        let before = account_data(m, account, rows.drop_last());
        let r = rows.last();
        if r.account == account && has_link_id(m, r.platform) {
            let l = link_with_id(m, r.platform);
            before.push((platform_name(l.platform), l.platform_user@, r.key@, r.value@))
        } else {
            before
        }
    }
}

/// Some account of the model has token `token`.
pub open spec fn token_taken(m: StoreModel, token: Seq<char>) -> bool {
    exists|i: int| 0 <= i < m.accounts.len() && (#[trigger] m.accounts[i]).token@ == token
}

/// There is room for one more account and one more link.
pub open spec fn has_room(m: StoreModel) -> bool {
    m.accounts.len() + 1 < i64::MAX && m.next_link_id < i64::MAX
}

/// `a` is the account that `create` adds to `m` from the given seeds.
pub open spec fn is_new_account(
    a: Account,
    m: StoreModel,
    token_seed: Seq<char>,
    token_secret_seed: Seq<char>,
    now: u64,
) -> bool {
    &&& a.id == m.accounts.len() + 1
    &&& a.token@ == md5_hex(token_seed)
    &&& a.token_secret@ == md5_hex(token_secret_seed)
    &&& a.admin == 0
    &&& a.timezone@.len() == 0
    &&& a.last_login_at == 0
    &&& a.created_at == now
    &&& a.updated_at == 0
    &&& a.deleted_at == 0
}

/// `l` is the link that `create` adds to `m` for account `account`.
pub open spec fn is_new_link(
    l: AccountPlatform,
    m: StoreModel,
    account: i64,
    p: AccountPlatformType,
    user: Seq<char>,
    now: u64,
) -> bool {
    &&& l.id == m.next_link_id
    &&& l.account == account
    &&& l.platform == p
    &&& l.platform_user@ == user
    &&& l.token@ == md5_hex(link_token_seed(p, user, now))
    &&& l.created_at == now
    &&& l.updated_at == 0
    &&& l.deleted_at == 0
}

/// A link stamped as updated at `now`.
pub open spec fn touched(l: AccountPlatform, now: u64) -> AccountPlatform {
    AccountPlatform { updated_at: now, ..l }
}

/// The account that a live link of a well-formed model points to.
pub open spec fn account_of(m: StoreModel, l: AccountPlatform) -> Account {
    m.accounts[l.account - 1]
}

impl AccountStore {
    pub open spec fn wf(&self) -> bool {
        store_wf(self@)
    }

    pub fn new() -> (r: Self)
        ensures
            r.wf(),
            r@.accounts.len() == 0,
            r@.links.len() == 0,
            r@.rows.len() == 0,
            r@.next_link_id == 1,
            r@.next_row_id == 1,
    {
        AccountStore {
            accounts: Vec::new(),
            links: Vec::new(),
            rows: Vec::new(),
            next_link_id: 1,
            next_row_id: 1,
        }
    }

    /// The account with the given credential pair: the first one, where
    /// several share it.
    pub fn get(&self, token: &String, token_secret: &String) -> (r: Option<Account>)
        ensures
            r is None ==> forall|i: int|
                0 <= i < self@.accounts.len() ==> !((#[trigger] self@.accounts[i]).token@ == token@
                    && self@.accounts[i].token_secret@ == token_secret@),
            r matches Some(a) ==> exists|i: int|
                0 <= i < self@.accounts.len() && a == #[trigger] self@.accounts[i] && a.token@
                    == token@ && a.token_secret@ == token_secret@ && forall|j: int|
                    0 <= j < i ==> !((#[trigger] self@.accounts[j]).token@ == token@
                        && self@.accounts[j].token_secret@ == token_secret@),
    {
        let mut i: usize = 0;
        while i < self.accounts.len()
            invariant
                i <= self.accounts@.len(),
                forall|j: int|
                    0 <= j < i ==> !((#[trigger] self.accounts@[j]).token@ == token@
                        && self.accounts@[j].token_secret@ == token_secret@),
            decreases self.accounts@.len() - i,
        {
            if self.accounts[i].token == *token && self.accounts[i].token_secret == *token_secret {
                let a = self.accounts[i].clone();
                assert(a == self@.accounts[i as int]);
                return Some(a);
            }
            i = i + 1;
        }
        None
    }

    /// The account with the given id.
    pub fn account(&self, id: i64) -> (r: Option<Account>)
        requires
            self.wf(),
        ensures
            r is Some <==> 1 <= id <= self@.accounts.len(),
            r matches Some(a) ==> a == self@.accounts[id - 1],
    {
        if id >= 1 && ((id - 1) as u64) < (self.accounts.len() as u64) {
            Some(self.accounts[(id - 1) as usize].clone())
        } else {
            None
        }
    }

    fn find_link(&self, platform: AccountPlatformType, platform_user: &String) -> (r: Option<usize>)
        ensures
            r is None <==> !is_linked(self@, platform, platform_user@),
            r matches Some(i) ==> i < self@.links.len() && link_matches(
                self@.links[i as int],
                platform,
                platform_user@,
            ),
    {
        let mut i: usize = 0;
        while i < self.links.len()
            invariant
                i <= self.links@.len(),
                forall|j: int|
                    0 <= j < i ==> !link_matches(#[trigger] self.links@[j], platform, platform_user@),
            decreases self.links@.len() - i,
        {
            let l = &self.links[i];
            if l.platform == platform && l.platform_user == *platform_user && l.deleted_at == 0 {
                assert(link_matches(self@.links[i as int], platform, platform_user@));
                return Some(i);
            }
            i = i + 1;
        }
        None
    }

    fn find_row(&self, link: i64, key: &String) -> (r: Option<usize>)
        ensures
            r is None ==> forall|j: int|
                0 <= j < self@.rows.len() ==> !row_matches(#[trigger] self@.rows[j], link, key@),
            r matches Some(i) ==> i < self@.rows.len() && row_matches(self@.rows[i as int], link, key@),
    {
        let mut i: usize = 0;
        while i < self.rows.len()
            invariant
                i <= self.rows@.len(),
                forall|j: int| 0 <= j < i ==> !row_matches(#[trigger] self.rows@[j], link, key@),
            decreases self.rows@.len() - i,
        {
            if self.rows[i].platform == link && self.rows[i].key == *key {
                return Some(i);
            }
            i = i + 1;
        }
        None
    }

    /// Writes one attribute of a link, replacing the row of the same key.
    fn upsert_row(&mut self, link: &AccountPlatform, data: &NewAccountPlatformData, now: u64)
        requires
            old(self).wf(),
            old(self)@.next_row_id < i64::MAX,
        ensures
            final(self).wf(),
            final(self)@.accounts == old(self)@.accounts,
            final(self)@.links == old(self)@.links,
            final(self)@.next_link_id == old(self)@.next_link_id,
            old(self)@.next_row_id <= final(self)@.next_row_id <= old(self)@.next_row_id + 1,
            attribute_map(final(self)@.rows) == attribute_map(old(self)@.rows).insert(
                (link.id, data.key@),
                data.value@,
            ),
            final(self)@.rows.len() >= old(self)@.rows.len(),
            forall|i: int|
                0 <= i < old(self)@.rows.len() && !row_matches(
                    #[trigger] final(self)@.rows[i],
                    link.id,
                    data.key@,
                ) ==> final(self)@.rows[i] == old(self)@.rows[i],
            forall|i: int|
                old(self)@.rows.len() <= i < final(self)@.rows.len() ==> row_matches(
                    #[trigger] final(self)@.rows[i],
                    link.id,
                    data.key@,
                ),
            forall|i: int|
                0 <= i < final(self)@.rows.len() && row_matches(
                    #[trigger] final(self)@.rows[i],
                    link.id,
                    data.key@,
                ) ==> final(self)@.rows[i].account == link.account,
    {
        let ghost pre = self@.rows;
        let ghost lk = (link.id, data.key@);
        match self.find_row(link.id, &data.key) {
            Some(i) => {
                proof {
                    lemma_attribute_at(pre, i as int);
                }
                let r = &self.rows[i];
                let row = AccountPlatformData {
                    id: r.id,
                    account: link.account,
                    platform: r.platform,
                    key: r.key.clone(),
                    value: data.value.clone(),
                    created_at: r.created_at,
                    updated_at: now,
                    deleted_at: r.deleted_at,
                };
                self.rows.set(i, row);
                let ghost post = self@.rows;
                assert(forall|j: int| 0 <= j < post.len() ==> (#[trigger] post[j]).platform == pre[j].platform && post[j].key@ == pre[j].key@);
                assert forall|j: int| 0 <= j < post.len() && row_matches(#[trigger] post[j], link.id, data.key@) implies j == i by {
                    assert(row_matches(pre[j], link.id, data.key@));
                }
                assert(rows_unique(post)) by {
                    assert forall|a: int, b: int| 0 <= a < b < post.len() implies !row_matches(
                        #[trigger] post[a],
                        (#[trigger] post[b]).platform,
                        post[b].key@,
                    ) by {
                        assert(pre[a].platform == post[a].platform);
                        assert(pre[b].platform == post[b].platform);
                        assert(!row_matches(pre[a], pre[b].platform, pre[b].key@));
                    }
                }
                let ghost want = attribute_map(pre).insert(lk, data.value@);
                assert forall|x: (i64, Seq<char>)| #[trigger] attribute_map(post).contains_key(x) == want.contains_key(x) by {
                    if attribute_map(post).contains_key(x) {
                        let w = lemma_attribute_row(post, x);
                        assert(pre[w].platform == post[w].platform);
                        assert(row_matches(pre[w], x.0, x.1));
                    }
                    if attribute_map(pre).contains_key(x) {
                        let w = lemma_attribute_row(pre, x);
                        assert(pre[w].platform == post[w].platform);
                        assert(row_matches(post[w], x.0, x.1));
                    }
                    if x == lk {
                        assert(row_matches(post[i as int], x.0, x.1));
                    }
                }
                assert forall|x: (i64, Seq<char>)| #[trigger] attribute_map(post).contains_key(x) implies attribute_map(post)[x] == want[x] by {
                    let w = lemma_attribute_row(post, x);
                    lemma_attribute_at(post, w);
                    if w != i {
                        assert(pre[w] == post[w]);
                        lemma_attribute_at(pre, w);
                    }
                }
                assert(attribute_map(post) =~= want);
            },
            None => {
                let row = AccountPlatformData {
                    id: self.next_row_id,
                    account: link.account,
                    platform: link.id,
                    key: data.key.clone(),
                    value: data.value.clone(),
                    created_at: now,
                    updated_at: 0,
                    deleted_at: 0,
                };
                self.rows.push(row);
                self.next_row_id = self.next_row_id + 1;
                let ghost post = self@.rows;
                let ghost n = pre.len() as int;
                assert forall|j: int| 0 <= j < n implies !row_matches(#[trigger] post[j], link.id, data.key@) by {
                    assert(post[j] == pre[j]);
                }
                assert(rows_unique(post)) by {
                    assert forall|a: int, b: int| 0 <= a < b < post.len() implies !row_matches(
                        #[trigger] post[a],
                        (#[trigger] post[b]).platform,
                        post[b].key@,
                    ) by {
                        assert(post[a] == pre[a]);
                        if b < n {
                            assert(post[b] == pre[b]);
                            assert(!row_matches(pre[a], pre[b].platform, pre[b].key@));
                        } else {
                            assert(!row_matches(pre[a], link.id, data.key@));
                        }
                    }
                }
                let ghost want = attribute_map(pre).insert(lk, data.value@);
                assert forall|x: (i64, Seq<char>)| #[trigger] attribute_map(post).contains_key(x) == want.contains_key(x) by {
                    if attribute_map(post).contains_key(x) {
                        let w = lemma_attribute_row(post, x);
                        if w < n {
                            assert(row_matches(pre[w], x.0, x.1));
                        }
                    }
                    if attribute_map(pre).contains_key(x) {
                        let w = lemma_attribute_row(pre, x);
                        assert(row_matches(post[w], x.0, x.1));
                    }
                    if x == lk {
                        assert(row_matches(post[n], x.0, x.1));
                    }
                }
                assert forall|x: (i64, Seq<char>)| #[trigger] attribute_map(post).contains_key(x) implies attribute_map(post)[x] == want[x] by {
                    let w = lemma_attribute_row(post, x);
                    lemma_attribute_at(post, w);
                    if w < n {
                        assert(pre[w] == post[w]);
                        lemma_attribute_at(pre, w);
                    }
                }
                assert(attribute_map(post) =~= want);
            },
        }
    }

    /// Writes the attributes of a link in order: each replaces the row of
    /// the same key and adds one where there is none; rows of keys not
    /// written stay as they were.
    ///
    /// Fails, writing nothing, where the row ids left could run out.
    pub fn write(&mut self, link: &AccountPlatform, values: &Vec<NewAccountPlatformData>, now: u64) -> (r: Result<(), ResolutionError>)
        requires
            old(self).wf(),
        ensures
            final(self).wf(),
            final(self)@.accounts == old(self)@.accounts,
            final(self)@.links == old(self)@.links,
            final(self)@.next_link_id == old(self)@.next_link_id,
            r is Ok <==> old(self)@.next_row_id + values@.len() < i64::MAX,
            r is Ok ==> attribute_map(final(self)@.rows) == apply_writes(
                attribute_map(old(self)@.rows),
                link.id,
                values@,
            ),
            r is Ok ==> final(self)@.next_row_id <= old(self)@.next_row_id + values@.len(),
            r is Ok ==> forall|i: int|
                0 <= i < final(self)@.rows.len() && (#[trigger] final(self)@.rows[i]).platform == link.id
                    && written(values@, final(self)@.rows[i].key@) ==> final(self)@.rows[i].account
                    == link.account,
            r is Err ==> r == Err::<(), ResolutionError>(ResolutionError::AttributeSyncPartialFailure)
                && final(self)@ == old(self)@,
            values@.len() == 0 ==> final(self)@ == old(self)@,
    {
        if values.len() as u64 >= (i64::MAX - self.next_row_id) as u64 {
            return Err(ResolutionError::AttributeSyncPartialFailure);
        }
        if values.len() == 0 {
            assert(values@ =~= Seq::<NewAccountPlatformData>::empty());
            return Ok(());
        }
        let ghost start = attribute_map(self@.rows);
        let ghost first_id = self@.next_row_id;
        let mut i: usize = 0;
        while i < values.len()
            invariant
                self.wf(),
                i <= values@.len(),
                self@.accounts == old(self)@.accounts,
                self@.links == old(self)@.links,
                self@.next_link_id == old(self)@.next_link_id,
                first_id == old(self)@.next_row_id,
                first_id + values@.len() < i64::MAX,
                self@.next_row_id <= first_id + i,
                start == attribute_map(old(self)@.rows),
                attribute_map(self@.rows) == apply_writes(start, link.id, values@.take(i as int)),
                forall|j: int|
                    0 <= j < self@.rows.len() && (#[trigger] self@.rows[j]).platform == link.id
                        && written(values@.take(i as int), self@.rows[j].key@) ==> self@.rows[j].account
                        == link.account,
            decreases values@.len() - i,
        {
            let ghost pre = self@.rows;
            self.upsert_row(link, &values[i], now);
            proof {
                assert(values@.take(i + 1).drop_last() =~= values@.take(i as int));
                let post = self@.rows;
                let k = values@[i as int].key@;
                assert forall|j: int|
                    0 <= j < post.len() && (#[trigger] post[j]).platform == link.id
                        && written(values@.take(i + 1), post[j].key@) implies post[j].account
                    == link.account by {
                    if !row_matches(post[j], link.id, k) {
                        assert(j < pre.len());
                        assert(post[j] == pre[j]);
                        let w = choose|w: int| 0 <= w < values@.take(i + 1).len() && (#[trigger] values@.take(i + 1)[w]).key@ == post[j].key@;
                        assert(w != i);
                        assert(values@.take(i as int)[w] == values@.take(i + 1)[w]);
                    }
                }
            }
            i = i + 1;
        }
        assert(values@.take(i as int) =~= values@);
        Ok(())
    }

    fn token_taken(&self, token: &String) -> (r: bool)
        ensures
            r == token_taken(self@, token@),
    {
        let mut i: usize = 0;
        while i < self.accounts.len()
            invariant
                i <= self.accounts@.len(),
                forall|j: int| 0 <= j < i ==> (#[trigger] self.accounts@[j]).token@ != token@,
            decreases self.accounts@.len() - i,
        {
            if self.accounts[i].token == *token {
                assert(self@.accounts[i as int].token@ == token@);
                return true;
            }
            i = i + 1;
        }
        false
    }

    /// Inserts an account and its first platform link together, or nothing.
    ///
    /// Fails with `StoreUnavailable`, as a unique index would, where the
    /// account token is already stored.
    ///
    /// The account's tokens are the MD5 digests of the two seeds; the link's
    /// token is the digest of its platform, identity and creation time.
    pub fn create(
        &mut self,
        token_seed: &String,
        token_secret_seed: &String,
        platform: AccountPlatformType,
        platform_user: &String,
        now: u64,
    ) -> (r: Result<(Account, AccountPlatform), ResolutionError>)
        requires
            old(self).wf(),
        ensures
            final(self).wf(),
            is_linked(old(self)@, platform, platform_user@) ==> r == Err::<
                (Account, AccountPlatform),
                ResolutionError,
            >(ResolutionError::RaceLost),
            !is_linked(old(self)@, platform, platform_user@) ==> (r is Ok <==> has_room(old(self)@)
                && !token_taken(old(self)@, md5_hex(token_seed@))),
            r is Err && !is_linked(old(self)@, platform, platform_user@) ==> r == Err::<
                (Account, AccountPlatform),
                ResolutionError,
            >(ResolutionError::StoreUnavailable),
            r is Err ==> final(self)@ == old(self)@,
            r matches Ok((a, l)) ==> {
                &&& is_new_account(a, old(self)@, token_seed@, token_secret_seed@, now)
                &&& is_new_link(l, old(self)@, a.id, platform, platform_user@, now)
                &&& final(self)@.accounts == old(self)@.accounts.push(a)
                &&& final(self)@.links == old(self)@.links.push(l)
                &&& final(self)@.rows == old(self)@.rows
                &&& final(self)@.next_link_id == old(self)@.next_link_id + 1
                &&& final(self)@.next_row_id == old(self)@.next_row_id
            },
    {
        if self.find_link(platform, platform_user).is_some() {
            return Err(ResolutionError::RaceLost);
        }
        if self.accounts.len() as u64 >= (i64::MAX - 1) as u64 || self.next_link_id == i64::MAX {
            return Err(ResolutionError::StoreUnavailable);
        }
        let token = md5_hex_of(token_seed.as_str());
        if self.token_taken(&token) {
            return Err(ResolutionError::StoreUnavailable);
        }
        let token_secret = md5_hex_of(token_secret_seed.as_str());
        let account = Account {
            id: self.accounts.len() as i64 + 1,
            token,
            token_secret,
            admin: 0,
            timezone: String::new(),
            last_login_at: 0,
            created_at: now,
            updated_at: 0,
            deleted_at: 0,
        };
        let mut link_seed = platform.to_string();
        link_seed.append("||");
        link_seed.append(platform_user.as_str());
        link_seed.append("||");
        push_decimal(&mut link_seed, now);
        let link_token = md5_hex_of(link_seed.as_str());
        let link = AccountPlatform {
            id: self.next_link_id,
            account: account.id,
            platform,
            token: link_token,
            platform_user: platform_user.clone(),
            created_at: now,
            updated_at: 0,
            deleted_at: 0,
        };
        self.accounts.push(account.clone());
        self.links.push(link.clone());
        self.next_link_id = self.next_link_id + 1;
        proof {
            let m = self@;
            let o = old(self)@;
            assert(forall|i: int| 0 <= i < o.accounts.len() ==> m.accounts[i] == o.accounts[i]);
            assert forall|i: int, j: int| 0 <= i < j < m.accounts.len() implies (#[trigger] m.accounts[i]).token@ != (
                #[trigger] m.accounts[j]).token@ by {
                if j == o.accounts.len() {
                    assert(!(o.accounts[i].token@ == m.accounts[j].token@));
                } else {
                    assert(o.accounts[i].token@ != o.accounts[j].token@);
                }
            }
            assert(forall|i: int| 0 <= i < o.links.len() ==> m.links[i] == o.links[i]);
            assert forall|i: int, j: int| 0 <= i < j < m.links.len() implies (#[trigger] m.links[i]).id < (#[trigger] m.links[j]).id
                && !(m.links[i].platform == m.links[j].platform && m.links[i].platform_user@ == m.links[j].platform_user@)
                && !(m.links[i].account == m.links[j].account && m.links[i].platform == m.links[j].platform) by {
                if j == o.links.len() {
                    assert(!link_matches(o.links[i], platform, platform_user@));
                    assert(o.links[i].account <= o.accounts.len());
                } else {
                    assert(o.links[i].id < o.links[j].id);
                }
            }
            assert(link_seed@ =~= link_token_seed(platform, platform_user@, now));
        }
        Ok((account, link))
    }

    /// Stamps the link with id `link_id` as updated at `now` and returns it.
    pub fn update(&mut self, link_id: i64, now: u64) -> (r: Option<AccountPlatform>)
        requires
            old(self).wf(),
        ensures
            final(self).wf(),
            r is Some <==> exists|i: int| 0 <= i < old(self)@.links.len() && (#[trigger] old(self)@.links[i]).id == link_id,
            r is None ==> final(self)@ == old(self)@,
            r matches Some(l) ==> exists|i: int|
                0 <= i < old(self)@.links.len() && (#[trigger] old(self)@.links[i]).id == link_id
                    && l == touched(old(self)@.links[i], now)
                    && final(self)@ == (StoreModel { links: old(self)@.links.update(i, l), ..old(self)@ }),
    {
        let mut i: usize = 0;
        while i < self.links.len()
            invariant
                i <= self.links@.len(),
                self@ == old(self)@,
                self.wf(),
                forall|j: int| 0 <= j < i ==> (#[trigger] self.links@[j]).id != link_id,
            decreases self.links@.len() - i,
        {
            if self.links[i].id == link_id {
                let l = &self.links[i];
                let nl = AccountPlatform {
                    id: l.id,
                    account: l.account,
                    platform: l.platform,
                    token: l.token.clone(),
                    platform_user: l.platform_user.clone(),
                    created_at: l.created_at,
                    updated_at: now,
                    deleted_at: l.deleted_at,
                };
                let ghost o = self@;
                self.links.set(i, nl.clone());
                proof {
                    let m = self@;
                    assert(m == (StoreModel { links: o.links.update(i as int, nl), ..o }));
                    assert forall|a: int, b: int| 0 <= a < b < m.links.len() implies (#[trigger] m.links[a]).id < (#[trigger] m.links[b]).id
                        && !(m.links[a].platform == m.links[b].platform && m.links[a].platform_user@ == m.links[b].platform_user@)
                        && !(m.links[a].account == m.links[b].account && m.links[a].platform == m.links[b].platform) by {
                        assert(o.links[a].id < o.links[b].id);
                        assert(!(o.links[a].platform == o.links[b].platform && o.links[a].platform_user@ == o.links[b].platform_user@));
                        assert(!(o.links[a].account == o.links[b].account && o.links[a].platform == o.links[b].platform));
                    }
                    assert(forall|a: int| 0 <= a < m.links.len() ==> (#[trigger] m.links[a]).id == o.links[a].id && m.links[a].account == o.links[a].account);
                }
                return Some(nl);
            }
            i = i + 1;
        }
        None
    }

    fn find_link_id(&self, link_id: i64) -> (r: Option<usize>)
        ensures
            r is None ==> forall|j: int| 0 <= j < self@.links.len() ==> (#[trigger] self@.links[j]).id != link_id,
            r matches Some(i) ==> i < self@.links.len() && self@.links[i as int].id == link_id,
    {
        let mut i: usize = 0;
        while i < self.links.len()
            invariant
                i <= self.links@.len(),
                forall|j: int| 0 <= j < i ==> (#[trigger] self.links@[j]).id != link_id,
            decreases self.links@.len() - i,
        {
            if self.links[i].id == link_id {
                return Some(i);
            }
            i = i + 1;
        }
        None
    }

    /// Removes the link with id `link_id` and every attribute row of it, for
    /// good. Nothing happens where there is no such link.
    pub fn unlink(&mut self, link_id: i64)
        requires
            old(self).wf(),
        ensures
            final(self).wf(),
            final(self)@.accounts == old(self)@.accounts,
            final(self)@.next_link_id == old(self)@.next_link_id,
            final(self)@.next_row_id == old(self)@.next_row_id,
            forall|i: int| 0 <= i < old(self)@.links.len() && (#[trigger] old(self)@.links[i]).id == link_id
                ==> final(self)@.links == old(self)@.links.remove(i),
            (forall|i: int| 0 <= i < old(self)@.links.len() ==> (#[trigger] old(self)@.links[i]).id != link_id)
                ==> final(self)@.links == old(self)@.links,
            attribute_map(final(self)@.rows) == without_link(attribute_map(old(self)@.rows), link_id),
    {
        if let Some(i) = self.find_link_id(link_id) {
            let ghost o = self@;
            self.links.remove(i);
            proof {
                let m = self@;
                assert forall|a: int, b: int| 0 <= a < b < m.links.len() implies (#[trigger] m.links[a]).id < (#[trigger] m.links[b]).id
                    && !(m.links[a].platform == m.links[b].platform && m.links[a].platform_user@ == m.links[b].platform_user@)
                    && !(m.links[a].account == m.links[b].account && m.links[a].platform == m.links[b].platform) by {
                    let pa = if a < i { a } else { a + 1 };
                    let pb = if b < i { b } else { b + 1 };
                    assert(m.links[a] == o.links[pa]);
                    assert(m.links[b] == o.links[pb]);
                    assert(o.links[pa].id < o.links[pb].id);
                    assert(!(o.links[pa].platform == o.links[pb].platform && o.links[pa].platform_user@ == o.links[pb].platform_user@));
                    assert(!(o.links[pa].account == o.links[pb].account && o.links[pa].platform == o.links[pb].platform));
                }
                assert forall|a: int| 0 <= a < m.links.len() implies 1 <= (#[trigger] m.links[a]).id < m.next_link_id
                    && 1 <= m.links[a].account <= m.accounts.len() && m.links[a].deleted_at == 0 by {
                    let pa = if a < i { a } else { a + 1 };
                    assert(m.links[a] == o.links[pa]);
                }
                assert forall|j: int| 0 <= j < o.links.len() && (#[trigger] o.links[j]).id == link_id implies j == i by {
                    if j < i {
                        assert(o.links[j].id != link_id);
                    } else if i < j {
                        assert(o.links[i as int].id < o.links[j].id);
                    }
                }
            }
        }
        let ghost orig = attribute_map(self@.rows);
        let ghost links_done = self@.links;
        let mut k: usize = 0;
        while k < self.rows.len()
            invariant
                self.wf(),
                k <= self@.rows.len(),
                self@.accounts == old(self)@.accounts,
                self@.links == links_done,
                self@.next_link_id == old(self)@.next_link_id,
                self@.next_row_id == old(self)@.next_row_id,
                orig == attribute_map(old(self)@.rows),
                forall|lk: (i64, Seq<char>)| #[trigger] attribute_map(self@.rows).contains_key(lk) ==> orig.contains_key(lk)
                    && attribute_map(self@.rows)[lk] == orig[lk],
                forall|lk: (i64, Seq<char>)| #[trigger] orig.contains_key(lk) && lk.0 != link_id ==> attribute_map(self@.rows).contains_key(lk),
                forall|j: int| 0 <= j < k ==> (#[trigger] self@.rows[j]).platform != link_id,
            decreases self@.rows.len() - k,
        {
            if self.rows[k].platform == link_id {
                let ghost pre = self@.rows;
                self.rows.remove(k);
                proof {
                    let post = self@.rows;
                    assert forall|a: int| 0 <= a < post.len() implies #[trigger] post[a] == pre[if a < k { a } else { a + 1 }] by {}
                    assert forall|a: int, b: int| 0 <= a < b < post.len() implies !row_matches(
                        #[trigger] post[a],
                        (#[trigger] post[b]).platform,
                        post[b].key@,
                    ) by {
                        let pa = if a < k { a } else { a + 1 };
                        let pb = if b < k { b } else { b + 1 };
                        assert(post[a] == pre[pa]);
                        assert(post[b] == pre[pb]);
                        assert(!row_matches(pre[pa], pre[pb].platform, pre[pb].key@));
                    }
                    assert forall|lk: (i64, Seq<char>)| #[trigger] attribute_map(post).contains_key(lk) implies orig.contains_key(lk)
                        && attribute_map(post)[lk] == orig[lk] by {
                        let w = lemma_attribute_row(post, lk);
                        let pw = if w < k { w } else { w + 1 };
                        assert(post[w] == pre[pw]);
                        lemma_attribute_at(post, w);
                        lemma_attribute_at(pre, pw);
                    }
                    assert forall|lk: (i64, Seq<char>)| #[trigger] orig.contains_key(lk) && lk.0 != link_id implies attribute_map(post).contains_key(lk) by {
                        assert(attribute_map(pre).contains_key(lk));
                        let w = lemma_attribute_row(pre, lk);
                        assert(w != k);
                        let sw = if w < k { w } else { w - 1 };
                        assert(post[sw] == pre[w]);
                        assert(row_matches(post[sw], lk.0, lk.1));
                    }
                    assert forall|j: int| 0 <= j < k implies (#[trigger] post[j]).platform != link_id by {
                        assert(post[j] == pre[j]);
                    }
                }
            } else {
                k = k + 1;
            }
        }
        proof {
            let fin = attribute_map(self@.rows);
            assert forall|lk: (i64, Seq<char>)| #[trigger] fin.contains_key(lk) implies lk.0 != link_id by {
                let w = lemma_attribute_row(self@.rows, lk);
            }
            assert(fin =~= without_link(orig, link_id));
        }
    }

    /// The id of the row of each of `keys` for link `link`, or `0` where the
    /// link has no such attribute.
    pub fn read_data(&self, link: i64, keys: &Vec<String>) -> (r: Vec<AccountPlatformDataSlim>)
        ensures
            r@.len() == keys@.len(),
            forall|i: int| 0 <= i < keys@.len() ==> (#[trigger] r@[i]).key@ == keys@[i]@,
            forall|i: int| 0 <= i < keys@.len() ==> {
                ||| exists|j: int| 0 <= j < self@.rows.len() && row_matches(#[trigger] self@.rows[j], link, keys@[i]@)
                    && r@[i].id == self@.rows[j].id
                ||| (forall|j: int| 0 <= j < self@.rows.len() ==> !row_matches(#[trigger] self@.rows[j], link, keys@[i]@))
                    && r@[i].id == 0
            },
    {
        let mut r: Vec<AccountPlatformDataSlim> = Vec::new();
        let mut i: usize = 0;
        while i < keys.len()
            invariant
                i <= keys@.len(),
                r@.len() == i,
                forall|a: int| 0 <= a < i ==> (#[trigger] r@[a]).key@ == keys@[a]@,
                forall|a: int| 0 <= a < i ==> {
                    ||| exists|j: int| 0 <= j < self@.rows.len() && row_matches(#[trigger] self@.rows[j], link, keys@[a]@)
                        && r@[a].id == self@.rows[j].id
                    ||| (forall|j: int| 0 <= j < self@.rows.len() ==> !row_matches(#[trigger] self@.rows[j], link, keys@[a]@))
                        && r@[a].id == 0
                },
            decreases keys@.len() - i,
        {
            let id = match self.find_row(link, &keys[i]) {
                Some(j) => self.rows[j].id,
                None => 0,
            };
            r.push(AccountPlatformDataSlim { id, key: keys[i].clone() });
            assert(r@[i as int].key@ == keys@[i as int]@);
            i = i + 1;
        }
        r
    }

    /// All attributes of account `account`, with the platform and identity of
    /// the link that each belongs to, in the order they were first written.
    pub fn all_data(&self, account: i64) -> (r: Vec<AccountLinkedPlatformDataResult>)
        requires
            self.wf(),
        ensures
            r@.map_values(|d: AccountLinkedPlatformDataResult| listed(d)) == account_data(
                self@,
                account,
                self@.rows,
            ),
    {
        let mut r: Vec<AccountLinkedPlatformDataResult> = Vec::new();
        let mut k: usize = 0;
        while k < self.rows.len()
            invariant
                self.wf(),
                k <= self@.rows.len(),
                r@.map_values(|d: AccountLinkedPlatformDataResult| listed(d)) == account_data(
                    self@,
                    account,
                    self@.rows.take(k as int),
                ),
            decreases self@.rows.len() - k,
        {
            let row = &self.rows[k];
            let ghost pre = r@;
            proof {
                assert(self@.rows.take(k + 1).drop_last() =~= self@.rows.take(k as int));
                assert(self@.rows.take(k + 1).last() == self@.rows[k as int]);
            }
            if row.account == account {
                match self.find_link_id(row.platform) {
                    Some(i) => {
                        let l = &self.links[i];
                        proof {
                            let m = self@;
                            assert(has_link_id(m, row.platform));
                            let c = choose|c: int| 0 <= c < m.links.len() && (#[trigger] m.links[c]).id == row.platform;
                            if c < i {
                                assert(m.links[c].id < m.links[i as int].id);
                            } else if i < c {
                                assert(m.links[i as int].id < m.links[c].id);
                            }
                            assert(link_with_id(m, row.platform) == m.links[i as int]);
                        }
                        r.push(
                            AccountLinkedPlatformDataResult {
                                platform: l.platform.to_string(),
                                platform_user: l.platform_user.clone(),
                                key: row.key.clone(),
                                value: row.value.clone(),
                            },
                        );
                        assert(r@.map_values(|d: AccountLinkedPlatformDataResult| listed(d)) =~= pre.map_values(
                            |d: AccountLinkedPlatformDataResult| listed(d),
                        ).push(listed(r@.last())));
                    },
                    None => {},
                }
            }
            k = k + 1;
        }
        assert(self@.rows.take(k as int) =~= self@.rows);
        r
    }

    /// The live link of the given platform identity.
    pub fn read(&self, platform: AccountPlatformType, platform_user: &String) -> (r: Option<
        AccountPlatform,
    >)
        ensures
            r is Some <==> is_linked(self@, platform, platform_user@),
            r matches Some(l) ==> exists|i: int|
                0 <= i < self@.links.len() && l == #[trigger] self@.links[i] && link_matches(
                    l,
                    platform,
                    platform_user@,
                ),
    {
        match self.find_link(platform, platform_user) {
            Some(i) => Some(self.links[i].clone()),
            None => None,
        }
    }

    /// The account that the given platform identity is linked to.
    pub fn match_account(&self, platform_user: &String, platform: AccountPlatformType) -> (r: Option<
        Account,
    >)
        requires
            self.wf(),
        ensures
            r is Some <==> is_linked(self@, platform, platform_user@),
            r matches Some(a) ==> exists|i: int|
                0 <= i < self@.links.len() && link_matches(
                    #[trigger] self@.links[i],
                    platform,
                    platform_user@,
                ) && a == account_of(self@, self@.links[i]),
    {
        match self.find_link(platform, platform_user) {
            Some(i) => {
                let a = self.account(self.links[i].account);
                assert(self@.links[i as int].account >= 1);
                a
            },
            None => None,
        }
    }

    /// The first live link of account `account` on `platform`.
    pub fn from_account(&self, account: i64, platform: AccountPlatformType) -> (r: Option<
        AccountPlatform,
    >)
        ensures
            r is None ==> forall|i: int|
                0 <= i < self@.links.len() ==> !((#[trigger] self@.links[i]).account == account
                    && self@.links[i].platform == platform && self@.links[i].deleted_at == 0),
            r matches Some(l) ==> exists|i: int|
                0 <= i < self@.links.len() && l == #[trigger] self@.links[i] && l.account == account
                    && l.platform == platform && l.deleted_at == 0 && forall|j: int|
                    0 <= j < i ==> !((#[trigger] self@.links[j]).account == account
                        && self@.links[j].platform == platform && self@.links[j].deleted_at == 0),
    {
        let mut i: usize = 0;
        while i < self.links.len()
            invariant
                i <= self.links@.len(),
                forall|j: int|
                    0 <= j < i ==> !((#[trigger] self.links@[j]).account == account
                        && self.links@[j].platform == platform && self.links@[j].deleted_at == 0),
            decreases self.links@.len() - i,
        {
            let l = &self.links[i];
            if l.account == account && l.platform == platform && l.deleted_at == 0 {
                let found = l.clone();
                assert(found == self@.links[i as int]);
                return Some(found);
            }
            i = i + 1;
        }
        None
    }
}

} // verus!
