use crate::keyed::KeyedList;
use vstd::prelude::*;

verus! {

/// The lifetime of a cached link code, in seconds.
pub const FIVE_MINUTES: u64 = 300;

/// A cached value with its two expiration clocks.
///
/// The read clock runs from the last access (`accessed_at`); the write clock
/// runs from the write that stored the value (`written_at`) and is never reset.
pub struct CacheValue<V> {
    pub data: V,
    pub written_at: u64,
    pub accessed_at: u64,
    pub read_ttl: u64,
    pub write_ttl: u64,
}

/// A value is live at `now` while neither of its clocks has run out.
pub open spec fn is_live<V>(v: CacheValue<V>, now: u64) -> bool {
    &&& now < v.accessed_at + v.read_ttl
    &&& now < v.written_at + v.write_ttl
}

/// A value stamped at `now`, with both clocks starting then.
pub open spec fn stamped<V>(data: V, read_ttl: u64, write_ttl: u64, now: u64) -> CacheValue<V> {
    CacheValue { data, written_at: now, accessed_at: now, read_ttl, write_ttl }
}

/// The value after an access at `now`: its read clock starts again.
pub open spec fn slid<V>(v: CacheValue<V>, now: u64) -> CacheValue<V> {
    CacheValue { accessed_at: now, ..v }
}

/// What remains of a cache model after evicting every entry that is not live
/// at `now`.
pub open spec fn pruned<V>(m: Map<Seq<char>, CacheValue<V>>, now: u64) -> Map<
    Seq<char>,
    CacheValue<V>,
> {
    Map::new(|k: Seq<char>| m.contains_key(k) && is_live(m[k], now), |k: Seq<char>| m[k])
}

/// The model after pruning at each of `times` in turn.
pub open spec fn pruned_at_each<V>(m: Map<Seq<char>, CacheValue<V>>, times: Seq<u64>) -> Map<
    Seq<char>,
    CacheValue<V>,
>
    decreases times.len(),
{
    if times.len() == 0 {
        m
    } else {
        pruned(pruned_at_each(m, times.drop_last()), times.last())
    }
}

/// Once an entry's read clock has run out, `access` no longer hands it out,
/// whether or not `prune` has run since: the entry counts as absent.
pub proof fn lemma_read_expired_is_absent<V>(m: Map<Seq<char>, CacheValue<V>>, k: Seq<char>, now: u64)
    requires
        m.contains_key(k),
        now >= m[k].accessed_at + m[k].read_ttl,
    ensures
        !is_live(m[k], now),
{
}

/// Pruning removes exactly the entries that are no longer live; an entry that
/// is still live at the last of any number of prunes, made at times that do
/// not go backwards, survives all of them unchanged.
pub proof fn lemma_prune_keeps_live<V>(m: Map<Seq<char>, CacheValue<V>>, times: Seq<u64>, k: Seq<char>)
    requires
        forall|i: int, j: int| 0 <= i < j < times.len() ==> times[i] <= times[j],
        times.len() > 0,
    ensures
        forall|x: Seq<char>|
            #[trigger] pruned(m, times.last()).contains_key(x) <==> m.contains_key(x) && is_live(
                m[x],
                times.last(),
            ),
        m.contains_key(k) && is_live(m[k], times.last()) ==> pruned_at_each(m, times).contains_key(
            k,
        ) && pruned_at_each(m, times)[k] == m[k],
    decreases times.len(),
{
    if m.contains_key(k) && is_live(m[k], times.last()) {
        let rest = times.drop_last();
        if rest.len() > 0 {
            assert(rest.last() <= times.last());
            lemma_prune_keeps_live(m, rest, k);
        }
    }
}

/// Pruning twice at the same time leaves what one pruning leaves.
pub proof fn lemma_prune_idempotent<V>(m: Map<Seq<char>, CacheValue<V>>, now: u64)
    ensures
        pruned(pruned(m, now), now) == pruned(m, now),
{
    assert(pruned(pruned(m, now), now) =~= pruned(m, now));
}

/// A value written at `t_write` and accessed at `t_access`, before either of
/// its lifetimes has run out, is handed out as it was written.
pub proof fn lemma_write_then_access<V>(
    m: Map<Seq<char>, CacheValue<V>>,
    k: Seq<char>,
    data: V,
    read_ttl: u64,
    write_ttl: u64,
    t_write: u64,
    t_access: u64,
)
    requires
        t_write <= t_access,
        t_access < t_write + read_ttl,
        t_access < t_write + write_ttl,
    ensures
        m.insert(k, stamped(data, read_ttl, write_ttl, t_write)).contains_key(k),
        is_live(m.insert(k, stamped(data, read_ttl, write_ttl, t_write))[k], t_access),
        m.insert(k, stamped(data, read_ttl, write_ttl, t_write))[k].data == data,
{
}

impl<V> CacheValue<V> {
    /// A value written at `now` with the given read and write lifetimes.
    pub fn with_duration(data: V, read_ttl: u64, write_ttl: u64, now: u64) -> (r: Self)
        ensures
            r == stamped(data, read_ttl, write_ttl, now),
    {
        CacheValue { data, written_at: now, accessed_at: now, read_ttl, write_ttl }
    }

    /// Whether the value is still live at `now`.
    pub fn live_at(&self, now: u64) -> (r: bool)
        ensures
            r == is_live(*self, now),
    {
        let read_ok = if now < self.accessed_at {
            true
        } else {
            now - self.accessed_at < self.read_ttl
        };
        let write_ok = if now < self.written_at {
            true
        } else {
            now - self.written_at < self.write_ttl
        };
        read_ok && write_ok
    }
}

/// An in-process cache from text keys to values that expire.
///
/// An entry that is no longer live is never handed out, whether or not it has
/// been evicted yet.
pub struct MemoryCache<V> {
    entries: KeyedList<CacheValue<V>>,
}

impl<V: Clone> MemoryCache<V> {
    pub closed spec fn wf(&self) -> bool {
        self.entries.wf()
    }

    /// The stored entries, live or not yet evicted.
    pub closed spec fn view(&self) -> Map<Seq<char>, CacheValue<V>> {
        self.entries@
    }

    pub fn new() -> (r: Self)
        ensures
            r.wf(),
            r@ == Map::<Seq<char>, CacheValue<V>>::empty(),
    {
        MemoryCache { entries: KeyedList::new() }
    }

    /// Stores `value` under `key`, replacing what was there.
    pub fn write(&mut self, key: String, value: CacheValue<V>)
        requires
            old(self).wf(),
        ensures
            final(self).wf(),
            final(self)@ == old(self)@.insert(key@, value),
    {
        self.entries.insert(key, value);
    }

    /// The value under `key` if it is live at `now`.
    ///
    /// A live entry's read clock starts again at `now`; its write clock does
    /// not move. An entry that is no longer live is evicted and nothing is
    /// returned.
    pub fn access(&mut self, key: &String, now: u64) -> (r: Option<V>)
        requires
            old(self).wf(),
        ensures
            final(self).wf(),
            r is Some <==> old(self)@.contains_key(key@) && is_live(old(self)@[key@], now),
            r matches Some(v) ==> cloned(old(self)@[key@].data, v) && final(self)@ == old(
                self,
            )@.insert(key@, slid(old(self)@[key@], now)),
            r is None ==> final(self)@ == old(self)@.remove(key@),
    {
        match self.entries.find(key) {
            Some(i) => {
                proof {
                    self.entries.lemma_entry(i as int);
                }
                let e = self.entries.value(i);
                if e.live_at(now) {
                    let data = e.data.clone();
                    let ghost before = self.entries@[key@];
                    let (_, old_value) = self.entries.remove_at(i);
                    let slid_value = CacheValue {
                        data: old_value.data,
                        written_at: old_value.written_at,
                        accessed_at: now,
                        read_ttl: old_value.read_ttl,
                        write_ttl: old_value.write_ttl,
                    };
                    self.entries.push_new(key.clone(), slid_value);
                    assert(slid_value == slid(before, now));
                    assert(self.entries@ =~= old(self)@.insert(key@, slid(before, now)));
                    Some(data)
                } else {
                    self.entries.remove_at(i);
                    None
                }
            },
            None => {
                assert(self.entries@ =~= self.entries@.remove(key@));
                None
            },
        }
    }

    /// Removes the entry under `key` and hands out its value where it is
    /// live at `now`: one step, so that no other call sees the entry between
    /// the read and the removal.
    pub fn take(&mut self, key: &String, now: u64) -> (r: Option<V>)
        requires
            old(self).wf(),
        ensures
            final(self).wf(),
            r is Some <==> old(self)@.contains_key(key@) && is_live(old(self)@[key@], now),
            r matches Some(v) ==> v == old(self)@[key@].data,
            final(self)@ == old(self)@.remove(key@),
    {
        match self.entries.find(key) {
            Some(i) => {
                proof {
                    self.entries.lemma_entry(i as int);
                }
                let (_, value) = self.entries.remove_at(i);
                if value.live_at(now) {
                    Some(value.data)
                } else {
                    None
                }
            },
            None => {
                assert(self.entries@ =~= self.entries@.remove(key@));
                None
            },
        }
    }

    /// Removes the entry under `key`; removing an absent key does nothing.
    pub fn delete(&mut self, key: &String)
        requires
            old(self).wf(),
        ensures
            final(self).wf(),
            final(self)@ == old(self)@.remove(key@),
    {
        self.entries.remove(key);
    }

    /// Evicts every entry that is not live at `now` and keeps all others.
    pub fn prune(&mut self, now: u64)
        requires
            old(self).wf(),
        ensures
            final(self).wf(),
            final(self)@ == pruned(old(self)@, now),
    {
        let ghost orig = self.entries@;
        let mut i: usize = 0;
        while i < self.entries.len()
            invariant
                self.entries.wf(),
                i <= self.entries.len_spec(),
                forall|k: Seq<char>|
                    #[trigger] self.entries@.contains_key(k) ==> orig.contains_key(k)
                        && self.entries@[k] == orig[k],
                forall|k: Seq<char>|
                    #[trigger] orig.contains_key(k) && is_live(orig[k], now)
                        ==> self.entries@.contains_key(k),
                forall|j: int| 0 <= j < i ==> is_live(#[trigger] self.entries.value_at(j), now),
            decreases self.entries.len_spec() - i,
        {
            proof {
                self.entries.lemma_entry(i as int);
            }
            if self.entries.value(i).live_at(now) {
                i = i + 1;
            } else {
                let ghost pre = self.entries;
                self.entries.remove_at(i);
                assert forall|j: int| 0 <= j < i implies is_live(
                    #[trigger] self.entries.value_at(j),
                    now,
                ) by {
                    assert(self.entries.key_at(j) == pre.key_at(j));
                }
            }
        }
        assert forall|k: Seq<char>| #[trigger] self.entries@.contains_key(k) implies is_live(
            self.entries@[k],
            now,
        ) by {
            let j = self.entries.lemma_key(k);
            self.entries.lemma_entry(j);
        }
        assert(self.entries@ =~= pruned(orig, now));
    }
}

} // verus!
