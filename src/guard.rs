use crate::keyed::KeyedList;
use vstd::prelude::*;

verus! {

/// The state of one key of a guard registry: whether an operation holds it,
/// and how many are waiting for it.
#[derive(Clone, Copy, Debug, PartialEq, Eq, Structural)]
pub struct GuardSlot {
    pub held: bool,
    pub waiters: u64,
}

/// What a caller that asked for a key is to do next.
#[derive(Clone, Copy, Debug, PartialEq, Eq, Structural)]
pub enum GuardDecision {
    /// The caller now holds the key.
    Acquired,
    /// Another operation holds the key: the caller waits and asks again when
    /// woken.
    Wait,
}

/// Whether an operation holds `k` in a registry model.
pub open spec fn is_held(m: Map<Seq<char>, GuardSlot>, k: Seq<char>) -> bool {
    m.contains_key(k) && m[k].held
}

/// The waiters counted for `k` in a registry model.
pub open spec fn waiters_of(m: Map<Seq<char>, GuardSlot>, k: Seq<char>) -> nat {
    if m.contains_key(k) {
        m[k].waiters as nat
    } else {
        0
    }
}

/// The registry of a per-key single-flight guard.
///
/// At most one operation holds a key at a time; distinct keys never affect
/// one another. A key that is neither held nor waited for has no entry, so
/// the registry does not grow with keys that were once used.
pub struct GuardRegistry {
    slots: KeyedList<GuardSlot>,
}

impl GuardRegistry {
    pub closed spec fn view(&self) -> Map<Seq<char>, GuardSlot> {
        self.slots@
    }

    /// Every entry is held or waited for.
    pub closed spec fn wf(&self) -> bool {
        &&& self.slots.wf()
        &&& forall|k: Seq<char>| #[trigger]
            self.slots@.contains_key(k) ==> self.slots@[k].held || self.slots@[k].waiters > 0
    }

    pub fn new() -> (r: Self)
        ensures
            r.wf(),
            r@ == Map::<Seq<char>, GuardSlot>::empty(),
    {
        GuardRegistry { slots: KeyedList::new() }
    }

    /// A new request for `key`: it is taken if nobody holds it, else the
    /// caller is counted among its waiters.
    pub fn acquire(&mut self, key: &String) -> (r: GuardDecision)
        requires
            old(self).wf(),
        ensures
            final(self).wf(),
            r == GuardDecision::Acquired <==> !is_held(old(self)@, key@),
            is_held(final(self)@, key@),
            final(self)@.remove(key@) == old(self)@.remove(key@),
            r == GuardDecision::Acquired ==> waiters_of(final(self)@, key@) == waiters_of(
                old(self)@,
                key@,
            ),
            r == GuardDecision::Wait && waiters_of(old(self)@, key@) < u64::MAX ==> waiters_of(
                final(self)@,
                key@,
            ) == waiters_of(old(self)@, key@) + 1,
    {
        match self.slots.find(key) {
            Some(i) => {
                proof {
                    self.slots.lemma_entry(i as int);
                }
                let s = *self.slots.value(i);
                if s.held {
                    let waiters = if s.waiters < u64::MAX {
                        s.waiters + 1
                    } else {
                        s.waiters
                    };
                    self.slots.set_value(i, GuardSlot { held: true, waiters });
                    assert(self.slots@.remove(key@) =~= old(self)@.remove(key@));
                    GuardDecision::Wait
                } else {
                    self.slots.set_value(i, GuardSlot { held: true, waiters: s.waiters });
                    assert(self.slots@.remove(key@) =~= old(self)@.remove(key@));
                    GuardDecision::Acquired
                }
            },
            None => {
                self.slots.push_new(key.clone(), GuardSlot { held: true, waiters: 0 });
                assert(self.slots@.remove(key@) =~= old(self)@.remove(key@));
                GuardDecision::Acquired
            },
        }
    }

    /// A woken waiter asks for `key` again: it is taken if nobody holds it,
    /// and the caller is then no longer counted among the waiters.
    pub fn resume(&mut self, key: &String) -> (r: GuardDecision)
        requires
            old(self).wf(),
        ensures
            final(self).wf(),
            r == GuardDecision::Acquired <==> !is_held(old(self)@, key@),
            is_held(final(self)@, key@) == old(self)@.contains_key(key@) || r
                == GuardDecision::Acquired,
            final(self)@.remove(key@) == old(self)@.remove(key@),
            r == GuardDecision::Wait ==> final(self)@ == old(self)@,
            r == GuardDecision::Acquired && waiters_of(old(self)@, key@) > 0 ==> waiters_of(
                final(self)@,
                key@,
            ) == waiters_of(old(self)@, key@) - 1,
    {
        match self.slots.find(key) {
            Some(i) => {
                proof {
                    self.slots.lemma_entry(i as int);
                }
                let s = *self.slots.value(i);
                if s.held {
                    GuardDecision::Wait
                } else {
                    let waiters = if s.waiters > 0 {
                        s.waiters - 1
                    } else {
                        0
                    };
                    self.slots.set_value(i, GuardSlot { held: true, waiters });
                    assert(self.slots@.remove(key@) =~= old(self)@.remove(key@));
                    GuardDecision::Acquired
                }
            },
            None => {
                self.slots.push_new(key.clone(), GuardSlot { held: true, waiters: 0 });
                assert(self.slots@.remove(key@) =~= old(self)@.remove(key@));
                GuardDecision::Acquired
            },
        }
    }

    /// The holder of `key` lets it go. Returns whether waiters are to be
    /// woken; where none are, the key's entry is removed.
    pub fn release(&mut self, key: &String) -> (r: bool)
        requires
            old(self).wf(),
        ensures
            final(self).wf(),
            !is_held(final(self)@, key@),
            r == (waiters_of(old(self)@, key@) > 0),
            final(self)@.remove(key@) == old(self)@.remove(key@),
            waiters_of(final(self)@, key@) == waiters_of(old(self)@, key@),
            !r ==> !final(self)@.contains_key(key@),
    {
        match self.slots.find(key) {
            Some(i) => {
                proof {
                    self.slots.lemma_entry(i as int);
                }
                let s = *self.slots.value(i);
                if s.waiters > 0 {
                    self.slots.set_value(i, GuardSlot { held: false, waiters: s.waiters });
                    assert(self.slots@.remove(key@) =~= old(self)@.remove(key@));
                    true
                } else {
                    self.slots.remove_at(i);
                    assert(self.slots@.remove(key@) =~= old(self)@.remove(key@));
                    false
                }
            },
            None => {
                false
            },
        }
    }

    /// Whether an operation holds `key`.
    pub fn is_held(&self, key: &String) -> (r: bool)
        requires
            self.wf(),
        ensures
            r == is_held(self@, key@),
    {
        match self.slots.find(key) {
            Some(i) => {
                proof {
                    self.slots.lemma_entry(i as int);
                }
                self.slots.value(i).held
            },
            None => false,
        }
    }
}

} // verus!
