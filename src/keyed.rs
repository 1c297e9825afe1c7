use vstd::prelude::*;

verus! {

/// A list of entries addressed by a text key, each key at most once.
///
/// Its model is the map from each key to the value stored under it.
pub struct KeyedList<T> {
    entries: Vec<(String, T)>,
}

impl<T> KeyedList<T> {
    /// No key occurs twice.
    pub closed spec fn wf(&self) -> bool {
        forall|i: int, j: int|
            0 <= i < j < self.entries@.len() ==> #[trigger] self.entries@[i].0@
                != #[trigger] self.entries@[j].0@
    }

    /// The number of entries.
    pub closed spec fn len_spec(&self) -> nat {
        self.entries@.len()
    }

    /// The key of the entry at position `i`.
    pub closed spec fn key_at(&self, i: int) -> Seq<char> {
        self.entries@[i].0@
    }

    /// The value of the entry at position `i`.
    pub closed spec fn value_at(&self, i: int) -> T {
        self.entries@[i].1
    }

    pub closed spec fn has_key(&self, k: Seq<char>) -> bool {
        exists|i: int| 0 <= i < self.entries@.len() && #[trigger] self.entries@[i].0@ == k
    }

    pub closed spec fn view(&self) -> Map<Seq<char>, T> {
        Map::new(
            |k: Seq<char>| self.has_key(k),
            |k: Seq<char>|
                self.entries@[choose|i: int|
                    0 <= i < self.entries@.len() && #[trigger] self.entries@[i].0@ == k].1,
        )
    }

    /// The entry at a position stands in the model under its key.
    pub proof fn lemma_entry(&self, i: int)
        requires
            self.wf(),
            0 <= i < self.len_spec(),
        ensures
            self@.contains_key(self.key_at(i)),
            self@[self.key_at(i)] == self.value_at(i),
            forall|j: int| 0 <= j < self.len_spec() && self.key_at(j) == self.key_at(i) ==> j == i,
    {
        let k = self.entries@[i].0@;
        assert(self.has_key(k));
        let c = choose|c: int| 0 <= c < self.entries@.len() && #[trigger] self.entries@[c].0@ == k;
        if c != i {
            if c < i {
                assert(self.entries@[c].0@ != self.entries@[i].0@);
            } else {
                assert(self.entries@[i].0@ != self.entries@[c].0@);
            }
        }
        assert forall|j: int| 0 <= j < self.len_spec() && self.key_at(j) == self.key_at(i) implies j
            == i by {
            if j < i {
                assert(self.entries@[j].0@ != self.entries@[i].0@);
            } else if i < j {
                assert(self.entries@[i].0@ != self.entries@[j].0@);
            }
        }
    }

    /// Every key of the model stands at some position.
    pub proof fn lemma_key(&self, k: Seq<char>) -> (i: int)
        requires
            self.wf(),
            self@.contains_key(k),
        ensures
            0 <= i < self.len_spec(),
            self.key_at(i) == k,
    {
        choose|i: int| 0 <= i < self.entries@.len() && #[trigger] self.entries@[i].0@ == k
    }

    pub fn new() -> (r: Self)
        ensures
            r.wf(),
            r@ == Map::<Seq<char>, T>::empty(),
            r.len_spec() == 0,
    {
        let r = KeyedList { entries: Vec::new() };
        assert(r@ =~= Map::<Seq<char>, T>::empty());
        r
    }

    pub fn len(&self) -> (r: usize)
        ensures
            r == self.len_spec(),
    {
        self.entries.len()
    }

    /// The position of `key`, if it is present.
    pub fn find(&self, key: &String) -> (r: Option<usize>)
        requires
            self.wf(),
        ensures
            r is None ==> !self@.contains_key(key@),
            r matches Some(i) ==> i < self.len_spec() && self.key_at(i as int) == key@,
    {
        let mut i: usize = 0;
        while i < self.entries.len()
            invariant
                i <= self.entries@.len(),
                forall|j: int| 0 <= j < i ==> self.entries@[j].0@ != key@,
            decreases self.entries@.len() - i,
        {
            if self.entries[i].0 == *key {
                return Some(i);
            }
            i = i + 1;
        }
        assert(!self.has_key(key@));
        None
    }

    /// The value at position `i`.
    pub fn value(&self, i: usize) -> (r: &T)
        requires
            i < self.len_spec(),
        ensures
            *r == self.value_at(i as int),
    {
        &self.entries[i].1
    }

    /// Replaces the value at position `i`, keeping its key.
    pub fn set_value(&mut self, i: usize, v: T)
        requires
            old(self).wf(),
            i < old(self).len_spec(),
        ensures
            final(self).wf(),
            final(self)@ == old(self)@.insert(old(self).key_at(i as int), v),
            final(self).len_spec() == old(self).len_spec(),
            forall|j: int|
                0 <= j < final(self).len_spec() ==> #[trigger] final(self).key_at(j) == old(
                    self,
                ).key_at(j),
    {
        let ghost pre = *self;
        proof {
            pre.lemma_entry(i as int);
        }
        let k = self.entries[i].0.clone();
        self.entries.set(i, (k, v));
        assert(self.entries@[i as int].0@ == pre.entries@[i as int].0@);
        assert forall|a: int, b: int|
            0 <= a < b < self.entries@.len() implies #[trigger] self.entries@[a].0@
            != #[trigger] self.entries@[b].0@ by {
            assert(pre.entries@[a].0@ != pre.entries@[b].0@);
        }
        assert forall|j: int| 0 <= j < self.len_spec() implies #[trigger] self.key_at(j)
            == pre.key_at(j) by {}
        let ghost kk = pre.key_at(i as int);
        assert forall|x: Seq<char>| self.has_key(x) == pre@.insert(kk, v).contains_key(x) by {
            if pre.has_key(x) {
                let w = choose|w: int| 0 <= w < pre.entries@.len() && #[trigger] pre.entries@[w].0@ == x;
                assert(self.entries@[w].0@ == x);
            }
            if self.has_key(x) {
                let w = choose|w: int| 0 <= w < self.entries@.len() && #[trigger] self.entries@[w].0@ == x;
                assert(pre.entries@[w].0@ == x);
            }
        }
        assert forall|x: Seq<char>| #[trigger] self@.contains_key(x) implies self@[x] == pre@.insert(
            kk,
            v,
        )[x] by {
            let w = self.lemma_key(x);
            self.lemma_entry(w);
            if x != kk {
                pre.lemma_entry(w);
            }
        }
        assert(self@ =~= pre@.insert(kk, v));
    }

    /// Adds an entry under a key that is not present.
    pub fn push_new(&mut self, key: String, v: T)
        requires
            old(self).wf(),
            !old(self)@.contains_key(key@),
        ensures
            final(self).wf(),
            final(self)@ == old(self)@.insert(key@, v),
            final(self).len_spec() == old(self).len_spec() + 1,
    {
        let ghost pre = *self;
        let ghost kk = key@;
        self.entries.push((key, v));
        let ghost n = pre.entries@.len() as int;
        assert forall|a: int, b: int|
            0 <= a < b < self.entries@.len() implies #[trigger] self.entries@[a].0@
            != #[trigger] self.entries@[b].0@ by {
            if b < n {
                assert(pre.entries@[a].0@ != pre.entries@[b].0@);
            } else {
                assert(self.entries@[a].0@ == pre.entries@[a].0@);
                assert(!pre.has_key(kk));
            }
        }
        assert forall|x: Seq<char>| self.has_key(x) == pre@.insert(kk, v).contains_key(x) by {
            if pre.has_key(x) {
                let w = choose|w: int| 0 <= w < pre.entries@.len() && #[trigger] pre.entries@[w].0@ == x;
                assert(self.entries@[w].0@ == x);
            }
            if x == kk {
                assert(self.entries@[n].0@ == x);
            }
            if self.has_key(x) {
                let w = choose|w: int| 0 <= w < self.entries@.len() && #[trigger] self.entries@[w].0@ == x;
                if w < n {
                    assert(pre.entries@[w].0@ == x);
                }
            }
        }
        assert forall|x: Seq<char>| #[trigger] self@.contains_key(x) implies self@[x] == pre@.insert(
            kk,
            v,
        )[x] by {
            let w = self.lemma_key(x);
            self.lemma_entry(w);
            if w < n {
                pre.lemma_entry(w);
            }
        }
        assert(self@ =~= pre@.insert(kk, v));
    }

    /// Stores `v` under `key`, replacing any value there.
    pub fn insert(&mut self, key: String, v: T)
        requires
            old(self).wf(),
        ensures
            final(self).wf(),
            final(self)@ == old(self)@.insert(key@, v),
    {
        match self.find(&key) {
            Some(i) => {
                self.set_value(i, v);
            },
            None => {
                self.push_new(key, v);
            },
        }
    }

    /// Removes the entry at position `i` and returns it.
    pub fn remove_at(&mut self, i: usize) -> (r: (String, T))
        requires
            old(self).wf(),
            i < old(self).len_spec(),
        ensures
            final(self).wf(),
            final(self)@ == old(self)@.remove(old(self).key_at(i as int)),
            final(self).len_spec() == old(self).len_spec() - 1,
            r.0@ == old(self).key_at(i as int),
            r.1 == old(self).value_at(i as int),
            forall|j: int|
                0 <= j < i ==> #[trigger] final(self).key_at(j) == old(self).key_at(j)
                    && final(self).value_at(j) == old(self).value_at(j),
            forall|j: int|
                i <= j < final(self).len_spec() ==> #[trigger] final(self).key_at(j) == old(
                    self,
                ).key_at(j + 1) && final(self).value_at(j) == old(self).value_at(j + 1),
    {
        let ghost pre = *self;
        proof {
            pre.lemma_entry(i as int);
        }
        let r = self.entries.remove(i);
        let ghost kk = pre.key_at(i as int);
        assert forall|a: int, b: int|
            0 <= a < b < self.entries@.len() implies #[trigger] self.entries@[a].0@
            != #[trigger] self.entries@[b].0@ by {
            let pa = if a < i { a } else { a + 1 };
            let pb = if b < i { b } else { b + 1 };
            assert(self.entries@[a] == pre.entries@[pa]);
            assert(self.entries@[b] == pre.entries@[pb]);
            assert(pre.entries@[pa].0@ != pre.entries@[pb].0@);
        }
        assert forall|x: Seq<char>| self.has_key(x) == pre@.remove(kk).contains_key(x) by {
            if self.has_key(x) {
                let w = choose|w: int| 0 <= w < self.entries@.len() && #[trigger] self.entries@[w].0@ == x;
                let pw = if w < i { w } else { w + 1 };
                assert(pre.entries@[pw].0@ == x);
                assert(pw != i);
                assert(pre.has_key(x));
            }
            if pre.has_key(x) && x != kk {
                let w = choose|w: int| 0 <= w < pre.entries@.len() && #[trigger] pre.entries@[w].0@ == x;
                assert(w != i);
                let sw = if w < i { w } else { w - 1 };
                assert(self.entries@[sw].0@ == x);
            }
        }
        assert forall|x: Seq<char>| #[trigger] self@.contains_key(x) implies self@[x] == pre@.remove(
            kk,
        )[x] by {
            let w = self.lemma_key(x);
            self.lemma_entry(w);
            let pw = if w < i { w } else { w + 1 };
            assert(pre.entries@[pw] == self.entries@[w]);
            pre.lemma_entry(pw);
        }
        assert(self@ =~= pre@.remove(kk));
        r
    }

    /// Removes the entry under `key`; nothing happens where it is absent.
    pub fn remove(&mut self, key: &String)
        requires
            old(self).wf(),
        ensures
            final(self).wf(),
            final(self)@ == old(self)@.remove(key@),
    {
        match self.find(key) {
            Some(i) => {
                self.remove_at(i);
            },
            None => {
                assert(self@ =~= self@.remove(key@));
            },
        }
    }
}

} // verus!
