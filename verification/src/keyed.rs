use vstd::prelude::*;
use crate::address::Address;

verus! {

/// A key whose equality is decided by its model.
pub trait StoreKey: View + Sized {
    fn same_key(&self, other: &Self) -> (b: bool)
        ensures
            b == (self@ == other@),
    ;
}

impl StoreKey for Address {
    fn same_key(&self, other: &Self) -> (b: bool) {
        self.same(other)
    }
}

/// A finite map from keys (compared by their models) to values, kept as a
/// list of entries whose keys are pairwise distinct.
pub struct KeyedStore<K, V> {
    entries: Vec<(K, V)>,
}

impl<K: StoreKey, V> KeyedStore<K, V> {
    /// No key occurs twice.
    pub closed spec fn wf(&self) -> bool {
        forall|i: int, j: int|
            0 <= i < self.entries@.len() && 0 <= j < self.entries@.len() && i != j
                ==> #[trigger] self.entries@[i].0@ != #[trigger] self.entries@[j].0@
    }

    spec fn holds(&self, k: K::V) -> bool {
        exists|i: int| 0 <= i < self.entries@.len() && #[trigger] self.entries@[i].0@ == k
    }

    spec fn slot(&self, k: K::V) -> int {
        choose|i: int| 0 <= i < self.entries@.len() && #[trigger] self.entries@[i].0@ == k
    }

    /// The map from each stored key's model to its value.
    pub closed spec fn view(&self) -> Map<K::V, V> {
        Map::new(|k: K::V| self.holds(k), |k: K::V| self.entries@[self.slot(k)].1)
    }

    proof fn lemma_slot(&self, i: int)
        requires
            self.wf(),
            0 <= i < self.entries@.len(),
        ensures
            self.holds(self.entries@[i].0@),
            self.slot(self.entries@[i].0@) == i,
            self.view().contains_key(self.entries@[i].0@),
            self.view()[self.entries@[i].0@] == self.entries@[i].1,
    {
        let k = self.entries@[i].0@;
        assert(self.holds(k));
        let j = self.slot(k);
        assert(self.entries@[j].0@ == k);
    }

    pub fn new() -> (s: Self)
        ensures
            s.wf(),
            s.view() == Map::<K::V, V>::empty(),
    {
        let s = KeyedStore { entries: Vec::new() };
        assert(s.view() =~= Map::<K::V, V>::empty());
        s
    }

    fn find(&self, k: &K) -> (r: Option<usize>)
        requires
            self.wf(),
        ensures
            match r {
                Some(i) => i < self.entries@.len() && self.entries@[i as int].0@ == k@,
                None => !self.view().contains_key(k@),
            },
    {
        let mut i: usize = 0;
        while i < self.entries.len()
            invariant
                i <= self.entries@.len(),
                forall|j: int| 0 <= j < i ==> #[trigger] self.entries@[j].0@ != k@,
            decreases self.entries@.len() - i,
        {
            if self.entries[i].0.same_key(k) {
                return Some(i);
            }
            i += 1;
        }
        None
    }

    pub fn get(&self, k: &K) -> (r: Option<&V>)
        requires
            self.wf(),
        ensures
            match r {
                Some(v) => self.view().contains_key(k@) && *v == self.view()[k@],
                None => !self.view().contains_key(k@),
            },
    {
        match self.find(k) {
            Some(i) => {
                proof {
                    self.lemma_slot(i as int);
                }
                Some(&self.entries[i].1)
            },
            None => None,
        }
    }

    pub fn insert(&mut self, k: K, v: V)
        requires
            old(self).wf(),
        ensures
            final(self).wf(),
            final(self).view() == old(self).view().insert(k@, v),
    {
        let ghost kv = k@;
        let ghost vv = v;
        match self.find(&k) {
            Some(i) => {
                let ghost before = *self;
                self.entries.set(i, (k, v));
                proof {
                    assert forall|a: int, b: int|
                        0 <= a < self.entries@.len() && 0 <= b < self.entries@.len() && a != b
                            implies #[trigger] self.entries@[a].0@ != #[trigger] self.entries@[b].0@ by {
                        assert(before.entries@[a].0@ != before.entries@[b].0@);
                    }
                    assert forall|key: K::V| #![auto] self.view().contains_key(key)
                        == before.view().insert(kv, vv).contains_key(key) by {
                        if self.holds(key) {
                            let j = self.slot(key);
                            if j != i as int {
                                assert(before.entries@[j].0@ == key);
                            }
                        }
                        if before.holds(key) {
                            let j = before.slot(key);
                            if j != i as int {
                                assert(self.entries@[j].0@ == key);
                            }
                        }
                        if key == kv {
                            assert(self.entries@[i as int].0@ == key);
                        }
                    }
                    assert forall|key: K::V| #[trigger] self.view().contains_key(key) implies
                        self.view()[key] == before.view().insert(kv, vv)[key] by {
                        let j = self.slot(key);
                        self.lemma_slot(j);
                        if j == i as int {
                        } else {
                            before.lemma_slot(j);
                        }
                    }
                    assert(self.view() =~= before.view().insert(kv, vv));
                }
            },
            None => {
                let ghost before = *self;
                self.entries.push((k, v));
                proof {
                    let n = before.entries@.len() as int;
                    assert forall|a: int, b: int|
                        0 <= a < self.entries@.len() && 0 <= b < self.entries@.len() && a != b
                            implies #[trigger] self.entries@[a].0@ != #[trigger] self.entries@[b].0@ by {
                        if a < n && b < n {
                            assert(before.entries@[a].0@ != before.entries@[b].0@);
                        } else if a < n {
                            assert(before.entries@[a].0@ == self.entries@[a].0@);
                            assert(before.holds(before.entries@[a].0@));
                        } else {
                            assert(before.entries@[b].0@ == self.entries@[b].0@);
                            assert(before.holds(before.entries@[b].0@));
                        }
                    }
                    assert forall|key: K::V| #![auto] self.view().contains_key(key)
                        == before.view().insert(kv, vv).contains_key(key) by {
                        if self.holds(key) {
                            let j = self.slot(key);
                            if j < n {
                                assert(before.entries@[j].0@ == key);
                            }
                        }
                        if before.holds(key) {
                            let j = before.slot(key);
                            assert(self.entries@[j].0@ == key);
                        }
                        if key == kv {
                            assert(self.entries@[n].0@ == key);
                        }
                    }
                    assert forall|key: K::V| #[trigger] self.view().contains_key(key) implies
                        self.view()[key] == before.view().insert(kv, vv)[key] by {
                        let j = self.slot(key);
                        self.lemma_slot(j);
                        if j < n {
                            before.lemma_slot(j);
                        }
                    }
                    assert(self.view() =~= before.view().insert(kv, vv));
                }
            },
        }
    }
}

} // verus!
