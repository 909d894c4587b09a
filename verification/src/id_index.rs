use vstd::prelude::*;
use crate::address::Address;
use crate::keyed::KeyedStore;

verus! {

/// `s` with every occurrence of `x` taken out, the rest in order.
pub open spec fn without(s: Seq<u64>, x: u64) -> Seq<u64>
    decreases s.len(),
{
    if s.len() == 0 {
        s
    } else {
        let rest = without(s.drop_last(), x);
        if s.last() == x {
            rest
        } else {
            rest.push(s.last())
        }
    }
}

pub proof fn lemma_without_contains(s: Seq<u64>, x: u64, y: u64)
    ensures
        without(s, x).contains(y) <==> (s.contains(y) && y != x),
    decreases s.len(),
{
    if s.len() > 0 {
        lemma_without_contains(s.drop_last(), x, y);
        let rest = without(s.drop_last(), x);
        if s.contains(y) && y != x {
            let i = choose|i: int| 0 <= i < s.len() && s[i] == y;
            if i < s.len() - 1 {
                assert(s.drop_last()[i] == y);
                assert(rest.contains(y));
                let k = choose|k: int| 0 <= k < rest.len() && rest[k] == y;
                if s.last() != x {
                    assert(rest.push(s.last())[k] == y);
                }
            } else {
                assert(without(s, x) == rest.push(y));
                assert(without(s, x)[rest.len() as int] == y);
            }
        }
        if without(s, x).contains(y) {
            let k = choose|k: int| 0 <= k < without(s, x).len() && without(s, x)[k] == y;
            if k < rest.len() {
                assert(rest[k] == y);
                let i = choose|i: int| 0 <= i < s.drop_last().len() && s.drop_last()[i] == y;
                assert(s[i] == y);
            } else {
                assert(s[s.len() - 1] == y);
            }
        }
    }
}

pub proof fn lemma_without_no_duplicates(s: Seq<u64>, x: u64)
    requires
        s.no_duplicates(),
    ensures
        without(s, x).no_duplicates(),
    decreases s.len(),
{
    if s.len() > 0 {
        assert(s.drop_last().no_duplicates());
        lemma_without_no_duplicates(s.drop_last(), x);
        let rest = without(s.drop_last(), x);
        if s.last() != x {
            lemma_without_contains(s.drop_last(), x, s.last());
            assert(!s.drop_last().contains(s.last())) by {
                if s.drop_last().contains(s.last()) {
                    let i = choose|i: int| 0 <= i < s.drop_last().len() && s.drop_last()[i] == s.last();
                    assert(s[i] == s[s.len() - 1]);
                }
            }
            assert forall|a: int, b: int|
                0 <= a < rest.push(s.last()).len() && 0 <= b < rest.push(s.last()).len() && a != b
                    implies rest.push(s.last())[a] != rest.push(s.last())[b] by {
                if a < rest.len() && b < rest.len() {
                } else if a < rest.len() {
                    assert(rest.contains(rest[a]));
                } else {
                    assert(rest.contains(rest[b]));
                }
            }
        }
    }
}

/// For each party, the list of record ids filed under it, in the order they
/// were added. A party with nothing filed has the empty list.
pub struct IdIndex {
    lists: KeyedStore<Address, Vec<u64>>,
}

impl IdIndex {
    pub closed spec fn wf(&self) -> bool {
        self.lists.wf()
    }

    /// The list filed under a party.
    pub closed spec fn ids_of(&self, owner: Seq<char>) -> Seq<u64> {
        if self.lists.view().contains_key(owner) {
            self.lists.view()[owner]@
        } else {
            Seq::empty()
        }
    }

    /// The whole index, as a map defined on every party.
    pub open spec fn view(&self) -> Map<Seq<char>, Seq<u64>> {
        Map::new(|o: Seq<char>| true, |o: Seq<char>| self.ids_of(o))
    }

    pub fn new() -> (ix: IdIndex)
        ensures
            ix.wf(),
            ix.view() == Map::new(|o: Seq<char>| true, |o: Seq<char>| Seq::<u64>::empty()),
    {
        let ix = IdIndex { lists: KeyedStore::new() };
        assert(ix.view() =~= Map::new(|o: Seq<char>| true, |o: Seq<char>| Seq::<u64>::empty()));
        ix
    }

    /// The ids filed under `owner`.
    pub fn ids(&self, owner: &Address) -> (r: Vec<u64>)
        requires
            self.wf(),
        ensures
            r@ == self.view()[owner@],
    {
        match self.lists.get(owner) {
            Some(v) => {
                let mut out: Vec<u64> = Vec::new();
                let mut i: usize = 0;
                while i < v.len()
                    invariant
                        i <= v@.len(),
                        out@ == v@.take(i as int),
                    decreases v@.len() - i,
                {
                    out.push(v[i]);
                    i += 1;
                    assert(out@ =~= v@.take(i as int));
                }
                assert(v@.take(v@.len() as int) =~= v@);
                out
            },
            None => Vec::new(),
        }
    }

    /// Files `id` under `owner`, after the ids already there.
    pub fn add(&mut self, owner: &Address, id: u64)
        requires
            old(self).wf(),
        ensures
            final(self).wf(),
            final(self).view() == old(self).view().insert(owner@, old(self).view()[owner@].push(id)),
    {
        let mut list = self.ids(owner);
        list.push(id);
        let ghost before = *self;
        let ghost lv = list;
        self.lists.insert(owner.clone(), list);
        assert(self.view() =~= before.view().insert(owner@, before.view()[owner@].push(id))) by {
            assert(self.lists.view() == before.lists.view().insert(owner@, lv));
        }
    }

    /// Takes every occurrence of `id` out of the list filed under `owner`.
    pub fn remove(&mut self, owner: &Address, id: u64)
        requires
            old(self).wf(),
        ensures
            final(self).wf(),
            final(self).view() == old(self).view().insert(owner@, without(old(self).view()[owner@], id)),
    {
        let ids = self.ids(owner);
        let mut kept: Vec<u64> = Vec::new();
        let mut i: usize = 0;
        while i < ids.len()
            invariant
                i <= ids@.len(),
                kept@ == without(ids@.take(i as int), id),
            decreases ids@.len() - i,
        {
            assert(ids@.take(i + 1).drop_last() =~= ids@.take(i as int));
            if ids[i] != id {
                kept.push(ids[i]);
            }
            i += 1;
        }
        assert(ids@.take(ids@.len() as int) =~= ids@);
        let ghost before = *self;
        let ghost kv = kept;
        self.lists.insert(owner.clone(), kept);
        assert(self.view() =~= before.view().insert(owner@, without(before.view()[owner@], id))) by {
            assert(self.lists.view() == before.lists.view().insert(owner@, kv));
        }
    }
}

} // verus!
