//! A finite map from byte-string keys to values, kept as a list of entries
//! with pairwise distinct keys.
use vstd::prelude::*;

use crate::utils::bytes_equal;

verus! {

/// Entries of a table: each key occurs once.
pub struct Table<V> {
    entries: Vec<(Vec<u8>, V)>,
}

impl<V: View> Table<V> {
    /// The key of the `i`-th entry.
    pub closed spec fn key_at(&self, i: int) -> Seq<u8> {
        self.entries@[i].0@
    }

    /// The view of the value of the `i`-th entry.
    pub closed spec fn value_at(&self, i: int) -> V::V {
        self.entries@[i].1@
    }

    /// No key occurs twice.
    pub closed spec fn wf(&self) -> bool {
        forall|i: int, j: int|
            0 <= i < self.entries@.len() && 0 <= j < self.entries@.len() && i != j
                ==> #[trigger] self.key_at(i) != #[trigger] self.key_at(j)
    }

    /// Some entry has key `k`.
    pub closed spec fn holds(&self, k: Seq<u8>) -> bool {
        exists|i: int| 0 <= i < self.entries@.len() && #[trigger] self.key_at(i) == k
    }

    /// An entry with key `k`, where there is one.
    pub closed spec fn index_of(&self, k: Seq<u8>) -> int {
        choose|i: int| 0 <= i < self.entries@.len() && #[trigger] self.key_at(i) == k
    }

    /// The map from keys to the views of their values.
    pub closed spec fn as_map(&self) -> Map<Seq<u8>, V::V> {
        Map::new(|k: Seq<u8>| self.holds(k), |k: Seq<u8>| self.value_at(self.index_of(k)))
    }

    proof fn lemma_index_of(&self, i: int)
        requires
            self.wf(),
            0 <= i < self.entries@.len(),
        ensures
            self.holds(self.key_at(i)),
            self.index_of(self.key_at(i)) == i,
            self.as_map().dom().contains(self.key_at(i)),
            self.as_map()[self.key_at(i)] == self.value_at(i),
    {
        let k = self.key_at(i);
        assert(self.holds(k));
        let j = self.index_of(k);
        assert(0 <= j < self.entries@.len() && self.key_at(j) == k);
    }

    /// An empty table.
    pub fn new() -> (t: Self)
        ensures
            t.wf(),
            t@ == Map::<Seq<u8>, V::V>::empty(),
    {
        let t = Table { entries: Vec::new() };
        assert(t.as_map() =~= Map::<Seq<u8>, V::V>::empty());
        t
    }

    fn find(&self, k: &Vec<u8>) -> (r: Option<usize>)
        requires
            self.wf(),
        ensures
            match r {
                Some(i) => i < self.entries@.len() && self.key_at(i as int) == k@,
                None => !self.holds(k@),
            },
    {
        let mut i: usize = 0;
        while i < self.entries.len()
            invariant
                i <= self.entries@.len(),
                forall|j: int| 0 <= j < i ==> #[trigger] self.key_at(j) != k@,
            decreases self.entries@.len() - i,
        {
            if bytes_equal(&self.entries[i].0, k) {
                return Some(i);
            }
            i += 1;
        }
        None
    }

    /// Whether some entry has key `k`.
    pub fn contains_key(&self, k: &Vec<u8>) -> (r: bool)
        requires
            self.wf(),
        ensures
            r == self@.dom().contains(k@),
    {
        self.find(k).is_some()
    }

    /// The value stored under `k`, if any.
    pub fn get(&self, k: &Vec<u8>) -> (r: Option<&V>)
        requires
            self.wf(),
        ensures
            r is Some == self@.dom().contains(k@),
            r matches Some(v) ==> v@ == self@[k@],
    {
        match self.find(k) {
            Some(i) => {
                proof {
                    self.lemma_index_of(i as int);
                }
                Some(&self.entries[i].1)
            },
            None => None,
        }
    }

    /// Stores `v` under `k`, replacing what was stored there.
    pub fn insert(&mut self, k: Vec<u8>, v: V)
        requires
            old(self).wf(),
        ensures
            final(self).wf(),
            final(self)@ == old(self)@.insert(k@, v@),
    {
        let ghost prev = *self;
        match self.find(&k) {
            Some(i) => {
                self.entries.set(i, (k, v));
                proof {
                    assert forall|a: int, b: int|
                        0 <= a < self.entries@.len() && 0 <= b < self.entries@.len() && a != b
                            implies #[trigger] self.key_at(a) != #[trigger] self.key_at(b) by {
                        assert(prev.key_at(a) != prev.key_at(b));
                    }
                    assert forall|key: Seq<u8>| self.holds(key) == prev@.insert(k@, v@).dom().contains(key) by {
                        if self.holds(key) {
                            let j = self.index_of(key);
                            assert(prev.key_at(j) == key || j == i);
                        }
                        if prev.holds(key) {
                            let j = prev.index_of(key);
                            assert(self.key_at(j) == key || j == i);
                        }
                    }
                    assert forall|key: Seq<u8>| #[trigger] self.holds(key) implies
                        self.as_map()[key] == prev@.insert(k@, v@)[key] by {
                        let j = self.index_of(key);
                        self.lemma_index_of(j);
                        if j != i {
                            prev.lemma_index_of(j);
                        }
                    }
                    assert(self.as_map() =~= prev@.insert(k@, v@));
                }
            },
            None => {
                self.entries.push((k, v));
                proof {
                    let n = prev.entries@.len() as int;
                    assert forall|a: int, b: int|
                        0 <= a < self.entries@.len() && 0 <= b < self.entries@.len() && a != b
                            implies #[trigger] self.key_at(a) != #[trigger] self.key_at(b) by {
                        if a < n && b < n {
                            assert(prev.key_at(a) != prev.key_at(b));
                        } else if a < n {
                            assert(prev.key_at(a) == self.key_at(a));
                        } else {
                            assert(prev.key_at(b) == self.key_at(b));
                        }
                    }
                    assert forall|key: Seq<u8>| self.holds(key) == prev@.insert(k@, v@).dom().contains(key) by {
                        if self.holds(key) {
                            let j = self.index_of(key);
                            if j < n {
                                assert(prev.key_at(j) == key);
                            }
                        }
                        if prev.holds(key) {
                            let j = prev.index_of(key);
                            assert(self.key_at(j) == key);
                        }
                        assert(self.key_at(n) == k@);
                    }
                    assert forall|key: Seq<u8>| #[trigger] self.holds(key) implies
                        self.as_map()[key] == prev@.insert(k@, v@)[key] by {
                        let j = self.index_of(key);
                        self.lemma_index_of(j);
                        if j < n {
                            prev.lemma_index_of(j);
                        }
                    }
                    assert(self.as_map() =~= prev@.insert(k@, v@));
                }
            },
        }
    }

    /// Removes the entry with key `k`, if there is one.
    pub fn remove(&mut self, k: &Vec<u8>)
        requires
            old(self).wf(),
        ensures
            final(self).wf(),
            final(self)@ == old(self)@.remove(k@),
    {
        let ghost prev = *self;
        match self.find(k) {
            Some(i) => {
                let _removed = self.entries.remove(i);
                proof {
                    let ii = i as int;
                    // position in the old list of the entry now at `a`
                    assert forall|a: int| 0 <= a < self.entries@.len() implies
                        #[trigger] self.key_at(a) == prev.key_at(if a < ii { a } else { a + 1 })
                        && self.value_at(a) == prev.value_at(if a < ii { a } else { a + 1 }) by {}
                    assert forall|a: int, b: int|
                        0 <= a < self.entries@.len() && 0 <= b < self.entries@.len() && a != b
                            implies #[trigger] self.key_at(a) != #[trigger] self.key_at(b) by {
                        let pa = if a < ii { a } else { a + 1 };
                        let pb = if b < ii { b } else { b + 1 };
                        assert(prev.key_at(pa) != prev.key_at(pb));
                    }
                    assert forall|key: Seq<u8>| self.holds(key) == prev@.remove(k@).dom().contains(key) by {
                        if self.holds(key) {
                            let j = self.index_of(key);
                            let pj = if j < ii { j } else { j + 1 };
                            assert(prev.key_at(pj) == key);
                            assert(pj != ii);
                            assert(prev.key_at(ii) == k@);
                            assert(prev.key_at(pj) != prev.key_at(ii));
                        }
                        if prev.holds(key) && key != k@ {
                            let pj = prev.index_of(key);
                            assert(pj != ii);
                            let j = if pj < ii { pj } else { pj - 1 };
                            assert(self.key_at(j) == key);
                        }
                    }
                    assert forall|key: Seq<u8>| #[trigger] self.holds(key) implies
                        self.as_map()[key] == prev@.remove(k@)[key] by {
                        let j = self.index_of(key);
                        self.lemma_index_of(j);
                        let pj = if j < ii { j } else { j + 1 };
                        prev.lemma_index_of(pj);
                    }
                    assert(self.as_map() =~= prev@.remove(k@));
                }
            },
            None => {
                assert(prev.as_map() =~= prev@.remove(k@));
            },
        }
    }
}

impl<V: View> View for Table<V> {
    type V = Map<Seq<u8>, V::V>;

    closed spec fn view(&self) -> Map<Seq<u8>, V::V> {
        self.as_map()
    }
}

} // verus!
