//! A small keyed store: the container behind the ledger's accounts.
use vstd::prelude::*;

verus! {

/// A key of a [`Table`]: a copyable value with a decidable equality.
pub trait Key: Copy {
    /// Whether `self` and `other` are the same key.
    fn same(&self, other: &Self) -> (r: bool)
        ensures
            r == (*self == *other),
    ;
}

/// A finite map from keys to values, kept as a list of entries in which no
/// key occurs twice.
pub struct Table<K, V> {
    entries: Vec<(K, V)>,
}

impl<K: Key, V: Copy> View for Table<K, V> {
    type V = Map<K, V>;

    closed spec fn view(&self) -> Map<K, V> {
        Map::new(
            |k: K| exists|i: int| 0 <= i < self.entries@.len() && self.entries@[i].0 == k,
            |k: K|
                self.entries@[choose|i: int|
                    0 <= i < self.entries@.len() && self.entries@[i].0 == k].1,
        )
    }
}

impl<K: Key, V: Copy> Table<K, V> {
    /// No key occurs twice among the entries.
    pub closed spec fn wf(&self) -> bool {
        forall|i: int, j: int|
            0 <= i < j < self.entries@.len() ==> self.entries@[i].0 != self.entries@[j].0
    }

    proof fn lemma_entry(&self, i: int)
        requires
            self.wf(),
            0 <= i < self.entries@.len(),
        ensures
            self@.dom().contains(self.entries@[i].0),
            self@[self.entries@[i].0] == self.entries@[i].1,
    {
        let k = self.entries@[i].0;
        let j = choose|j: int| 0 <= j < self.entries@.len() && self.entries@[j].0 == k;
        assert(i == j);
    }

    proof fn lemma_missing(&self, k: K)
        requires
            forall|i: int| 0 <= i < self.entries@.len() ==> self.entries@[i].0 != k,
        ensures
            !self@.dom().contains(k),
    {
    }

    /// The empty table.
    pub fn new() -> (t: Table<K, V>)
        ensures
            t.wf(),
            t@ == Map::<K, V>::empty(),
    {
        let t = Table { entries: Vec::new() };
        assert(t@ =~= Map::<K, V>::empty());
        t
    }

    fn position(&self, k: &K) -> (r: Option<usize>)
        requires
            self.wf(),
        ensures
            match r {
                Some(i) => i < self.entries@.len() && self.entries@[i as int].0 == *k,
                None => forall|i: int| 0 <= i < self.entries@.len() ==> self.entries@[i].0 != *k,
            },
    {
        let mut i: usize = 0;
        while i < self.entries.len()
            invariant
                i <= self.entries@.len(),
                forall|j: int| 0 <= j < i ==> self.entries@[j].0 != *k,
            decreases self.entries@.len() - i,
        {
            if self.entries[i].0.same(k) {
                return Some(i);
            }
            i += 1;
        }
        None
    }

    /// The value stored under `k`, if any.
    pub fn get(&self, k: &K) -> (r: Option<V>)
        requires
            self.wf(),
        ensures
            r == (if self@.dom().contains(*k) {
                Some(self@[*k])
            } else {
                None
            }),
    {
        match self.position(k) {
            Some(i) => {
                proof {
                    self.lemma_entry(i as int);
                }
                Some(self.entries[i].1)
            },
            None => {
                proof {
                    self.lemma_missing(*k);
                }
                None
            },
        }
    }

    /// Stores `v` under `k`, replacing what was there.
    pub fn insert(&mut self, k: K, v: V)
        requires
            old(self).wf(),
        ensures
            final(self).wf(),
            final(self)@ == old(self)@.insert(k, v),
    {
        let ghost before = *self;
        match self.position(&k) {
            Some(i) => {
                self.entries.set(i, (k, v));
                proof {
                    assert(self.wf());
                    assert forall|q: K| self@.dom().contains(q) == before@.insert(k, v).dom().contains(
                        q,
                    ) by {
                        if self@.dom().contains(q) {
                            let j = choose|j: int|
                                0 <= j < self.entries@.len() && self.entries@[j].0 == q;
                            assert(before.entries@[j].0 == q);
                        }
                        if before@.dom().contains(q) {
                            let j = choose|j: int|
                                0 <= j < before.entries@.len() && before.entries@[j].0 == q;
                            assert(self.entries@[j].0 == q);
                        }
                        if q == k {
                            assert(self.entries@[i as int].0 == q);
                        }
                    }
                    assert forall|q: K| self@.dom().contains(q) implies self@[q] == before@.insert(
                        k,
                        v,
                    )[q] by {
                        let j = choose|j: int|
                            0 <= j < self.entries@.len() && self.entries@[j].0 == q;
                        self.lemma_entry(j);
                        if q != k {
                            assert(before.entries@[j].0 == q);
                            before.lemma_entry(j);
                        }
                    }
                    assert(self@ =~= before@.insert(k, v));
                }
            },
            None => {
                self.entries.push((k, v));
                proof {
                    let n = before.entries@.len() as int;
                    assert(self.wf());
                    assert forall|q: K| self@.dom().contains(q) == before@.insert(k, v).dom().contains(
                        q,
                    ) by {
                        if self@.dom().contains(q) {
                            let j = choose|j: int|
                                0 <= j < self.entries@.len() && self.entries@[j].0 == q;
                            if j < n {
                                assert(before.entries@[j].0 == q);
                            }
                        }
                        if before@.dom().contains(q) {
                            let j = choose|j: int|
                                0 <= j < before.entries@.len() && before.entries@[j].0 == q;
                            assert(self.entries@[j].0 == q);
                        }
                        if q == k {
                            assert(self.entries@[n].0 == q);
                        }
                    }
                    assert forall|q: K| self@.dom().contains(q) implies self@[q] == before@.insert(
                        k,
                        v,
                    )[q] by {
                        let j = choose|j: int|
                            0 <= j < self.entries@.len() && self.entries@[j].0 == q;
                        self.lemma_entry(j);
                        if q != k {
                            assert(before.entries@[j].0 == q);
                            before.lemma_entry(j);
                        }
                    }
                    assert(self@ =~= before@.insert(k, v));
                }
            },
        }
    }

    /// Removes whatever is stored under `k`.
    pub fn remove(&mut self, k: &K)
        requires
            old(self).wf(),
        ensures
            final(self).wf(),
            final(self)@ == old(self)@.remove(*k),
    {
        let ghost before = *self;
        match self.position(k) {
            Some(i) => {
                self.entries.remove(i);
                proof {
                    assert(self.wf());
                    assert forall|q: K| self@.dom().contains(q) == before@.remove(*k).dom().contains(
                        q,
                    ) by {
                        if self@.dom().contains(q) {
                            let j = choose|j: int|
                                0 <= j < self.entries@.len() && self.entries@[j].0 == q;
                            if j < i {
                                assert(before.entries@[j].0 == q);
                            } else {
                                assert(before.entries@[j + 1].0 == q);
                            }
                        }
                        if before@.dom().contains(q) && q != *k {
                            let j = choose|j: int|
                                0 <= j < before.entries@.len() && before.entries@[j].0 == q;
                            if j < i {
                                assert(self.entries@[j].0 == q);
                            } else {
                                assert(self.entries@[j - 1].0 == q);
                            }
                        }
                    }
                    assert forall|q: K| self@.dom().contains(q) implies self@[q] == before@.remove(
                        *k,
                    )[q] by {
                        let j = choose|j: int|
                            0 <= j < self.entries@.len() && self.entries@[j].0 == q;
                        self.lemma_entry(j);
                        if j < i {
                            before.lemma_entry(j);
                        } else {
                            before.lemma_entry(j + 1);
                        }
                    }
                    assert(self@ =~= before@.remove(*k));
                }
            },
            None => {
                proof {
                    self.lemma_missing(*k);
                    assert(self@ =~= before@.remove(*k));
                }
            },
        }
    }

    /// A copy of the table.
    pub fn snapshot(&self) -> (t: Table<K, V>)
        requires
            self.wf(),
        ensures
            t.wf(),
            t@ == self@,
    {
        let mut entries: Vec<(K, V)> = Vec::new();
        let mut i: usize = 0;
        while i < self.entries.len()
            invariant
                i <= self.entries@.len(),
                entries@ == self.entries@.subrange(0, i as int),
            decreases self.entries@.len() - i,
        {
            entries.push(self.entries[i]);
            assert(entries@ =~= self.entries@.subrange(0, i + 1));
            i += 1;
        }
        assert(entries@ =~= self.entries@);
        Table { entries }
    }
}

} // verus!
