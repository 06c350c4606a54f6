//! A small map from proposal keys to values, kept in insertion order.

use vstd::prelude::*;

verus! {

/// Where `key` stands in `keys`, if it occurs there.
pub open spec fn slot(keys: Seq<u64>, key: u64) -> int {
    choose|i: int| 0 <= i < keys.len() && keys[i] == key
}

/// A finite map from `u64` keys to values of type `V`.
pub struct Table<V> {
    keys: Vec<u64>,
    values: Vec<V>,
}

impl<V> Table<V> {
    /// Each key is held once, beside its value.
    pub closed spec fn wf(&self) -> bool {
        &&& self.keys@.no_duplicates()
        &&& self.keys@.len() == self.values@.len()
    }

    /// The map that the table stands for.
    pub closed spec fn map(&self) -> Map<u64, V> {
        Map::new(|k: u64| self.keys@.contains(k), |k: u64| self.values@[slot(self.keys@, k)])
    }

    /// The keys of a table are finitely many.
    pub proof fn lemma_finite(&self)
        ensures
            self.map().dom().finite(),
    {
        vstd::seq_lib::seq_to_set_is_finite(self.keys@);
        assert(self.map().dom() =~= self.keys@.to_set());
    }

    proof fn lemma_slot(&self, i: int)
        requires
            self.wf(),
            0 <= i < self.keys@.len(),
        ensures
            self.map().dom().contains(self.keys@[i]),
            slot(self.keys@, self.keys@[i]) == i,
            self.map()[self.keys@[i]] == self.values@[i],
    {
        let k = self.keys@[i];
        let j = slot(self.keys@, k);
        assert(0 <= j < self.keys@.len() && self.keys@[j] == k);
    }

    /// The table without any entry.
    pub fn new() -> (t: Table<V>)
        ensures
            t.wf(),
            t.map() == Map::<u64, V>::empty(),
    {
        let t = Table { keys: Vec::new(), values: Vec::new() };
        assert(t.map() =~= Map::<u64, V>::empty());
        t
    }

    /// How many entries the table holds.
    pub fn len(&self) -> (n: usize)
        requires
            self.wf(),
        ensures
            n == self.map().dom().len(),
            self.map().dom().finite(),
    {
        proof {
            self.keys@.unique_seq_to_set();
            vstd::seq_lib::seq_to_set_is_finite(self.keys@);
            assert(self.map().dom() =~= self.keys@.to_set());
        }
        self.keys.len()
    }

    fn position(&self, key: u64) -> (r: Option<usize>)
        requires
            self.wf(),
        ensures
            match r {
                Some(i) => i < self.keys@.len() && self.keys@[i as int] == key,
                None => !self.map().dom().contains(key),
            },
    {
        let mut i: usize = 0;
        while i < self.keys.len()
            invariant
                i <= self.keys.len(),
                forall|j: int| 0 <= j < i ==> self.keys@[j] != key,
            decreases self.keys.len() - i,
        {
            if self.keys[i] == key {
                return Some(i);
            }
            i += 1;
        }
        None
    }

    /// The keys that have an entry, each once.
    pub fn keys(&self) -> (r: Vec<u64>)
        requires
            self.wf(),
        ensures
            r@.no_duplicates(),
            r@.to_set() == self.map().dom(),
    {
        let mut out: Vec<u64> = Vec::new();
        let mut i: usize = 0;
        while i < self.keys.len()
            invariant
                i <= self.keys.len(),
                out@ == self.keys@.take(i as int),
            decreases self.keys.len() - i,
        {
            out.push(self.keys[i]);
            assert(self.keys@.take(i as int).push(self.keys@[i as int]) =~= self.keys@.take(i + 1));
            i += 1;
        }
        proof {
            assert(self.keys@.take(i as int) =~= self.keys@);
            assert(out@.to_set() =~= self.map().dom());
        }
        out
    }

    /// Whether `key` has an entry.
    pub fn contains_key(&self, key: u64) -> (b: bool)
        requires
            self.wf(),
        ensures
            b == self.map().dom().contains(key),
    {
        self.position(key).is_some()
    }

    /// The value filed under `key`, if there is one.
    pub fn get(&self, key: u64) -> (r: Option<&V>)
        requires
            self.wf(),
        ensures
            match r {
                Some(v) => self.map().dom().contains(key) && *v == self.map()[key],
                None => !self.map().dom().contains(key),
            },
    {
        match self.position(key) {
            Some(i) => {
                proof {
                    self.lemma_slot(i as int);
                }
                Some(&self.values[i])
            },
            None => None,
        }
    }

    /// Takes the entry of `key` out of the table and hands its value over.
    pub fn take(&mut self, key: u64) -> (r: Option<V>)
        requires
            old(self).wf(),
        ensures
            final(self).wf(),
            final(self).map() == old(self).map().remove(key),
            match r {
                Some(v) => old(self).map().dom().contains(key) && v == old(self).map()[key],
                None => !old(self).map().dom().contains(key),
            },
    {
        match self.position(key) {
            None => {
                assert(self.map().remove(key) =~= self.map());
                None
            },
            Some(i) => {
                let ghost before = *self;
                proof {
                    before.lemma_slot(i as int);
                }
                self.keys.remove(i);
                let v = self.values.remove(i);
                proof {
                    let after = *self;
                    assert(after.keys@ == before.keys@.remove(i as int));
                    assert(after.values@ == before.values@.remove(i as int));
                    assert forall|a: int, b: int|
                        0 <= a < after.keys@.len() && 0 <= b < after.keys@.len() && a
                            != b implies after.keys@[a] != after.keys@[b] by {
                        let a0 = if a < i { a } else { a + 1 };
                        let b0 = if b < i { b } else { b + 1 };
                        assert(after.keys@[a] == before.keys@[a0]);
                        assert(after.keys@[b] == before.keys@[b0]);
                    }
                    assert(after.wf());
                    assert forall|k: u64| #[trigger]
                        after.map().dom().contains(k) <==> before.map().remove(
                            key,
                        ).dom().contains(k) by {
                        if after.keys@.contains(k) {
                            let j = choose|j: int| 0 <= j < after.keys@.len() && after.keys@[j] == k;
                            let j0 = if j < i { j } else { j + 1 };
                            assert(before.keys@[j0] == k);
                        }
                        if before.keys@.contains(k) && k != key {
                            let j = choose|j: int|
                                0 <= j < before.keys@.len() && before.keys@[j] == k;
                            let j1 = if j < i { j } else { j - 1 };
                            assert(after.keys@[j1] == k);
                        }
                    }
                    assert forall|k: u64| #[trigger]
                        after.map().dom().contains(k) implies after.map()[k]
                        == before.map().remove(key)[k] by {
                        let j = choose|j: int| 0 <= j < after.keys@.len() && after.keys@[j] == k;
                        let j0 = if j < i { j } else { j + 1 };
                        after.lemma_slot(j);
                        before.lemma_slot(j0);
                    }
                    assert(after.map() =~= before.map().remove(key));
                }
                Some(v)
            },
        }
    }

    /// Files `value` under `key`, which has no entry yet.
    pub fn put(&mut self, key: u64, value: V)
        requires
            old(self).wf(),
            !old(self).map().dom().contains(key),
        ensures
            final(self).wf(),
            final(self).map() == old(self).map().insert(key, value),
    {
        let ghost before = *self;
        self.keys.push(key);
        self.values.push(value);
        proof {
            let after = *self;
            let n = before.keys@.len() as int;
            assert(after.keys@ == before.keys@.push(key));
            assert(after.values@ == before.values@.push(value));
            assert(!before.keys@.contains(key));
            assert(after.keys@.no_duplicates());
            assert forall|k: u64| #[trigger]
                after.map().dom().contains(k) <==> before.map().insert(
                    key,
                    value,
                ).dom().contains(k) by {
                if after.keys@.contains(k) {
                    let j = choose|j: int| 0 <= j < after.keys@.len() && after.keys@[j] == k;
                    if j < n {
                        assert(before.keys@[j] == k);
                    }
                }
                if before.keys@.contains(k) {
                    let j = choose|j: int| 0 <= j < before.keys@.len() && before.keys@[j] == k;
                    assert(after.keys@[j] == k);
                }
                if k == key {
                    assert(after.keys@[n] == k);
                }
            }
            assert forall|k: u64| #[trigger]
                after.map().dom().contains(k) implies after.map()[k] == before.map().insert(
                key,
                value,
            )[k] by {
                let j = choose|j: int| 0 <= j < after.keys@.len() && after.keys@[j] == k;
                after.lemma_slot(j);
                if j < n {
                    assert(before.keys@[j] == k);
                    before.lemma_slot(j);
                }
            }
            assert(after.map() =~= before.map().insert(key, value));
        }
    }

    /// Takes one entry out of the table, if it holds any.
    pub fn pop(&mut self) -> (r: Option<(u64, V)>)
        requires
            old(self).wf(),
        ensures
            final(self).wf(),
            match r {
                Some((k, v)) => old(self).map().dom().contains(k) && v == old(self).map()[k]
                    && final(self).map() == old(self).map().remove(k),
                None => old(self).map() == Map::<u64, V>::empty() && final(self).map() == old(
                    self,
                ).map(),
            },
    {
        if self.keys.len() == 0 {
            assert(self.map() =~= Map::<u64, V>::empty());
            None
        } else {
            let key = self.keys[self.keys.len() - 1];
            proof {
                self.lemma_slot(self.keys@.len() - 1);
            }
            match self.take(key) {
                Some(v) => Some((key, v)),
                None => None,
            }
        }
    }
}

} // verus!
