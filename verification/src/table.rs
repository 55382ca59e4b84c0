use vstd::prelude::*;
use crate::key::{key_set, Key};

verus! {

/// An association table: each key identity is bound to at most one value.
pub struct Table<K: Key, V> {
    keys: Vec<K>,
    values: Vec<V>,
}

impl<K: Key, V> Table<K, V> {
    /// The keys are pairwise distinct and each has a value.
    pub closed spec fn wf(&self) -> bool {
        &&& self.keys@.len() == self.values@.len()
        &&& forall|i: int, j: int|
            0 <= i < j < self.keys@.len() ==> #[trigger] self.keys@[i]@ != #[trigger] self.keys@[j]@
    }

    pub closed spec fn has(&self, k: K::V) -> bool {
        exists|i: int| 0 <= i < self.keys@.len() && #[trigger] self.keys@[i]@ == k
    }

    pub closed spec fn slot(&self, k: K::V) -> int {
        choose|i: int| 0 <= i < self.keys@.len() && #[trigger] self.keys@[i]@ == k
    }

    /// The table as a map from key identities to values.
    pub closed spec fn map(&self) -> Map<K::V, V> {
        Map::new(|k: K::V| self.has(k), |k: K::V| self.values@[self.slot(k)])
    }

    pub fn new() -> (r: Self)
        ensures
            r.wf(),
            r.map() == Map::<K::V, V>::empty(),
    {
        let r = Table { keys: Vec::new(), values: Vec::new() };
        assert(r.map() =~= Map::<K::V, V>::empty());
        r
    }

    fn position(&self, key: &K) -> (r: Option<usize>)
        requires
            self.wf(),
        ensures
            match r {
                Some(i) => i < self.keys@.len() && self.keys@[i as int]@ == key@,
                None => !self.has(key@),
            },
    {
        let mut i: usize = 0;
        while i < self.keys.len()
            invariant
                i <= self.keys@.len(),
                forall|j: int| 0 <= j < i ==> #[trigger] self.keys@[j]@ != key@,
            decreases self.keys@.len() - i,
        {
            if self.keys[i].same(key) {
                return Some(i);
            }
            i += 1;
        }
        None
    }

    /// The value bound to `key`, if any.
    pub fn get(&self, key: &K) -> (r: Option<&V>)
        requires
            self.wf(),
        ensures
            match r {
                Some(v) => self.map().contains_key(key@) && *v == self.map()[key@],
                None => !self.map().contains_key(key@),
            },
    {
        match self.position(key) {
            Some(i) => {
                assert(self.has(key@));
                assert(self.slot(key@) == i as int);
                Some(&self.values[i])
            },
            None => None,
        }
    }

    /// Binds `key` to `value`, replacing any earlier binding.
    pub fn insert(&mut self, key: K, value: V)
        requires
            old(self).wf(),
        ensures
            final(self).wf(),
            final(self).map() == old(self).map().insert(key@, value),
    {
        match self.position(&key) {
            Some(i) => {
                self.values.set(i, value);
                assert forall|k: K::V| self.has(k) == old(self).has(k) by {
                    if old(self).has(k) {
                        let j = old(self).slot(k);
                        assert(self.keys@[j]@ == k);
                    }
                    if self.has(k) {
                        let j = self.slot(k);
                        assert(old(self).keys@[j]@ == k);
                    }
                }
                assert forall|k: K::V| self.has(k) implies self.slot(k) == old(self).slot(k) by {
                    let a = self.slot(k);
                    let b = old(self).slot(k);
                    assert(old(self).keys@[a]@ == k);
                    assert(old(self).has(k));
                }
                assert(self.has(key@));
                assert(self.slot(key@) == i as int);
                assert(self.map() =~= old(self).map().insert(key@, value));
            },
            None => {
                self.keys.push(key);
                self.values.push(value);
                let ghost n = old(self).keys@.len() as int;
                assert(self.keys@[n]@ == key@);
                assert forall|k: K::V| self.has(k) == (old(self).has(k) || k == key@) by {
                    if old(self).has(k) {
                        let j = old(self).slot(k);
                        assert(self.keys@[j]@ == k);
                    }
                    if self.has(k) {
                        let j = self.slot(k);
                        if j < n {
                            assert(old(self).keys@[j]@ == k);
                        }
                    }
                }
                assert forall|k: K::V| old(self).has(k) implies self.slot(k) == old(self).slot(k) by {
                    let a = self.slot(k);
                    let b = old(self).slot(k);
                    assert(self.keys@[b]@ == k);
                    assert(self.has(k));
                    if a == n {
                        assert(self.keys@[b]@ != self.keys@[a]@);
                    }
                }
                assert(self.has(key@));
                assert(self.slot(key@) == n);
                assert(self.map() =~= old(self).map().insert(key@, value));
            },
        }
    }

    /// The keys that are bound, each once.
    pub fn keys(&self) -> (r: Vec<K>)
        requires
            self.wf(),
        ensures
            key_set(r@) == self.map().dom(),
    {
        let mut r: Vec<K> = Vec::new();
        let mut i: usize = 0;
        while i < self.keys.len()
            invariant
                i <= self.keys@.len(),
                r@.len() == i,
                forall|j: int| 0 <= j < i ==> (#[trigger] r@[j])@ == self.keys@[j]@,
            decreases self.keys@.len() - i,
        {
            r.push(self.keys[i].duplicate());
            i += 1;
        }
        assert forall|k: K::V| key_set(r@).contains(k) == self.map().dom().contains(k) by {
            if key_set(r@).contains(k) {
                let j = choose|j: int| 0 <= j < r@.len() && (#[trigger] r@[j])@ == k;
                assert(self.keys@[j]@ == k);
            }
            if self.has(k) {
                let j = self.slot(k);
                assert(r@[j]@ == k);
            }
        }
        assert(key_set(r@) =~= self.map().dom());
        r
    }
}

} // verus!
