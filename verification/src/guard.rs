use vstd::prelude::*;
use crate::key::{key_set, Key};
use crate::table::Table;

verus! {

/// Remembers which scopes an action has been performed in. A scope once
/// marked stays marked.
pub struct UniquenessGuard<K: Key> {
    marks: Table<K, bool>,
}

impl<K: Key> UniquenessGuard<K> {
    pub closed spec fn wf(&self) -> bool {
        self.marks.wf()
    }

    /// Whether `k` has been marked.
    pub closed spec fn marked(&self, k: K::V) -> bool {
        self.marks.map().contains_key(k) && self.marks.map()[k]
    }

    /// A guard with nothing marked.
    pub fn new() -> (r: Self)
        ensures
            r.wf(),
            forall|k: K::V| !r.marked(k),
    {
        UniquenessGuard { marks: Table::new() }
    }

    /// Whether `key` has been marked.
    pub fn check(&self, key: &K) -> (r: bool)
        requires
            self.wf(),
        ensures
            r == self.marked(key@),
    {
        match self.marks.get(key) {
            Some(m) => *m,
            None => false,
        }
    }

    /// Marks `key`, for good.
    pub fn mark(&mut self, key: K)
        requires
            old(self).wf(),
        ensures
            final(self).wf(),
            forall|k: K::V| final(self).marked(k) == (old(self).marked(k) || k == key@),
    {
        self.marks.insert(key, true);
    }

    /// The keys that have been marked, each once.
    pub fn list(&self) -> (r: Vec<K>)
        requires
            self.wf(),
        ensures
            forall|k: K::V| key_set(r@).contains(k) == self.marked(k),
    {
        let keys = self.marks.keys();
        let mut r: Vec<K> = Vec::new();
        let mut i: usize = 0;
        while i < keys.len()
            invariant
                self.wf(),
                i <= keys@.len(),
                key_set(keys@) == self.marks.map().dom(),
                forall|j: int| 0 <= j < r@.len() ==> self.marked((#[trigger] r@[j])@),
                forall|j: int|
                    0 <= j < i && self.marked((#[trigger] keys@[j])@) ==> key_set(r@).contains(
                        keys@[j]@,
                    ),
            decreases keys@.len() - i,
        {
            let ghost before = r@;
            if self.check(&keys[i]) {
                r.push(keys[i].duplicate());
                assert(r@[r@.len() - 1]@ == keys@[i as int]@);
            }
            assert forall|j: int|
                0 <= j < i + 1 && self.marked((#[trigger] keys@[j])@) implies key_set(
                r@,
            ).contains(keys@[j]@) by {
                if j < i {
                    assert(key_set(before).contains(keys@[j]@));
                    let w = choose|w: int| 0 <= w < before.len() && (#[trigger] before[w])@
                        == keys@[j]@;
                    assert(r@[w] == before[w]);
                }
            }
            i += 1;
        }
        assert forall|k: K::V| key_set(r@).contains(k) == self.marked(k) by {
            if self.marked(k) {
                assert(key_set(keys@).contains(k));
                let j = choose|j: int| 0 <= j < keys@.len() && (#[trigger] keys@[j])@ == k;
                assert(self.marked(keys@[j]@));
            }
        }
        r
    }
}

} // verus!
