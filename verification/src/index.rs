use vstd::prelude::*;
use crate::key::Key;
use crate::table::Table;

verus! {

/// For each key, the identities filed under it, in the order of filing.
/// Lists only grow: nothing is removed, reordered or deduplicated.
pub struct SecondaryIndex<K: Key> {
    lists: Table<K, Vec<u32>>,
}

impl<K: Key> SecondaryIndex<K> {
    pub closed spec fn wf(&self) -> bool {
        self.lists.wf()
    }

    /// The identities filed under `k`; none for a key never filed under.
    pub closed spec fn ids(&self, k: K::V) -> Seq<u32> {
        if self.lists.map().contains_key(k) {
            self.lists.map()[k]@
        } else {
            Seq::empty()
        }
    }

    /// An index with nothing filed.
    pub fn new() -> (r: Self)
        ensures
            r.wf(),
            forall|k: K::V| r.ids(k) == Seq::<u32>::empty(),
    {
        SecondaryIndex { lists: Table::new() }
    }

    /// The identities filed under `key`, oldest first.
    pub fn list(&self, key: &K) -> (r: Vec<u32>)
        requires
            self.wf(),
        ensures
            r@ == self.ids(key@),
    {
        match self.lists.get(key) {
            Some(ids) => {
                let r = ids.clone();
                assert(r@ =~= ids@);
                r
            },
            None => Vec::new(),
        }
    }

    /// Files `id` under `key`, after everything filed there before.
    pub fn append(&mut self, key: &K, id: u32)
        requires
            old(self).wf(),
        ensures
            final(self).wf(),
            final(self).ids(key@) == old(self).ids(key@).push(id),
            forall|k: K::V| k != key@ ==> final(self).ids(k) == old(self).ids(k),
    {
        let mut ids = self.list(key);
        ids.push(id);
        self.lists.insert(key.duplicate(), ids);
    }
}

} // verus!
