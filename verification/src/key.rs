use vstd::prelude::*;

verus! {

/// A value that can serve as a lookup key: its view is its identity, and it
/// can be compared and copied in executable code.
pub trait Key: View + Sized {
    /// Whether two keys denote the same identity.
    fn same(&self, other: &Self) -> (r: bool)
        ensures
            r == (self@ == other@),
    ;

    /// A fresh key with the same identity.
    fn duplicate(&self) -> (r: Self)
        ensures
            r@ == self@,
    ;
}

impl Key for u32 {
    fn same(&self, other: &Self) -> (r: bool) {
        *self == *other
    }

    fn duplicate(&self) -> (r: Self) {
        *self
    }
}

/// The identities of the keys of a list.
pub open spec fn key_set<K: View>(s: Seq<K>) -> Set<K::V> {
    Set::new(|k: K::V| exists|i: int| 0 <= i < s.len() && (#[trigger] s[i])@ == k)
}

} // verus!
