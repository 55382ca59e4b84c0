use vstd::prelude::*;

verus! {

/// Issues the identities of one entity class: 1, 2, 3, ... in that order,
/// each exactly once.
pub struct IdAllocator {
    counter: u32,
}

impl IdAllocator {
    /// The identity issued last; 0 before the first.
    pub closed spec fn issued(&self) -> u32 {
        self.counter
    }

    /// An allocator that has issued nothing.
    pub fn new() -> (r: Self)
        ensures
            r.issued() == 0,
    {
        IdAllocator { counter: 0 }
    }

    /// The identity issued last; 0 before the first.
    pub fn current(&self) -> (r: u32)
        ensures
            r == self.issued(),
    {
        self.counter
    }

    /// Whether every identity of the class has been issued.
    pub fn exhausted(&self) -> (r: bool)
        ensures
            r == (self.issued() == u32::MAX),
    {
        self.counter == u32::MAX
    }

    /// Issues the next identity.
    pub fn next_id(&mut self) -> (r: u32)
        requires
            old(self).issued() < u32::MAX,
        ensures
            r == old(self).issued() + 1,
            final(self).issued() == r,
    {
        self.counter = self.counter + 1;
        self.counter
    }
}

} // verus!
