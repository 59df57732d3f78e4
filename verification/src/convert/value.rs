//! Structured-clone bookkeeping.

use vstd::prelude::*;

verus! {

/// Hands out memo indexes to the objects met while serializing a value,
/// in the order they are met.
pub struct MemoCounter {
    next_index: usize,
}

impl MemoCounter {
    /// The index the next object will get.
    pub closed spec fn spec_next(&self) -> usize {
        self.next_index
    }

    /// A counter starting at 0.
    pub fn new() -> (r: Self)
        ensures
            r.spec_next() == 0,
    {
        MemoCounter { next_index: 0 }
    }

    /// Hands out the next index.
    pub fn next(&mut self) -> (idx: usize)
        requires
            old(self).spec_next() < usize::MAX,
        ensures
            idx == old(self).spec_next(),
            final(self).spec_next() == idx + 1,
    {
        let idx = self.next_index;
        self.next_index = self.next_index + 1;
        idx
    }
}

} // verus!
