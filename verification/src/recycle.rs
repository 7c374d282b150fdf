//! Recycling id allocator.
//!
//! Ids are dense small integers.  A fresh id is the next never-used one; a
//! deallocated id goes on a free list and is handed out again before any new
//! id.  The process uses one of these to allocate thread ids.

use vstd::prelude::*;

verus! {

/// Allocator of dense integer ids with recycling.
pub struct RecycleAllocator {
    /// Smallest id never allocated so far.
    current: usize,
    /// Ids returned by `dealloc` and not yet handed out again.
    recycled: Vec<usize>,
}

impl RecycleAllocator {
    /// All recycled ids were once allocated, and none is listed twice.
    pub closed spec fn wf(self) -> bool {
        &&& forall|i: int| 0 <= i < self.recycled@.len() ==> self.recycled@[i] < self.current
        &&& forall|i: int, j: int|
            0 <= i < j < self.recycled@.len() ==> self.recycled@[i] != self.recycled@[j]
    }

    /// Whether `id` is currently handed out.
    pub closed spec fn allocated(self, id: usize) -> bool {
        id < self.current && !self.recycled@.contains(id)
    }

    /// Upper bound on every id handed out so far.
    pub closed spec fn horizon(self) -> usize {
        self.current
    }

    /// A fresh allocator owns no ids.
    pub fn new() -> (a: RecycleAllocator)
        ensures
            a.wf(),
            a.horizon() == 0,
            forall|id: usize| !a.allocated(id),
    {
        RecycleAllocator { current: 0, recycled: Vec::new() }
    }

    /// Allocate an id: the most recently recycled one if any, else a fresh one.
    pub fn alloc_id(&mut self) -> (id: usize)
        requires
            old(self).wf(),
            old(self).horizon() < usize::MAX,
        ensures
            final(self).wf(),
            !old(self).allocated(id),
            final(self).allocated(id),
            forall|x: usize| x != id ==> final(self).allocated(x) == old(self).allocated(x),
            id <= old(self).horizon(),
            final(self).horizon() <= old(self).horizon() + 1,
            old(self).horizon() <= final(self).horizon(),
            final(self).horizon() > old(self).horizon() ==> id == old(self).horizon(),
    {
        if let Some(id) = self.recycled.pop() {
            assert(old(self).recycled@.contains(id)) by {
                assert(old(self).recycled@[old(self).recycled@.len() - 1] == id);
            }
            assert(forall|x: usize|
                x != id && old(self).recycled@.contains(x)
                    ==> self.recycled@.contains(x)) by {
                assert forall|x: usize|
                    x != id && old(self).recycled@.contains(x)
                        implies self.recycled@.contains(x) by {
                    let i = choose|i: int|
                        0 <= i < old(self).recycled@.len() && old(self).recycled@[i] == x;
                    assert(self.recycled@[i] == x);
                }
            }
            id
        } else {
            self.current = self.current + 1;
            self.current - 1
        }
    }

    /// Return an id to the free list.  Deallocating an id that is not held
    /// is a fatal bookkeeping error, so it is required away.
    pub fn dealloc(&mut self, id: usize)
        requires
            old(self).wf(),
            old(self).allocated(id),
        ensures
            final(self).wf(),
            !final(self).allocated(id),
            forall|x: usize| x != id ==> final(self).allocated(x) == old(self).allocated(x),
            final(self).horizon() == old(self).horizon(),
    {
        self.recycled.push(id);
        assert(self.recycled@.contains(id)) by {
            assert(self.recycled@[self.recycled@.len() - 1] == id);
        }
        assert(forall|x: usize|
            x != id ==> self.recycled@.contains(x) == old(self).recycled@.contains(x)) by {
            assert forall|x: usize|
                x != id implies self.recycled@.contains(x) == old(self).recycled@.contains(x) by {
                if old(self).recycled@.contains(x) {
                    let i = choose|i: int|
                        0 <= i < old(self).recycled@.len() && old(self).recycled@[i] == x;
                    assert(self.recycled@[i] == x);
                } else if self.recycled@.contains(x) {
                    let i = choose|i: int|
                        0 <= i < self.recycled@.len() && self.recycled@[i] == x;
                    assert(old(self).recycled@[i] == x);
                }
            }
        }
    }
}

} // verus!
