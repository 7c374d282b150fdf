//! Interior-mutability cell for a uniprocessor kernel.
//!
//! On a uniprocessor kernel such a cell is usually a dynamically checked
//! exclusive borrow, where taking two overlapping guards is a fatal bug.
//! Here the exclusivity is static — `exclusive_access` borrows the cell
//! mutably, so the borrow checker rules out a second overlapping guard at
//! compile time: the same single-borrower discipline with the failure case
//! made unrepresentable.

use vstd::prelude::*;

verus! {

/// Single-borrower wrapper used by every shared kernel object.
pub struct UPSafeCell<T> {
    value: T,
}

impl<T> View for UPSafeCell<T> {
    type V = T;

    /// A cell is just its content.
    closed spec fn view(&self) -> T {
        self.value
    }
}

impl<T> UPSafeCell<T> {
    /// Wrap a value.  The caller guarantees the cell is only ever used on a
    /// single processor, which this sequential model enforces by having one
    /// owner of the whole kernel state.
    pub fn new(value: T) -> (cell: Self)
        ensures
            cell@ == value,
    {
        UPSafeCell { value }
    }

    /// Exclusive access to the inner value.
    pub fn exclusive_access(&mut self) -> (inner: &mut T)
        ensures
            *inner == old(self)@,
            final(self)@ == *final(inner),
    {
        &mut self.value
    }
}

} // verus!
