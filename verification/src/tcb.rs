//! Thread control blocks.
//!
//! A thread is created outside the synchronization core and handed to it as
//! a table slot.  The core reads and writes its status, its exit code and
//! its resource slot; everything else about a thread (stacks, trap context,
//! address space) is out of scope and not modelled.

use vstd::prelude::*;

verus! {

/// Scheduling state of a thread.
#[derive(Copy, Clone, PartialEq, Eq, Structural, Debug)]
pub enum TaskStatus {
    /// In the ready queue, runnable.
    Ready,
    /// The one thread currently on the processor.
    Running,
    /// Parked in a waiter queue or on the sleep timer.
    Blocked,
}

/// Where a blocked thread is parked.  Ghost bookkeeping only: it backs the
/// invariant that a thread sits in at most one queue at a time (two queues
/// with different locations cannot both hold the same thread).
pub enum WaitLoc {
    /// Waiter queue of the mutex with this id.
    MutexQ(usize),
    /// Waiter queue of the standalone semaphore with this id.
    SemQ(usize),
    /// Entry queue of the monitor with this id.
    MonEntry(usize),
    /// Urgent queue of the monitor with this id.
    MonUrgent(usize),
    /// Waiter queue of condition `res_id` of the monitor `mon_id`.
    MonCond { mon_id: usize, res_id: usize },
    /// The sleep timer.
    Timer,
}

/// What a blocked thread reports when it is next dispatched.
pub enum Pending {
    /// Nothing: the thread was freshly created or yielded voluntarily.
    Nothing,
    /// Woken from a lock or semaphore (plain, entry, urgent or condition)
    /// or by the sleep timer: the suspended call is complete and returns 0.
    Return0,
}

/// Thread control block, as far as the synchronization core sees it.
pub struct ThreadControlBlock {
    /// Thread id; equals the thread's index in the thread table.
    pub tid: usize,
    /// Scheduling state.
    pub status: TaskStatus,
    /// Set once, when the thread exits or is killed by the liveness audit.
    pub exit_code: Option<i32>,
    /// User resource slot (user stack, trap context), opaque to the core;
    /// holds the tid it was allocated for.  Dropped on exit or kill, which
    /// returns the tid to the recycling allocator.
    pub res: Option<usize>,
    /// Continuation to run when the thread is next dispatched.
    pub pending: Pending,
    /// Which queue the thread is parked in, if any (ghost).
    pub loc: Ghost<Option<WaitLoc>>,
}

} // verus!
