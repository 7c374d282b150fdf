//! Counting semaphore with FIFO waiters.
//!
//! The counter is signed: a positive value counts free resources, a
//! negative value counts blocked waiters.  `sem_wait` (P) decrements and
//! blocks the caller when no resource was free; `sem_post` (V) increments
//! and wakes the oldest waiter when one was blocked.
//!
//! Two ghost histories record every thread that ever blocked here and every
//! thread woken, in order; together with the queue they state the FIFO law:
//! the k-th thread to block is the k-th thread woken.

use vstd::prelude::*;
use crate::sched::MAX_THREADS;
use crate::sched::Sched;
use crate::tcb::Pending;
use crate::tcb::ThreadControlBlock;
use crate::tcb::TaskStatus;
use crate::tcb::WaitLoc;

verus! {

/// Counting semaphore: signed counter plus FIFO waiter queue.
pub struct Semaphore {
    /// Free resources when non-negative; minus the number of blocked
    /// waiters when negative.
    pub value: isize,
    /// FIFO queue of blocked waiter tids; head is woken first.
    pub waited_queue: Vec<usize>,
    /// Every thread that ever blocked here, oldest first (ghost).
    pub hist_blocked: Ghost<Seq<usize>>,
    /// Every thread woken from here, oldest first (ghost).
    pub hist_woken: Ghost<Seq<usize>>,
}

impl Semaphore {
    /// Sign invariant and history bookkeeping: a negative counter counts
    /// the waiters exactly, and the blocked history is the woken history
    /// followed by the threads still queued.
    pub open spec fn wf(self) -> bool {
        &&& self.value >= 0 ==> self.waited_queue@.len() == 0
        &&& self.value < 0 ==> self.waited_queue@.len() == -(self.value as int)
        &&& self.hist_blocked@ == self.hist_woken@ + self.waited_queue@
    }

    /// A semaphore with `value` free resources and no waiters.  A negative
    /// initial value would break the sign invariant and make the first
    /// posts wake threads that never existed, so it is excluded.
    pub fn new(value: isize) -> (s: Semaphore)
        requires
            value >= 0,
        ensures
            s.wf(),
            s.value == value,
            s.waited_queue@.len() == 0,
            s.hist_blocked@.len() == 0,
            s.hist_woken@.len() == 0,
    {
        Semaphore {
            value,
            waited_queue: Vec::new(),
            hist_blocked: Ghost(Seq::empty()),
            hist_woken: Ghost(Seq::empty()),
        }
    }

    /// P operation: consume a resource; if none was free, the running
    /// thread joins the tail of the waiter queue and blocks.  `l` names the
    /// queue for the scheduler's bookkeeping.
    pub fn sem_wait(&mut self, sched: &mut Sched, Ghost(l): Ghost<WaitLoc>)
        requires
            old(self).wf(),
            old(sched).wf(),
            (old(sched).current is Some),
            old(self).waited_queue@.len() < MAX_THREADS,
        ensures
            final(self).wf(),
            final(sched).wf(),
            final(self).value == old(self).value - 1,
            final(self).hist_woken == old(self).hist_woken,
            // a free resource: the caller takes it and runs on
            old(self).value > 0 ==> {
                &&& *final(sched) == *old(sched)
                &&& final(self).waited_queue == old(self).waited_queue
                &&& final(self).hist_blocked == old(self).hist_blocked
            },
            // none free: the caller is queued and blocked
            old(self).value <= 0 ==> {
                let c = old(sched).current.unwrap();
                &&& final(self).waited_queue@ == old(self).waited_queue@.push(c)
                &&& final(self).hist_blocked@ == old(self).hist_blocked@.push(c)
                &&& Sched::same_threads_except(*old(sched), *final(sched), c)
                &&& final(sched).thread_of(c) == (ThreadControlBlock {
                    status: TaskStatus::Blocked,
                    loc: Ghost(Some(l)),
                    pending: Pending::Return0,
                    ..old(sched).thread_of(c)
                })
                &&& final(sched).parked(c, l)
                &&& (final(sched).current is None)
                &&& final(sched).ready == old(sched).ready
                &&& final(sched).timers == old(sched).timers
                &&& final(sched).time_ms == old(sched).time_ms
                &&& final(sched).tid_alloc == old(sched).tid_alloc
            },
    {
        proof {
            // the queue bound keeps the decrement above isize::MIN
            assert(self.value >= -(MAX_THREADS as int));
        }
        self.value = self.value - 1;
        if self.value < 0 {
            let thread = sched.current_task().unwrap();
            self.waited_queue.push(thread);
            proof {
                self.hist_blocked@ = self.hist_blocked@.push(thread);
                assert(self.hist_blocked@ =~= self.hist_woken@ + self.waited_queue@);
            }
            sched.block_current(Ghost(l), Pending::Return0);
        }
    }

    /// V operation: release a resource; if a thread was blocked, the head
    /// of the queue is woken and hands the resource over.
    pub fn sem_post(&mut self, sched: &mut Sched, Ghost(l): Ghost<WaitLoc>)
        requires
            old(self).wf(),
            old(sched).wf(),
            old(self).value < isize::MAX,
            !(l is Timer),
            old(self).value < 0 ==> old(sched).parked(old(self).waited_queue@[0], l),
        ensures
            final(self).wf(),
            final(sched).wf(),
            final(self).value == old(self).value + 1,
            final(self).hist_blocked == old(self).hist_blocked,
            // no waiter: the resource stays free
            old(self).value >= 0 ==> {
                &&& *final(sched) == *old(sched)
                &&& final(self).waited_queue == old(self).waited_queue
                &&& final(self).hist_woken == old(self).hist_woken
            },
            // oldest waiter woken, FIFO
            old(self).value < 0 ==> {
                let w = old(self).waited_queue@[0];
                &&& final(self).waited_queue@ == old(self).waited_queue@.drop_first()
                &&& final(self).hist_woken@ == old(self).hist_woken@.push(w)
                &&& Sched::same_threads_except(*old(sched), *final(sched), w)
                &&& final(sched).thread_of(w) == (ThreadControlBlock {
                    status: TaskStatus::Ready,
                    loc: Ghost(None),
                    ..old(sched).thread_of(w)
                })
                &&& final(sched).runnable(w)
                &&& final(sched).ready@ == old(sched).ready@.push(w)
                &&& final(sched).current == old(sched).current
                &&& final(sched).timers == old(sched).timers
                &&& final(sched).time_ms == old(sched).time_ms
                &&& final(sched).tid_alloc == old(sched).tid_alloc
            },
    {
        self.value = self.value + 1;
        if self.value <= 0 {
            let thread = self.waited_queue.remove(0);
            proof {
                self.hist_woken@ = self.hist_woken@.push(thread);
                assert(self.waited_queue@ =~= old(self).waited_queue@.drop_first());
                assert(self.hist_blocked@ =~= self.hist_woken@ + self.waited_queue@);
                // the woken thread is not on the sleep timer: timer entries
                // are parked at the timer, it is parked at this queue
                assert forall|k: int| 0 <= k < sched.timers@.len()
                    implies (#[trigger] sched.timers@[k]).tid != thread by {
                    assert(sched.parked(sched.timers@[k].tid, WaitLoc::Timer));
                }
            }
            sched.wakeup_task(thread);
        }
    }
}

} // verus!
