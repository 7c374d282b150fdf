//! Binary lock with FIFO waiters.
//!
//! The lock hands off directly: `unlock` with waiters keeps the flag set
//! and makes the oldest waiter the new owner, so the queue is never
//! non-empty while the lock is free.  Mutual exclusion is recorded in a
//! ghost owner: the flag is set exactly while one thread owns the lock.

use vstd::prelude::*;
use crate::sched::MAX_THREADS;
use crate::sched::Sched;
use crate::tcb::Pending;
use crate::tcb::TaskStatus;
use crate::tcb::ThreadControlBlock;
use crate::tcb::WaitLoc;

verus! {

/// Binary lock: flag plus FIFO waiter queue.
pub struct Mutex {
    /// True while a thread holds the lock.
    pub is_locked: bool,
    /// FIFO queue of blocked tids; head is woken first.
    pub waited_queue: Vec<usize>,
    /// The thread holding the lock (ghost).  At most one by construction:
    /// this is the mutual-exclusion invariant.
    pub owner: Ghost<Option<usize>>,
    /// Every thread that ever blocked here, oldest first (ghost).
    pub hist_blocked: Ghost<Seq<usize>>,
    /// Every thread woken from here, oldest first (ghost).
    pub hist_woken: Ghost<Seq<usize>>,
}

impl Mutex {
    /// The flag holds exactly when some thread owns the lock; waiters only
    /// pile up while it is held; history matches the queue.
    pub open spec fn wf(self) -> bool {
        &&& (self.owner@ is Some) <==> self.is_locked
        &&& self.waited_queue@.len() > 0 ==> self.is_locked
        &&& self.hist_blocked@ == self.hist_woken@ + self.waited_queue@
    }

    /// An open lock.
    pub fn new() -> (m: Mutex)
        ensures
            m.wf(),
            !m.is_locked,
            (m.owner@ is None),
            m.waited_queue@.len() == 0,
            m.hist_blocked@.len() == 0,
            m.hist_woken@.len() == 0,
    {
        Mutex {
            is_locked: false,
            waited_queue: Vec::new(),
            owner: Ghost(None),
            hist_blocked: Ghost(Seq::empty()),
            hist_woken: Ghost(Seq::empty()),
        }
    }

    /// Acquire the lock for the running thread: take it if it is free, else
    /// join the waiter-queue tail and block until a holder hands it over.
    /// Returns whether the lock was taken at once.  `mid` is the lock's id
    /// in its process table, naming the queue the thread waits in.
    pub fn lock(&mut self, sched: &mut Sched, mid: usize) -> (acquired: bool)
        requires
            old(self).wf(),
            old(sched).wf(),
            (old(sched).current is Some),
            old(self).waited_queue@.len() < MAX_THREADS,
        ensures
            final(self).wf(),
            final(sched).wf(),
            acquired == !old(self).is_locked,
            final(self).is_locked,
            final(self).hist_woken == old(self).hist_woken,
            // free: the caller becomes the one owner
            !old(self).is_locked ==> {
                let c = old(sched).current.unwrap();
                &&& final(self).owner@ == Some(c)
                &&& final(self).waited_queue == old(self).waited_queue
                &&& final(self).hist_blocked == old(self).hist_blocked
                &&& *final(sched) == *old(sched)
            },
            // held: the caller is queued and blocked, owner unchanged
            old(self).is_locked ==> {
                let c = old(sched).current.unwrap();
                &&& final(self).owner == old(self).owner
                &&& final(self).waited_queue@ == old(self).waited_queue@.push(c)
                &&& final(self).hist_blocked@ == old(self).hist_blocked@.push(c)
                &&& Sched::same_threads_except(*old(sched), *final(sched), c)
                &&& final(sched).thread_of(c) == (ThreadControlBlock {
                    status: TaskStatus::Blocked,
                    loc: Ghost(Some(WaitLoc::MutexQ(mid))),
                    pending: Pending::Return0,
                    ..old(sched).thread_of(c)
                })
                &&& final(sched).parked(c, WaitLoc::MutexQ(mid))
                &&& (final(sched).current is None)
                &&& final(sched).ready == old(sched).ready
                &&& final(sched).timers == old(sched).timers
                &&& final(sched).time_ms == old(sched).time_ms
                &&& final(sched).tid_alloc == old(sched).tid_alloc
            },
    {
        let thread = sched.current_task().unwrap();
        if self.is_locked {
            self.waited_queue.push(thread);
            proof {
                self.hist_blocked@ = self.hist_blocked@.push(thread);
                assert(self.hist_blocked@ =~= self.hist_woken@ + self.waited_queue@);
            }
            sched.block_current(Ghost(WaitLoc::MutexQ(mid)), Pending::Return0);
            false
        } else {
            self.is_locked = true;
            proof {
                self.owner@ = Some(thread);
            }
            true
        }
    }

    /// Release the lock.  With waiters the oldest one is woken and owns the
    /// lock from this moment (direct hand-off), so no third thread can
    /// slip in between; with none the lock becomes free.
    pub fn unlock(&mut self, sched: &mut Sched, mid: usize)
        requires
            old(self).wf(),
            old(sched).wf(),
            old(self).waited_queue@.len() > 0
                ==> old(sched).parked(old(self).waited_queue@[0], WaitLoc::MutexQ(mid)),
        ensures
            final(self).wf(),
            final(sched).wf(),
            final(self).hist_blocked == old(self).hist_blocked,
            // nobody waited: the lock is free
            old(self).waited_queue@.len() == 0 ==> {
                &&& !final(self).is_locked
                &&& (final(self).owner@ is None)
                &&& *final(sched) == *old(sched)
                &&& final(self).waited_queue == old(self).waited_queue
                &&& final(self).hist_woken == old(self).hist_woken
            },
            // oldest waiter woken, FIFO, and owns the lock at once
            old(self).waited_queue@.len() > 0 ==> {
                let w = old(self).waited_queue@[0];
                &&& final(self).is_locked
                &&& final(self).owner@ == Some(w)
                &&& final(self).waited_queue@ == old(self).waited_queue@.drop_first()
                &&& final(self).hist_woken@ == old(self).hist_woken@.push(w)
                &&& Sched::same_threads_except(*old(sched), *final(sched), w)
                &&& final(sched).runnable(w)
                &&& final(sched).thread_of(w) == (ThreadControlBlock {
                    status: TaskStatus::Ready,
                    loc: Ghost(None),
                    ..old(sched).thread_of(w)
                })
                &&& final(sched).ready@ == old(sched).ready@.push(w)
                &&& final(sched).current == old(sched).current
                &&& final(sched).timers == old(sched).timers
                &&& final(sched).time_ms == old(sched).time_ms
                &&& final(sched).tid_alloc == old(sched).tid_alloc
            },
    {
        if self.waited_queue.len() > 0 {
            let thread = self.waited_queue.remove(0);
            proof {
                self.owner@ = Some(thread);
                self.hist_woken@ = self.hist_woken@.push(thread);
                assert(self.waited_queue@ =~= old(self).waited_queue@.drop_first());
                assert(self.hist_blocked@ =~= self.hist_woken@ + self.waited_queue@);
                assert forall|k: int| 0 <= k < sched.timers@.len()
                    implies (#[trigger] sched.timers@[k]).tid != thread by {
                    assert(sched.parked(sched.timers@[k].tid, WaitLoc::Timer));
                }
            }
            sched.wakeup_task(thread);
        } else {
            self.is_locked = false;
            proof {
                self.owner@ = None;
            }
        }
    }

    /// Whether the lock is held.
    pub fn is_locked(&self) -> (b: bool)
        ensures
            b == self.is_locked,
    {
        self.is_locked
    }
}

} // verus!
