//! Thread registry, FIFO ready queue and sleep timer.
//!
//! On a uniprocessor cooperative kernel exactly one thread runs at a time;
//! the scheduler state is the thread table, the FIFO ready queue, the
//! running slot and the sleep timer.  A thread loses the processor only by
//! blocking, yielding or exiting, so every operation here is a plain
//! function from one scheduler state to the next.

use vstd::prelude::*;
use crate::recycle::RecycleAllocator;
use crate::tcb::Pending;
use crate::tcb::TaskStatus;
use crate::tcb::ThreadControlBlock;
use crate::tcb::WaitLoc;

verus! {

/// Capacity of the thread table; a machine limit, far above what the
/// teaching kernel ever creates.
pub const MAX_THREADS: usize = 65536;

/// One sleeping thread: wake it when the clock reaches `expire_ms`.
pub struct TimerEntry {
    /// Absolute deadline in milliseconds.
    pub expire_ms: usize,
    /// The sleeping thread.
    pub tid: usize,
}

/// Scheduler state: thread table, ready queue, running slot, sleep timer.
pub struct Sched {
    /// Thread table, indexed by tid.  A `None` slot is a tid whose thread
    /// was reaped by `waittid` (or never created).
    pub threads: Vec<Option<ThreadControlBlock>>,
    /// FIFO queue of runnable tids; head runs next.
    pub ready: Vec<usize>,
    /// The thread on the processor, if any.
    pub current: Option<usize>,
    /// Sleeping threads, ordered by deadline; equal deadlines keep
    /// insertion order, so threads due at the same tick wake FIFO.
    pub timers: Vec<TimerEntry>,
    /// The clock, in milliseconds.
    pub time_ms: usize,
    /// Allocator of thread ids.
    pub tid_alloc: RecycleAllocator,
}

impl Sched {
    /// The thread in slot `tid`.
    pub open spec fn thread_of(self, tid: usize) -> ThreadControlBlock {
        self.threads@[tid as int].unwrap()
    }

    /// Slot `tid` holds a thread.
    pub open spec fn live(self, tid: usize) -> bool {
        &&& tid < self.threads@.len()
        &&& self.threads@[tid as int] is Some
    }

    /// `tid` is parked in the one waiter queue described by `l`.
    pub open spec fn parked(self, tid: usize, l: WaitLoc) -> bool {
        &&& self.live(tid)
        &&& self.thread_of(tid).status is Blocked
        &&& self.thread_of(tid).exit_code is None
        &&& self.thread_of(tid).res is Some
        &&& self.thread_of(tid).loc@ == Some(l)
    }

    /// `tid` may sit in the ready queue.
    pub open spec fn runnable(self, tid: usize) -> bool {
        &&& self.live(tid)
        &&& self.thread_of(tid).status is Ready
        &&& self.thread_of(tid).exit_code is None
        &&& self.thread_of(tid).res is Some
        &&& self.thread_of(tid).loc@ is None
    }

    /// `tid` may be the running thread.
    pub open spec fn running(self, tid: usize) -> bool {
        &&& self.live(tid)
        &&& self.thread_of(tid).status is Running
        &&& self.thread_of(tid).exit_code is None
        &&& self.thread_of(tid).res is Some
        &&& self.thread_of(tid).loc@ is None
    }

    /// Scheduler invariant.
    pub open spec fn wf(self) -> bool {
        &&& self.threads@.len() <= MAX_THREADS
        &&& self.tid_alloc.wf()
        &&& self.tid_alloc.horizon() <= self.threads@.len()
        // a slot holds the thread with its own index as tid
        &&& forall|i: int|
            0 <= i < self.threads@.len() && self.threads@[i] is Some
                ==> (#[trigger] self.threads@[i]).unwrap().tid == i
        // a thread that still owns its user resource owns its tid
        &&& forall|i: int|
            0 <= i < self.threads@.len() && self.threads@[i] is Some
                && (#[trigger] self.threads@[i]).unwrap().res is Some
                ==> self.tid_alloc.allocated(i as usize)
        // a thread that has exited sits in no queue
        &&& forall|i: int|
            0 <= i < self.threads@.len() && self.threads@[i] is Some
                && ((#[trigger] self.threads@[i]).unwrap().exit_code is Some)
                ==> (self.threads@[i].unwrap().loc@ is None)
        &&& match self.current {
            Some(c) => self.running(c),
            None => true,
        }
        &&& forall|k: int|
            0 <= k < self.ready@.len() ==> self.runnable(#[trigger] self.ready@[k])
        &&& forall|k1: int, k2: int|
            0 <= k1 < k2 < self.ready@.len() ==> self.ready@[k1] != self.ready@[k2]
        &&& forall|k: int|
            0 <= k < self.timers@.len()
                ==> self.parked((#[trigger] self.timers@[k]).tid, WaitLoc::Timer)
        &&& forall|k1: int, k2: int|
            0 <= k1 < k2 < self.timers@.len()
                ==> self.timers@[k1].tid != self.timers@[k2].tid
        &&& forall|k1: int, k2: int|
            0 <= k1 < k2 < self.timers@.len()
                ==> self.timers@[k1].expire_ms <= self.timers@[k2].expire_ms
    }

    /// A well-formed waiter queue: every member is parked at `l`, no
    /// member twice.
    pub open spec fn queue_ok(self, q: Seq<usize>, l: WaitLoc) -> bool {
        &&& forall|k: int| 0 <= k < q.len() ==> self.parked(#[trigger] q[k], l)
        &&& forall|k1: int, k2: int| 0 <= k1 < k2 < q.len() ==> q[k1] != q[k2]
    }

    /// Thread table unchanged except (possibly) slot `tid`.
    pub open spec fn same_threads_except(pre: Sched, post: Sched, tid: usize) -> bool {
        &&& post.threads@.len() == pre.threads@.len()
        &&& forall|i: int|
            0 <= i < pre.threads@.len() && i != tid
                ==> post.threads@[i] == (#[trigger] pre.threads@[i])
    }

    /// An empty scheduler with the clock at zero.
    pub fn new() -> (s: Sched)
        ensures
            s.wf(),
            s.threads@.len() == 0,
            s.ready@.len() == 0,
            (s.current is None),
            s.timers@.len() == 0,
            s.time_ms == 0,
    {
        Sched {
            threads: Vec::new(),
            ready: Vec::new(),
            current: None,
            timers: Vec::new(),
            time_ms: 0,
            tid_alloc: RecycleAllocator::new(),
        }
    }

    /// The running thread's tid, if a thread is running.
    pub fn current_task(&self) -> (t: Option<usize>)
        ensures
            t == self.current,
    {
        self.current
    }

    /// The clock.
    pub fn get_time_ms(&self) -> (t: usize)
        ensures
            t == self.time_ms,
    {
        self.time_ms
    }

    /// Append a runnable thread to the tail of the ready queue.
    pub fn add_task(&mut self, tid: usize)
        requires
            old(self).wf(),
            old(self).runnable(tid),
            !old(self).ready@.contains(tid),
        ensures
            final(self).wf(),
            final(self).ready@ == old(self).ready@.push(tid),
            final(self).threads == old(self).threads,
            final(self).current == old(self).current,
            final(self).timers == old(self).timers,
            final(self).time_ms == old(self).time_ms,
            final(self).tid_alloc == old(self).tid_alloc,
    {
        self.ready.push(tid);
    }

    /// Pop the head of the ready queue.
    pub fn fetch_task(&mut self) -> (t: Option<usize>)
        requires
            old(self).wf(),
        ensures
            final(self).wf(),
            old(self).ready@.len() == 0 ==> (t is None) && *final(self) == *old(self),
            old(self).ready@.len() > 0 ==> {
                &&& t == Some(old(self).ready@[0])
                &&& final(self).ready@ == old(self).ready@.drop_first()
                &&& old(self).runnable(old(self).ready@[0])
            },
            final(self).threads == old(self).threads,
            final(self).current == old(self).current,
            final(self).timers == old(self).timers,
            final(self).time_ms == old(self).time_ms,
            final(self).tid_alloc == old(self).tid_alloc,
    {
        if self.ready.len() == 0 {
            None
        } else {
            let tid = self.ready.remove(0);
            assert(self.ready@ =~= old(self).ready@.drop_first());
            Some(tid)
        }
    }

    /// Remove a thread from the ready queue and from the sleep timer, by
    /// identity.  Keeps a thread that is both somewhere and about to be
    /// scheduled another way from being scheduled twice.
    pub fn remove_task(&mut self, tid: usize)
        requires
            old(self).wf(),
        ensures
            final(self).wf(),
            !old(self).ready@.contains(tid) ==> final(self).ready == old(self).ready,
            old(self).ready@.contains(tid) ==> exists|p: int|
                {
                    &&& 0 <= p < old(self).ready@.len()
                    &&& old(self).ready@[p] == tid
                    &&& final(self).ready@ == (#[trigger] old(self).ready@.remove(p))
                },
            (forall|k: int|
                0 <= k < old(self).timers@.len()
                    ==> (#[trigger] old(self).timers@[k]).tid != tid)
                ==> final(self).timers == old(self).timers,
            (exists|k: int|
                0 <= k < old(self).timers@.len()
                    && (#[trigger] old(self).timers@[k]).tid == tid) ==> exists|p: int|
                {
                    &&& 0 <= p < old(self).timers@.len()
                    &&& old(self).timers@[p].tid == tid
                    &&& final(self).timers@ == (#[trigger] old(self).timers@.remove(p))
                },
            final(self).threads == old(self).threads,
            final(self).current == old(self).current,
            final(self).time_ms == old(self).time_ms,
            final(self).tid_alloc == old(self).tid_alloc,
    {
        let n = self.ready.len();
        let mut i: usize = 0;
        while i < n && self.ready[i] != tid
            invariant
                n == self.ready@.len(),
                i <= n,
                forall|k: int| 0 <= k < i ==> self.ready@[k] != tid,
            decreases n - i,
        {
            i = i + 1;
        }
        if i < n {
            self.ready.remove(i);
            proof {
                assert(old(self).ready@.contains(old(self).ready@[i as int]));
                assert forall|k: int| 0 <= k < self.ready@.len()
                    implies self.runnable(#[trigger] self.ready@[k]) by {
                    if k < i {
                        assert(old(self).runnable(old(self).ready@[k]));
                    } else {
                        assert(old(self).runnable(old(self).ready@[k + 1]));
                    }
                }
            }
        } else {
            proof {
                assert forall|k: int| 0 <= k < old(self).ready@.len()
                    implies old(self).ready@[k] != tid by {}
            }
        }
        let m = self.timers.len();
        let mut j: usize = 0;
        while j < m && self.timers[j].tid != tid
            invariant
                m == self.timers@.len(),
                j <= m,
                forall|k: int| 0 <= k < j ==> (#[trigger] self.timers@[k]).tid != tid,
            decreases m - j,
        {
            j = j + 1;
        }
        if j < m {
            let ghost mid = *self;
            self.timers.remove(j);
            proof {
                assert forall|k: int| 0 <= k < self.timers@.len()
                    implies self.parked((#[trigger] self.timers@[k]).tid, WaitLoc::Timer) by {
                    if k < j {
                        assert(mid.parked(mid.timers@[k].tid, WaitLoc::Timer));
                    } else {
                        assert(mid.parked(mid.timers@[k + 1].tid, WaitLoc::Timer));
                    }
                }
            }
        }
    }

    /// Make a blocked thread ready and enqueue it at the ready-queue tail.
    /// The caller has already removed it from whatever queue held it.
    pub fn wakeup_task(&mut self, tid: usize)
        requires
            old(self).wf(),
            old(self).live(tid),
            old(self).thread_of(tid).status is Blocked,
            old(self).thread_of(tid).exit_code is None,
            old(self).thread_of(tid).res is Some,
            forall|k: int|
                0 <= k < old(self).timers@.len()
                    ==> (#[trigger] old(self).timers@[k]).tid != tid,
        ensures
            final(self).wf(),
            Sched::same_threads_except(*old(self), *final(self), tid),
            final(self).thread_of(tid) == (ThreadControlBlock {
                status: TaskStatus::Ready,
                loc: Ghost(None),
                ..old(self).thread_of(tid)
            }),
            final(self).live(tid) && final(self).runnable(tid),
            final(self).ready@ == old(self).ready@.push(tid),
            final(self).current == old(self).current,
            final(self).timers == old(self).timers,
            final(self).time_ms == old(self).time_ms,
            final(self).tid_alloc == old(self).tid_alloc,
    {
        let t = &mut self.threads[tid];
        match t {
            Some(tcb) => {
                tcb.status = TaskStatus::Ready;
                tcb.loc = Ghost(None);
            },
            None => {
                proof {
                    assert(false);
                }
            },
        }
        self.ready.push(tid);
        proof {
            assert(self.timers@ == old(self).timers@);
            assert forall|k: int| 0 <= k < self.timers@.len()
                implies self.parked((#[trigger] self.timers@[k]).tid, WaitLoc::Timer) by {
                assert(old(self).parked(old(self).timers@[k].tid, WaitLoc::Timer));
            }
        }
    }

    /// Block the running thread: record where it waits and what it will do
    /// when dispatched again, and free the processor.  The caller has
    /// already enqueued it in the queue named by `loc`.
    pub fn block_current(&mut self, Ghost(loc): Ghost<WaitLoc>, pending: Pending)
        requires
            old(self).wf(),
            (old(self).current is Some),
        ensures
            final(self).wf(),
            Sched::same_threads_except(*old(self), *final(self), old(self).current.unwrap()),
            final(self).thread_of(old(self).current.unwrap()) == (ThreadControlBlock {
                status: TaskStatus::Blocked,
                loc: Ghost(Some(loc)),
                pending: pending,
                ..old(self).thread_of(old(self).current.unwrap())
            }),
            final(self).parked(old(self).current.unwrap(), loc),
            (final(self).current is None),
            final(self).ready == old(self).ready,
            final(self).timers == old(self).timers,
            final(self).time_ms == old(self).time_ms,
            final(self).tid_alloc == old(self).tid_alloc,
    {
        let tid = self.current.unwrap();
        let t = &mut self.threads[tid];
        match t {
            Some(tcb) => {
                tcb.status = TaskStatus::Blocked;
                tcb.loc = Ghost(Some(loc));
                tcb.pending = pending;
            },
            None => {
                proof {
                    assert(false);
                }
            },
        }
        self.current = None;
        proof {
            assert forall|k: int| 0 <= k < self.ready@.len()
                implies self.runnable(#[trigger] self.ready@[k]) by {
                assert(old(self).runnable(old(self).ready@[k]));
            }
            assert forall|k: int| 0 <= k < self.timers@.len()
                implies self.parked((#[trigger] self.timers@[k]).tid, WaitLoc::Timer) by {
                assert(old(self).parked(old(self).timers@[k].tid, WaitLoc::Timer));
            }
        }
    }

    /// Voluntarily yield the processor: the running thread goes to the tail
    /// of the ready queue.
    pub fn suspend_current(&mut self)
        requires
            old(self).wf(),
            (old(self).current is Some),
        ensures
            final(self).wf(),
            Sched::same_threads_except(*old(self), *final(self), old(self).current.unwrap()),
            final(self).thread_of(old(self).current.unwrap()) == (ThreadControlBlock {
                status: TaskStatus::Ready,
                ..old(self).thread_of(old(self).current.unwrap())
            }),
            (final(self).current is None),
            final(self).ready@ == old(self).ready@.push(old(self).current.unwrap()),
            final(self).timers == old(self).timers,
            final(self).time_ms == old(self).time_ms,
            final(self).tid_alloc == old(self).tid_alloc,
    {
        let tid = self.current.unwrap();
        let t = &mut self.threads[tid];
        match t {
            Some(tcb) => {
                tcb.status = TaskStatus::Ready;
            },
            None => {
                proof {
                    assert(false);
                }
            },
        }
        self.current = None;
        self.ready.push(tid);
        proof {
            assert forall|k: int| 0 <= k < self.ready@.len()
                implies self.runnable(#[trigger] self.ready@[k]) by {
                if k < self.ready@.len() - 1 {
                    assert(old(self).runnable(old(self).ready@[k]));
                }
            }
            assert forall|k: int| 0 <= k < self.timers@.len()
                implies self.parked((#[trigger] self.timers@[k]).tid, WaitLoc::Timer) by {
                assert(old(self).parked(old(self).timers@[k].tid, WaitLoc::Timer));
            }
        }
    }

    /// Terminate the running thread: record its exit code, drop its user
    /// resource (returning its tid to the allocator) and free the processor.
    /// The slot stays, holding the exit code for `waittid`.
    pub fn exit_current(&mut self, code: i32)
        requires
            old(self).wf(),
            (old(self).current is Some),
        ensures
            final(self).wf(),
            Sched::same_threads_except(*old(self), *final(self), old(self).current.unwrap()),
            final(self).thread_of(old(self).current.unwrap()) == (ThreadControlBlock {
                exit_code: Some(code),
                res: None,
                ..old(self).thread_of(old(self).current.unwrap())
            }),
            final(self).live(old(self).current.unwrap()),
            (final(self).current is None),
            final(self).ready == old(self).ready,
            final(self).timers == old(self).timers,
            final(self).time_ms == old(self).time_ms,
    {
        let tid = self.current.unwrap();
        let t = &mut self.threads[tid];
        match t {
            Some(tcb) => {
                tcb.exit_code = Some(code);
                tcb.res = None;
            },
            None => {
                proof {
                    assert(false);
                }
            },
        }
        self.current = None;
        self.tid_alloc.dealloc(tid);
        proof {
            assert forall|k: int| 0 <= k < self.ready@.len()
                implies self.runnable(#[trigger] self.ready@[k]) by {
                assert(old(self).runnable(old(self).ready@[k]));
            }
            assert forall|k: int| 0 <= k < self.timers@.len()
                implies self.parked((#[trigger] self.timers@[k]).tid, WaitLoc::Timer) by {
                assert(old(self).parked(old(self).timers@[k].tid, WaitLoc::Timer));
            }
        }
    }

    /// Create a thread: allocate a tid (reusing a reaped one if any), give
    /// the thread a fresh resource slot, and enqueue it ready.
    pub fn spawn(&mut self) -> (tid: usize)
        requires
            old(self).wf(),
            old(self).threads@.len() < MAX_THREADS,
        ensures
            final(self).wf(),
            tid < final(self).threads@.len(),
            final(self).runnable(tid),
            final(self).thread_of(tid) == (ThreadControlBlock {
                tid: tid,
                status: TaskStatus::Ready,
                exit_code: None,
                res: Some(tid),
                pending: Pending::Nothing,
                loc: Ghost(None),
            }),
            !old(self).tid_alloc.allocated(tid),
            // existing slots other than `tid` are untouched
            old(self).threads@.len() <= final(self).threads@.len(),
            forall|i: int|
                0 <= i < old(self).threads@.len() && i != tid
                    ==> final(self).threads@[i] == (#[trigger] old(self).threads@[i]),
            final(self).ready@ == old(self).ready@.push(tid),
            final(self).current == old(self).current,
            final(self).timers == old(self).timers,
            final(self).time_ms == old(self).time_ms,
    {
        let tid = self.tid_alloc.alloc_id();
        if self.threads.len() == tid {
            self.threads.push(None);
        }
        let tcb = ThreadControlBlock {
            tid: tid,
            status: TaskStatus::Ready,
            exit_code: None,
            res: Some(tid),
            pending: Pending::Nothing,
            loc: Ghost(None),
        };
        self.threads.set(tid, Some(tcb));
        self.ready.push(tid);
        proof {
            let pre = *old(self);
            // `tid` was free, so every slot that still owns its resource is
            // another slot; in particular nothing scheduled sits at `tid`.
            assert forall|i: int|
                0 <= i < self.threads@.len() && self.threads@[i] is Some
                    && (#[trigger] self.threads@[i]).unwrap().res is Some
                    implies self.tid_alloc.allocated(i as usize) by {
                if i != tid {
                    assert(pre.threads@[i] is Some);
                    assert(pre.tid_alloc.allocated(i as usize));
                }
            }
            match pre.current {
                Some(c) => {
                    assert(pre.running(c));
                    assert(pre.tid_alloc.allocated(c));
                    assert(c != tid);
                },
                None => {},
            }
            assert forall|k: int| 0 <= k < self.ready@.len()
                implies self.runnable(#[trigger] self.ready@[k]) by {
                if k < self.ready@.len() - 1 {
                    let r = pre.ready@[k];
                    assert(pre.runnable(r));
                    assert(pre.tid_alloc.allocated(r));
                    assert(r != tid);
                }
            }
            assert forall|k: int| 0 <= k < self.timers@.len()
                implies self.parked((#[trigger] self.timers@[k]).tid, WaitLoc::Timer) by {
                let r = pre.timers@[k].tid;
                assert(pre.parked(r, WaitLoc::Timer));
                assert(pre.tid_alloc.allocated(r));
                assert(r != tid);
            }
        }
        tid
    }

    /// Terminate a parked thread in place, without waking it: record the
    /// failure exit code and drop its user resource, which returns its tid
    /// to the allocator.  Used by the liveness audit on threads that can
    /// never run again.  The caller removes the thread from its queue.
    pub fn kill_thread(&mut self, tid: usize, Ghost(l): Ghost<WaitLoc>)
        requires
            old(self).wf(),
            old(self).parked(tid, l),
            !(l is Timer),
        ensures
            final(self).wf(),
            Sched::same_threads_except(*old(self), *final(self), tid),
            final(self).thread_of(tid) == (ThreadControlBlock {
                exit_code: Some(-1i32),
                res: None,
                loc: Ghost(None),
                ..old(self).thread_of(tid)
            }),
            final(self).live(tid),
            final(self).ready == old(self).ready,
            final(self).timers == old(self).timers,
            final(self).current == old(self).current,
            final(self).time_ms == old(self).time_ms,
            !final(self).tid_alloc.allocated(tid),
            forall|x: usize|
                x != tid ==> final(self).tid_alloc.allocated(x)
                    == old(self).tid_alloc.allocated(x),
            final(self).tid_alloc.horizon() == old(self).tid_alloc.horizon(),
    {
        let t = &mut self.threads[tid];
        match t {
            Some(tcb) => {
                tcb.exit_code = Some(-1);
                tcb.res = None;
                tcb.loc = Ghost(None);
            },
            None => {
                proof {
                    assert(false);
                }
            },
        }
        self.tid_alloc.dealloc(tid);
        proof {
            assert forall|k: int| 0 <= k < self.ready@.len()
                implies self.runnable(#[trigger] self.ready@[k]) by {
                assert(old(self).runnable(old(self).ready@[k]));
            }
            assert forall|k: int| 0 <= k < self.timers@.len()
                implies self.parked((#[trigger] self.timers@[k]).tid, WaitLoc::Timer) by {
                assert(old(self).parked(old(self).timers@[k].tid, WaitLoc::Timer));
            }
            match self.current {
                Some(c) => {
                    assert(old(self).running(c));
                },
                None => {},
            }
        }
    }

    /// Put the running thread to sleep for `ms` milliseconds: register its
    /// absolute deadline on the timer and block it.  Threads with equal
    /// deadlines keep their registration order.
    pub fn sleep(&mut self, ms: usize)
        requires
            old(self).wf(),
            (old(self).current is Some),
            old(self).time_ms + ms <= usize::MAX,
        ensures
            final(self).wf(),
            Sched::same_threads_except(*old(self), *final(self), old(self).current.unwrap()),
            final(self).thread_of(old(self).current.unwrap()) == (ThreadControlBlock {
                status: TaskStatus::Blocked,
                loc: Ghost(Some(WaitLoc::Timer)),
                pending: Pending::Return0,
                ..old(self).thread_of(old(self).current.unwrap())
            }),
            final(self).parked(old(self).current.unwrap(), WaitLoc::Timer),
            (final(self).current is None),
            final(self).ready == old(self).ready,
            final(self).time_ms == old(self).time_ms,
            final(self).tid_alloc == old(self).tid_alloc,
            // the deadline is registered, after every earlier-or-equal one
            exists|p: int|
                {
                    &&& 0 <= p <= old(self).timers@.len()
                    &&& final(self).timers@ == old(self).timers@.insert(p, (TimerEntry {
                        expire_ms: (old(self).time_ms + ms) as usize,
                        tid: old(self).current.unwrap(),
                    }))
                    &&& forall|k: int|
                        0 <= k < p ==> #[trigger] old(self).timers@[k].expire_ms
                            <= old(self).time_ms + ms
                    &&& p < old(self).timers@.len()
                        ==> old(self).timers@[p].expire_ms > old(self).time_ms + ms
                },
    {
        let tid = self.current.unwrap();
        let expire_ms = self.time_ms + ms;
        self.block_current(Ghost(WaitLoc::Timer), Pending::Return0);
        let mut p: usize = 0;
        while p < self.timers.len() && self.timers[p].expire_ms <= expire_ms
            invariant
                p <= self.timers@.len(),
                forall|k: int| 0 <= k < p ==> #[trigger] self.timers@[k].expire_ms <= expire_ms,
            decreases self.timers@.len() - p,
        {
            p = p + 1;
        }
        let ghost mid = *self;
        self.timers.insert(p, TimerEntry { expire_ms, tid });
        proof {
            assert forall|k: int| 0 <= k < self.timers@.len()
                implies self.parked((#[trigger] self.timers@[k]).tid, WaitLoc::Timer) by {
                if k != p {
                    let k0 = if k < p { k } else { k - 1 };
                    assert(mid.parked(mid.timers@[k0].tid, WaitLoc::Timer));
                }
            }
            assert forall|k1: int, k2: int| 0 <= k1 < k2 < self.timers@.len()
                implies self.timers@[k1].tid != self.timers@[k2].tid by {
                let a = if k1 < p { k1 } else { k1 - 1 };
                let b = if k2 <= p { k2 - 1 } else { k2 - 1 };
                if k1 != p && k2 != p {
                    let b2 = k2 - 1;
                    let a2 = if k1 < p { k1 } else { k1 - 1 };
                    assert(mid.timers@[a2].tid != mid.timers@[if k2 < p { k2 } else { k2 - 1 }].tid);
                } else {
                    // one of them is the new entry: its thread was running,
                    // every other timer thread is blocked
                    let o = if k1 == p { k2 - 1 } else { k1 };
                    assert(mid.parked(mid.timers@[o].tid, WaitLoc::Timer));
                    assert(old(self).running(tid));
                }
            }
            assert forall|k1: int, k2: int| 0 <= k1 < k2 < self.timers@.len()
                implies self.timers@[k1].expire_ms <= self.timers@[k2].expire_ms by {
                if k1 != p && k2 != p {
                    let a = if k1 < p { k1 } else { k1 - 1 };
                    let b = if k2 < p { k2 } else { k2 - 1 };
                    assert(mid.timers@[a].expire_ms <= mid.timers@[b].expire_ms);
                } else if k2 == p {
                    assert(mid.timers@[k1].expire_ms <= expire_ms);
                } else {
                    // k1 == p: entries past the insertion point exceed the
                    // new deadline, by the loop exit test and sortedness
                    let b = k2 - 1;
                    assert(p < mid.timers@.len() ==> mid.timers@[p as int].expire_ms > expire_ms);
                    assert((p as int) <= b && b < mid.timers@.len());
                    assert((p as int) < b ==> mid.timers@[p as int].expire_ms <= mid.timers@[b].expire_ms);
                }
            }
        }
    }

    /// Advance the clock to `now` and wake every thread whose deadline has
    /// passed, in deadline order (FIFO among equal deadlines).  Returns how
    /// many threads woke.  A thread whose deadline is still ahead stays
    /// asleep: a sleeper never becomes ready before its deadline.
    pub fn timer_tick(&mut self, now: usize) -> (n: usize)
        requires
            old(self).wf(),
            now >= old(self).time_ms,
        ensures
            final(self).wf(),
            final(self).time_ms == now,
            n <= old(self).timers@.len(),
            // exactly the due prefix woke
            forall|k: int| 0 <= k < n ==> #[trigger] old(self).timers@[k].expire_ms <= now,
            n < old(self).timers@.len() ==> old(self).timers@[n as int].expire_ms > now,
            // the woken threads joined the ready queue in timer order
            final(self).ready@.len() == old(self).ready@.len() + n,
            forall|k: int|
                0 <= k < old(self).ready@.len()
                    ==> final(self).ready@[k] == #[trigger] old(self).ready@[k],
            forall|k: int|
                0 <= k < n
                    ==> final(self).ready@[old(self).ready@.len() + k]
                        == (#[trigger] old(self).timers@[k]).tid,
            forall|k: int|
                0 <= k < n
                    ==> final(self).thread_of((#[trigger] old(self).timers@[k]).tid)
                        == (ThreadControlBlock {
                            status: TaskStatus::Ready,
                            loc: Ghost(None),
                            ..old(self).thread_of(old(self).timers@[k].tid)
                        }),
            // the rest still sleep, undisturbed
            final(self).timers@ == old(self).timers@.skip(n as int),
            forall|k: int|
                n <= k < old(self).timers@.len()
                    ==> final(self).parked((#[trigger] old(self).timers@[k]).tid, WaitLoc::Timer),
            // threads not woken are untouched
            final(self).threads@.len() == old(self).threads@.len(),
            forall|i: int|
                0 <= i < old(self).threads@.len()
                    && (forall|k: int| 0 <= k < n ==> (#[trigger] old(self).timers@[k]).tid != i)
                    ==> final(self).threads@[i] == #[trigger] old(self).threads@[i],
            final(self).current == old(self).current,
            final(self).tid_alloc == old(self).tid_alloc,
    {
        self.time_ms = now;
        proof {
            assert forall|k: int| 0 <= k < self.timers@.len()
                implies self.parked((#[trigger] self.timers@[k]).tid, WaitLoc::Timer) by {
                assert(old(self).parked(old(self).timers@[k].tid, WaitLoc::Timer));
            }
        }
        let mut n: usize = 0;
        while self.timers.len() > 0 && self.timers[0].expire_ms <= now
            invariant
                self.wf(),
                self.time_ms == now,
                n <= old(self).timers@.len(),
                self.timers@ == old(self).timers@.skip(n as int),
                forall|k: int| 0 <= k < n ==> #[trigger] old(self).timers@[k].expire_ms <= now,
                self.ready@.len() == old(self).ready@.len() + n,
                forall|k: int|
                    0 <= k < old(self).ready@.len()
                        ==> self.ready@[k] == #[trigger] old(self).ready@[k],
                forall|k: int|
                    0 <= k < n
                        ==> self.ready@[old(self).ready@.len() + k]
                            == (#[trigger] old(self).timers@[k]).tid,
                forall|k: int|
                    0 <= k < n
                        ==> self.thread_of((#[trigger] old(self).timers@[k]).tid)
                            == (ThreadControlBlock {
                                status: TaskStatus::Ready,
                                loc: Ghost(None),
                                ..old(self).thread_of(old(self).timers@[k].tid)
                            }),
                self.threads@.len() == old(self).threads@.len(),
                forall|i: int|
                    0 <= i < old(self).threads@.len()
                        && (forall|k: int| 0 <= k < n ==> (#[trigger] old(self).timers@[k]).tid != i)
                        ==> self.threads@[i] == #[trigger] old(self).threads@[i],
                self.current == old(self).current,
                self.tid_alloc == old(self).tid_alloc,
            decreases self.timers@.len(),
        {
            proof {
                assert(old(self).timers.len() == old(self).timers@.len());
                assert(n < old(self).timers@.len());
            }
            let e = self.timers.remove(0);
            proof {
                assert(e == old(self).timers@[n as int]);
                assert(self.timers@ =~= old(self).timers@.skip(n as int + 1));
            }
            let ghost mid = *self;
            self.wakeup_task(e.tid);
            n = n + 1;
            proof {
                assert forall|i: int|
                    0 <= i < old(self).threads@.len()
                        && (forall|k: int| 0 <= k < n ==> (#[trigger] old(self).timers@[k]).tid != i)
                        implies self.threads@[i] == #[trigger] old(self).threads@[i] by {
                    assert(old(self).timers@[n - 1].tid != i);
                    assert(mid.threads@[i] == old(self).threads@[i]);
                }
            }
        }
        proof {
            assert forall|k: int| n <= k < old(self).timers@.len()
                implies self.parked((#[trigger] old(self).timers@[k]).tid, WaitLoc::Timer) by {
                assert(self.timers@[k - n] == old(self).timers@[k]);
                assert(self.parked(self.timers@[k - n].tid, WaitLoc::Timer));
            }
        }
        n
    }

    /// Dispatch the head of the ready queue: it becomes the running
    /// thread.  Returns its tid, or nothing when the ready queue is empty.
    pub fn run_next(&mut self) -> (t: Option<usize>)
        requires
            old(self).wf(),
            (old(self).current is None),
        ensures
            final(self).wf(),
            old(self).ready@.len() == 0 ==> (t is None) && *final(self) == *old(self),
            old(self).ready@.len() > 0 ==> {
                let d = old(self).ready@[0];
                &&& t == Some(d)
                &&& final(self).current == Some(d)
                &&& final(self).ready@ == old(self).ready@.drop_first()
                &&& Sched::same_threads_except(*old(self), *final(self), d)
                &&& final(self).thread_of(d) == (ThreadControlBlock {
                    status: TaskStatus::Running,
                    ..old(self).thread_of(d)
                })
                &&& final(self).running(d)
            },
            final(self).timers == old(self).timers,
            final(self).time_ms == old(self).time_ms,
            final(self).tid_alloc == old(self).tid_alloc,
    {
        let head = self.fetch_task();
        match head {
            Some(tid) => {
                let t = &mut self.threads[tid];
                match t {
                    Some(tcb) => {
                        tcb.status = TaskStatus::Running;
                    },
                    None => {
                        proof {
                            assert(false);
                        }
                    },
                }
                self.current = Some(tid);
                proof {
                    assert forall|k: int| 0 <= k < self.ready@.len()
                        implies self.runnable(#[trigger] self.ready@[k]) by {
                        let r = old(self).ready@[k + 1];
                        assert(old(self).runnable(r));
                        assert(r != tid || old(self).thread_of(r).status is Ready);
                        if r == tid {
                        } else {
                            assert(self.threads@[r as int] == old(self).threads@[r as int]);
                        }
                    }
                    assert forall|k: int| 0 <= k < self.timers@.len()
                        implies self.parked((#[trigger] self.timers@[k]).tid, WaitLoc::Timer) by {
                        let r = old(self).timers@[k].tid;
                        assert(old(self).parked(r, WaitLoc::Timer));
                        assert(r != tid);
                    }
                }
                Some(tid)
            },
            None => None,
        }
    }
}

/// A queue whose members were untouched is still well formed: any changed
/// thread was not parked at this queue's location.
pub proof fn lemma_queue_keep(d0: Sched, d1: Sched, q: Seq<usize>, l: WaitLoc)
    requires
        d0.queue_ok(q, l),
        d1.threads@.len() == d0.threads@.len(),
        forall|i: int|
            0 <= i < d0.threads@.len() && d1.threads@[i] != (#[trigger] d0.threads@[i])
                ==> !(d0.live(i as usize) && d0.thread_of(i as usize).loc@ == Some(l)),
    ensures
        d1.queue_ok(q, l),
{
    assert forall|k: int| 0 <= k < q.len() implies d1.parked(#[trigger] q[k], l) by {
        assert(d0.parked(q[k], l));
        assert(d1.threads@[q[k] as int] == d0.threads@[q[k] as int]);
    }
}

/// A queue that gained the thread `c` at its tail is well formed: `c` was
/// not parked before and is parked at `l` now; at most one other thread
/// `w` moved, and it was not parked at `l`.
pub proof fn lemma_queue_push_blocked(
    d0: Sched,
    d1: Sched,
    q0: Seq<usize>,
    l: WaitLoc,
    c: usize,
    w: usize,
)
    requires
        d0.queue_ok(q0, l),
        d0.live(c),
        (d0.thread_of(c).loc@ is None),
        d1.parked(c, l),
        d1.threads@.len() == d0.threads@.len(),
        forall|i: int|
            0 <= i < d0.threads@.len() && i != c && i != w
                ==> d1.threads@[i] == (#[trigger] d0.threads@[i]),
        w != c && d0.live(w) ==> d0.thread_of(w).loc@ != Some(l),
    ensures
        d1.queue_ok(q0.push(c), l),
{
    assert forall|k: int| 0 <= k < q0.len() implies q0[k] != c && d1.parked(#[trigger] q0[k], l) by {
        assert(d0.parked(q0[k], l));
        assert(d1.threads@[q0[k] as int] == d0.threads@[q0[k] as int]);
    }
}

/// A queue whose head `w` was woken is well formed without it: at most
/// one other thread `c` moved, and it was not parked at `l`.
pub proof fn lemma_queue_drop_woken(
    d0: Sched,
    d1: Sched,
    q0: Seq<usize>,
    l: WaitLoc,
    c: usize,
)
    requires
        d0.queue_ok(q0, l),
        q0.len() > 0,
        d1.threads@.len() == d0.threads@.len(),
        forall|i: int|
            0 <= i < d0.threads@.len() && i != c && i != q0[0]
                ==> d1.threads@[i] == (#[trigger] d0.threads@[i]),
        c != q0[0] && d0.live(c) ==> d0.thread_of(c).loc@ != Some(l),
    ensures
        d1.queue_ok(q0.drop_first(), l),
{
    assert forall|k: int| 0 <= k < q0.drop_first().len()
        implies d1.parked(#[trigger] q0.drop_first()[k], l) by {
        let m = q0[k + 1];
        assert(d0.parked(m, l));
        assert(m != q0[0]);
        assert(m != c);
        assert(d1.threads@[m as int] == d0.threads@[m as int]);
    }
}

/// A well-formed queue has no more members than the thread table has
/// slots: the members are distinct and each indexes a slot.
pub proof fn lemma_queue_small(d: Sched, q: Seq<usize>, l: WaitLoc)
    requires
        d.wf(),
        d.queue_ok(q, l),
    ensures
        q.len() <= d.threads@.len(),
        q.len() <= MAX_THREADS,
        (d.current is Some) ==> q.len() < d.threads@.len(),
        (d.current is Some) ==> q.len() < MAX_THREADS,
{
    assert forall|k: int| 0 <= k < q.len() implies q[k] < d.threads@.len() by {
        assert(d.parked(q[k], l));
    }
    crate::seq_facts::lemma_distinct_bounded(q, d.threads@.len());
    if d.current is Some {
        // the running thread is valid too, and blocked members differ
        // from it, so the members and it together still fit the table
        let c = d.current.unwrap();
        let q2 = q.push(c);
        assert(d.running(c));
        assert forall|k: int| 0 <= k < q2.len() implies q2[k] < d.threads@.len() by {
            if k < q.len() {
                assert(d.parked(q[k], l));
            }
        }
        assert forall|k1: int, k2: int| 0 <= k1 < k2 < q2.len()
            implies q2[k1] != q2[k2] by {
            assert(d.parked(q[k1], l));
            if k2 < q.len() {
                assert(d.parked(q[k2], l));
            }
        }
        crate::seq_facts::lemma_distinct_bounded(q2, d.threads@.len());
    }
}

} // verus!
