//! The process's view of the core: primitive tables and syscall handlers.
//!
//! A `Kernel` owns the scheduler and the three per-process primitive
//! tables.  Ids are dense indices into the tables; destroying a primitive
//! tombstones its slot without compacting, so ids stay stable.  Each
//! syscall handler is a verified transition on the whole kernel state; a
//! bad id makes an operation fail with -1 and change nothing.

use vstd::prelude::*;
use vstd::pervasive::VecAdditionalExecFns;
use crate::monitor::HoareMonitor;
use crate::mutex::Mutex;
use crate::sched::MAX_THREADS;
use crate::sched::Sched;
use crate::sched::lemma_queue_keep;
use crate::sched::lemma_queue_push_blocked;
use crate::sched::lemma_queue_drop_woken;
use crate::sched::lemma_queue_small;
use crate::semaphore::Semaphore;
use crate::tcb::WaitLoc;

verus! {

/// Syscall id: exit the running thread.
pub const SYSCALL_EXIT: usize = 93;

/// Syscall id: sleep for a number of milliseconds.
pub const SYSCALL_SLEEP: usize = 101;

/// Syscall id: yield the processor.
pub const SYSCALL_YIELD: usize = 124;

/// Syscall id: read the clock.
pub const SYSCALL_GET_TIME: usize = 169;

/// Syscall id: create a mutex.
pub const SYSCALL_MUTEX_CREATE: usize = 501;

/// Syscall id: acquire a mutex.
pub const SYSCALL_MUTEX_LOCK: usize = 502;

/// Syscall id: release a mutex.
pub const SYSCALL_MUTEX_UNLOCK: usize = 503;

/// Syscall id: create a semaphore.
pub const SYSCALL_SEM_CREATE: usize = 504;

/// Syscall id: P operation.
pub const SYSCALL_SEM_WAIT: usize = 506;

/// Syscall id: V operation.
pub const SYSCALL_SEM_POST: usize = 507;

/// Syscall id: destroy a semaphore.
pub const SYSCALL_SEM_DESTROY: usize = 508;

/// Syscall id: destroy a mutex.
pub const SYSCALL_MUTEX_DESTROY: usize = 509;

/// Syscall id: create a monitor.
pub const SYSCALL_MONITOR_CREATE: usize = 510;

/// Syscall id: enter a monitor.
pub const SYSCALL_MONITOR_ENTER: usize = 511;

/// Syscall id: leave a monitor.
pub const SYSCALL_MONITOR_LEAVE: usize = 512;

/// Syscall id: create a condition variable in a monitor.
pub const SYSCALL_MONITOR_CREATE_RES_SEM: usize = 513;

/// Syscall id: wait on a condition variable.
pub const SYSCALL_MONITOR_WAIT: usize = 514;

/// Syscall id: signal a condition variable.
pub const SYSCALL_MONITOR_SIGNAL: usize = 515;

/// Syscall id: destroy a monitor.
pub const SYSCALL_MONITOR_DESTROY: usize = 516;

/// Syscall id: run the liveness audit on a monitor.
pub const SYSCALL_MONITOR_CHECK: usize = 517;

/// Syscall id: create a thread.
pub const SYSCALL_THREAD_CREATE: usize = 1000;

/// Syscall id: the running thread's tid.
pub const SYSCALL_GETTID: usize = 1001;

/// Syscall id: reap an exited thread.
pub const SYSCALL_WAITTID: usize = 1002;

/// The synchronization core of one process: scheduler plus the tables of
/// mutexes, semaphores and monitors.
pub struct Kernel {
    /// Thread registry, ready queue, running slot, sleep timer.
    pub sched: Sched,
    /// Mutex table; a `None` slot is a destroyed id.
    pub mutex_list: Vec<Option<Mutex>>,
    /// Semaphore table.
    pub sem_list: Vec<Option<Semaphore>>,
    /// Monitor table.
    pub monitor_list: Vec<Option<HoareMonitor>>,
}

impl Kernel {
    /// Slot `id` holds a live mutex.
    pub open spec fn valid_mutex(self, id: usize) -> bool {
        id < self.mutex_list@.len() && (self.mutex_list@[id as int] is Some)
    }

    /// The mutex in slot `id`.
    pub open spec fn mutex_of(self, id: usize) -> Mutex {
        self.mutex_list@[id as int].unwrap()
    }

    /// Slot `id` holds a live semaphore.
    pub open spec fn valid_sem(self, id: usize) -> bool {
        id < self.sem_list@.len() && (self.sem_list@[id as int] is Some)
    }

    /// The semaphore in slot `id`.
    pub open spec fn sem_of(self, id: usize) -> Semaphore {
        self.sem_list@[id as int].unwrap()
    }

    /// Slot `id` holds a live monitor.
    pub open spec fn valid_monitor(self, id: usize) -> bool {
        id < self.monitor_list@.len() && (self.monitor_list@[id as int] is Some)
    }

    /// The monitor in slot `id`.
    pub open spec fn monitor_of(self, id: usize) -> HoareMonitor {
        self.monitor_list@[id as int].unwrap()
    }

    /// Mutex slot `i` is internally consistent and its waiters are parked
    /// threads of this mutex's queue.
    pub open spec fn mutex_ok(self, i: int) -> bool {
        match self.mutex_list@[i] {
            Some(m) => m.wf() && self.sched.queue_ok(
                m.waited_queue@,
                WaitLoc::MutexQ(i as usize),
            ),
            None => true,
        }
    }

    /// Semaphore slot `i` likewise.
    pub open spec fn sem_ok(self, i: int) -> bool {
        match self.sem_list@[i] {
            Some(s) => s.wf() && self.sched.queue_ok(
                s.waited_queue@,
                WaitLoc::SemQ(i as usize),
            ),
            None => true,
        }
    }

    /// Monitor slot `i` likewise, for all of its queues.
    pub open spec fn monitor_ok(self, i: int) -> bool {
        match self.monitor_list@[i] {
            Some(m) => {
                &&& m.wf()
                &&& self.sched.queue_ok(
                    m.entry.waited_queue@,
                    WaitLoc::MonEntry(i as usize),
                )
                &&& self.sched.queue_ok(
                    m.urgent.waited_queue@,
                    WaitLoc::MonUrgent(i as usize),
                )
                &&& forall|j: int|
                    0 <= j < m.cond_sems@.len()
                        ==> self.sched.queue_ok(
                            (#[trigger] m.cond_sems@[j]).waited_queue@,
                            WaitLoc::MonCond { mon_id: i as usize, res_id: j as usize },
                        )
            },
            None => true,
        }
    }

    /// Kernel invariant: the scheduler is well formed and so is every
    /// primitive together with its waiter queues.
    pub open spec fn inv(self) -> bool {
        &&& self.sched.wf()
        &&& forall|i: int| 0 <= i < self.mutex_list@.len() ==> #[trigger] self.mutex_ok(i)
        &&& forall|i: int| 0 <= i < self.sem_list@.len() ==> #[trigger] self.sem_ok(i)
        &&& forall|i: int| 0 <= i < self.monitor_list@.len() ==> #[trigger] self.monitor_ok(i)
    }

    /// A thread that moved is excused if it was not parked anywhere, or
    /// was asleep, or was parked at a queue of the exempt slot of its
    /// table (`em`: mutex, `es`: semaphore, `emon`: monitor; -1 for none).
    pub open spec fn loc_exempt(d0: Sched, i: int, em: int, es: int, emon: int) -> bool {
        !d0.live(i as usize) || match d0.thread_of(i as usize).loc@ {
            None => true,
            Some(l) => match l {
                WaitLoc::MutexQ(m) => m == em,
                WaitLoc::SemQ(s) => s == es,
                WaitLoc::MonEntry(x) => x == emon,
                WaitLoc::MonUrgent(x) => x == emon,
                WaitLoc::MonCond { mon_id, res_id: _ } => mon_id == emon,
                WaitLoc::Timer => true,
            },
        }
    }

    /// Every slot other than the exempt ones keeps its queues well
    /// formed, because the threads that moved were not parked in them.
    proof fn lemma_inv_untouched(pre: Kernel, post: Kernel, em: int, es: int, emon: int)
        requires
            pre.inv(),
            post.sched.threads@.len() == pre.sched.threads@.len(),
            forall|i: int|
                0 <= i < pre.sched.threads@.len()
                    && post.sched.threads@[i] != (#[trigger] pre.sched.threads@[i])
                    ==> Kernel::loc_exempt(pre.sched, i, em, es, emon),
            post.mutex_list@.len() == pre.mutex_list@.len(),
            forall|i: int|
                0 <= i < pre.mutex_list@.len() && i != em
                    ==> post.mutex_list@[i] == (#[trigger] pre.mutex_list@[i]),
            post.sem_list@.len() == pre.sem_list@.len(),
            forall|i: int|
                0 <= i < pre.sem_list@.len() && i != es
                    ==> post.sem_list@[i] == (#[trigger] pre.sem_list@[i]),
            post.monitor_list@.len() == pre.monitor_list@.len(),
            forall|i: int|
                0 <= i < pre.monitor_list@.len() && i != emon
                    ==> post.monitor_list@[i] == (#[trigger] pre.monitor_list@[i]),
        ensures
            forall|i: int|
                0 <= i < post.mutex_list@.len() && i != em ==> #[trigger] post.mutex_ok(i),
            forall|i: int|
                0 <= i < post.sem_list@.len() && i != es ==> #[trigger] post.sem_ok(i),
            forall|i: int|
                0 <= i < post.monitor_list@.len() && i != emon
                    ==> #[trigger] post.monitor_ok(i),
    {
        assert(post.mutex_list.len() == post.mutex_list@.len());
        assert(post.sem_list.len() == post.sem_list@.len());
        assert(post.monitor_list.len() == post.monitor_list@.len());
        assert forall|i: int| 0 <= i < post.mutex_list@.len() && i != em
            implies #[trigger] post.mutex_ok(i) by {
            assert(pre.mutex_ok(i));
            match post.mutex_list@[i] {
                Some(m) => {
                    assert forall|x: int|
                        0 <= x < pre.sched.threads@.len()
                            && post.sched.threads@[x] != (#[trigger] pre.sched.threads@[x])
                            implies !(pre.sched.live(x as usize)
                                && pre.sched.thread_of(x as usize).loc@
                                    == Some(WaitLoc::MutexQ(i as usize))) by {
                        assert(Kernel::loc_exempt(pre.sched, x, em, es, emon));
                    }
                    lemma_queue_keep(
                        pre.sched,
                        post.sched,
                        m.waited_queue@,
                        WaitLoc::MutexQ(i as usize),
                    );
                },
                None => {},
            }
        }
        assert forall|i: int| 0 <= i < post.sem_list@.len() && i != es
            implies #[trigger] post.sem_ok(i) by {
            assert(pre.sem_ok(i));
            match post.sem_list@[i] {
                Some(s) => {
                    assert forall|x: int|
                        0 <= x < pre.sched.threads@.len()
                            && post.sched.threads@[x] != (#[trigger] pre.sched.threads@[x])
                            implies !(pre.sched.live(x as usize)
                                && pre.sched.thread_of(x as usize).loc@
                                    == Some(WaitLoc::SemQ(i as usize))) by {
                        assert(Kernel::loc_exempt(pre.sched, x, em, es, emon));
                    }
                    lemma_queue_keep(
                        pre.sched,
                        post.sched,
                        s.waited_queue@,
                        WaitLoc::SemQ(i as usize),
                    );
                },
                None => {},
            }
        }
        assert forall|i: int| 0 <= i < post.monitor_list@.len() && i != emon
            implies #[trigger] post.monitor_ok(i) by {
            assert(pre.monitor_ok(i));
            match post.monitor_list@[i] {
                Some(m) => {
                    assert forall|x: int|
                        0 <= x < pre.sched.threads@.len()
                            && post.sched.threads@[x] != (#[trigger] pre.sched.threads@[x])
                            implies !(pre.sched.live(x as usize)
                                && pre.sched.thread_of(x as usize).loc@
                                    == Some(WaitLoc::MonEntry(i as usize))) by {
                        assert(Kernel::loc_exempt(pre.sched, x, em, es, emon));
                    }
                    assert forall|x: int|
                        0 <= x < pre.sched.threads@.len()
                            && post.sched.threads@[x] != (#[trigger] pre.sched.threads@[x])
                            implies !(pre.sched.live(x as usize)
                                && pre.sched.thread_of(x as usize).loc@
                                    == Some(WaitLoc::MonUrgent(i as usize))) by {
                        assert(Kernel::loc_exempt(pre.sched, x, em, es, emon));
                    }
                    lemma_queue_keep(
                        pre.sched,
                        post.sched,
                        m.entry.waited_queue@,
                        WaitLoc::MonEntry(i as usize),
                    );
                    lemma_queue_keep(
                        pre.sched,
                        post.sched,
                        m.urgent.waited_queue@,
                        WaitLoc::MonUrgent(i as usize),
                    );
                    assert forall|j: int| 0 <= j < m.cond_sems@.len()
                        implies post.sched.queue_ok(
                            (#[trigger] m.cond_sems@[j]).waited_queue@,
                            WaitLoc::MonCond { mon_id: i as usize, res_id: j as usize },
                        ) by {
                    assert forall|x: int|
                        0 <= x < pre.sched.threads@.len()
                            && post.sched.threads@[x] != (#[trigger] pre.sched.threads@[x])
                            implies !(pre.sched.live(x as usize)
                                && pre.sched.thread_of(x as usize).loc@
                                    == Some(WaitLoc::MonCond { mon_id: i as usize, res_id: j as usize })) by {
                        assert(Kernel::loc_exempt(pre.sched, x, em, es, emon));
                    }
                        lemma_queue_keep(
                            pre.sched,
                            post.sched,
                            m.cond_sems@[j].waited_queue@,
                            WaitLoc::MonCond { mon_id: i as usize, res_id: j as usize },
                        );
                    }
                },
                None => {},
            }
        }
    }

    /// A fresh kernel: no threads, no primitives, clock at zero.
    pub fn new() -> (k: Kernel)
        ensures
            k.inv(),
            k.sched.threads@.len() == 0,
            (k.sched.current is None),
            k.sched.ready@.len() == 0,
            k.sched.timers@.len() == 0,
            k.sched.time_ms == 0,
            k.mutex_list@.len() == 0,
            k.sem_list@.len() == 0,
            k.monitor_list@.len() == 0,
    {
        Kernel {
            sched: Sched::new(),
            mutex_list: Vec::new(),
            sem_list: Vec::new(),
            monitor_list: Vec::new(),
        }
    }

    /// Create a thread: it gets the lowest reusable tid and joins the tail
    /// of the ready queue.  `entry` and `arg` describe the user-mode code
    /// the thread will run, which is outside this core: the caller's
    /// driver maps the returned tid to that behavior.
    pub fn sys_thread_create(&mut self, entry: usize, arg: usize) -> (r: isize)
        requires
            old(self).inv(),
            old(self).sched.threads@.len() < MAX_THREADS,
        ensures
            final(self).inv(),
            0 <= r < MAX_THREADS,
            final(self).sched.runnable(r as usize),
            !old(self).sched.tid_alloc.allocated(r as usize),
            final(self).sched.ready@ == old(self).sched.ready@.push(r as usize),
            final(self).sched.current == old(self).sched.current,
            final(self).sched.timers == old(self).sched.timers,
            final(self).sched.time_ms == old(self).sched.time_ms,
            old(self).sched.threads@.len() <= final(self).sched.threads@.len(),
            forall|i: int|
                0 <= i < old(self).sched.threads@.len() && i != r
                    ==> final(self).sched.threads@[i]
                        == (#[trigger] old(self).sched.threads@[i]),
            final(self).mutex_list == old(self).mutex_list,
            final(self).sem_list == old(self).sem_list,
            final(self).monitor_list == old(self).monitor_list,
    {
        let _ = entry;
        let _ = arg;
        let tid = self.sched.spawn();
        proof {
            Kernel::lemma_inv_queues_extend(*old(self), *self, tid);
        }
        tid as isize
    }

    /// Queues survive a table extension at a tid that was free.
    proof fn lemma_inv_queues_extend(pre: Kernel, post: Kernel, tid: usize)
        requires
            pre.inv(),
            post.mutex_list == pre.mutex_list,
            post.sem_list == pre.sem_list,
            post.monitor_list == pre.monitor_list,
            post.sched.wf(),
            pre.sched.threads@.len() <= post.sched.threads@.len(),
            forall|i: int|
                0 <= i < pre.sched.threads@.len() && i != tid
                    ==> post.sched.threads@[i] == (#[trigger] pre.sched.threads@[i]),
            !pre.sched.tid_alloc.allocated(tid),
        ensures
            post.inv(),
    {
        assert forall|i: int| 0 <= i < post.mutex_list@.len()
            implies #[trigger] post.mutex_ok(i) by {
            assert(pre.mutex_ok(i));
            match post.mutex_list@[i] {
                Some(m) => {
                    Kernel::lemma_queue_keep_grow(
                        pre.sched,
                        post.sched,
                        m.waited_queue@,
                        WaitLoc::MutexQ(i as usize),
                        tid,
                    );
                },
                None => {},
            }
        }
        assert forall|i: int| 0 <= i < post.sem_list@.len()
            implies #[trigger] post.sem_ok(i) by {
            assert(pre.sem_ok(i));
            match post.sem_list@[i] {
                Some(s) => {
                    Kernel::lemma_queue_keep_grow(
                        pre.sched,
                        post.sched,
                        s.waited_queue@,
                        WaitLoc::SemQ(i as usize),
                        tid,
                    );
                },
                None => {},
            }
        }
        assert forall|i: int| 0 <= i < post.monitor_list@.len()
            implies #[trigger] post.monitor_ok(i) by {
            assert(pre.monitor_ok(i));
            match post.monitor_list@[i] {
                Some(m) => {
                    Kernel::lemma_queue_keep_grow(
                        pre.sched,
                        post.sched,
                        m.entry.waited_queue@,
                        WaitLoc::MonEntry(i as usize),
                        tid,
                    );
                    Kernel::lemma_queue_keep_grow(
                        pre.sched,
                        post.sched,
                        m.urgent.waited_queue@,
                        WaitLoc::MonUrgent(i as usize),
                        tid,
                    );
                    assert forall|j: int| 0 <= j < m.cond_sems@.len()
                        implies post.sched.queue_ok(
                            (#[trigger] m.cond_sems@[j]).waited_queue@,
                            WaitLoc::MonCond { mon_id: i as usize, res_id: j as usize },
                        ) by {
                        Kernel::lemma_queue_keep_grow(
                            pre.sched,
                            post.sched,
                            m.cond_sems@[j].waited_queue@,
                            WaitLoc::MonCond { mon_id: i as usize, res_id: j as usize },
                            tid,
                        );
                    }
                },
                None => {},
            }
        }
    }

    /// One queue survives a table extension at a free tid: no member can
    /// be that tid, because members hold their resource and so own their
    /// tid, which a free tid is not.
    proof fn lemma_queue_keep_grow(d0: Sched, d1: Sched, q: Seq<usize>, l: WaitLoc, tid: usize)
        requires
            d0.wf(),
            d0.queue_ok(q, l),
            d1.threads@.len() >= d0.threads@.len(),
            forall|i: int|
                0 <= i < d0.threads@.len() && i != tid
                    ==> d1.threads@[i] == (#[trigger] d0.threads@[i]),
            !d0.tid_alloc.allocated(tid),
        ensures
            d1.queue_ok(q, l),
    {
        assert forall|k: int| 0 <= k < q.len() implies d1.parked(#[trigger] q[k], l) by {
            assert(d0.parked(q[k], l));
            assert(d0.tid_alloc.allocated(q[k]));
            assert(q[k] != tid);
        }
    }

    /// Reap an exited thread: report its exit code and free its table
    /// slot.  -1 for the caller's own tid or a missing thread; -2 for a
    /// thread that has not exited yet.
    pub fn sys_waittid(&mut self, tid: usize) -> (r: i32)
        requires
            old(self).inv(),
            (old(self).sched.current is Some),
        ensures
            final(self).inv(),
            final(self).mutex_list == old(self).mutex_list,
            final(self).sem_list == old(self).sem_list,
            final(self).monitor_list == old(self).monitor_list,
            // waiting on yourself or a reaped slot fails
            (tid == old(self).sched.current.unwrap() || !old(self).sched.live(tid))
                ==> r == -1 && *final(self) == *old(self),
            // a live thread that has not exited is not ready to reap
            (tid != old(self).sched.current.unwrap() && old(self).sched.live(tid)
                && (old(self).sched.thread_of(tid).exit_code is None))
                ==> r == -2 && *final(self) == *old(self),
            // an exited thread is reaped: exit code returned, slot freed
            (tid != old(self).sched.current.unwrap() && old(self).sched.live(tid)
                && (old(self).sched.thread_of(tid).exit_code is Some)) ==> {
                &&& r == old(self).sched.thread_of(tid).exit_code.unwrap()
                &&& !final(self).sched.live(tid)
                &&& final(self).sched.threads@
                    == old(self).sched.threads@.update(tid as int, None)
                &&& final(self).sched.ready == old(self).sched.ready
                &&& final(self).sched.current == old(self).sched.current
                &&& final(self).sched.timers == old(self).sched.timers
                &&& final(self).sched.time_ms == old(self).sched.time_ms
            },
    {
        let cur = self.sched.current_task().unwrap();
        if tid == cur {
            return -1;
        }
        if tid >= self.sched.threads.len() {
            return -1;
        }
        let mut exit_code: Option<i32> = None;
        match &self.sched.threads[tid] {
            Some(tcb) => {
                match tcb.exit_code {
                    Some(code) => {
                        exit_code = Some(code);
                    },
                    None => {
                        return -2;
                    },
                }
            },
            None => {
                return -1;
            },
        }
        let code = exit_code.unwrap();
        self.sched.threads.set(tid, None);
        proof {
            let pre = *old(self);
            // the reaped thread had exited, so it sat in no queue and not
            // in the ready queue or on the timer
            assert(pre.sched.thread_of(tid).loc@ is None);
            assert forall|k: int| 0 <= k < self.sched.ready@.len()
                implies self.sched.runnable(#[trigger] self.sched.ready@[k]) by {
                assert(pre.sched.runnable(pre.sched.ready@[k]));
                assert(pre.sched.ready@[k] != tid);
            }
            assert forall|k: int| 0 <= k < self.sched.timers@.len()
                implies self.sched.parked(
                    (#[trigger] self.sched.timers@[k]).tid,
                    WaitLoc::Timer,
                ) by {
                assert(pre.sched.parked(pre.sched.timers@[k].tid, WaitLoc::Timer));
                assert(pre.sched.timers@[k].tid != tid);
            }
            match pre.sched.current {
                Some(c) => {
                    assert(pre.sched.running(c));
                },
                None => {},
            }
            assert(self.sched.wf());
            Kernel::lemma_inv_untouched(pre, *self, -1, -1, -1);
        }
        code
    }

    /// The running thread's tid.
    pub fn sys_gettid(&self) -> (r: isize)
        requires
            self.inv(),
            (self.sched.current is Some),
        ensures
            r == self.sched.current.unwrap(),
    {
        self.sched.current_task().unwrap() as isize
    }

    /// Yield the processor: the running thread goes to the ready tail.
    pub fn sys_yield(&mut self) -> (r: isize)
        requires
            old(self).inv(),
            (old(self).sched.current is Some),
        ensures
            final(self).inv(),
            r == 0,
            final(self).sched.ready@
                == old(self).sched.ready@.push(old(self).sched.current.unwrap()),
            (final(self).sched.current is None),
            final(self).sched.timers == old(self).sched.timers,
            final(self).sched.time_ms == old(self).sched.time_ms,
            final(self).mutex_list == old(self).mutex_list,
            final(self).sem_list == old(self).sem_list,
            final(self).monitor_list == old(self).monitor_list,
    {
        self.sched.suspend_current();
        proof {
            Kernel::lemma_inv_untouched(*old(self), *self, -1, -1, -1);
        }
        0
    }

    /// Terminate the running thread with `exit_code`; its slot stays until
    /// `waittid` reaps it.
    pub fn sys_exit(&mut self, exit_code: i32)
        requires
            old(self).inv(),
            (old(self).sched.current is Some),
        ensures
            final(self).inv(),
            final(self).sched.live(old(self).sched.current.unwrap()),
            final(self).sched.thread_of(old(self).sched.current.unwrap()).exit_code
                == Some(exit_code),
            (final(self).sched.thread_of(old(self).sched.current.unwrap()).res is None),
            (final(self).sched.current is None),
            final(self).sched.ready == old(self).sched.ready,
            final(self).sched.timers == old(self).sched.timers,
            final(self).sched.time_ms == old(self).sched.time_ms,
            Sched::same_threads_except(
                old(self).sched,
                final(self).sched,
                old(self).sched.current.unwrap(),
            ),
            final(self).mutex_list == old(self).mutex_list,
            final(self).sem_list == old(self).sem_list,
            final(self).monitor_list == old(self).monitor_list,
    {
        self.sched.exit_current(exit_code);
        proof {
            Kernel::lemma_inv_untouched(*old(self), *self, -1, -1, -1);
        }
    }

    /// The clock, in milliseconds.
    pub fn sys_get_time(&self) -> (r: isize)
        requires
            self.inv(),
            self.sched.time_ms <= isize::MAX as usize,
        ensures
            r == self.sched.time_ms,
    {
        self.sched.get_time_ms() as isize
    }

    /// Block the running thread until the clock reaches now + `ms`.
    pub fn sys_sleep(&mut self, ms: usize) -> (r: isize)
        requires
            old(self).inv(),
            (old(self).sched.current is Some),
            old(self).sched.time_ms + ms <= usize::MAX,
        ensures
            final(self).inv(),
            r == 0,
            final(self).sched.parked(old(self).sched.current.unwrap(), WaitLoc::Timer),
            (final(self).sched.current is None),
            final(self).sched.ready == old(self).sched.ready,
            final(self).sched.time_ms == old(self).sched.time_ms,
            Sched::same_threads_except(
                old(self).sched,
                final(self).sched,
                old(self).sched.current.unwrap(),
            ),
            // the deadline is on the timer
            exists|p: int|
                {
                    &&& 0 <= p <= old(self).sched.timers@.len()
                    &&& final(self).sched.timers@ == (#[trigger] old(self).sched.timers@.insert(
                        p,
                        (crate::sched::TimerEntry {
                            expire_ms: (old(self).sched.time_ms + ms) as usize,
                            tid: old(self).sched.current.unwrap(),
                        }),
                    ))
                },
            final(self).mutex_list == old(self).mutex_list,
            final(self).sem_list == old(self).sem_list,
            final(self).monitor_list == old(self).monitor_list,
    {
        self.sched.sleep(ms);
        proof {
            Kernel::lemma_inv_untouched(*old(self), *self, -1, -1, -1);
        }
        0
    }

    /// Advance the clock and wake the threads whose deadlines passed, in
    /// deadline order, FIFO among equal deadlines.  Returns how many woke.
    pub fn timer_tick(&mut self, now: usize) -> (n: usize)
        requires
            old(self).inv(),
            now >= old(self).sched.time_ms,
        ensures
            final(self).inv(),
            final(self).sched.time_ms == now,
            n <= old(self).sched.timers@.len(),
            forall|k: int|
                0 <= k < n ==> #[trigger] old(self).sched.timers@[k].expire_ms <= now,
            n < old(self).sched.timers@.len()
                ==> old(self).sched.timers@[n as int].expire_ms > now,
            final(self).sched.timers@ == old(self).sched.timers@.skip(n as int),
            // sleepers whose deadline is ahead stay asleep
            forall|k: int|
                n <= k < old(self).sched.timers@.len()
                    ==> final(self).sched.parked(
                        (#[trigger] old(self).sched.timers@[k]).tid,
                        WaitLoc::Timer,
                    ),
            final(self).sched.ready@.len() == old(self).sched.ready@.len() + n,
            forall|k: int|
                0 <= k < old(self).sched.ready@.len()
                    ==> final(self).sched.ready@[k] == #[trigger] old(self).sched.ready@[k],
            forall|k: int|
                0 <= k < n
                    ==> final(self).sched.ready@[old(self).sched.ready@.len() + k]
                        == (#[trigger] old(self).sched.timers@[k]).tid,
            final(self).sched.current == old(self).sched.current,
            final(self).mutex_list == old(self).mutex_list,
            final(self).sem_list == old(self).sem_list,
            final(self).monitor_list == old(self).monitor_list,
    {
        let n = self.sched.timer_tick(now);
        proof {
            let pre = *old(self);
            assert forall|i: int|
                0 <= i < pre.sched.threads@.len()
                    && self.sched.threads@[i] != (#[trigger] pre.sched.threads@[i])
                    implies Kernel::loc_exempt(pre.sched, i, -1, -1, -1) by {
                if !(forall|k: int|
                    0 <= k < n ==> (#[trigger] pre.sched.timers@[k]).tid != i) {
                    let k = choose|k: int|
                        0 <= k < n && (#[trigger] pre.sched.timers@[k]).tid == i;
                    assert(pre.sched.parked(pre.sched.timers@[k].tid, WaitLoc::Timer));
                }
            }
            Kernel::lemma_inv_untouched(pre, *self, -1, -1, -1);
        }
        n
    }

    /// Dispatch the head of the ready queue; it becomes the running
    /// thread.  Returns its tid, or nothing when no thread is ready.
    pub fn run_next(&mut self) -> (t: Option<usize>)
        requires
            old(self).inv(),
            (old(self).sched.current is None),
        ensures
            final(self).inv(),
            old(self).sched.ready@.len() == 0 ==> (t is None) && *final(self) == *old(self),
            old(self).sched.ready@.len() > 0 ==> {
                let d = old(self).sched.ready@[0];
                &&& t == Some(d)
                &&& final(self).sched.current == Some(d)
                &&& final(self).sched.running(d)
                &&& final(self).sched.ready@ == old(self).sched.ready@.drop_first()
            },
            final(self).sched.timers == old(self).sched.timers,
            final(self).sched.time_ms == old(self).sched.time_ms,
            final(self).mutex_list == old(self).mutex_list,
            final(self).sem_list == old(self).sem_list,
            final(self).monitor_list == old(self).monitor_list,
    {
        let t = self.sched.run_next();
        proof {
            Kernel::lemma_inv_untouched(*old(self), *self, -1, -1, -1);
        }
        t
    }

    /// Create a mutex in the first free slot (reusing a tombstone if one
    /// exists, else appending) and return its id.
    pub fn sys_mutex_create(&mut self) -> (id: usize)
        requires
            old(self).inv(),
            old(self).mutex_list@.len() < usize::MAX,
        ensures
            final(self).inv(),
            final(self).valid_mutex(id),
            !old(self).valid_mutex(id),
            // the first free slot is taken
            forall|i: usize| i < id ==> #[trigger] old(self).valid_mutex(i),
            id <= old(self).mutex_list@.len(),
            final(self).mutex_list@.len()
                == if id < old(self).mutex_list@.len() {
                    old(self).mutex_list@.len()
                } else {
                    old(self).mutex_list@.len() + 1
                },
            forall|i: int|
                0 <= i < old(self).mutex_list@.len() && i != id
                    ==> final(self).mutex_list@[i] == (#[trigger] old(self).mutex_list@[i]),
            // the new mutex is open, with no waiters and no history
            !final(self).mutex_of(id).is_locked,
            (final(self).mutex_of(id).owner@ is None),
            final(self).mutex_of(id).waited_queue@.len() == 0,
            final(self).mutex_of(id).hist_blocked@.len() == 0,
            final(self).mutex_of(id).hist_woken@.len() == 0,
            final(self).sched == old(self).sched,
            final(self).sem_list == old(self).sem_list,
            final(self).monitor_list == old(self).monitor_list,
    {
        let m = Mutex::new();
        let mut id: usize = 0;
        let n = self.mutex_list.len();
        while id < n && self.mutex_list[id].is_some()
            invariant
                n == self.mutex_list@.len(),
                id <= n,
                forall|i: int| 0 <= i < id ==> (#[trigger] self.mutex_list@[i] is Some),
            decreases n - id,
        {
            id = id + 1;
        }
        if id < n {
            self.mutex_list.set(id, Some(m));
        } else {
            self.mutex_list.push(Some(m));
        }
        proof {
            assert forall|i: int| 0 <= i < self.mutex_list@.len()
                implies #[trigger] self.mutex_ok(i) by {
                if i != id {
                    assert(old(self).mutex_ok(i));
                }
            }
            assert forall|i: int| 0 <= i < self.sem_list@.len()
                implies #[trigger] self.sem_ok(i) by {
                assert(old(self).sem_ok(i));
            }
            assert forall|i: int| 0 <= i < self.monitor_list@.len()
                implies #[trigger] self.monitor_ok(i) by {
                assert(old(self).monitor_ok(i));
            }
        }
        id
    }

    /// Acquire mutex `mutex_id` for the running thread: take it if free,
    /// else block in its FIFO queue until a holder hands it over.  The
    /// call's result, 0, reaches the caller when it holds the lock.
    pub fn sys_mutex_lock(&mut self, mutex_id: usize) -> (r: isize)
        requires
            old(self).inv(),
            (old(self).sched.current is Some),
        ensures
            final(self).inv(),
            !old(self).valid_mutex(mutex_id) ==> r == -1 && *final(self) == *old(self),
            old(self).valid_mutex(mutex_id) ==> {
                let m0 = old(self).mutex_of(mutex_id);
                let m1 = final(self).mutex_of(mutex_id);
                let c = old(self).sched.current.unwrap();
                &&& r == 0
                &&& final(self).valid_mutex(mutex_id)
                &&& m1.is_locked
                &&& m1.hist_woken == m0.hist_woken
                &&& (!m0.is_locked ==> {
                    &&& m1.owner@ == Some(c)
                    &&& m1.waited_queue == m0.waited_queue
                    &&& m1.hist_blocked == m0.hist_blocked
                    &&& final(self).sched == old(self).sched
                })
                &&& (m0.is_locked ==> {
                    &&& m1.owner == m0.owner
                    &&& m1.waited_queue@ == m0.waited_queue@.push(c)
                    &&& m1.hist_blocked@ == m0.hist_blocked@.push(c)
                    &&& final(self).sched.parked(c, WaitLoc::MutexQ(mutex_id))
                    &&& (final(self).sched.current is None)
                    &&& final(self).sched.ready == old(self).sched.ready
                    &&& Sched::same_threads_except(
                        old(self).sched,
                        final(self).sched,
                        c,
                    )
                })
                &&& final(self).mutex_list@.len() == old(self).mutex_list@.len()
                &&& forall|i: int|
                    0 <= i < old(self).mutex_list@.len() && i != mutex_id
                        ==> final(self).mutex_list@[i]
                            == (#[trigger] old(self).mutex_list@[i])
                &&& final(self).sem_list == old(self).sem_list
                &&& final(self).monitor_list == old(self).monitor_list
                &&& final(self).sched.timers == old(self).sched.timers
                &&& final(self).sched.time_ms == old(self).sched.time_ms
            },
    {
        if mutex_id >= self.mutex_list.len() {
            return -1;
        }
        if !self.mutex_list[mutex_id].is_some() {
            return -1;
        }
        let mut slot: Option<Mutex> = None;
        proof {
            assert(old(self).mutex_ok(mutex_id as int));
        }
        self.mutex_list.set_and_swap(mutex_id, &mut slot);
        match slot {
            Some(mut m) => {
                proof {
                    lemma_queue_small(
                        self.sched,
                        m.waited_queue@,
                        WaitLoc::MutexQ(mutex_id),
                    );
                }
                let ghost c = self.sched.current.unwrap();
                let acquired = m.lock(&mut self.sched, mutex_id);
                let mut back = Some(m);
                self.mutex_list.set_and_swap(mutex_id, &mut back);
                proof {
                    let pre = *old(self);
                    assert forall|x: int|
                        0 <= x < pre.sched.threads@.len()
                            && self.sched.threads@[x] != (#[trigger] pre.sched.threads@[x])
                            implies Kernel::loc_exempt(
                                pre.sched,
                                x,
                                mutex_id as int,
                                -1,
                                -1,
                            ) by {
                        assert(x == c);
                        assert(pre.sched.running(c));
                    }
                    Kernel::lemma_inv_untouched(pre, *self, mutex_id as int, -1, -1);
                    assert(self.mutex_ok(mutex_id as int)) by {
                        if !acquired {
                            lemma_queue_push_blocked(
                                pre.sched,
                                self.sched,
                                pre.mutex_of(mutex_id).waited_queue@,
                                WaitLoc::MutexQ(mutex_id),
                                c,
                                c,
                            );
                        } else {
                            assert(self.sched == pre.sched);
                        }
                    }
                }
                0
            },
            None => {
                proof {
                    assert(false);
                }
                -1
            },
        }
    }

    /// Release mutex `mutex_id`: with waiters the oldest becomes the
    /// owner at once, otherwise the lock opens.
    pub fn sys_mutex_unlock(&mut self, mutex_id: usize) -> (r: isize)
        requires
            old(self).inv(),
        ensures
            final(self).inv(),
            !old(self).valid_mutex(mutex_id) ==> r == -1 && *final(self) == *old(self),
            old(self).valid_mutex(mutex_id) ==> {
                let m0 = old(self).mutex_of(mutex_id);
                let m1 = final(self).mutex_of(mutex_id);
                &&& r == 0
                &&& final(self).valid_mutex(mutex_id)
                &&& m1.hist_blocked == m0.hist_blocked
                &&& (m0.waited_queue@.len() == 0 ==> {
                    &&& !m1.is_locked
                    &&& (m1.owner@ is None)
                    &&& m1.waited_queue == m0.waited_queue
                    &&& m1.hist_woken == m0.hist_woken
                    &&& final(self).sched == old(self).sched
                })
                &&& (m0.waited_queue@.len() > 0 ==> {
                    let w = m0.waited_queue@[0];
                    &&& m1.is_locked
                    &&& m1.owner@ == Some(w)
                    &&& m1.waited_queue@ == m0.waited_queue@.drop_first()
                    &&& m1.hist_woken@ == m0.hist_woken@.push(w)
                    &&& final(self).sched.runnable(w)
                    &&& final(self).sched.ready@ == old(self).sched.ready@.push(w)
                    &&& final(self).sched.current == old(self).sched.current
                    &&& Sched::same_threads_except(
                        old(self).sched,
                        final(self).sched,
                        w,
                    )
                })
                &&& final(self).mutex_list@.len() == old(self).mutex_list@.len()
                &&& forall|i: int|
                    0 <= i < old(self).mutex_list@.len() && i != mutex_id
                        ==> final(self).mutex_list@[i]
                            == (#[trigger] old(self).mutex_list@[i])
                &&& final(self).sem_list == old(self).sem_list
                &&& final(self).monitor_list == old(self).monitor_list
                &&& final(self).sched.timers == old(self).sched.timers
                &&& final(self).sched.time_ms == old(self).sched.time_ms
            },
    {
        if mutex_id >= self.mutex_list.len() {
            return -1;
        }
        if !self.mutex_list[mutex_id].is_some() {
            return -1;
        }
        let mut slot: Option<Mutex> = None;
        proof {
            assert(old(self).mutex_ok(mutex_id as int));
        }
        self.mutex_list.set_and_swap(mutex_id, &mut slot);
        match slot {
            Some(mut m) => {
                let ghost w = m.waited_queue@[0];
                m.unlock(&mut self.sched, mutex_id);
                let mut back = Some(m);
                self.mutex_list.set_and_swap(mutex_id, &mut back);
                proof {
                    let pre = *old(self);
                    assert forall|x: int|
                        0 <= x < pre.sched.threads@.len()
                            && self.sched.threads@[x] != (#[trigger] pre.sched.threads@[x])
                            implies Kernel::loc_exempt(
                                pre.sched,
                                x,
                                mutex_id as int,
                                -1,
                                -1,
                            ) by {
                        assert(x == w);
                        assert(pre.sched.parked(w, WaitLoc::MutexQ(mutex_id)));
                    }
                    Kernel::lemma_inv_untouched(pre, *self, mutex_id as int, -1, -1);
                    assert(self.mutex_ok(mutex_id as int)) by {
                        if pre.mutex_of(mutex_id).waited_queue@.len() > 0 {
                            lemma_queue_drop_woken(
                                pre.sched,
                                self.sched,
                                pre.mutex_of(mutex_id).waited_queue@,
                                WaitLoc::MutexQ(mutex_id),
                                w,
                            );
                        } else {
                            assert(self.sched == pre.sched);
                        }
                    }
                }
                0
            },
            None => {
                proof {
                    assert(false);
                }
                -1
            },
        }
    }

    /// Create a monitor in the first free slot and return its id.
    pub fn sys_monitor_create(&mut self) -> (id: usize)
        requires
            old(self).inv(),
            old(self).monitor_list@.len() < usize::MAX,
        ensures
            final(self).inv(),
            final(self).valid_monitor(id),
            !old(self).valid_monitor(id),
            forall|i: usize| i < id ==> #[trigger] old(self).valid_monitor(i),
            id <= old(self).monitor_list@.len(),
            final(self).monitor_list@.len()
                == if id < old(self).monitor_list@.len() {
                    old(self).monitor_list@.len()
                } else {
                    old(self).monitor_list@.len() + 1
                },
            forall|i: int|
                0 <= i < old(self).monitor_list@.len() && i != id
                    ==> final(self).monitor_list@[i]
                        == (#[trigger] old(self).monitor_list@[i]),
            final(self).monitor_of(id).cond_sems@.len() == 0,
            final(self).monitor_of(id).thread_count == 0,
            final(self).monitor_of(id).urgent_count == 0,
            (final(self).monitor_of(id).active@ is None),
            final(self).monitor_of(id).entry.value == 1,
            final(self).sched == old(self).sched,
            final(self).mutex_list == old(self).mutex_list,
            final(self).sem_list == old(self).sem_list,
    {
        let m = HoareMonitor::new();
        let mut id: usize = 0;
        let n = self.monitor_list.len();
        while id < n && self.monitor_list[id].is_some()
            invariant
                n == self.monitor_list@.len(),
                id <= n,
                forall|i: int| 0 <= i < id ==> (#[trigger] self.monitor_list@[i] is Some),
            decreases n - id,
        {
            id = id + 1;
        }
        if id < n {
            self.monitor_list.set(id, Some(m));
        } else {
            self.monitor_list.push(Some(m));
        }
        proof {
            assert forall|i: int| 0 <= i < self.monitor_list@.len()
                implies #[trigger] self.monitor_ok(i) by {
                if i != id {
                    assert(old(self).monitor_ok(i));
                }
            }
            assert forall|i: int| 0 <= i < self.mutex_list@.len()
                implies #[trigger] self.mutex_ok(i) by {
                assert(old(self).mutex_ok(i));
            }
            assert forall|i: int| 0 <= i < self.sem_list@.len()
                implies #[trigger] self.sem_ok(i) by {
                assert(old(self).sem_ok(i));
            }
        }
        id
    }

    /// Add a condition variable to monitor `monitor_id` and return its
    /// dense id.  A missing monitor is a fatal id error, excluded here.
    pub fn sys_monitor_create_res_sem(&mut self, monitor_id: usize) -> (res_id: usize)
        requires
            old(self).inv(),
            old(self).valid_monitor(monitor_id),
            old(self).monitor_of(monitor_id).cond_sems@.len() < usize::MAX,
        ensures
            final(self).inv(),
            final(self).valid_monitor(monitor_id),
            res_id == old(self).monitor_of(monitor_id).cond_sems@.len(),
            final(self).monitor_of(monitor_id).cond_sems@.len() == res_id + 1,
            final(self).monitor_of(monitor_id).cond_counts@
                == old(self).monitor_of(monitor_id).cond_counts@.push(0),
            final(self).monitor_of(monitor_id).cond_sems@[res_id as int].waited_queue@.len()
                == 0,
            forall|j: int|
                0 <= j < res_id
                    ==> final(self).monitor_of(monitor_id).cond_sems@[j]
                        == (#[trigger] old(self).monitor_of(monitor_id).cond_sems@[j]),
            final(self).monitor_of(monitor_id).entry
                == old(self).monitor_of(monitor_id).entry,
            final(self).monitor_of(monitor_id).urgent
                == old(self).monitor_of(monitor_id).urgent,
            final(self).monitor_of(monitor_id).urgent_count
                == old(self).monitor_of(monitor_id).urgent_count,
            final(self).monitor_of(monitor_id).thread_count
                == old(self).monitor_of(monitor_id).thread_count,
            final(self).monitor_of(monitor_id).active
                == old(self).monitor_of(monitor_id).active,
            final(self).monitor_list@.len() == old(self).monitor_list@.len(),
            forall|i: int|
                0 <= i < old(self).monitor_list@.len() && i != monitor_id
                    ==> final(self).monitor_list@[i]
                        == (#[trigger] old(self).monitor_list@[i]),
            final(self).sched == old(self).sched,
            final(self).mutex_list == old(self).mutex_list,
            final(self).sem_list == old(self).sem_list,
    {
        let mut slot: Option<HoareMonitor> = None;
        proof {
            assert(old(self).monitor_ok(monitor_id as int));
        }
        self.monitor_list.set_and_swap(monitor_id, &mut slot);
        match slot {
            Some(mut m) => {
                let res_id = m.create_res_sem();
                let mut back = Some(m);
                self.monitor_list.set_and_swap(monitor_id, &mut back);
                proof {
                    let pre = *old(self);
                    Kernel::lemma_inv_untouched(pre, *self, -1, -1, monitor_id as int);
                    assert(self.monitor_ok(monitor_id as int)) by {
                        let m1 = self.monitor_of(monitor_id);
                        assert forall|j: int| 0 <= j < m1.cond_sems@.len()
                            implies self.sched.queue_ok(
                                (#[trigger] m1.cond_sems@[j]).waited_queue@,
                                WaitLoc::MonCond {
                                    mon_id: monitor_id,
                                    res_id: j as usize,
                                },
                            ) by {
                            if j < m1.cond_sems@.len() - 1 {
                                assert(m1.cond_sems@[j]
                                    == pre.monitor_of(monitor_id).cond_sems@[j]);
                            } else {
                                assert(m1.cond_sems@[j].waited_queue@.len() == 0);
                            }
                        }
                    }
                }
                res_id
            },
            None => {
                proof {
                    assert(false);
                }
                0
            },
        }
    }

    /// Enter monitor `monitor_id`: the running thread is counted into the
    /// monitor's population and acquires the region, blocking at the entry
    /// queue if another thread holds it.
    pub fn sys_monitor_enter(&mut self, monitor_id: usize) -> (r: isize)
        requires
            old(self).inv(),
            (old(self).sched.current is Some),
            old(self).valid_monitor(monitor_id)
                ==> old(self).monitor_of(monitor_id).thread_count < isize::MAX,
        ensures
            final(self).inv(),
            !old(self).valid_monitor(monitor_id) ==> r == -1 && *final(self) == *old(self),
            old(self).valid_monitor(monitor_id) ==> {
                let m0 = old(self).monitor_of(monitor_id);
                let m1 = final(self).monitor_of(monitor_id);
                let c = old(self).sched.current.unwrap();
                &&& r == 0
                &&& final(self).valid_monitor(monitor_id)
                &&& m1.thread_count == m0.thread_count + 1
                &&& m1.cond_sems == m0.cond_sems
                &&& m1.cond_counts == m0.cond_counts
                &&& m1.urgent == m0.urgent
                &&& m1.urgent_count == m0.urgent_count
                &&& (m0.entry.value > 0 ==> {
                    &&& m1.active@ == Some(c)
                    &&& m1.entry.value == 0
                    &&& m1.entry.waited_queue == m0.entry.waited_queue
                    &&& final(self).sched == old(self).sched
                })
                &&& (m0.entry.value <= 0 ==> {
                    &&& m1.active == m0.active
                    &&& m1.entry.value == m0.entry.value - 1
                    &&& m1.entry.waited_queue@ == m0.entry.waited_queue@.push(c)
                    &&& final(self).sched.parked(c, WaitLoc::MonEntry(monitor_id))
                    &&& (final(self).sched.current is None)
                    &&& final(self).sched.ready == old(self).sched.ready
                    &&& Sched::same_threads_except(
                        old(self).sched,
                        final(self).sched,
                        c,
                    )
                })
                &&& final(self).monitor_list@.len() == old(self).monitor_list@.len()
                &&& forall|i: int|
                    0 <= i < old(self).monitor_list@.len() && i != monitor_id
                        ==> final(self).monitor_list@[i]
                            == (#[trigger] old(self).monitor_list@[i])
                &&& final(self).mutex_list == old(self).mutex_list
                &&& final(self).sem_list == old(self).sem_list
                &&& final(self).sched.timers == old(self).sched.timers
                &&& final(self).sched.time_ms == old(self).sched.time_ms
            },
    {
        if monitor_id >= self.monitor_list.len() {
            return -1;
        }
        if !self.monitor_list[monitor_id].is_some() {
            return -1;
        }
        let mut slot: Option<HoareMonitor> = None;
        proof {
            assert(old(self).monitor_ok(monitor_id as int));
        }
        self.monitor_list.set_and_swap(monitor_id, &mut slot);
        match slot {
            Some(mut m) => {
                proof {
                    lemma_queue_small(
                        self.sched,
                        m.entry.waited_queue@,
                        WaitLoc::MonEntry(monitor_id),
                    );
                }
                let ghost c = self.sched.current.unwrap();
                let ghost blocked = m.entry.value <= 0;
                let _ = m.enter(&mut self.sched, monitor_id);
                let mut back = Some(m);
                self.monitor_list.set_and_swap(monitor_id, &mut back);
                proof {
                    let pre = *old(self);
                    assert forall|x: int|
                        0 <= x < pre.sched.threads@.len()
                            && self.sched.threads@[x] != (#[trigger] pre.sched.threads@[x])
                            implies Kernel::loc_exempt(
                                pre.sched,
                                x,
                                -1,
                                -1,
                                monitor_id as int,
                            ) by {
                        assert(x == c);
                        assert(pre.sched.running(c));
                    }
                    Kernel::lemma_inv_untouched(pre, *self, -1, -1, monitor_id as int);
                    assert(self.monitor_ok(monitor_id as int)) by {
                        let m0 = pre.monitor_of(monitor_id);
                        if blocked {
                            lemma_queue_push_blocked(
                                pre.sched,
                                self.sched,
                                m0.entry.waited_queue@,
                                WaitLoc::MonEntry(monitor_id),
                                c,
                                c,
                            );
                            lemma_queue_keep(
                                pre.sched,
                                self.sched,
                                m0.urgent.waited_queue@,
                                WaitLoc::MonUrgent(monitor_id),
                            );
                            assert forall|j: int| 0 <= j < m0.cond_sems@.len()
                                implies self.sched.queue_ok(
                                    (#[trigger] m0.cond_sems@[j]).waited_queue@,
                                    WaitLoc::MonCond {
                                        mon_id: monitor_id,
                                        res_id: j as usize,
                                    },
                                ) by {
                                lemma_queue_keep(
                                    pre.sched,
                                    self.sched,
                                    m0.cond_sems@[j].waited_queue@,
                                    WaitLoc::MonCond {
                                        mon_id: monitor_id,
                                        res_id: j as usize,
                                    },
                                );
                            }
                        } else {
                            assert(self.sched == pre.sched);
                        }
                    }
                }
                0
            },
            None => {
                proof {
                    assert(false);
                }
                -1
            },
        }
    }

    /// Leave monitor `monitor_id`.  A parked signaller resumes first;
    /// else the oldest entry waiter is admitted; else the region opens.
    /// Calling it without holding the region is undefined behavior.
    pub fn sys_monitor_leave(&mut self, monitor_id: usize) -> (r: isize)
        requires
            old(self).inv(),
            (old(self).sched.current is Some),
            old(self).valid_monitor(monitor_id)
                ==> old(self).monitor_of(monitor_id).active@
                    == Some(old(self).sched.current.unwrap()),
        ensures
            final(self).inv(),
            !old(self).valid_monitor(monitor_id) ==> r == -1 && *final(self) == *old(self),
            old(self).valid_monitor(monitor_id) ==> {
                let m0 = old(self).monitor_of(monitor_id);
                let m1 = final(self).monitor_of(monitor_id);
                &&& r == 0
                &&& final(self).valid_monitor(monitor_id)
                &&& m1.thread_count == m0.thread_count - 1
                &&& m1.cond_sems == m0.cond_sems
                &&& m1.cond_counts == m0.cond_counts
                &&& (m0.urgent_count > 0 ==> {
                    let w = m0.urgent.waited_queue@[0];
                    &&& m1.active@ == Some(w)
                    &&& m1.urgent_count == m0.urgent_count - 1
                    &&& m1.urgent.waited_queue@ == m0.urgent.waited_queue@.drop_first()
                    &&& m1.entry == m0.entry
                    &&& final(self).sched.runnable(w)
                    &&& final(self).sched.ready@ == old(self).sched.ready@.push(w)
                    &&& final(self).sched.current == old(self).sched.current
                    &&& Sched::same_threads_except(old(self).sched, final(self).sched, w)
                })
                &&& (m0.urgent_count == 0 && m0.entry.value < 0 ==> {
                    let w = m0.entry.waited_queue@[0];
                    &&& m1.active@ == Some(w)
                    &&& m1.urgent == m0.urgent
                    &&& m1.entry.value == m0.entry.value + 1
                    &&& m1.entry.waited_queue@ == m0.entry.waited_queue@.drop_first()
                    &&& final(self).sched.runnable(w)
                    &&& final(self).sched.ready@ == old(self).sched.ready@.push(w)
                    &&& final(self).sched.current == old(self).sched.current
                    &&& Sched::same_threads_except(old(self).sched, final(self).sched, w)
                })
                &&& (m0.urgent_count == 0 && m0.entry.value >= 0 ==> {
                    &&& (m1.active@ is None)
                    &&& m1.urgent == m0.urgent
                    &&& m1.entry.value == 1
                    &&& m1.entry.waited_queue == m0.entry.waited_queue
                    &&& final(self).sched == old(self).sched
                })
                &&& final(self).monitor_list@.len() == old(self).monitor_list@.len()
                &&& forall|i: int|
                    0 <= i < old(self).monitor_list@.len() && i != monitor_id
                        ==> final(self).monitor_list@[i]
                            == (#[trigger] old(self).monitor_list@[i])
                &&& final(self).mutex_list == old(self).mutex_list
                &&& final(self).sem_list == old(self).sem_list
                &&& final(self).sched.timers == old(self).sched.timers
                &&& final(self).sched.time_ms == old(self).sched.time_ms
            },
    {
        if monitor_id >= self.monitor_list.len() {
            return -1;
        }
        if !self.monitor_list[monitor_id].is_some() {
            return -1;
        }
        let mut slot: Option<HoareMonitor> = None;
        proof {
            assert(old(self).monitor_ok(monitor_id as int));
        }
        self.monitor_list.set_and_swap(monitor_id, &mut slot);
        match slot {
            Some(mut m) => {
                let ghost w = if m.urgent_count > 0 {
                    m.urgent.waited_queue@[0]
                } else {
                    m.entry.waited_queue@[0]
                };
                let ghost woke = m.urgent_count > 0 || m.entry.value < 0;
                let ghost from_urgent = m.urgent_count > 0;
                m.leave(&mut self.sched, monitor_id);
                let mut back = Some(m);
                self.monitor_list.set_and_swap(monitor_id, &mut back);
                proof {
                    let pre = *old(self);
                    let m0 = pre.monitor_of(monitor_id);
                    assert forall|x: int|
                        0 <= x < pre.sched.threads@.len()
                            && self.sched.threads@[x] != (#[trigger] pre.sched.threads@[x])
                            implies Kernel::loc_exempt(
                                pre.sched,
                                x,
                                -1,
                                -1,
                                monitor_id as int,
                            ) by {
                        assert(x == w);
                        if from_urgent {
                            assert(pre.sched.parked(w, WaitLoc::MonUrgent(monitor_id)));
                        } else {
                            assert(pre.sched.parked(w, WaitLoc::MonEntry(monitor_id)));
                        }
                    }
                    Kernel::lemma_inv_untouched(pre, *self, -1, -1, monitor_id as int);
                    assert(self.monitor_ok(monitor_id as int)) by {
                        if woke {
                            if from_urgent {
                                lemma_queue_drop_woken(
                                    pre.sched,
                                    self.sched,
                                    m0.urgent.waited_queue@,
                                    WaitLoc::MonUrgent(monitor_id),
                                    w,
                                );
                                lemma_queue_keep(
                                    pre.sched,
                                    self.sched,
                                    m0.entry.waited_queue@,
                                    WaitLoc::MonEntry(monitor_id),
                                );
                            } else {
                                lemma_queue_drop_woken(
                                    pre.sched,
                                    self.sched,
                                    m0.entry.waited_queue@,
                                    WaitLoc::MonEntry(monitor_id),
                                    w,
                                );
                                lemma_queue_keep(
                                    pre.sched,
                                    self.sched,
                                    m0.urgent.waited_queue@,
                                    WaitLoc::MonUrgent(monitor_id),
                                );
                            }
                            assert forall|j: int| 0 <= j < m0.cond_sems@.len()
                                implies self.sched.queue_ok(
                                    (#[trigger] m0.cond_sems@[j]).waited_queue@,
                                    WaitLoc::MonCond {
                                        mon_id: monitor_id,
                                        res_id: j as usize,
                                    },
                                ) by {
                                lemma_queue_keep(
                                    pre.sched,
                                    self.sched,
                                    m0.cond_sems@[j].waited_queue@,
                                    WaitLoc::MonCond {
                                        mon_id: monitor_id,
                                        res_id: j as usize,
                                    },
                                );
                            }
                        } else {
                            assert(self.sched == pre.sched);
                        }
                    }
                }
                0
            },
            None => {
                proof {
                    assert(false);
                }
                -1
            },
        }
    }

    /// Wait on condition `res_id` of monitor `monitor_id`: the caller
    /// releases the region (a signaller first, else an entry waiter takes
    /// it) and parks on the condition until signalled.  Calling it without
    /// holding the region is undefined behavior.
    pub fn sys_monitor_wait(&mut self, monitor_id: usize, res_id: usize) -> (r: isize)
        requires
            old(self).inv(),
            (old(self).sched.current is Some),
            old(self).valid_monitor(monitor_id)
                ==> old(self).monitor_of(monitor_id).active@
                    == Some(old(self).sched.current.unwrap()),
            old(self).valid_monitor(monitor_id)
                ==> res_id < old(self).monitor_of(monitor_id).cond_sems@.len(),
        ensures
            final(self).inv(),
            !old(self).valid_monitor(monitor_id) ==> r == -1 && *final(self) == *old(self),
            old(self).valid_monitor(monitor_id) ==> {
                let m0 = old(self).monitor_of(monitor_id);
                let m1 = final(self).monitor_of(monitor_id);
                let c = old(self).sched.current.unwrap();
                &&& r == 0
                &&& final(self).valid_monitor(monitor_id)
                &&& m1.thread_count == m0.thread_count
                &&& m1.cond_counts@ == m0.cond_counts@.update(
                    res_id as int,
                    (m0.cond_counts@[res_id as int] + 1) as usize,
                )
                &&& m1.cond_sems@.len() == m0.cond_sems@.len()
                &&& m1.cond_sems@[res_id as int].waited_queue@
                    == m0.cond_sems@[res_id as int].waited_queue@.push(c)
                &&& forall|j: int|
                    0 <= j < m0.cond_sems@.len() && j != res_id
                        ==> m1.cond_sems@[j] == (#[trigger] m0.cond_sems@[j])
                &&& final(self).sched.parked(
                    c,
                    WaitLoc::MonCond { mon_id: monitor_id, res_id },
                )
                &&& (final(self).sched.current is None)
                &&& (m0.urgent_count > 0 ==> {
                    let w = m0.urgent.waited_queue@[0];
                    &&& m1.active@ == Some(w)
                    &&& m1.urgent_count == m0.urgent_count - 1
                    &&& m1.urgent.waited_queue@ == m0.urgent.waited_queue@.drop_first()
                    &&& m1.entry == m0.entry
                    &&& final(self).sched.runnable(w)
                    &&& final(self).sched.ready@ == old(self).sched.ready@.push(w)
                })
                &&& (m0.urgent_count == 0 && m0.entry.value < 0 ==> {
                    let w = m0.entry.waited_queue@[0];
                    &&& m1.active@ == Some(w)
                    &&& m1.urgent == m0.urgent
                    &&& m1.entry.value == m0.entry.value + 1
                    &&& m1.entry.waited_queue@ == m0.entry.waited_queue@.drop_first()
                    &&& final(self).sched.runnable(w)
                    &&& final(self).sched.ready@ == old(self).sched.ready@.push(w)
                })
                &&& (m0.urgent_count == 0 && m0.entry.value >= 0 ==> {
                    &&& (m1.active@ is None)
                    &&& m1.urgent == m0.urgent
                    &&& m1.entry.value == 1
                    &&& m1.entry.waited_queue == m0.entry.waited_queue
                    &&& final(self).sched.ready == old(self).sched.ready
                })
                &&& final(self).monitor_list@.len() == old(self).monitor_list@.len()
                &&& forall|i: int|
                    0 <= i < old(self).monitor_list@.len() && i != monitor_id
                        ==> final(self).monitor_list@[i]
                            == (#[trigger] old(self).monitor_list@[i])
                &&& final(self).mutex_list == old(self).mutex_list
                &&& final(self).sem_list == old(self).sem_list
                &&& final(self).sched.timers == old(self).sched.timers
                &&& final(self).sched.time_ms == old(self).sched.time_ms
            },
    {
        if monitor_id >= self.monitor_list.len() {
            return -1;
        }
        if !self.monitor_list[monitor_id].is_some() {
            return -1;
        }
        let mut slot: Option<HoareMonitor> = None;
        proof {
            assert(old(self).monitor_ok(monitor_id as int));
        }
        self.monitor_list.set_and_swap(monitor_id, &mut slot);
        match slot {
            Some(mut m) => {
                proof {
                    lemma_queue_small(
                        self.sched,
                        m.cond_sems@[res_id as int].waited_queue@,
                        WaitLoc::MonCond { mon_id: monitor_id, res_id },
                    );
                }
                let ghost c = self.sched.current.unwrap();
                let ghost w = if m.urgent_count > 0 {
                    m.urgent.waited_queue@[0]
                } else if m.entry.value < 0 {
                    m.entry.waited_queue@[0]
                } else {
                    c
                };
                let ghost woke = m.urgent_count > 0 || m.entry.value < 0;
                let ghost from_urgent = m.urgent_count > 0;
                m.wait(&mut self.sched, monitor_id, res_id);
                let mut back = Some(m);
                self.monitor_list.set_and_swap(monitor_id, &mut back);
                proof {
                    let pre = *old(self);
                    let m0 = pre.monitor_of(monitor_id);
                    assert(m0.cond_sems.len() == m0.cond_sems@.len());
                    assert forall|x: int|
                        0 <= x < pre.sched.threads@.len()
                            && self.sched.threads@[x] != (#[trigger] pre.sched.threads@[x])
                            implies Kernel::loc_exempt(
                                pre.sched,
                                x,
                                -1,
                                -1,
                                monitor_id as int,
                            ) by {
                        assert(x == c || x == w);
                        if x == c {
                            assert(pre.sched.running(c));
                        } else if woke {
                            if from_urgent {
                                assert(pre.sched.parked(w, WaitLoc::MonUrgent(monitor_id)));
                            } else {
                                assert(pre.sched.parked(w, WaitLoc::MonEntry(monitor_id)));
                            }
                        }
                    }
                    Kernel::lemma_inv_untouched(pre, *self, -1, -1, monitor_id as int);
                    assert(pre.sched.thread_of(c).loc@ is None);
                    if woke {
                        if from_urgent {
                            assert(pre.sched.parked(w, WaitLoc::MonUrgent(monitor_id)));
                        } else {
                            assert(pre.sched.parked(w, WaitLoc::MonEntry(monitor_id)));
                        }
                    }
                    assert(self.monitor_ok(monitor_id as int)) by {
                        // the queue the caller joined
                        lemma_queue_push_blocked(
                            pre.sched,
                            self.sched,
                            m0.cond_sems@[res_id as int].waited_queue@,
                            WaitLoc::MonCond { mon_id: monitor_id, res_id },
                            c,
                            w,
                        );
                        // the queue the region went to, and the other one
                        if woke && from_urgent {
                            lemma_queue_drop_woken(
                                pre.sched,
                                self.sched,
                                m0.urgent.waited_queue@,
                                WaitLoc::MonUrgent(monitor_id),
                                c,
                            );
                            lemma_queue_keep(
                                pre.sched,
                                self.sched,
                                m0.entry.waited_queue@,
                                WaitLoc::MonEntry(monitor_id),
                            );
                        } else if woke {
                            lemma_queue_drop_woken(
                                pre.sched,
                                self.sched,
                                m0.entry.waited_queue@,
                                WaitLoc::MonEntry(monitor_id),
                                c,
                            );
                            lemma_queue_keep(
                                pre.sched,
                                self.sched,
                                m0.urgent.waited_queue@,
                                WaitLoc::MonUrgent(monitor_id),
                            );
                        } else {
                            lemma_queue_keep(
                                pre.sched,
                                self.sched,
                                m0.entry.waited_queue@,
                                WaitLoc::MonEntry(monitor_id),
                            );
                            lemma_queue_keep(
                                pre.sched,
                                self.sched,
                                m0.urgent.waited_queue@,
                                WaitLoc::MonUrgent(monitor_id),
                            );
                        }
                        // the conditions the caller did not join
                        assert forall|j: int|
                            0 <= j < m0.cond_sems@.len() && j != res_id
                                implies self.sched.queue_ok(
                                    (#[trigger] m0.cond_sems@[j]).waited_queue@,
                                    WaitLoc::MonCond {
                                        mon_id: monitor_id,
                                        res_id: j as usize,
                                    },
                                ) by {
                            lemma_queue_keep(
                                pre.sched,
                                self.sched,
                                m0.cond_sems@[j].waited_queue@,
                                WaitLoc::MonCond {
                                    mon_id: monitor_id,
                                    res_id: j as usize,
                                },
                            );
                        }
                        let m1 = self.monitor_of(monitor_id);
                        assert forall|j: int| 0 <= j < m1.cond_sems@.len()
                            implies self.sched.queue_ok(
                                (#[trigger] m1.cond_sems@[j]).waited_queue@,
                                WaitLoc::MonCond {
                                    mon_id: monitor_id,
                                    res_id: j as usize,
                                },
                            ) by {
                            if j != res_id {
                                assert(m1.cond_sems@[j] == m0.cond_sems@[j]);
                            }
                        }
                    }
                }
                0
            },
            None => {
                proof {
                    assert(false);
                }
                -1
            },
        }
    }

    /// Signal condition `res_id` of monitor `monitor_id`.  With no waiter
    /// it is a no-op; otherwise the oldest waiter takes the region at once
    /// and the signaller parks on the urgent queue.  Calling it without
    /// holding the region is undefined behavior.
    pub fn sys_monitor_signal(&mut self, monitor_id: usize, res_id: usize) -> (r: isize)
        requires
            old(self).inv(),
            (old(self).sched.current is Some),
            old(self).valid_monitor(monitor_id)
                ==> old(self).monitor_of(monitor_id).active@
                    == Some(old(self).sched.current.unwrap()),
            old(self).valid_monitor(monitor_id)
                ==> res_id < old(self).monitor_of(monitor_id).cond_sems@.len(),
        ensures
            final(self).inv(),
            !old(self).valid_monitor(monitor_id) ==> r == -1 && *final(self) == *old(self),
            old(self).valid_monitor(monitor_id) ==> {
                let m0 = old(self).monitor_of(monitor_id);
                let m1 = final(self).monitor_of(monitor_id);
                let c = old(self).sched.current.unwrap();
                &&& r == 0
                &&& final(self).valid_monitor(monitor_id)
                &&& (m0.cond_counts@[res_id as int] == 0 ==> {
                    &&& m1 == m0
                    &&& final(self).sched == old(self).sched
                })
                &&& (m0.cond_counts@[res_id as int] > 0 ==> {
                    let w = m0.cond_sems@[res_id as int].waited_queue@[0];
                    &&& m1.thread_count == m0.thread_count
                    &&& m1.active@ == Some(w)
                    &&& m1.urgent_count == m0.urgent_count + 1
                    &&& m1.urgent.waited_queue@ == m0.urgent.waited_queue@.push(c)
                    &&& m1.entry == m0.entry
                    &&& m1.cond_counts@ == m0.cond_counts@.update(
                        res_id as int,
                        (m0.cond_counts@[res_id as int] - 1) as usize,
                    )
                    &&& m1.cond_sems@.len() == m0.cond_sems@.len()
                    &&& m1.cond_sems@[res_id as int].waited_queue@
                        == m0.cond_sems@[res_id as int].waited_queue@.drop_first()
                    &&& forall|j: int|
                        0 <= j < m0.cond_sems@.len() && j != res_id
                            ==> m1.cond_sems@[j] == (#[trigger] m0.cond_sems@[j])
                    &&& final(self).sched.runnable(w)
                    &&& final(self).sched.parked(c, WaitLoc::MonUrgent(monitor_id))
                    &&& (final(self).sched.current is None)
                    &&& final(self).sched.ready@ == old(self).sched.ready@.push(w)
                })
                &&& final(self).monitor_list@.len() == old(self).monitor_list@.len()
                &&& forall|i: int|
                    0 <= i < old(self).monitor_list@.len() && i != monitor_id
                        ==> final(self).monitor_list@[i]
                            == (#[trigger] old(self).monitor_list@[i])
                &&& final(self).mutex_list == old(self).mutex_list
                &&& final(self).sem_list == old(self).sem_list
                &&& final(self).sched.timers == old(self).sched.timers
                &&& final(self).sched.time_ms == old(self).sched.time_ms
            },
    {
        if monitor_id >= self.monitor_list.len() {
            return -1;
        }
        if !self.monitor_list[monitor_id].is_some() {
            return -1;
        }
        let mut slot: Option<HoareMonitor> = None;
        proof {
            assert(old(self).monitor_ok(monitor_id as int));
        }
        self.monitor_list.set_and_swap(monitor_id, &mut slot);
        match slot {
            Some(mut m) => {
                proof {
                    lemma_queue_small(
                        self.sched,
                        m.urgent.waited_queue@,
                        WaitLoc::MonUrgent(monitor_id),
                    );
                }
                let ghost c = self.sched.current.unwrap();
                let ghost signalled = m.cond_counts@[res_id as int] > 0;
                let ghost w = if signalled {
                    m.cond_sems@[res_id as int].waited_queue@[0]
                } else {
                    c
                };
                m.signal(&mut self.sched, monitor_id, res_id);
                let mut back = Some(m);
                self.monitor_list.set_and_swap(monitor_id, &mut back);
                proof {
                    let pre = *old(self);
                    let m0 = pre.monitor_of(monitor_id);
                    assert(m0.cond_sems.len() == m0.cond_sems@.len());
                    assert forall|x: int|
                        0 <= x < pre.sched.threads@.len()
                            && self.sched.threads@[x] != (#[trigger] pre.sched.threads@[x])
                            implies Kernel::loc_exempt(
                                pre.sched,
                                x,
                                -1,
                                -1,
                                monitor_id as int,
                            ) by {
                        assert(x == c || x == w);
                        if x == c {
                            assert(pre.sched.running(c));
                        } else {
                            assert(pre.sched.parked(w, WaitLoc::MonCond {
                                mon_id: monitor_id,
                                res_id,
                            }));
                        }
                    }
                    Kernel::lemma_inv_untouched(pre, *self, -1, -1, monitor_id as int);
                    assert(pre.sched.thread_of(c).loc@ is None);
                    if signalled {
                        assert(pre.sched.parked(w, WaitLoc::MonCond {
                            mon_id: monitor_id,
                            res_id,
                        }));
                    }
                    assert(self.monitor_ok(monitor_id as int)) by {
                        if signalled {
                            lemma_queue_push_blocked(
                                pre.sched,
                                self.sched,
                                m0.urgent.waited_queue@,
                                WaitLoc::MonUrgent(monitor_id),
                                c,
                                w,
                            );
                            lemma_queue_drop_woken(
                                pre.sched,
                                self.sched,
                                m0.cond_sems@[res_id as int].waited_queue@,
                                WaitLoc::MonCond { mon_id: monitor_id, res_id },
                                c,
                            );
                            lemma_queue_keep(
                                pre.sched,
                                self.sched,
                                m0.entry.waited_queue@,
                                WaitLoc::MonEntry(monitor_id),
                            );
                            assert forall|j: int|
                                0 <= j < m0.cond_sems@.len() && j != res_id
                                    implies self.sched.queue_ok(
                                        (#[trigger] m0.cond_sems@[j]).waited_queue@,
                                        WaitLoc::MonCond {
                                            mon_id: monitor_id,
                                            res_id: j as usize,
                                        },
                                    ) by {
                                lemma_queue_keep(
                                    pre.sched,
                                    self.sched,
                                    m0.cond_sems@[j].waited_queue@,
                                    WaitLoc::MonCond {
                                        mon_id: monitor_id,
                                        res_id: j as usize,
                                    },
                                );
                            }
                        let m1 = self.monitor_of(monitor_id);
                        assert forall|j: int| 0 <= j < m1.cond_sems@.len()
                            implies self.sched.queue_ok(
                                (#[trigger] m1.cond_sems@[j]).waited_queue@,
                                WaitLoc::MonCond {
                                    mon_id: monitor_id,
                                    res_id: j as usize,
                                },
                            ) by {
                            if j != res_id {
                                assert(m1.cond_sems@[j] == m0.cond_sems@[j]);
                            }
                        }
                        } else {
                            assert(self.sched == pre.sched);
                        }
                    }
                }
                0
            },
            None => {
                proof {
                    assert(false);
                }
                -1
            },
        }
    }

    /// Audit monitor `monitor_id` for lost liveness: if its whole
    /// population is blocked on its queues, every one of those threads is
    /// terminated in place and 1 is returned; otherwise 0, with no change.
    pub fn sys_monitor_check(&mut self, monitor_id: usize) -> (r: isize)
        requires
            old(self).inv(),
        ensures
            final(self).inv(),
            !old(self).valid_monitor(monitor_id) ==> r == -1 && *final(self) == *old(self),
            old(self).valid_monitor(monitor_id) ==> {
                let m0 = old(self).monitor_of(monitor_id);
                let m1 = final(self).monitor_of(monitor_id);
                &&& (r == 1 || r == 0)
                &&& final(self).valid_monitor(monitor_id)
                &&& ((r == 1) <==> (m0.thread_count != 0
                    && m0.entry.waited_queue@.len() + m0.urgent.waited_queue@.len()
                        + crate::monitor::sum_counts(m0.cond_counts@) == m0.thread_count))
                &&& (r == 0 ==> final(self).monitor_of(monitor_id)
                    == old(self).monitor_of(monitor_id)
                    && final(self).sched == old(self).sched)
                &&& (r == 1 ==> {
                    &&& m1.thread_count == 0
                    &&& m1.urgent_count == 0
                    &&& (m1.active@ is None)
                    &&& m1.urgent.waited_queue@.len() == 0
                    &&& m1.entry.waited_queue@.len() == 0
                    &&& m1.cond_sems@.len() == m0.cond_sems@.len()
                    &&& forall|j: int|
                        0 <= j < m1.cond_sems@.len()
                            ==> (#[trigger] m1.cond_sems@[j]).waited_queue@.len() == 0
                    &&& forall|j: int|
                        0 <= j < m1.cond_counts@.len() ==> m1.cond_counts@[j] == 0
                    &&& forall|k: int|
                        0 <= k < m0.urgent.waited_queue@.len()
                            ==> crate::monitor::terminated_from(
                                old(self).sched,
                                final(self).sched,
                                #[trigger] m0.urgent.waited_queue@[k],
                            )
                    &&& forall|j: int, k: int|
                        0 <= j < m0.cond_sems@.len()
                            && 0 <= k < m0.cond_sems@[j].waited_queue@.len()
                            ==> crate::monitor::terminated_from(
                                old(self).sched,
                                final(self).sched,
                                (#[trigger] m0.cond_sems@[j].waited_queue@[k]),
                            )
                    &&& final(self).sched.ready == old(self).sched.ready
                    &&& final(self).sched.timers == old(self).sched.timers
                    &&& final(self).sched.current == old(self).sched.current
                    &&& final(self).sched.time_ms == old(self).sched.time_ms
                })
                &&& final(self).monitor_list@.len() == old(self).monitor_list@.len()
                &&& forall|i: int|
                    0 <= i < old(self).monitor_list@.len() && i != monitor_id
                        ==> final(self).monitor_list@[i]
                            == (#[trigger] old(self).monitor_list@[i])
                &&& final(self).mutex_list == old(self).mutex_list
                &&& final(self).sem_list == old(self).sem_list
            },
    {
        if monitor_id >= self.monitor_list.len() {
            return -1;
        }
        if !self.monitor_list[monitor_id].is_some() {
            return -1;
        }
        let mut slot: Option<HoareMonitor> = None;
        proof {
            assert(old(self).monitor_ok(monitor_id as int));
        }
        self.monitor_list.set_and_swap(monitor_id, &mut slot);
        match slot {
            Some(mut m) => {
                let r = m.check_self(&mut self.sched, monitor_id);
                let mut back = Some(m);
                self.monitor_list.set_and_swap(monitor_id, &mut back);
                proof {
                    let pre = *old(self);
                    let m0 = pre.monitor_of(monitor_id);
                    assert forall|x: int|
                        0 <= x < pre.sched.threads@.len()
                            && self.sched.threads@[x] != (#[trigger] pre.sched.threads@[x])
                            implies Kernel::loc_exempt(
                                pre.sched,
                                x,
                                -1,
                                -1,
                                monitor_id as int,
                            ) by {
                        assert(!m0.in_waiter_queues(x as usize) ==> false);
                        if m0.entry.waited_queue@.contains(x as usize) {
                            let k = choose|k: int|
                                0 <= k < m0.entry.waited_queue@.len()
                                    && m0.entry.waited_queue@[k] == x;
                            assert(pre.sched.parked(
                                m0.entry.waited_queue@[k],
                                WaitLoc::MonEntry(monitor_id),
                            ));
                        } else if m0.urgent.waited_queue@.contains(x as usize) {
                            let k = choose|k: int|
                                0 <= k < m0.urgent.waited_queue@.len()
                                    && m0.urgent.waited_queue@[k] == x;
                            assert(pre.sched.parked(
                                m0.urgent.waited_queue@[k],
                                WaitLoc::MonUrgent(monitor_id),
                            ));
                        } else {
                            let jj = choose|jj: int|
                                0 <= jj < m0.cond_sems@.len()
                                    && (#[trigger] m0.cond_sems@[jj]).waited_queue@.contains(
                                    x as usize,
                                );
                            let k = choose|k: int|
                                0 <= k < m0.cond_sems@[jj].waited_queue@.len()
                                    && m0.cond_sems@[jj].waited_queue@[k] == x;
                            assert(pre.sched.parked(
                                m0.cond_sems@[jj].waited_queue@[k],
                                WaitLoc::MonCond { mon_id: monitor_id, res_id: jj as usize },
                            ));
                        }
                    }
                    Kernel::lemma_inv_untouched(pre, *self, -1, -1, monitor_id as int);
                    assert(self.monitor_ok(monitor_id as int)) by {
                        if r == 0 {
                            assert(self.sched == pre.sched);
                        } else {
                            let m1 = self.monitor_of(monitor_id);
                            assert forall|j: int| 0 <= j < m1.cond_sems@.len()
                                implies self.sched.queue_ok(
                                    (#[trigger] m1.cond_sems@[j]).waited_queue@,
                                    WaitLoc::MonCond {
                                        mon_id: monitor_id,
                                        res_id: j as usize,
                                    },
                                ) by {
                                assert(m1.cond_sems@[j].waited_queue@.len() == 0);
                            }
                        }
                    }
                }
                r
            },
            None => {
                proof {
                    assert(false);
                }
                -1
            },
        }
    }

    /// Destroy monitor `monitor_id`: tombstone its slot.  Blocked waiters
    /// stay blocked; later operations on the id fail.
    pub fn sys_monitor_destroy(&mut self, monitor_id: usize) -> (r: isize)
        requires
            old(self).inv(),
        ensures
            final(self).inv(),
            monitor_id >= old(self).monitor_list@.len()
                ==> r == -1 && *final(self) == *old(self),
            monitor_id < old(self).monitor_list@.len() ==> {
                &&& r == 0
                &&& !final(self).valid_monitor(monitor_id)
                &&& final(self).monitor_list@
                    == old(self).monitor_list@.update(monitor_id as int, None)
                &&& final(self).sched == old(self).sched
                &&& final(self).mutex_list == old(self).mutex_list
                &&& final(self).sem_list == old(self).sem_list
            },
    {
        if monitor_id >= self.monitor_list.len() {
            return -1;
        }
        self.monitor_list.set(monitor_id, None);
        proof {
            assert forall|i: int| 0 <= i < self.monitor_list@.len()
                implies #[trigger] self.monitor_ok(i) by {
                if i != monitor_id {
                    assert(old(self).monitor_ok(i));
                }
            }
            assert forall|i: int| 0 <= i < self.mutex_list@.len()
                implies #[trigger] self.mutex_ok(i) by {
                assert(old(self).mutex_ok(i));
            }
            assert forall|i: int| 0 <= i < self.sem_list@.len()
                implies #[trigger] self.sem_ok(i) by {
                assert(old(self).sem_ok(i));
            }
        }
        0
    }

    /// Create a semaphore with `value` free resources in the first free
    /// slot and return its id.  A negative initial value would break the
    /// sign invariant, so it is excluded.
    pub fn sys_sem_create(&mut self, value: isize) -> (id: usize)
        requires
            old(self).inv(),
            value >= 0,
            old(self).sem_list@.len() < usize::MAX,
        ensures
            final(self).inv(),
            final(self).valid_sem(id),
            !old(self).valid_sem(id),
            forall|i: usize| i < id ==> #[trigger] old(self).valid_sem(i),
            id <= old(self).sem_list@.len(),
            final(self).sem_list@.len()
                == if id < old(self).sem_list@.len() {
                    old(self).sem_list@.len()
                } else {
                    old(self).sem_list@.len() + 1
                },
            forall|i: int|
                0 <= i < old(self).sem_list@.len() && i != id
                    ==> final(self).sem_list@[i] == (#[trigger] old(self).sem_list@[i]),
            final(self).sem_of(id).value == value,
            final(self).sem_of(id).waited_queue@.len() == 0,
            final(self).sem_of(id).hist_blocked@.len() == 0,
            final(self).sem_of(id).hist_woken@.len() == 0,
            final(self).sched == old(self).sched,
            final(self).mutex_list == old(self).mutex_list,
            final(self).monitor_list == old(self).monitor_list,
    {
        let s = Semaphore::new(value);
        let mut id: usize = 0;
        let n = self.sem_list.len();
        while id < n && self.sem_list[id].is_some()
            invariant
                n == self.sem_list@.len(),
                id <= n,
                forall|i: int| 0 <= i < id ==> (#[trigger] self.sem_list@[i] is Some),
            decreases n - id,
        {
            id = id + 1;
        }
        if id < n {
            self.sem_list.set(id, Some(s));
        } else {
            self.sem_list.push(Some(s));
        }
        proof {
            assert forall|i: int| 0 <= i < self.sem_list@.len()
                implies #[trigger] self.sem_ok(i) by {
                if i != id {
                    assert(old(self).sem_ok(i));
                }
            }
            assert forall|i: int| 0 <= i < self.mutex_list@.len()
                implies #[trigger] self.mutex_ok(i) by {
                assert(old(self).mutex_ok(i));
            }
            assert forall|i: int| 0 <= i < self.monitor_list@.len()
                implies #[trigger] self.monitor_ok(i) by {
                assert(old(self).monitor_ok(i));
            }
        }
        id
    }

    /// P operation on semaphore `sem_id`: consume a resource or block the
    /// running thread in FIFO order until one is posted.
    pub fn sys_sem_wait(&mut self, sem_id: usize) -> (r: isize)
        requires
            old(self).inv(),
            (old(self).sched.current is Some),
        ensures
            final(self).inv(),
            !old(self).valid_sem(sem_id) ==> r == -1 && *final(self) == *old(self),
            old(self).valid_sem(sem_id) ==> {
                let s0 = old(self).sem_of(sem_id);
                let s1 = final(self).sem_of(sem_id);
                let c = old(self).sched.current.unwrap();
                &&& r == 0
                &&& final(self).valid_sem(sem_id)
                &&& s1.value == s0.value - 1
                &&& s1.hist_woken == s0.hist_woken
                &&& (s0.value > 0 ==> {
                    &&& s1.waited_queue == s0.waited_queue
                    &&& s1.hist_blocked == s0.hist_blocked
                    &&& final(self).sched == old(self).sched
                })
                &&& (s0.value <= 0 ==> {
                    &&& s1.waited_queue@ == s0.waited_queue@.push(c)
                    &&& s1.hist_blocked@ == s0.hist_blocked@.push(c)
                    &&& final(self).sched.parked(c, WaitLoc::SemQ(sem_id))
                    &&& (final(self).sched.current is None)
                    &&& final(self).sched.ready == old(self).sched.ready
                    &&& Sched::same_threads_except(
                        old(self).sched,
                        final(self).sched,
                        c,
                    )
                })
                &&& final(self).sem_list@.len() == old(self).sem_list@.len()
                &&& forall|i: int|
                    0 <= i < old(self).sem_list@.len() && i != sem_id
                        ==> final(self).sem_list@[i]
                            == (#[trigger] old(self).sem_list@[i])
                &&& final(self).mutex_list == old(self).mutex_list
                &&& final(self).monitor_list == old(self).monitor_list
                &&& final(self).sched.timers == old(self).sched.timers
                &&& final(self).sched.time_ms == old(self).sched.time_ms
            },
    {
        if sem_id >= self.sem_list.len() {
            return -1;
        }
        if !self.sem_list[sem_id].is_some() {
            return -1;
        }
        let mut slot: Option<Semaphore> = None;
        proof {
            assert(old(self).sem_ok(sem_id as int));
        }
        self.sem_list.set_and_swap(sem_id, &mut slot);
        match slot {
            Some(mut s) => {
                proof {
                    lemma_queue_small(
                        self.sched,
                        s.waited_queue@,
                        WaitLoc::SemQ(sem_id),
                    );
                }
                let ghost c = self.sched.current.unwrap();
                let ghost blocked = s.value <= 0;
                s.sem_wait(&mut self.sched, Ghost(WaitLoc::SemQ(sem_id)));
                let mut back = Some(s);
                self.sem_list.set_and_swap(sem_id, &mut back);
                proof {
                    let pre = *old(self);
                    assert forall|x: int|
                        0 <= x < pre.sched.threads@.len()
                            && self.sched.threads@[x] != (#[trigger] pre.sched.threads@[x])
                            implies Kernel::loc_exempt(pre.sched, x, -1, sem_id as int, -1) by {
                        assert(x == c);
                        assert(pre.sched.running(c));
                    }
                    Kernel::lemma_inv_untouched(pre, *self, -1, sem_id as int, -1);
                    assert(self.sem_ok(sem_id as int)) by {
                        if blocked {
                            lemma_queue_push_blocked(
                                pre.sched,
                                self.sched,
                                pre.sem_of(sem_id).waited_queue@,
                                WaitLoc::SemQ(sem_id),
                                c,
                                c,
                            );
                        } else {
                            assert(self.sched == pre.sched);
                        }
                    }
                }
                0
            },
            None => {
                proof {
                    assert(false);
                }
                -1
            },
        }
    }

    /// V operation on semaphore `sem_id`: release a resource; the oldest
    /// blocked waiter, if any, is woken and takes it.
    pub fn sys_sem_post(&mut self, sem_id: usize) -> (r: isize)
        requires
            old(self).inv(),
            old(self).valid_sem(sem_id) ==> old(self).sem_of(sem_id).value < isize::MAX,
        ensures
            final(self).inv(),
            !old(self).valid_sem(sem_id) ==> r == -1 && *final(self) == *old(self),
            old(self).valid_sem(sem_id) ==> {
                let s0 = old(self).sem_of(sem_id);
                let s1 = final(self).sem_of(sem_id);
                &&& r == 0
                &&& final(self).valid_sem(sem_id)
                &&& s1.value == s0.value + 1
                &&& s1.hist_blocked == s0.hist_blocked
                &&& (s0.value >= 0 ==> {
                    &&& s1.waited_queue == s0.waited_queue
                    &&& s1.hist_woken == s0.hist_woken
                    &&& final(self).sched == old(self).sched
                })
                &&& (s0.value < 0 ==> {
                    let w = s0.waited_queue@[0];
                    &&& s1.waited_queue@ == s0.waited_queue@.drop_first()
                    &&& s1.hist_woken@ == s0.hist_woken@.push(w)
                    &&& final(self).sched.runnable(w)
                    &&& final(self).sched.ready@ == old(self).sched.ready@.push(w)
                    &&& final(self).sched.current == old(self).sched.current
                    &&& Sched::same_threads_except(
                        old(self).sched,
                        final(self).sched,
                        w,
                    )
                })
                &&& final(self).sem_list@.len() == old(self).sem_list@.len()
                &&& forall|i: int|
                    0 <= i < old(self).sem_list@.len() && i != sem_id
                        ==> final(self).sem_list@[i]
                            == (#[trigger] old(self).sem_list@[i])
                &&& final(self).mutex_list == old(self).mutex_list
                &&& final(self).monitor_list == old(self).monitor_list
                &&& final(self).sched.timers == old(self).sched.timers
                &&& final(self).sched.time_ms == old(self).sched.time_ms
            },
    {
        if sem_id >= self.sem_list.len() {
            return -1;
        }
        if !self.sem_list[sem_id].is_some() {
            return -1;
        }
        let mut slot: Option<Semaphore> = None;
        proof {
            assert(old(self).sem_ok(sem_id as int));
        }
        self.sem_list.set_and_swap(sem_id, &mut slot);
        match slot {
            Some(mut s) => {
                let ghost w = s.waited_queue@[0];
                s.sem_post(&mut self.sched, Ghost(WaitLoc::SemQ(sem_id)));
                let mut back = Some(s);
                self.sem_list.set_and_swap(sem_id, &mut back);
                proof {
                    let pre = *old(self);
                    assert forall|x: int|
                        0 <= x < pre.sched.threads@.len()
                            && self.sched.threads@[x] != (#[trigger] pre.sched.threads@[x])
                            implies Kernel::loc_exempt(pre.sched, x, -1, sem_id as int, -1) by {
                        assert(x == w);
                        assert(pre.sched.parked(w, WaitLoc::SemQ(sem_id)));
                    }
                    Kernel::lemma_inv_untouched(pre, *self, -1, sem_id as int, -1);
                    assert(self.sem_ok(sem_id as int)) by {
                        if pre.sem_of(sem_id).value < 0 {
                            lemma_queue_drop_woken(
                                pre.sched,
                                self.sched,
                                pre.sem_of(sem_id).waited_queue@,
                                WaitLoc::SemQ(sem_id),
                                w,
                            );
                        } else {
                            assert(self.sched == pre.sched);
                        }
                    }
                }
                0
            },
            None => {
                proof {
                    assert(false);
                }
                -1
            },
        }
    }

    /// Destroy semaphore `sem_id`: tombstone its slot.  Blocked waiters
    /// stay blocked; later operations on the id fail.
    pub fn sys_sem_destroy(&mut self, sem_id: usize) -> (r: isize)
        requires
            old(self).inv(),
        ensures
            final(self).inv(),
            sem_id >= old(self).sem_list@.len() ==> r == -1 && *final(self) == *old(self),
            sem_id < old(self).sem_list@.len() ==> {
                &&& r == 0
                &&& !final(self).valid_sem(sem_id)
                &&& final(self).sem_list@
                    == old(self).sem_list@.update(sem_id as int, None)
                &&& final(self).sched == old(self).sched
                &&& final(self).mutex_list == old(self).mutex_list
                &&& final(self).monitor_list == old(self).monitor_list
            },
    {
        if sem_id >= self.sem_list.len() {
            return -1;
        }
        self.sem_list.set(sem_id, None);
        proof {
            assert forall|i: int| 0 <= i < self.sem_list@.len()
                implies #[trigger] self.sem_ok(i) by {
                if i != sem_id {
                    assert(old(self).sem_ok(i));
                }
            }
            assert forall|i: int| 0 <= i < self.mutex_list@.len()
                implies #[trigger] self.mutex_ok(i) by {
                assert(old(self).mutex_ok(i));
            }
            assert forall|i: int| 0 <= i < self.monitor_list@.len()
                implies #[trigger] self.monitor_ok(i) by {
                assert(old(self).monitor_ok(i));
            }
        }
        0
    }

    /// Destroy mutex `mutex_id`: tombstone its slot.  Threads already
    /// blocked on it stay blocked; later operations on the id fail.
    pub fn sys_mutex_destroy(&mut self, mutex_id: usize) -> (r: isize)
        requires
            old(self).inv(),
        ensures
            final(self).inv(),
            mutex_id >= old(self).mutex_list@.len()
                ==> r == -1 && *final(self) == *old(self),
            mutex_id < old(self).mutex_list@.len() ==> {
                &&& r == 0
                &&& !final(self).valid_mutex(mutex_id)
                &&& final(self).mutex_list@
                    == old(self).mutex_list@.update(mutex_id as int, None)
                &&& final(self).sched == old(self).sched
                &&& final(self).sem_list == old(self).sem_list
                &&& final(self).monitor_list == old(self).monitor_list
            },
    {
        if mutex_id >= self.mutex_list.len() {
            return -1;
        }
        self.mutex_list.set(mutex_id, None);
        proof {
            assert forall|i: int| 0 <= i < self.mutex_list@.len()
                implies #[trigger] self.mutex_ok(i) by {
                if i != mutex_id {
                    assert(old(self).mutex_ok(i));
                }
            }
            assert forall|i: int| 0 <= i < self.sem_list@.len()
                implies #[trigger] self.sem_ok(i) by {
                assert(old(self).sem_ok(i));
            }
            assert forall|i: int| 0 <= i < self.monitor_list@.len()
                implies #[trigger] self.monitor_ok(i) by {
                assert(old(self).monitor_ok(i));
            }
        }
        0
    }

    /// The conditions under which `syscall` may be issued: the id is one
    /// the kernel knows (an unrecognized id is fatal), a thread is running
    /// where the call acts for one, machine limits are respected, and the
    /// monitor discipline is followed (operating inside a monitor without
    /// holding it is undefined behavior).
    pub open spec fn dispatch_ok(self, syscall_id: usize, args: [usize; 3]) -> bool {
        if syscall_id == SYSCALL_EXIT {
            self.sched.current is Some
        } else if syscall_id == SYSCALL_SLEEP {
            (self.sched.current is Some) && self.sched.time_ms + args[0] <= usize::MAX
        } else if syscall_id == SYSCALL_YIELD {
            self.sched.current is Some
        } else if syscall_id == SYSCALL_GET_TIME {
            self.sched.time_ms <= isize::MAX as usize
        } else if syscall_id == SYSCALL_MUTEX_CREATE {
            self.mutex_list@.len() < isize::MAX as usize
        } else if syscall_id == SYSCALL_MUTEX_LOCK {
            self.sched.current is Some
        } else if syscall_id == SYSCALL_MUTEX_UNLOCK {
            true
        } else if syscall_id == SYSCALL_MUTEX_DESTROY {
            true
        } else if syscall_id == SYSCALL_SEM_CREATE {
            args[0] <= isize::MAX as usize && self.sem_list@.len() < isize::MAX as usize
        } else if syscall_id == SYSCALL_SEM_WAIT {
            self.sched.current is Some
        } else if syscall_id == SYSCALL_SEM_POST {
            self.valid_sem(args[0]) ==> self.sem_of(args[0]).value < isize::MAX
        } else if syscall_id == SYSCALL_SEM_DESTROY {
            true
        } else if syscall_id == SYSCALL_MONITOR_CREATE {
            self.monitor_list@.len() < isize::MAX as usize
        } else if syscall_id == SYSCALL_MONITOR_ENTER {
            &&& self.sched.current is Some
            &&& self.valid_monitor(args[0])
                ==> self.monitor_of(args[0]).thread_count < isize::MAX
        } else if syscall_id == SYSCALL_MONITOR_LEAVE {
            &&& self.sched.current is Some
            &&& self.valid_monitor(args[0])
                ==> self.monitor_of(args[0]).active@ == Some(self.sched.current.unwrap())
        } else if syscall_id == SYSCALL_MONITOR_CREATE_RES_SEM {
            &&& self.valid_monitor(args[0])
            &&& self.monitor_of(args[0]).cond_sems@.len() < isize::MAX as usize
        } else if syscall_id == SYSCALL_MONITOR_WAIT {
            &&& self.sched.current is Some
            &&& self.valid_monitor(args[0])
                ==> self.monitor_of(args[0]).active@ == Some(self.sched.current.unwrap())
                    && args[1] < self.monitor_of(args[0]).cond_sems@.len()
        } else if syscall_id == SYSCALL_MONITOR_SIGNAL {
            &&& self.sched.current is Some
            &&& self.valid_monitor(args[0])
                ==> self.monitor_of(args[0]).active@ == Some(self.sched.current.unwrap())
                    && args[1] < self.monitor_of(args[0]).cond_sems@.len()
        } else if syscall_id == SYSCALL_MONITOR_CHECK {
            true
        } else if syscall_id == SYSCALL_MONITOR_DESTROY {
            true
        } else if syscall_id == SYSCALL_THREAD_CREATE {
            self.sched.threads@.len() < MAX_THREADS
        } else if syscall_id == SYSCALL_GETTID {
            self.sched.current is Some
        } else if syscall_id == SYSCALL_WAITTID {
            self.sched.current is Some
        } else {
            false
        }
    }

    /// Single entry point for all system calls: route `syscall_id` to its
    /// handler.  The detailed contract of each operation is on the
    /// handler; here each id is pinned to its operation's visible effect.
    pub fn syscall(&mut self, syscall_id: usize, args: [usize; 3]) -> (r: isize)
        requires
            old(self).inv(),
            old(self).dispatch_ok(syscall_id, args),
        ensures
            final(self).inv(),
            syscall_id == SYSCALL_EXIT ==> {
                let c = old(self).sched.current.unwrap();
                &&& final(self).sched.thread_of(c).exit_code == Some(args[0] as i32)
                &&& (final(self).sched.thread_of(c).res is None)
                &&& (final(self).sched.current is None)
                &&& final(self).sched.ready == old(self).sched.ready
            },
            syscall_id == SYSCALL_SLEEP ==> {
                &&& r == 0
                &&& final(self).sched.parked(old(self).sched.current.unwrap(), WaitLoc::Timer)
                &&& (final(self).sched.current is None)
                &&& final(self).sched.ready == old(self).sched.ready
                &&& exists|p: int|
                    {
                        &&& 0 <= p <= old(self).sched.timers@.len()
                        &&& final(self).sched.timers@
                            == (#[trigger] old(self).sched.timers@.insert(
                            p,
                            (crate::sched::TimerEntry {
                                expire_ms: (old(self).sched.time_ms + args[0]) as usize,
                                tid: old(self).sched.current.unwrap(),
                            }),
                        ))
                    }
            },
            syscall_id == SYSCALL_YIELD ==> r == 0 && final(self).sched.ready@
                == old(self).sched.ready@.push(old(self).sched.current.unwrap())
                && (final(self).sched.current is None),
            syscall_id == SYSCALL_GET_TIME ==> r == old(self).sched.time_ms
                && *final(self) == *old(self),
            syscall_id == SYSCALL_MUTEX_CREATE ==> {
                &&& r >= 0
                &&& final(self).valid_mutex(r as usize)
                &&& !old(self).valid_mutex(r as usize)
                &&& forall|i: usize| i < r as usize ==> #[trigger] old(self).valid_mutex(i)
                &&& !final(self).mutex_of(r as usize).is_locked
                &&& final(self).mutex_of(r as usize).waited_queue@.len() == 0
                &&& final(self).sched == old(self).sched
            },
            syscall_id == SYSCALL_MUTEX_LOCK ==> {
                &&& (r == -1 <==> !old(self).valid_mutex(args[0]))
                &&& old(self).valid_mutex(args[0]) ==> {
                    let m0 = old(self).mutex_of(args[0]);
                    let m1 = final(self).mutex_of(args[0]);
                    let c = old(self).sched.current.unwrap();
                    &&& r == 0
                    &&& m1.is_locked
                    &&& (!m0.is_locked ==> m1.owner@ == Some(c)
                        && final(self).sched == old(self).sched)
                    &&& (m0.is_locked ==> m1.waited_queue@ == m0.waited_queue@.push(c)
                        && final(self).sched.parked(c, WaitLoc::MutexQ(args[0]))
                        && (final(self).sched.current is None))
                }
            },
            syscall_id == SYSCALL_MUTEX_UNLOCK ==> {
                &&& (r == -1 <==> !old(self).valid_mutex(args[0]))
                &&& old(self).valid_mutex(args[0]) ==> {
                    let m0 = old(self).mutex_of(args[0]);
                    let m1 = final(self).mutex_of(args[0]);
                    &&& r == 0
                    &&& (m0.waited_queue@.len() == 0 ==> !m1.is_locked
                        && (m1.owner@ is None) && final(self).sched == old(self).sched)
                    &&& (m0.waited_queue@.len() > 0 ==> {
                        let w = m0.waited_queue@[0];
                        &&& m1.is_locked
                        &&& m1.owner@ == Some(w)
                        &&& m1.waited_queue@ == m0.waited_queue@.drop_first()
                        &&& final(self).sched.runnable(w)
                        &&& final(self).sched.ready@ == old(self).sched.ready@.push(w)
                    })
                }
            },
            syscall_id == SYSCALL_MUTEX_DESTROY ==> {
                &&& (r == -1 <==> args[0] >= old(self).mutex_list@.len())
                &&& args[0] < old(self).mutex_list@.len()
                    ==> !final(self).valid_mutex(args[0])
            },
            syscall_id == SYSCALL_SEM_CREATE ==> {
                &&& r >= 0
                &&& final(self).valid_sem(r as usize)
                &&& !old(self).valid_sem(r as usize)
                &&& forall|i: usize| i < r as usize ==> #[trigger] old(self).valid_sem(i)
                &&& final(self).sem_of(r as usize).value == args[0] as isize
                &&& final(self).sem_of(r as usize).waited_queue@.len() == 0
                &&& final(self).sched == old(self).sched
            },
            syscall_id == SYSCALL_SEM_WAIT ==> {
                &&& (r == -1 <==> !old(self).valid_sem(args[0]))
                &&& old(self).valid_sem(args[0]) ==> {
                    let s0 = old(self).sem_of(args[0]);
                    let s1 = final(self).sem_of(args[0]);
                    let c = old(self).sched.current.unwrap();
                    &&& r == 0
                    &&& s1.value == s0.value - 1
                    &&& (s0.value > 0 ==> s1.waited_queue == s0.waited_queue
                        && final(self).sched == old(self).sched)
                    &&& (s0.value <= 0 ==> s1.waited_queue@ == s0.waited_queue@.push(c)
                        && final(self).sched.parked(c, WaitLoc::SemQ(args[0]))
                        && (final(self).sched.current is None))
                }
            },
            syscall_id == SYSCALL_SEM_POST ==> {
                &&& (r == -1 <==> !old(self).valid_sem(args[0]))
                &&& old(self).valid_sem(args[0]) ==> {
                    let s0 = old(self).sem_of(args[0]);
                    let s1 = final(self).sem_of(args[0]);
                    &&& r == 0
                    &&& s1.value == s0.value + 1
                    &&& (s0.value >= 0 ==> s1.waited_queue == s0.waited_queue
                        && final(self).sched == old(self).sched)
                    &&& (s0.value < 0 ==> {
                        let w = s0.waited_queue@[0];
                        &&& s1.waited_queue@ == s0.waited_queue@.drop_first()
                        &&& final(self).sched.runnable(w)
                        &&& final(self).sched.ready@ == old(self).sched.ready@.push(w)
                    })
                }
            },
            syscall_id == SYSCALL_SEM_DESTROY ==> {
                &&& (r == -1 <==> args[0] >= old(self).sem_list@.len())
                &&& args[0] < old(self).sem_list@.len() ==> !final(self).valid_sem(args[0])
            },
            syscall_id == SYSCALL_MONITOR_CREATE ==> {
                &&& r >= 0
                &&& final(self).valid_monitor(r as usize)
                &&& !old(self).valid_monitor(r as usize)
                &&& forall|i: usize| i < r as usize ==> #[trigger] old(self).valid_monitor(i)
                &&& final(self).monitor_of(r as usize).thread_count == 0
                &&& final(self).monitor_of(r as usize).cond_sems@.len() == 0
                &&& (final(self).monitor_of(r as usize).active@ is None)
                &&& final(self).sched == old(self).sched
            },
            syscall_id == SYSCALL_MONITOR_ENTER ==> {
                &&& (r == -1 <==> !old(self).valid_monitor(args[0]))
                &&& old(self).valid_monitor(args[0]) ==> {
                    let m0 = old(self).monitor_of(args[0]);
                    let m1 = final(self).monitor_of(args[0]);
                    let c = old(self).sched.current.unwrap();
                    &&& r == 0
                    &&& m1.thread_count == m0.thread_count + 1
                    &&& (m0.entry.value > 0 ==> m1.active@ == Some(c)
                        && final(self).sched == old(self).sched)
                    &&& (m0.entry.value <= 0
                        ==> m1.entry.waited_queue@ == m0.entry.waited_queue@.push(c)
                            && final(self).sched.parked(c, WaitLoc::MonEntry(args[0]))
                            && (final(self).sched.current is None))
                }
            },
            syscall_id == SYSCALL_MONITOR_LEAVE ==> {
                &&& (r == -1 <==> !old(self).valid_monitor(args[0]))
                &&& old(self).valid_monitor(args[0]) ==> {
                    let m0 = old(self).monitor_of(args[0]);
                    let m1 = final(self).monitor_of(args[0]);
                    &&& r == 0
                    &&& m1.thread_count == m0.thread_count - 1
                    &&& (m0.urgent_count > 0 ==> {
                        let w = m0.urgent.waited_queue@[0];
                        &&& m1.active@ == Some(w)
                        &&& m1.urgent.waited_queue@ == m0.urgent.waited_queue@.drop_first()
                        &&& m1.entry == m0.entry
                        &&& final(self).sched.runnable(w)
                        &&& final(self).sched.ready@ == old(self).sched.ready@.push(w)
                    })
                    &&& (m0.urgent_count == 0 && m0.entry.value < 0 ==> {
                        let w = m0.entry.waited_queue@[0];
                        &&& m1.active@ == Some(w)
                        &&& m1.entry.waited_queue@ == m0.entry.waited_queue@.drop_first()
                        &&& final(self).sched.runnable(w)
                        &&& final(self).sched.ready@ == old(self).sched.ready@.push(w)
                    })
                    &&& (m0.urgent_count == 0 && m0.entry.value >= 0
                        ==> (m1.active@ is None) && m1.entry.value == 1
                            && final(self).sched == old(self).sched)
                }
            },
            syscall_id == SYSCALL_MONITOR_CREATE_RES_SEM ==> r >= 0
                && r == old(self).monitor_of(args[0]).cond_sems@.len()
                && final(self).monitor_of(args[0]).cond_sems@.len() == r + 1,
            syscall_id == SYSCALL_MONITOR_WAIT ==> {
                &&& (r == -1 <==> !old(self).valid_monitor(args[0]))
                &&& old(self).valid_monitor(args[0]) ==> {
                    let m0 = old(self).monitor_of(args[0]);
                    let m1 = final(self).monitor_of(args[0]);
                    let c = old(self).sched.current.unwrap();
                    &&& r == 0
                    &&& final(self).sched.parked(
                        c,
                        WaitLoc::MonCond { mon_id: args[0], res_id: args[1] },
                    )
                    &&& (final(self).sched.current is None)
                    &&& m1.thread_count == m0.thread_count
                    &&& m1.cond_counts@ == m0.cond_counts@.update(
                        args[1] as int,
                        (m0.cond_counts@[args[1] as int] + 1) as usize,
                    )
                    &&& m1.cond_sems@[args[1] as int].waited_queue@
                        == m0.cond_sems@[args[1] as int].waited_queue@.push(c)
                }
            },
            syscall_id == SYSCALL_MONITOR_SIGNAL ==> {
                &&& (r == -1 <==> !old(self).valid_monitor(args[0]))
                &&& old(self).valid_monitor(args[0]) ==> {
                    let m0 = old(self).monitor_of(args[0]);
                    let m1 = final(self).monitor_of(args[0]);
                    let c = old(self).sched.current.unwrap();
                    &&& r == 0
                    &&& (m0.cond_counts@[args[1] as int] == 0
                        ==> m1 == m0 && final(self).sched == old(self).sched)
                    &&& (m0.cond_counts@[args[1] as int] > 0 ==> {
                        let w = m0.cond_sems@[args[1] as int].waited_queue@[0];
                        &&& m1.active@ == Some(w)
                        &&& m1.urgent_count == m0.urgent_count + 1
                        &&& m1.urgent.waited_queue@ == m0.urgent.waited_queue@.push(c)
                        &&& m1.cond_counts@ == m0.cond_counts@.update(
                            args[1] as int,
                            (m0.cond_counts@[args[1] as int] - 1) as usize,
                        )
                        &&& m1.cond_sems@[args[1] as int].waited_queue@
                            == m0.cond_sems@[args[1] as int].waited_queue@.drop_first()
                        &&& final(self).sched.runnable(w)
                        &&& final(self).sched.parked(c, WaitLoc::MonUrgent(args[0]))
                        &&& (final(self).sched.current is None)
                    })
                }
            },
            syscall_id == SYSCALL_MONITOR_CHECK ==> {
                &&& (r == -1 <==> !old(self).valid_monitor(args[0]))
                &&& old(self).valid_monitor(args[0]) ==> {
                    let m0 = old(self).monitor_of(args[0]);
                    let m1 = final(self).monitor_of(args[0]);
                    &&& (r == 1 || r == 0)
                    &&& ((r == 1) <==> (m0.thread_count != 0
                        && m0.entry.waited_queue@.len() + m0.urgent.waited_queue@.len()
                            + crate::monitor::sum_counts(m0.cond_counts@)
                            == m0.thread_count))
                    &&& (r == 0 ==> m1 == m0 && final(self).sched == old(self).sched)
                    &&& (r == 1 ==> {
                        &&& m1.thread_count == 0
                        &&& m1.urgent.waited_queue@.len() == 0
                        &&& forall|j: int, k: int|
                            0 <= j < m0.cond_sems@.len()
                                && 0 <= k < m0.cond_sems@[j].waited_queue@.len()
                                ==> crate::monitor::terminated_from(
                                    old(self).sched,
                                    final(self).sched,
                                    (#[trigger] m0.cond_sems@[j].waited_queue@[k]),
                                )
                        &&& forall|k: int|
                            0 <= k < m0.urgent.waited_queue@.len()
                                ==> crate::monitor::terminated_from(
                                    old(self).sched,
                                    final(self).sched,
                                    #[trigger] m0.urgent.waited_queue@[k],
                                )
                    })
                }
            },
            syscall_id == SYSCALL_MONITOR_DESTROY ==> {
                &&& (r == -1 <==> args[0] >= old(self).monitor_list@.len())
                &&& args[0] < old(self).monitor_list@.len()
                    ==> !final(self).valid_monitor(args[0])
            },
            syscall_id == SYSCALL_THREAD_CREATE ==> {
                &&& r >= 0
                &&& final(self).sched.runnable(r as usize)
                &&& !old(self).sched.tid_alloc.allocated(r as usize)
                &&& final(self).sched.ready@ == old(self).sched.ready@.push(r as usize)
            },
            syscall_id == SYSCALL_GETTID ==> r == old(self).sched.current.unwrap()
                && *final(self) == *old(self),
            syscall_id == SYSCALL_WAITTID ==> {
                let c = old(self).sched.current.unwrap();
                &&& ((args[0] == c || !old(self).sched.live(args[0]))
                    ==> r == -1 && *final(self) == *old(self))
                &&& ((args[0] != c && old(self).sched.live(args[0])
                    && (old(self).sched.thread_of(args[0]).exit_code is None))
                    ==> r == -2 && *final(self) == *old(self))
                &&& ((args[0] != c && old(self).sched.live(args[0])
                    && (old(self).sched.thread_of(args[0]).exit_code is Some)) ==> {
                    &&& r == old(self).sched.thread_of(args[0]).exit_code.unwrap()
                    &&& !final(self).sched.live(args[0])
                })
            },
    {
        if syscall_id == SYSCALL_EXIT {
            self.sys_exit(args[0] as i32);
            0
        } else if syscall_id == SYSCALL_SLEEP {
            self.sys_sleep(args[0])
        } else if syscall_id == SYSCALL_YIELD {
            self.sys_yield()
        } else if syscall_id == SYSCALL_GET_TIME {
            self.sys_get_time()
        } else if syscall_id == SYSCALL_MUTEX_CREATE {
            self.sys_mutex_create() as isize
        } else if syscall_id == SYSCALL_MUTEX_LOCK {
            self.sys_mutex_lock(args[0])
        } else if syscall_id == SYSCALL_MUTEX_UNLOCK {
            self.sys_mutex_unlock(args[0])
        } else if syscall_id == SYSCALL_MUTEX_DESTROY {
            self.sys_mutex_destroy(args[0])
        } else if syscall_id == SYSCALL_SEM_CREATE {
            self.sys_sem_create(args[0] as isize) as isize
        } else if syscall_id == SYSCALL_SEM_WAIT {
            self.sys_sem_wait(args[0])
        } else if syscall_id == SYSCALL_SEM_POST {
            self.sys_sem_post(args[0])
        } else if syscall_id == SYSCALL_SEM_DESTROY {
            self.sys_sem_destroy(args[0])
        } else if syscall_id == SYSCALL_MONITOR_CREATE {
            self.sys_monitor_create() as isize
        } else if syscall_id == SYSCALL_MONITOR_ENTER {
            self.sys_monitor_enter(args[0])
        } else if syscall_id == SYSCALL_MONITOR_LEAVE {
            self.sys_monitor_leave(args[0])
        } else if syscall_id == SYSCALL_MONITOR_CREATE_RES_SEM {
            self.sys_monitor_create_res_sem(args[0]) as isize
        } else if syscall_id == SYSCALL_MONITOR_WAIT {
            self.sys_monitor_wait(args[0], args[1])
        } else if syscall_id == SYSCALL_MONITOR_SIGNAL {
            self.sys_monitor_signal(args[0], args[1])
        } else if syscall_id == SYSCALL_MONITOR_CHECK {
            self.sys_monitor_check(args[0])
        } else if syscall_id == SYSCALL_MONITOR_DESTROY {
            self.sys_monitor_destroy(args[0])
        } else if syscall_id == SYSCALL_THREAD_CREATE {
            self.sys_thread_create(args[0], args[1])
        } else if syscall_id == SYSCALL_GETTID {
            self.sys_gettid()
        } else {
            // an unrecognized id is fatal and excluded by `dispatch_ok`
            proof {
                assert(syscall_id == SYSCALL_WAITTID);
            }
            self.sys_waittid(args[0]) as isize
        }
    }
}

} // verus!
