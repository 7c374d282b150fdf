//! User-mode view of the core: syscall stubs and handle types.
//!
//! On real hardware these functions would trap into kernel mode; here the
//! kernel is a value, so each stub hands its syscall number and arguments
//! to [`Kernel::syscall`] directly.  The contracts are the per-call
//! fragments of the dispatcher's contract.

use vstd::prelude::*;
use crate::kernel::Kernel;
use crate::kernel::SYSCALL_GETTID;
use crate::kernel::SYSCALL_GET_TIME;
use crate::kernel::SYSCALL_MONITOR_CHECK;
use crate::kernel::SYSCALL_MONITOR_CREATE;
use crate::kernel::SYSCALL_MONITOR_CREATE_RES_SEM;
use crate::kernel::SYSCALL_MONITOR_DESTROY;
use crate::kernel::SYSCALL_MONITOR_ENTER;
use crate::kernel::SYSCALL_MONITOR_LEAVE;
use crate::kernel::SYSCALL_MONITOR_SIGNAL;
use crate::kernel::SYSCALL_MONITOR_WAIT;
use crate::kernel::SYSCALL_MUTEX_CREATE;
use crate::kernel::SYSCALL_MUTEX_DESTROY;
use crate::kernel::SYSCALL_MUTEX_LOCK;
use crate::kernel::SYSCALL_MUTEX_UNLOCK;
use crate::kernel::SYSCALL_SEM_CREATE;
use crate::kernel::SYSCALL_SEM_DESTROY;
use crate::kernel::SYSCALL_SEM_POST;
use crate::kernel::SYSCALL_SEM_WAIT;
use crate::kernel::SYSCALL_SLEEP;
use crate::kernel::SYSCALL_THREAD_CREATE;
use crate::kernel::SYSCALL_YIELD;
use crate::tcb::WaitLoc;

verus! {

/// Terminate the calling thread with `exit_code`.
pub fn exit(k: &mut Kernel, exit_code: i32) -> (r: isize)
    requires
        old(k).inv(),
        (old(k).sched.current is Some),
    ensures
        final(k).inv(),
        final(k).sched.thread_of(old(k).sched.current.unwrap()).exit_code
            == Some(exit_code),
        (final(k).sched.current is None),
{
    k.sys_exit(exit_code);
    0
}

/// Give up the processor; the caller rejoins the ready-queue tail.
pub fn yield_(k: &mut Kernel) -> (r: isize)
    requires
        old(k).inv(),
        (old(k).sched.current is Some),
    ensures
        final(k).inv(),
        r == 0,
        final(k).sched.ready@ == old(k).sched.ready@.push(old(k).sched.current.unwrap()),
        (final(k).sched.current is None),
{
    k.syscall(SYSCALL_YIELD, [0, 0, 0])
}

/// The clock, in milliseconds.
pub fn get_time(k: &mut Kernel) -> (r: isize)
    requires
        old(k).inv(),
        old(k).sched.time_ms <= isize::MAX as usize,
    ensures
        final(k).inv(),
        r == old(k).sched.time_ms,
        *final(k) == *old(k),
{
    k.syscall(SYSCALL_GET_TIME, [0, 0, 0])
}

/// Sleep for `sleep_ms` milliseconds.
pub fn sleep(k: &mut Kernel, sleep_ms: usize)
    requires
        old(k).inv(),
        (old(k).sched.current is Some),
        old(k).sched.time_ms + sleep_ms <= usize::MAX,
    ensures
        final(k).inv(),
        final(k).sched.parked(old(k).sched.current.unwrap(), WaitLoc::Timer),
        (final(k).sched.current is None),
        final(k).sched.ready == old(k).sched.ready,
        // the deadline is registered on the timer
        exists|p: int|
            {
                &&& 0 <= p <= old(k).sched.timers@.len()
                &&& final(k).sched.timers@ == (#[trigger] old(k).sched.timers@.insert(
                    p,
                    (crate::sched::TimerEntry {
                        expire_ms: (old(k).sched.time_ms + sleep_ms) as usize,
                        tid: old(k).sched.current.unwrap(),
                    }),
                ))
            },
{
    let _ = k.syscall(SYSCALL_SLEEP, [sleep_ms, 0, 0]);
}

/// Create a thread; `entry` and `arg` name its user-mode behavior.
pub fn thread_create(k: &mut Kernel, entry: usize, arg: usize) -> (r: isize)
    requires
        old(k).inv(),
        old(k).sched.threads@.len() < crate::sched::MAX_THREADS,
    ensures
        final(k).inv(),
        r >= 0,
        final(k).sched.runnable(r as usize),
        !old(k).sched.tid_alloc.allocated(r as usize),
        final(k).sched.ready@ == old(k).sched.ready@.push(r as usize),
{
    k.syscall(SYSCALL_THREAD_CREATE, [entry, arg, 0])
}

/// The calling thread's tid.
pub fn gettid(k: &mut Kernel) -> (r: isize)
    requires
        old(k).inv(),
        (old(k).sched.current is Some),
    ensures
        final(k).inv(),
        r == old(k).sched.current.unwrap(),
        *final(k) == *old(k),
{
    k.syscall(SYSCALL_GETTID, [0, 0, 0])
}

/// Reap thread `tid` once: its exit code, or -1 for a missing thread or
/// the caller itself, or -2 while it still runs.
pub fn waittid(k: &mut Kernel, tid: usize) -> (r: isize)
    requires
        old(k).inv(),
        (old(k).sched.current is Some),
    ensures
        final(k).inv(),
        (tid == old(k).sched.current.unwrap() || !old(k).sched.live(tid))
            ==> r == -1 && *final(k) == *old(k),
        (tid != old(k).sched.current.unwrap() && old(k).sched.live(tid)
            && (old(k).sched.thread_of(tid).exit_code is None))
            ==> r == -2 && *final(k) == *old(k),
        (tid != old(k).sched.current.unwrap() && old(k).sched.live(tid)
            && (old(k).sched.thread_of(tid).exit_code is Some)) ==> {
            &&& r == old(k).sched.thread_of(tid).exit_code.unwrap()
            &&& !final(k).sched.live(tid)
        },
{
    k.sys_waittid(tid) as isize
}

/// Create a monitor; returns its id.
pub fn monitor_create(k: &mut Kernel) -> (id: usize)
    requires
        old(k).inv(),
        old(k).monitor_list@.len() < isize::MAX as usize,
    ensures
        final(k).inv(),
        final(k).valid_monitor(id),
        !old(k).valid_monitor(id),
        forall|i: usize| i < id ==> #[trigger] old(k).valid_monitor(i),
        final(k).monitor_of(id).thread_count == 0,
        final(k).monitor_of(id).cond_sems@.len() == 0,
        (final(k).monitor_of(id).active@ is None),
        final(k).sched == old(k).sched,
{
    k.syscall(SYSCALL_MONITOR_CREATE, [0, 0, 0]) as usize
}

/// Enter monitor `monitor_id`.
pub fn monitor_enter(k: &mut Kernel, monitor_id: usize) -> (r: isize)
    requires
        old(k).inv(),
        (old(k).sched.current is Some),
        old(k).valid_monitor(monitor_id)
            ==> old(k).monitor_of(monitor_id).thread_count < isize::MAX,
    ensures
        final(k).inv(),
        (r == -1 <==> !old(k).valid_monitor(monitor_id)),
        old(k).valid_monitor(monitor_id) ==> {
            let m0 = old(k).monitor_of(monitor_id);
            let m1 = final(k).monitor_of(monitor_id);
            let c = old(k).sched.current.unwrap();
            &&& r == 0
            &&& m1.thread_count == m0.thread_count + 1
            // region free: the caller holds it and runs on
            &&& (m0.entry.value > 0 ==> m1.active@ == Some(c)
                && final(k).sched == old(k).sched)
            // region held: the caller queues at entry and blocks
            &&& (m0.entry.value <= 0
                ==> m1.entry.waited_queue@ == m0.entry.waited_queue@.push(c)
                    && final(k).sched.parked(c, WaitLoc::MonEntry(monitor_id))
                    && (final(k).sched.current is None))
        },
{
    k.syscall(SYSCALL_MONITOR_ENTER, [monitor_id, 0, 0])
}

/// Leave monitor `monitor_id`; only the thread holding the region may.
pub fn monitor_leave(k: &mut Kernel, monitor_id: usize) -> (r: isize)
    requires
        old(k).inv(),
        (old(k).sched.current is Some),
        old(k).valid_monitor(monitor_id)
            ==> old(k).monitor_of(monitor_id).active@
                == Some(old(k).sched.current.unwrap()),
    ensures
        final(k).inv(),
        (r == -1 <==> !old(k).valid_monitor(monitor_id)),
        old(k).valid_monitor(monitor_id) ==> {
            let m0 = old(k).monitor_of(monitor_id);
            let m1 = final(k).monitor_of(monitor_id);
            &&& r == 0
            &&& m1.thread_count == m0.thread_count - 1
            // a parked signaller resumes first
            &&& (m0.urgent_count > 0 ==> {
                let w = m0.urgent.waited_queue@[0];
                &&& m1.active@ == Some(w)
                &&& m1.urgent.waited_queue@ == m0.urgent.waited_queue@.drop_first()
                &&& m1.entry == m0.entry
                &&& final(k).sched.runnable(w)
            })
            // else the oldest entry waiter is admitted
            &&& (m0.urgent_count == 0 && m0.entry.value < 0 ==> {
                let w = m0.entry.waited_queue@[0];
                &&& m1.active@ == Some(w)
                &&& m1.entry.waited_queue@ == m0.entry.waited_queue@.drop_first()
                &&& final(k).sched.runnable(w)
            })
            // else the region opens
            &&& (m0.urgent_count == 0 && m0.entry.value >= 0
                ==> (m1.active@ is None) && m1.entry.value == 1
                    && final(k).sched == old(k).sched)
        },
{
    k.syscall(SYSCALL_MONITOR_LEAVE, [monitor_id, 0, 0])
}

/// Create a condition variable in monitor `monitor_id`; returns its id.
pub fn monitor_create_res_sem(k: &mut Kernel, monitor_id: usize) -> (res_id: usize)
    requires
        old(k).inv(),
        old(k).valid_monitor(monitor_id),
        old(k).monitor_of(monitor_id).cond_sems@.len() < isize::MAX as usize,
    ensures
        final(k).inv(),
        res_id == old(k).monitor_of(monitor_id).cond_sems@.len(),
        final(k).monitor_of(monitor_id).cond_sems@.len() == res_id + 1,
{
    k.syscall(SYSCALL_MONITOR_CREATE_RES_SEM, [monitor_id, 0, 0]) as usize
}

/// Wait on condition `res_id` of monitor `monitor_id`; only the thread
/// holding the region may.
pub fn monitor_wait(k: &mut Kernel, monitor_id: usize, res_id: usize) -> (r: isize)
    requires
        old(k).inv(),
        (old(k).sched.current is Some),
        old(k).valid_monitor(monitor_id)
            ==> old(k).monitor_of(monitor_id).active@
                == Some(old(k).sched.current.unwrap())
                && res_id < old(k).monitor_of(monitor_id).cond_sems@.len(),
    ensures
        final(k).inv(),
        (r == -1 <==> !old(k).valid_monitor(monitor_id)),
        old(k).valid_monitor(monitor_id) ==> {
            let m0 = old(k).monitor_of(monitor_id);
            let m1 = final(k).monitor_of(monitor_id);
            let c = old(k).sched.current.unwrap();
            &&& r == 0
            &&& final(k).sched.parked(
                c,
                WaitLoc::MonCond { mon_id: monitor_id, res_id },
            )
            &&& (final(k).sched.current is None)
            &&& m1.thread_count == m0.thread_count
            &&& m1.cond_counts@ == m0.cond_counts@.update(
                res_id as int,
                (m0.cond_counts@[res_id as int] + 1) as usize,
            )
            &&& m1.cond_sems@[res_id as int].waited_queue@
                == m0.cond_sems@[res_id as int].waited_queue@.push(c)
        },
{
    k.syscall(SYSCALL_MONITOR_WAIT, [monitor_id, res_id, 0])
}

/// Signal condition `res_id` of monitor `monitor_id`; only the thread
/// holding the region may.
pub fn monitor_signal(k: &mut Kernel, monitor_id: usize, res_id: usize) -> (r: isize)
    requires
        old(k).inv(),
        (old(k).sched.current is Some),
        old(k).valid_monitor(monitor_id)
            ==> old(k).monitor_of(monitor_id).active@
                == Some(old(k).sched.current.unwrap())
                && res_id < old(k).monitor_of(monitor_id).cond_sems@.len(),
    ensures
        final(k).inv(),
        (r == -1 <==> !old(k).valid_monitor(monitor_id)),
        old(k).valid_monitor(monitor_id) ==> {
            let m0 = old(k).monitor_of(monitor_id);
            let m1 = final(k).monitor_of(monitor_id);
            let c = old(k).sched.current.unwrap();
            &&& r == 0
            // no waiter: a complete no-op
            &&& (m0.cond_counts@[res_id as int] == 0
                ==> m1 == m0 && final(k).sched == old(k).sched)
            // a waiter: it holds the region now, the signaller parks
            &&& (m0.cond_counts@[res_id as int] > 0 ==> {
                let w = m0.cond_sems@[res_id as int].waited_queue@[0];
                &&& m1.active@ == Some(w)
                &&& m1.urgent_count == m0.urgent_count + 1
                &&& m1.urgent.waited_queue@ == m0.urgent.waited_queue@.push(c)
                &&& final(k).sched.runnable(w)
                &&& final(k).sched.parked(c, WaitLoc::MonUrgent(monitor_id))
                &&& (final(k).sched.current is None)
            })
        },
{
    k.syscall(SYSCALL_MONITOR_SIGNAL, [monitor_id, res_id, 0])
}

/// Destroy monitor `monitor_id`.
pub fn monitor_destroy(k: &mut Kernel, monitor_id: usize) -> (r: isize)
    requires
        old(k).inv(),
    ensures
        final(k).inv(),
        (r == -1 <==> monitor_id >= old(k).monitor_list@.len()),
        monitor_id < old(k).monitor_list@.len() ==> !final(k).valid_monitor(monitor_id),
{
    k.syscall(SYSCALL_MONITOR_DESTROY, [monitor_id, 0, 0])
}

/// Run the liveness audit on monitor `monitor_id`: 1 when the monitor's
/// population was fully blocked and has been terminated, else 0.
pub fn monitor_check(k: &mut Kernel, monitor_id: usize) -> (r: isize)
    requires
        old(k).inv(),
    ensures
        final(k).inv(),
        (r == -1 <==> !old(k).valid_monitor(monitor_id)),
        old(k).valid_monitor(monitor_id) ==> {
            let m0 = old(k).monitor_of(monitor_id);
            let m1 = final(k).monitor_of(monitor_id);
            &&& (r == 1 || r == 0)
            // fault exactly when a non-empty population is fully blocked
            &&& ((r == 1) <==> (m0.thread_count != 0
                && m0.entry.waited_queue@.len() + m0.urgent.waited_queue@.len()
                    + crate::monitor::sum_counts(m0.cond_counts@) == m0.thread_count))
            &&& (r == 0 ==> m1 == m0 && final(k).sched == old(k).sched)
            &&& (r == 1 ==> m1.thread_count == 0)
        },
{
    k.syscall(SYSCALL_MONITOR_CHECK, [monitor_id, 0, 0])
}

/// A user-mode mutex handle: the id of a kernel mutex.
pub struct Mutex {
    /// Table id of the underlying kernel mutex.
    pub id: usize,
}

impl Mutex {
    /// Create a kernel mutex and keep its id.
    pub fn new(k: &mut Kernel) -> (m: Mutex)
        requires
            old(k).inv(),
            old(k).mutex_list@.len() < isize::MAX as usize,
        ensures
            final(k).inv(),
            final(k).valid_mutex(m.id),
            !old(k).valid_mutex(m.id),
            !final(k).mutex_of(m.id).is_locked,
            final(k).mutex_of(m.id).waited_queue@.len() == 0,
            final(k).sched == old(k).sched,
    {
        let id = k.syscall(SYSCALL_MUTEX_CREATE, [0, 0, 0]) as usize;
        Mutex { id }
    }

    /// Acquire the lock; blocks until it is held.
    pub fn lock(&self, k: &mut Kernel) -> (r: isize)
        requires
            old(k).inv(),
            (old(k).sched.current is Some),
        ensures
            final(k).inv(),
            (r == -1 <==> !old(k).valid_mutex(self.id)),
            old(k).valid_mutex(self.id) ==> {
                let m0 = old(k).mutex_of(self.id);
                let m1 = final(k).mutex_of(self.id);
                let c = old(k).sched.current.unwrap();
                &&& r == 0
                &&& m1.is_locked
                &&& (!m0.is_locked ==> m1.owner@ == Some(c)
                    && final(k).sched == old(k).sched)
                &&& (m0.is_locked ==> m1.waited_queue@ == m0.waited_queue@.push(c)
                    && final(k).sched.parked(c, WaitLoc::MutexQ(self.id))
                    && (final(k).sched.current is None))
            },
    {
        k.syscall(SYSCALL_MUTEX_LOCK, [self.id, 0, 0])
    }

    /// Release the lock.
    pub fn unlock(&self, k: &mut Kernel) -> (r: isize)
        requires
            old(k).inv(),
        ensures
            final(k).inv(),
            (r == -1 <==> !old(k).valid_mutex(self.id)),
            old(k).valid_mutex(self.id) ==> {
                let m0 = old(k).mutex_of(self.id);
                let m1 = final(k).mutex_of(self.id);
                &&& r == 0
                &&& (m0.waited_queue@.len() == 0 ==> !m1.is_locked
                    && (m1.owner@ is None) && final(k).sched == old(k).sched)
                &&& (m0.waited_queue@.len() > 0 ==> {
                    let w = m0.waited_queue@[0];
                    &&& m1.is_locked
                    &&& m1.owner@ == Some(w)
                    &&& m1.waited_queue@ == m0.waited_queue@.drop_first()
                    &&& final(k).sched.runnable(w)
                })
            },
    {
        k.syscall(SYSCALL_MUTEX_UNLOCK, [self.id, 0, 0])
    }

    /// Destroy the kernel mutex.
    pub fn destroy(&self, k: &mut Kernel) -> (r: isize)
        requires
            old(k).inv(),
        ensures
            final(k).inv(),
            (r == -1 <==> self.id >= old(k).mutex_list@.len()),
            self.id < old(k).mutex_list@.len() ==> !final(k).valid_mutex(self.id),
    {
        k.syscall(SYSCALL_MUTEX_DESTROY, [self.id, 0, 0])
    }
}

/// A user-mode semaphore handle: the id of a kernel semaphore.
pub struct Semaphore {
    /// Table id of the underlying kernel semaphore.
    pub id: usize,
}

impl Semaphore {
    /// Create a kernel semaphore with `value` free resources.
    pub fn new(k: &mut Kernel, value: isize) -> (s: Semaphore)
        requires
            old(k).inv(),
            value >= 0,
            old(k).sem_list@.len() < isize::MAX as usize,
        ensures
            final(k).inv(),
            final(k).valid_sem(s.id),
            !old(k).valid_sem(s.id),
            final(k).sem_of(s.id).value == value,
    {
        let id = k.syscall(SYSCALL_SEM_CREATE, [value as usize, 0, 0]) as usize;
        Semaphore { id }
    }

    /// P operation: take a resource or block until one is posted.
    pub fn wait(&self, k: &mut Kernel) -> (r: isize)
        requires
            old(k).inv(),
            (old(k).sched.current is Some),
        ensures
            final(k).inv(),
            (r == -1 <==> !old(k).valid_sem(self.id)),
            old(k).valid_sem(self.id) ==> {
                let s0 = old(k).sem_of(self.id);
                let s1 = final(k).sem_of(self.id);
                let c = old(k).sched.current.unwrap();
                &&& r == 0
                &&& s1.value == s0.value - 1
                &&& (s0.value > 0 ==> s1.waited_queue == s0.waited_queue
                    && final(k).sched == old(k).sched)
                &&& (s0.value <= 0 ==> s1.waited_queue@ == s0.waited_queue@.push(c)
                    && final(k).sched.parked(c, WaitLoc::SemQ(self.id))
                    && (final(k).sched.current is None))
            },
    {
        k.syscall(SYSCALL_SEM_WAIT, [self.id, 0, 0])
    }

    /// V operation: release a resource, waking the oldest waiter if any.
    pub fn post(&self, k: &mut Kernel) -> (r: isize)
        requires
            old(k).inv(),
            old(k).valid_sem(self.id) ==> old(k).sem_of(self.id).value < isize::MAX,
        ensures
            final(k).inv(),
            (r == -1 <==> !old(k).valid_sem(self.id)),
            old(k).valid_sem(self.id) ==> {
                let s0 = old(k).sem_of(self.id);
                let s1 = final(k).sem_of(self.id);
                &&& r == 0
                &&& s1.value == s0.value + 1
                &&& (s0.value >= 0 ==> s1.waited_queue == s0.waited_queue
                    && final(k).sched == old(k).sched)
                &&& (s0.value < 0 ==> {
                    let w = s0.waited_queue@[0];
                    &&& s1.waited_queue@ == s0.waited_queue@.drop_first()
                    &&& final(k).sched.runnable(w)
                })
            },
    {
        k.syscall(SYSCALL_SEM_POST, [self.id, 0, 0])
    }

    /// Destroy the kernel semaphore.
    pub fn destroy(&self, k: &mut Kernel) -> (r: isize)
        requires
            old(k).inv(),
        ensures
            final(k).inv(),
            (r == -1 <==> self.id >= old(k).sem_list@.len()),
            self.id < old(k).sem_list@.len() ==> !final(k).valid_sem(self.id),
    {
        k.syscall(SYSCALL_SEM_DESTROY, [self.id, 0, 0])
    }
}

} // verus!
