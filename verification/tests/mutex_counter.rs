//! The mutex: mutual exclusion under a shared counter, hand-off order,
//! error returns, and id reuse.

use sync_core::kernel::Kernel;
use sync_core::tcb::TaskStatus;
use sync_core::user;

/// One counter worker: repeatedly lock, read, sleep, write back, unlock.
struct Worker {
    iter: u32,
    phase: u8,
    n: i32,
}

/// Run worker `w` (thread `tid`, currently dispatched) until it blocks or
/// exits.  Returns once the processor is free again or the worker keeps
/// running voluntarily (it never does here: every path blocks or exits).
fn step_worker(k: &mut Kernel, mid: usize, w: &mut Worker, num: &mut i32) {
    loop {
        match w.phase {
            0 => {
                // acquire; with direct hand-off a woken thread owns the
                // lock already, so a blocked lock resumes into phase 1
                w.phase = 1;
                assert_eq!(k.sys_mutex_lock(mid), 0);
                if k.sched.current_task().is_none() {
                    return;
                }
            }
            1 => {
                // inside the critical section: read, then sleep
                w.n = *num - 1;
                w.phase = 2;
                assert_eq!(k.sys_sleep(5), 0);
                return;
            }
            2 => {
                // woken: write back and release
                *num = w.n;
                assert_eq!(k.sys_mutex_unlock(mid), 0);
                w.iter += 1;
                if w.iter == 10 {
                    user::exit(k, 0);
                    return;
                }
                w.phase = 0;
            }
            _ => unreachable!(),
        }
    }
}

/// S1: three threads, ten iterations each, `num` from 30 down to 0 under
/// the lock; the final value is exactly 0.
#[test]
fn s1_mutex_counter() {
    let mut k = Kernel::new();
    let mid = k.sys_mutex_create();
    let mut num: i32 = 30;
    let mut tids = Vec::new();
    let mut workers = Vec::new();
    for _ in 0..3 {
        tids.push(k.sys_thread_create(0, 0) as usize);
        workers.push(Worker { iter: 0, phase: 0, n: 0 });
    }
    loop {
        match k.run_next() {
            Some(tid) => {
                let idx = tids.iter().position(|t| *t == tid).unwrap();
                step_worker(&mut k, mid, &mut workers[idx], &mut num);
            }
            None => {
                if k.sched.timers.is_empty() {
                    break;
                }
                let due = k.sched.timers[0].expire_ms;
                k.timer_tick(due);
            }
        }
    }
    assert_eq!(num, 0);
    for tid in tids {
        let t = k.sched.threads[tid].as_ref().unwrap();
        assert_eq!(t.exit_code, Some(0));
    }
}

/// A free lock is taken at once; a second thread blocks and is handed the
/// lock on unlock, oldest first.
#[test]
fn lock_handoff_fifo() {
    let mut k = Kernel::new();
    let mid = k.sys_mutex_create();
    let t1 = k.sys_thread_create(0, 0) as usize;
    let t2 = k.sys_thread_create(0, 0) as usize;
    let t3 = k.sys_thread_create(0, 0) as usize;

    assert_eq!(k.run_next(), Some(t1));
    assert_eq!(k.sys_mutex_lock(mid), 0);
    assert!(k.sched.current_task().is_some());
    assert_eq!(k.sys_yield(), 0);

    assert_eq!(k.run_next(), Some(t2));
    assert_eq!(k.sys_mutex_lock(mid), 0);
    assert!(k.sched.current_task().is_none());

    assert_eq!(k.run_next(), Some(t3));
    assert_eq!(k.sys_mutex_lock(mid), 0);
    assert!(k.sched.current_task().is_none());

    // t1 unlocks: t2 (the older waiter) is woken and owns the lock
    assert_eq!(k.run_next(), Some(t1));
    assert_eq!(k.sys_mutex_unlock(mid), 0);
    let m = k.mutex_list[mid].as_ref().unwrap();
    assert!(m.is_locked);
    assert_eq!(m.waited_queue.len(), 1);
    assert_eq!(m.waited_queue[0], t3);
    assert_eq!(
        k.sched.threads[t2].as_ref().unwrap().status,
        TaskStatus::Ready
    );
    assert_eq!(
        k.sched.threads[t3].as_ref().unwrap().status,
        TaskStatus::Blocked
    );
}

/// Operations on a missing mutex id fail with -1 and change nothing.
#[test]
fn mutex_bad_id() {
    let mut k = Kernel::new();
    let t = k.sys_thread_create(0, 0) as usize;
    assert_eq!(k.run_next(), Some(t));
    assert_eq!(k.sys_mutex_lock(7), -1);
    assert_eq!(k.sys_mutex_unlock(7), -1);
    assert_eq!(k.sys_mutex_destroy(7), -1);
    let mid = k.sys_mutex_create();
    assert_eq!(k.sys_mutex_destroy(mid), 0);
    // destroyed: the id no longer works
    assert_eq!(k.sys_mutex_lock(mid), -1);
    assert_eq!(k.sys_mutex_unlock(mid), -1);
}

/// Destroying a mutex frees its id for the next create (tombstone reuse),
/// and the reused slot is a fresh open lock.
#[test]
fn mutex_id_roundtrip() {
    let mut k = Kernel::new();
    let a = k.sys_mutex_create();
    let b = k.sys_mutex_create();
    assert_eq!(a, 0);
    assert_eq!(b, 1);
    assert_eq!(k.sys_mutex_destroy(a), 0);
    let c = k.sys_mutex_create();
    assert_eq!(c, a);
    assert!(!k.mutex_list[c].as_ref().unwrap().is_locked);
    // and the fresh lock works
    let t = k.sys_thread_create(0, 0) as usize;
    assert_eq!(k.run_next(), Some(t));
    assert_eq!(k.sys_mutex_lock(c), 0);
    assert!(k.mutex_list[c].as_ref().unwrap().is_locked);
}

/// The user-level handle drives the same kernel lock.
#[test]
fn user_mutex_handle() {
    let mut k = Kernel::new();
    let t = k.sys_thread_create(0, 0) as usize;
    assert_eq!(k.run_next(), Some(t));
    let m = user::Mutex::new(&mut k);
    assert_eq!(m.lock(&mut k), 0);
    assert!(k.mutex_list[m.id].as_ref().unwrap().is_locked);
    assert_eq!(m.unlock(&mut k), 0);
    assert!(!k.mutex_list[m.id].as_ref().unwrap().is_locked);
    assert_eq!(m.destroy(&mut k), 0);
    assert!(k.mutex_list[m.id].is_none());
}
