//! The sleep timer and scheduler fragments: sleep monotonicity, FIFO
//! wakeup among equal deadlines, yield order, thread reaping, and the
//! interior-mutability cell.

use sync_core::cell::UPSafeCell;
use sync_core::kernel::Kernel;
use sync_core::tcb::TaskStatus;
use sync_core::user;

/// S6: a thread sleeping 50 ms at time 0 is not ready before the clock
/// reaches 50, and becomes ready exactly when it does.
#[test]
fn s6_sleep_monotone() {
    let mut k = Kernel::new();
    let t = k.sys_thread_create(0, 0) as usize;
    assert_eq!(k.run_next(), Some(t));
    assert_eq!(k.sys_sleep(50), 0);
    assert!(k.sched.current_task().is_none());
    assert_eq!(k.timer_tick(30), 0);
    assert_eq!(
        k.sched.threads[t].as_ref().unwrap().status,
        TaskStatus::Blocked
    );
    assert!(k.sched.ready.is_empty());
    assert_eq!(k.timer_tick(49), 0);
    assert_eq!(
        k.sched.threads[t].as_ref().unwrap().status,
        TaskStatus::Blocked
    );
    assert_eq!(k.timer_tick(50), 1);
    assert_eq!(
        k.sched.threads[t].as_ref().unwrap().status,
        TaskStatus::Ready
    );
    assert_eq!(k.sched.ready[0], t);
    assert_eq!(k.sched.time_ms, 50);
}

/// Threads due at the same tick wake in deadline order, FIFO among equal
/// deadlines: registration order breaks the tie.
#[test]
fn same_tick_fifo() {
    let mut k = Kernel::new();
    let t1 = k.sys_thread_create(0, 0) as usize;
    let t2 = k.sys_thread_create(0, 0) as usize;
    let t3 = k.sys_thread_create(0, 0) as usize;
    assert_eq!(k.run_next(), Some(t1));
    assert_eq!(k.sys_sleep(50), 0);
    assert_eq!(k.run_next(), Some(t2));
    assert_eq!(k.sys_sleep(50), 0);
    assert_eq!(k.run_next(), Some(t3));
    assert_eq!(k.sys_sleep(20), 0);
    // all three are due at 60: earliest deadline first, then the two
    // equal deadlines in the order they were registered
    assert_eq!(k.timer_tick(60), 3);
    assert_eq!(k.sched.ready, vec![t3, t1, t2]);
}

/// A woken sleeper resumes where it slept and the clock shows the wake
/// time.
#[test]
fn sleep_then_get_time() {
    let mut k = Kernel::new();
    let t = k.sys_thread_create(0, 0) as usize;
    assert_eq!(k.run_next(), Some(t));
    assert_eq!(user::get_time(&mut k), 0);
    user::sleep(&mut k, 25);
    k.timer_tick(25);
    assert_eq!(k.run_next(), Some(t));
    assert_eq!(user::get_time(&mut k), 25);
}

/// Yield rotates the ready queue: the caller goes to the tail.
#[test]
fn yield_rotates() {
    let mut k = Kernel::new();
    let t1 = k.sys_thread_create(0, 0) as usize;
    let t2 = k.sys_thread_create(0, 0) as usize;
    assert_eq!(k.run_next(), Some(t1));
    assert_eq!(user::yield_(&mut k), 0);
    assert_eq!(k.run_next(), Some(t2));
    assert_eq!(user::yield_(&mut k), 0);
    assert_eq!(k.run_next(), Some(t1));
}

/// Tids are dense, `gettid` reports the caller, and a reaped tid is
/// handed out again.
#[test]
fn tid_lifecycle() {
    let mut k = Kernel::new();
    let t1 = k.sys_thread_create(0, 0) as usize;
    let t2 = k.sys_thread_create(0, 0) as usize;
    assert_eq!((t1, t2), (0, 1));
    assert_eq!(k.run_next(), Some(t1));
    assert_eq!(user::gettid(&mut k), t1 as isize);
    // waiting on yourself or a missing tid fails; a running thread is
    // not ready to reap
    assert_eq!(user::waittid(&mut k, t1), -1);
    assert_eq!(user::waittid(&mut k, 17), -1);
    assert_eq!(user::waittid(&mut k, t2), -2);
    user::exit(&mut k, 7);
    assert_eq!(k.run_next(), Some(t2));
    assert_eq!(user::waittid(&mut k, t1), 7);
    assert!(k.sched.threads[t1].is_none());
    // the reaped tid is reused by the next create
    let t3 = k.sys_thread_create(0, 0) as usize;
    assert_eq!(t3, t1);
}

/// Removing a thread by identity takes it off the ready queue and the
/// sleep timer, so it cannot be scheduled twice.
#[test]
fn remove_task_descheduled()
{
    let mut k = Kernel::new();
    let t1 = k.sys_thread_create(0, 0) as usize;
    let t2 = k.sys_thread_create(0, 0) as usize;
    assert_eq!(k.run_next(), Some(t1));
    assert_eq!(k.sys_sleep(50), 0);
    assert_eq!(k.sched.timers.len(), 1);
    k.sched.remove_task(t1);
    assert!(k.sched.timers.is_empty());
    // the deadline passing wakes nothing now
    assert_eq!(k.timer_tick(100), 0);
    assert_eq!(
        k.sched.threads[t1].as_ref().unwrap().status,
        TaskStatus::Blocked
    );
    assert_eq!(k.sched.ready, vec![t2]);
    k.sched.remove_task(t2);
    assert!(k.sched.ready.is_empty());
}

/// The single-borrower cell hands out exclusive access to its content.
#[test]
fn cell_exclusive_access() {
    let mut cell = UPSafeCell::new(41i32);
    {
        let inner = cell.exclusive_access();
        *inner += 1;
    }
    assert_eq!(*cell.exclusive_access(), 42);
}

/// The dispatcher routes by syscall number exactly as the direct
/// handlers do.
#[test]
fn dispatcher_routes() {
    let mut k = Kernel::new();
    let t = k.sys_thread_create(0, 0) as usize;
    assert_eq!(k.run_next(), Some(t));
    let sem = k.syscall(sync_core::kernel::SYSCALL_SEM_CREATE, [3, 0, 0]);
    assert_eq!(sem, 0);
    assert_eq!(k.syscall(sync_core::kernel::SYSCALL_SEM_WAIT, [0, 0, 0]), 0);
    assert_eq!(k.sem_list[0].as_ref().unwrap().value, 2);
    assert_eq!(k.syscall(sync_core::kernel::SYSCALL_SEM_POST, [0, 0, 0]), 0);
    assert_eq!(k.sem_list[0].as_ref().unwrap().value, 3);
    assert_eq!(k.syscall(sync_core::kernel::SYSCALL_GET_TIME, [0, 0, 0]), 0);
    assert_eq!(k.syscall(sync_core::kernel::SYSCALL_GETTID, [0, 0, 0]), t as isize);
}
