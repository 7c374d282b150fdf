//! Hoare signalling order: the signalled waiter runs before the
//! signaller resumes, and the urgent queue beats the entry queue.

use sync_core::kernel::Kernel;
use sync_core::tcb::TaskStatus;

/// S5: a waiter parked on a condition is signalled; the signaller is
/// suspended on the urgent queue at once, the waiter runs its iteration,
/// and only the waiter's release lets the signaller finish.
#[test]
fn s5_signal_suspends_signaller() {
    let mut k = Kernel::new();
    let id = k.sys_monitor_create();
    let c = k.sys_monitor_create_res_sem(id);
    let waiter = k.sys_thread_create(0, 0) as usize;
    let signaller = k.sys_thread_create(0, 0) as usize;
    let mut events: Vec<(&str, usize)> = Vec::new();

    // the waiter enters and waits on the condition
    assert_eq!(k.run_next(), Some(waiter));
    assert_eq!(k.sys_monitor_enter(id), 0);
    assert_eq!(k.sys_monitor_wait(id, c), 0);
    assert!(k.sched.current_task().is_none());

    // the signaller enters and signals: the waiter is made runnable and
    // holds the region, the signaller is parked on urgent
    assert_eq!(k.run_next(), Some(signaller));
    assert_eq!(k.sys_monitor_enter(id), 0);
    assert_eq!(k.sys_monitor_signal(id, c), 0);
    assert!(k.sched.current_task().is_none());
    {
        let mon = k.monitor_list[id].as_ref().unwrap();
        assert_eq!(mon.urgent_count, 1);
        assert_eq!(mon.urgent.waited_queue[0], signaller);
        assert_eq!(
            k.sched.threads[waiter].as_ref().unwrap().status,
            TaskStatus::Ready
        );
        assert_eq!(
            k.sched.threads[signaller].as_ref().unwrap().status,
            TaskStatus::Blocked
        );
    }

    // the signalled waiter runs its iteration first ...
    assert_eq!(k.run_next(), Some(waiter));
    events.push(("waiter ran", waiter));
    // ... and its leave resumes the signaller from urgent
    assert_eq!(k.sys_monitor_leave(id), 0);
    assert_eq!(
        k.sched.threads[signaller].as_ref().unwrap().status,
        TaskStatus::Ready
    );
    assert_eq!(k.run_next(), Some(signaller));
    events.push(("signaller resumed", signaller));
    assert_eq!(k.sys_monitor_leave(id), 0);

    assert_eq!(events[0], ("waiter ran", waiter));
    assert_eq!(events[1], ("signaller resumed", signaller));
}

/// On release, a parked signaller wins over a thread waiting at entry,
/// unconditionally.
#[test]
fn urgent_beats_entry() {
    let mut k = Kernel::new();
    let id = k.sys_monitor_create();
    let c = k.sys_monitor_create_res_sem(id);
    let waiter = k.sys_thread_create(0, 0) as usize;
    let signaller = k.sys_thread_create(0, 0) as usize;
    let newcomer = k.sys_thread_create(0, 0) as usize;

    assert_eq!(k.run_next(), Some(waiter));
    assert_eq!(k.sys_monitor_enter(id), 0);
    assert_eq!(k.sys_monitor_wait(id, c), 0);

    assert_eq!(k.run_next(), Some(signaller));
    assert_eq!(k.sys_monitor_enter(id), 0);
    assert_eq!(k.sys_monitor_signal(id, c), 0);

    // a newcomer lines up at entry while the waiter holds the region
    assert_eq!(k.run_next(), Some(newcomer));
    assert_eq!(k.sys_monitor_enter(id), 0);
    assert!(k.sched.current_task().is_none());
    {
        let mon = k.monitor_list[id].as_ref().unwrap();
        assert_eq!(mon.entry.waited_queue[0], newcomer);
        assert_eq!(mon.urgent.waited_queue[0], signaller);
    }

    // the waiter leaves: the signaller resumes, the newcomer keeps waiting
    assert_eq!(k.run_next(), Some(waiter));
    assert_eq!(k.sys_monitor_leave(id), 0);
    assert_eq!(
        k.sched.threads[signaller].as_ref().unwrap().status,
        TaskStatus::Ready
    );
    assert_eq!(
        k.sched.threads[newcomer].as_ref().unwrap().status,
        TaskStatus::Blocked
    );
    // only the signaller's own leave admits the newcomer
    assert_eq!(k.run_next(), Some(signaller));
    assert_eq!(k.sys_monitor_leave(id), 0);
    assert_eq!(
        k.sched.threads[newcomer].as_ref().unwrap().status,
        TaskStatus::Ready
    );
}

/// Waiters on one condition are signalled strictly oldest-first, through
/// a chain of signals.
#[test]
fn cond_fifo_across_signals() {
    let mut k = Kernel::new();
    let id = k.sys_monitor_create();
    let c = k.sys_monitor_create_res_sem(id);
    let mut waiters = Vec::new();
    for _ in 0..3 {
        waiters.push(k.sys_thread_create(0, 0) as usize);
    }
    let signaller = k.sys_thread_create(0, 0) as usize;
    for w in &waiters {
        assert_eq!(k.run_next(), Some(*w));
        assert_eq!(k.sys_monitor_enter(id), 0);
        assert_eq!(k.sys_monitor_wait(id, c), 0);
    }
    assert_eq!(k.run_next(), Some(signaller));
    assert_eq!(k.sys_monitor_enter(id), 0);
    let mut woken = Vec::new();
    // signal once; the woken waiter signals the next, and so on
    assert_eq!(k.sys_monitor_signal(id, c), 0);
    for _ in 0..3 {
        let tid = k.run_next().unwrap();
        woken.push(tid);
        assert_eq!(k.sys_monitor_signal(id, c), 0);
        if k.sched.current_task().is_some() {
            // no more waiters: this thread still runs; leave directly
            assert_eq!(k.sys_monitor_leave(id), 0);
        }
    }
    assert_eq!(woken, waiters);
}
