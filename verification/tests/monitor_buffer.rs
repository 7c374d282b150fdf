//! The Hoare monitor: the bounded-buffer scenario under monitor
//! discipline, the condition counters, the no-waiter signal, and id
//! reuse.

use sync_core::kernel::Kernel;
use sync_core::tcb::TaskStatus;
use sync_core::user;

/// Shared state of the monitor-buffer run.
struct Shared {
    read: usize,
    write: usize,
    buf: [i32; 6],
    full_count: i32,
    produce_events: usize,
    consume_events: usize,
}

/// One producer or consumer inside the monitor.
struct Actor {
    producer: bool,
    value: i32,
    iter: u32,
    phase: u8,
    tmp: i32,
}

/// Ids of the monitor and its two conditions.
struct Mon {
    id: usize,
    full: usize,
    empty: usize,
}

fn step_actor(k: &mut Kernel, m: &Mon, a: &mut Actor, sh: &mut Shared) {
    loop {
        if a.producer {
            match a.phase {
                0 => {
                    a.phase = 1;
                    assert_eq!(k.sys_monitor_enter(m.id), 0);
                    if k.sched.current_task().is_none() {
                        return;
                    }
                }
                1 => {
                    if sh.full_count == 6 {
                        a.phase = 2;
                        assert_eq!(k.sys_monitor_wait(m.id, m.empty), 0);
                        return;
                    }
                    a.phase = 2;
                }
                2 => {
                    sh.buf[sh.write] = a.value;
                    a.phase = 3;
                    assert_eq!(k.sys_sleep(5), 0);
                    return;
                }
                3 => {
                    sh.write = (sh.write + 1) % 6;
                    sh.full_count += 1;
                    sh.produce_events += 1;
                    a.phase = 4;
                    assert_eq!(k.sys_monitor_signal(m.id, m.full), 0);
                    if k.sched.current_task().is_none() {
                        return;
                    }
                }
                4 => {
                    a.iter += 1;
                    if a.iter == 5 {
                        assert_eq!(k.sys_monitor_leave(m.id), 0);
                        user::exit(k, 0);
                        return;
                    }
                    a.phase = 1;
                }
                _ => unreachable!(),
            }
        } else {
            match a.phase {
                0 => {
                    a.phase = 1;
                    assert_eq!(k.sys_monitor_enter(m.id), 0);
                    if k.sched.current_task().is_none() {
                        return;
                    }
                }
                1 => {
                    if sh.full_count == 0 {
                        a.phase = 2;
                        assert_eq!(k.sys_monitor_wait(m.id, m.full), 0);
                        return;
                    }
                    a.phase = 2;
                }
                2 => {
                    a.tmp = sh.buf[sh.read];
                    a.phase = 3;
                    assert_eq!(k.sys_sleep(5), 0);
                    return;
                }
                3 => {
                    sh.buf[sh.read] = 0;
                    sh.read = (sh.read + 1) % 6;
                    sh.full_count -= 1;
                    sh.consume_events += 1;
                    a.phase = 4;
                    assert_eq!(k.sys_monitor_signal(m.id, m.empty), 0);
                    if k.sched.current_task().is_none() {
                        return;
                    }
                }
                4 => {
                    a.iter += 1;
                    if a.iter == 10 {
                        assert_eq!(k.sys_monitor_leave(m.id), 0);
                        user::exit(k, 0);
                        return;
                    }
                    a.phase = 1;
                }
                _ => unreachable!(),
            }
        }
    }
}

/// S3: the six-slot buffer under a Hoare monitor with conditions `full`
/// and `empty`; four producers write five values, two consumers read ten.
/// Exactly twenty produce and twenty consume events happen, nothing
/// deadlocks, and the final audit reports 0.
#[test]
fn s3_monitor_buffer() {
    let mut k = Kernel::new();
    let id = k.sys_monitor_create();
    let full = k.sys_monitor_create_res_sem(id);
    let empty = k.sys_monitor_create_res_sem(id);
    let m = Mon { id, full, empty };
    let mut sh = Shared {
        read: 0,
        write: 0,
        buf: [0; 6],
        full_count: 0,
        produce_events: 0,
        consume_events: 0,
    };
    let mut tids = Vec::new();
    let mut actors = Vec::new();
    for v in [1, 2, 3, 4] {
        tids.push(k.sys_thread_create(0, 0) as usize);
        actors.push(Actor { producer: true, value: v, iter: 0, phase: 0, tmp: 0 });
    }
    for _ in 0..2 {
        tids.push(k.sys_thread_create(0, 0) as usize);
        actors.push(Actor { producer: false, value: 0, iter: 0, phase: 0, tmp: 0 });
    }
    loop {
        match k.run_next() {
            Some(tid) => {
                let idx = tids.iter().position(|t| *t == tid).unwrap();
                step_actor(&mut k, &m, &mut actors[idx], &mut sh);
            }
            None => {
                if k.sched.timers.is_empty() {
                    break;
                }
                let due = k.sched.timers[0].expire_ms;
                k.timer_tick(due);
            }
        }
    }
    assert_eq!(sh.produce_events, 20);
    assert_eq!(sh.consume_events, 20);
    assert_eq!(sh.buf, [0; 6]);
    for tid in tids {
        assert_eq!(k.sched.threads[tid].as_ref().unwrap().exit_code, Some(0));
    }
    // everyone left: the audit finds an empty, healthy monitor
    assert_eq!(k.sys_monitor_check(id), 0);
    let mon = k.monitor_list[id].as_ref().unwrap();
    assert_eq!(mon.thread_count, 0);
}

/// Condition counters track their queues: each wait raises the counter
/// with the queue, each signal lowers both.
#[test]
fn condition_counter_tracks_queue() {
    let mut k = Kernel::new();
    let id = k.sys_monitor_create();
    let c0 = k.sys_monitor_create_res_sem(id);
    let c1 = k.sys_monitor_create_res_sem(id);
    let t1 = k.sys_thread_create(0, 0) as usize;
    let t2 = k.sys_thread_create(0, 0) as usize;
    let t3 = k.sys_thread_create(0, 0) as usize;

    assert_eq!(k.run_next(), Some(t1));
    assert_eq!(k.sys_monitor_enter(id), 0);
    assert_eq!(k.sys_monitor_wait(id, c0), 0);

    assert_eq!(k.run_next(), Some(t2));
    assert_eq!(k.sys_monitor_enter(id), 0);
    assert_eq!(k.sys_monitor_wait(id, c0), 0);

    assert_eq!(k.run_next(), Some(t3));
    assert_eq!(k.sys_monitor_enter(id), 0);
    {
        let mon = k.monitor_list[id].as_ref().unwrap();
        assert_eq!(mon.cond_counts[c0], 2);
        assert_eq!(mon.cond_sems[c0].waited_queue.len(), 2);
        assert_eq!(mon.cond_counts[c1], 0);
        assert_eq!(mon.cond_sems[c1].waited_queue.len(), 0);
    }
    // one signal: the oldest waiter leaves the condition queue
    assert_eq!(k.sys_monitor_signal(id, c0), 0);
    let mon = k.monitor_list[id].as_ref().unwrap();
    assert_eq!(mon.cond_counts[c0], 1);
    assert_eq!(mon.cond_sems[c0].waited_queue.len(), 1);
    assert_eq!(mon.cond_sems[c0].waited_queue[0], t2);
    assert_eq!(mon.urgent_count, 1);
}

/// At most one thread is ever inside the region: while one holds it,
/// every later enter blocks at the entry queue, and each leave admits
/// exactly one.
#[test]
fn monitor_mutual_exclusion() {
    let mut k = Kernel::new();
    let id = k.sys_monitor_create();
    let t1 = k.sys_thread_create(0, 0) as usize;
    let t2 = k.sys_thread_create(0, 0) as usize;
    let t3 = k.sys_thread_create(0, 0) as usize;

    assert_eq!(k.run_next(), Some(t1));
    assert_eq!(k.sys_monitor_enter(id), 0);
    assert!(k.sched.current_task().is_some());
    assert_eq!(k.sys_yield(), 0);

    assert_eq!(k.run_next(), Some(t2));
    assert_eq!(k.sys_monitor_enter(id), 0);
    assert!(k.sched.current_task().is_none());
    assert_eq!(k.run_next(), Some(t3));
    assert_eq!(k.sys_monitor_enter(id), 0);
    assert!(k.sched.current_task().is_none());
    {
        let mon = k.monitor_list[id].as_ref().unwrap();
        assert_eq!(mon.thread_count, 3);
        assert_eq!(mon.entry.waited_queue.len(), 2);
        assert_eq!(mon.entry.waited_queue[0], t2);
    }

    // each leave admits exactly the oldest entry waiter
    assert_eq!(k.run_next(), Some(t1));
    assert_eq!(k.sys_monitor_leave(id), 0);
    assert_eq!(
        k.sched.threads[t2].as_ref().unwrap().status,
        TaskStatus::Ready
    );
    assert_eq!(
        k.sched.threads[t3].as_ref().unwrap().status,
        TaskStatus::Blocked
    );
    assert_eq!(k.run_next(), Some(t2));
    assert_eq!(k.sys_monitor_leave(id), 0);
    assert_eq!(k.run_next(), Some(t3));
    assert_eq!(k.sys_monitor_leave(id), 0);
    let mon = k.monitor_list[id].as_ref().unwrap();
    assert_eq!(mon.thread_count, 0);
    assert_eq!(mon.entry.value, 1);
}

/// Signalling a condition nobody waits on changes nothing at all.
#[test]
fn signal_without_waiters_is_noop() {
    let mut k = Kernel::new();
    let id = k.sys_monitor_create();
    let c = k.sys_monitor_create_res_sem(id);
    let t = k.sys_thread_create(0, 0) as usize;
    assert_eq!(k.run_next(), Some(t));
    assert_eq!(k.sys_monitor_enter(id), 0);
    assert_eq!(k.sys_monitor_signal(id, c), 0);
    // the signaller still runs and still holds the region
    assert_eq!(k.sched.current_task(), Some(t));
    let mon = k.monitor_list[id].as_ref().unwrap();
    assert_eq!(mon.urgent_count, 0);
    assert_eq!(mon.urgent.waited_queue.len(), 0);
    assert_eq!(mon.cond_counts[c], 0);
    assert_eq!(mon.thread_count, 1);
}

/// Monitor ids: bad ids fail with -1, destroyed ids are reused.
#[test]
fn monitor_bad_id_and_reuse() {
    let mut k = Kernel::new();
    let t = k.sys_thread_create(0, 0) as usize;
    assert_eq!(k.run_next(), Some(t));
    assert_eq!(k.sys_monitor_enter(9), -1);
    assert_eq!(k.sys_monitor_leave(9), -1);
    assert_eq!(k.sys_monitor_wait(9, 0), -1);
    assert_eq!(k.sys_monitor_signal(9, 0), -1);
    assert_eq!(k.sys_monitor_check(9), -1);
    assert_eq!(k.sys_monitor_destroy(9), -1);
    let a = user::monitor_create(&mut k);
    let b = user::monitor_create(&mut k);
    assert_eq!((a, b), (0, 1));
    assert_eq!(user::monitor_destroy(&mut k, a), 0);
    assert_eq!(k.sys_monitor_enter(a), -1);
    let c = user::monitor_create(&mut k);
    assert_eq!(c, a);
    assert_eq!(user::monitor_enter(&mut k, c), 0);
    assert_eq!(user::monitor_leave(&mut k, c), 0);
}
