//! The liveness audit: starvation in the monitor buffer is detected, the
//! blocked population is terminated in place, and the audit's verdict is
//! sound.

use sync_core::kernel::Kernel;
use sync_core::tcb::TaskStatus;
use sync_core::user;

/// Shared state of the monitor-buffer run.
struct Shared {
    read: usize,
    write: usize,
    buf: [i32; 6],
    full_count: i32,
    produce_events: usize,
    consume_events: usize,
    audit_hits: usize,
}

/// A producer, a consumer, or the checker.
struct Actor {
    kind: u8,
    value: i32,
    iter: u32,
    phase: u8,
}

const PRODUCER: u8 = 0;
const CONSUMER: u8 = 1;
const CHECKER: u8 = 2;

/// Ids of the monitor and its two conditions.
struct Mon {
    id: usize,
    full: usize,
    empty: usize,
}

fn step_actor(k: &mut Kernel, m: &Mon, a: &mut Actor, sh: &mut Shared) {
    loop {
        match a.kind {
            PRODUCER => match a.phase {
                0 => {
                    a.phase = 1;
                    assert_eq!(k.sys_monitor_enter(m.id), 0);
                    if k.sched.current_task().is_none() {
                        return;
                    }
                }
                1 => {
                    if sh.full_count == 6 {
                        a.phase = 2;
                        assert_eq!(k.sys_monitor_wait(m.id, m.empty), 0);
                        return;
                    }
                    a.phase = 2;
                }
                2 => {
                    sh.buf[sh.write] = a.value;
                    a.phase = 3;
                    assert_eq!(k.sys_sleep(5), 0);
                    return;
                }
                3 => {
                    sh.write = (sh.write + 1) % 6;
                    sh.full_count += 1;
                    sh.produce_events += 1;
                    a.phase = 4;
                    assert_eq!(k.sys_monitor_signal(m.id, m.full), 0);
                    if k.sched.current_task().is_none() {
                        return;
                    }
                }
                4 => {
                    a.iter += 1;
                    if a.iter == 5 {
                        assert_eq!(k.sys_monitor_leave(m.id), 0);
                        user::exit(k, 0);
                        return;
                    }
                    a.phase = 1;
                }
                _ => unreachable!(),
            },
            CONSUMER => match a.phase {
                0 => {
                    a.phase = 1;
                    assert_eq!(k.sys_monitor_enter(m.id), 0);
                    if k.sched.current_task().is_none() {
                        return;
                    }
                }
                1 => {
                    if sh.full_count == 0 {
                        a.phase = 2;
                        assert_eq!(k.sys_monitor_wait(m.id, m.full), 0);
                        return;
                    }
                    a.phase = 2;
                }
                2 => {
                    a.phase = 3;
                    assert_eq!(k.sys_sleep(5), 0);
                    return;
                }
                3 => {
                    sh.buf[sh.read] = 0;
                    sh.read = (sh.read + 1) % 6;
                    sh.full_count -= 1;
                    sh.consume_events += 1;
                    a.phase = 4;
                    assert_eq!(k.sys_monitor_signal(m.id, m.empty), 0);
                    if k.sched.current_task().is_none() {
                        return;
                    }
                }
                4 => {
                    a.iter += 1;
                    if a.iter == 10 {
                        assert_eq!(k.sys_monitor_leave(m.id), 0);
                        user::exit(k, 0);
                        return;
                    }
                    a.phase = 1;
                }
                _ => unreachable!(),
            },
            CHECKER => {
                // loop on the audit; give the processor up in between so
                // the workers can run, as a timer slice would let them
                let r = k.sys_monitor_check(m.id);
                if r == 1 {
                    sh.audit_hits += 1;
                    user::exit(k, 0);
                    return;
                }
                assert_eq!(r, 0);
                assert_eq!(k.sys_yield(), 0);
                return;
            }
            _ => unreachable!(),
        }
    }
}

/// S4: demand exceeds supply (four consumers want forty items, producers
/// make twenty), so the consumers all starve inside the monitor.  The
/// checker thread eventually reports 1 and terminates them in place; the
/// main thread's `waittid` calls then all complete.
#[test]
fn s4_starvation_detected() {
    let mut k = Kernel::new();
    let id = k.sys_monitor_create();
    let full = k.sys_monitor_create_res_sem(id);
    let empty = k.sys_monitor_create_res_sem(id);
    let m = Mon { id, full, empty };
    let mut sh = Shared {
        read: 0,
        write: 0,
        buf: [0; 6],
        full_count: 0,
        produce_events: 0,
        consume_events: 0,
        audit_hits: 0,
    };
    let mut tids = Vec::new();
    let mut actors = Vec::new();
    for v in [1, 2, 3, 4] {
        tids.push(k.sys_thread_create(0, 0) as usize);
        actors.push(Actor { kind: PRODUCER, value: v, iter: 0, phase: 0 });
    }
    for _ in 0..4 {
        tids.push(k.sys_thread_create(0, 0) as usize);
        actors.push(Actor { kind: CONSUMER, value: 0, iter: 0, phase: 0 });
    }
    tids.push(k.sys_thread_create(0, 0) as usize);
    actors.push(Actor { kind: CHECKER, value: 0, iter: 0, phase: 0 });
    loop {
        match k.run_next() {
            Some(tid) => {
                let idx = tids.iter().position(|t| *t == tid).unwrap();
                let spinning = actors[idx].kind == CHECKER;
                step_actor(&mut k, &m, &mut actors[idx], &mut sh);
                // the checker busy-loops; the clock keeps running under
                // it, as the timer interrupt would make it
                if spinning && !k.sched.timers.is_empty() {
                    let due = k.sched.timers[0].expire_ms;
                    let now = if due > k.sched.time_ms { due } else { k.sched.time_ms };
                    k.timer_tick(now);
                }
            }
            None => {
                if k.sched.timers.is_empty() {
                    break;
                }
                let due = k.sched.timers[0].expire_ms;
                k.timer_tick(due);
            }
        }
    }
    // the audit fired exactly once and the monitor is emptied
    assert_eq!(sh.audit_hits, 1);
    assert_eq!(sh.produce_events, 20);
    assert_eq!(sh.consume_events, 20);
    let mon = k.monitor_list[id].as_ref().unwrap();
    assert_eq!(mon.thread_count, 0);
    assert_eq!(mon.urgent_count, 0);
    // producers and the checker finished; of the consumers, only those
    // demanding more than the supply remain: they were terminated in
    // place with exit code -1, lost their resource slot, and were never
    // woken.  At most two consumers can have read ten items each.
    let mut killed = 0;
    for (i, tid) in tids.iter().enumerate() {
        let t = k.sched.threads[*tid].as_ref().unwrap();
        match actors[i].kind {
            PRODUCER | CHECKER => assert_eq!(t.exit_code, Some(0)),
            _ => {
                if t.exit_code == Some(-1) {
                    killed += 1;
                    assert!(t.res.is_none());
                    assert_eq!(t.status, TaskStatus::Blocked);
                } else {
                    assert_eq!(t.exit_code, Some(0));
                    assert_eq!(actors[i].iter, 10);
                }
            }
        }
    }
    assert!(killed >= 2);
    // a reaper thread can now collect every worker; it reuses the lowest
    // freed tid, so that one slot is its own
    let codes: Vec<i32> = tids
        .iter()
        .map(|t| k.sched.threads[*t].as_ref().unwrap().exit_code.unwrap())
        .collect();
    let reaper = k.sys_thread_create(0, 0) as usize;
    assert_eq!(k.run_next(), Some(reaper));
    for (i, tid) in tids.iter().enumerate() {
        if *tid == reaper {
            continue;
        }
        assert_eq!(k.sys_waittid(*tid), codes[i]);
        assert!(k.sched.threads[*tid].is_none());
    }
}

/// Audit soundness on a hand-built state: with every thread of the
/// monitor blocked on its queues the audit returns 1, terminates them
/// all, and zeroes the population; an empty monitor reports 0.
#[test]
fn check_self_soundness() {
    let mut k = Kernel::new();
    let id = k.sys_monitor_create();
    let c = k.sys_monitor_create_res_sem(id);
    assert_eq!(k.sys_monitor_check(id), 0);

    let t1 = k.sys_thread_create(0, 0) as usize;
    let t2 = k.sys_thread_create(0, 0) as usize;

    assert_eq!(k.run_next(), Some(t1));
    assert_eq!(k.sys_monitor_enter(id), 0);
    assert_eq!(k.sys_monitor_wait(id, c), 0);

    assert_eq!(k.run_next(), Some(t2));
    assert_eq!(k.sys_monitor_enter(id), 0);
    // while a thread holds the region the audit sees possible progress
    assert_eq!(k.sys_monitor_check(id), 0);
    assert_eq!(k.sys_monitor_wait(id, c), 0);

    // now both threads wait on the condition and nobody can signal
    assert_eq!(k.sys_monitor_check(id), 1);
    let mon = k.monitor_list[id].as_ref().unwrap();
    assert_eq!(mon.thread_count, 0);
    assert_eq!(mon.cond_counts[c], 0);
    assert_eq!(mon.cond_sems[c].waited_queue.len(), 0);
    for tid in [t1, t2] {
        let t = k.sched.threads[tid].as_ref().unwrap();
        assert_eq!(t.exit_code, Some(-1));
        assert!(t.res.is_none());
    }
    // and a second audit of the emptied monitor reports no fault
    assert_eq!(k.sys_monitor_check(id), 0);
}
