//! The semaphore: the bounded-buffer scenario, the counting law on
//! concrete values, FIFO wakeup, error returns, and id reuse.

use sync_core::kernel::Kernel;
use sync_core::tcb::TaskStatus;
use sync_core::user;

/// Shared state of the bounded-buffer run.
struct Shared {
    read: usize,
    write: usize,
    buf: [i32; 6],
    produced: Vec<i32>,
    consumed: Vec<i32>,
    events: usize,
}

/// One producer or consumer.
struct Actor {
    producer: bool,
    value: i32,
    iter: u32,
    phase: u8,
    tmp: i32,
}

fn step_actor(
    k: &mut Kernel,
    ids: (usize, usize, usize),
    a: &mut Actor,
    sh: &mut Shared,
) {
    let (mutex, full, empty) = ids;
    loop {
        if a.producer {
            match a.phase {
                0 => {
                    a.phase = 1;
                    assert_eq!(k.sys_sem_wait(empty), 0);
                    if k.sched.current_task().is_none() {
                        return;
                    }
                }
                1 => {
                    a.phase = 2;
                    assert_eq!(k.sys_sem_wait(mutex), 0);
                    if k.sched.current_task().is_none() {
                        return;
                    }
                }
                2 => {
                    sh.buf[sh.write] = a.value;
                    a.phase = 3;
                    assert_eq!(k.sys_sleep(5), 0);
                    return;
                }
                3 => {
                    sh.write = (sh.write + 1) % 6;
                    sh.produced.push(a.value);
                    sh.events += 1;
                    assert_eq!(k.sys_sem_post(mutex), 0);
                    assert_eq!(k.sys_sem_post(full), 0);
                    a.iter += 1;
                    if a.iter == 5 {
                        user::exit(k, 0);
                        return;
                    }
                    a.phase = 0;
                }
                _ => unreachable!(),
            }
        } else {
            match a.phase {
                0 => {
                    a.phase = 1;
                    assert_eq!(k.sys_sem_wait(full), 0);
                    if k.sched.current_task().is_none() {
                        return;
                    }
                }
                1 => {
                    a.phase = 2;
                    assert_eq!(k.sys_sem_wait(mutex), 0);
                    if k.sched.current_task().is_none() {
                        return;
                    }
                }
                2 => {
                    a.tmp = sh.buf[sh.read];
                    a.phase = 3;
                    assert_eq!(k.sys_sleep(5), 0);
                    return;
                }
                3 => {
                    sh.buf[sh.read] = 0;
                    sh.read = (sh.read + 1) % 6;
                    sh.consumed.push(a.tmp);
                    sh.events += 1;
                    assert_eq!(k.sys_sem_post(mutex), 0);
                    assert_eq!(k.sys_sem_post(empty), 0);
                    a.iter += 1;
                    if a.iter == 10 {
                        user::exit(k, 0);
                        return;
                    }
                    a.phase = 0;
                }
                _ => unreachable!(),
            }
        }
    }
}

/// S2: a six-slot ring buffer guarded by three semaphores; four producers
/// write five values each, two consumers read ten each.  All twenty items
/// are consumed, the buffer ends empty, and forty events are recorded.
#[test]
fn s2_bounded_buffer() {
    let mut k = Kernel::new();
    let mutex = k.sys_sem_create(1);
    let full = k.sys_sem_create(0);
    let empty = k.sys_sem_create(6);
    let mut sh = Shared {
        read: 0,
        write: 0,
        buf: [0; 6],
        produced: Vec::new(),
        consumed: Vec::new(),
        events: 0,
    };
    let mut tids = Vec::new();
    let mut actors = Vec::new();
    let values = [1, 2, 3, 4];
    for v in values {
        tids.push(k.sys_thread_create(0, 0) as usize);
        actors.push(Actor { producer: true, value: v, iter: 0, phase: 0, tmp: 0 });
    }
    for _ in 0..2 {
        tids.push(k.sys_thread_create(0, 0) as usize);
        actors.push(Actor { producer: false, value: 0, iter: 0, phase: 0, tmp: 0 });
    }
    loop {
        match k.run_next() {
            Some(tid) => {
                let idx = tids.iter().position(|t| *t == tid).unwrap();
                step_actor(&mut k, (mutex, full, empty), &mut actors[idx], &mut sh);
            }
            None => {
                if k.sched.timers.is_empty() {
                    break;
                }
                let due = k.sched.timers[0].expire_ms;
                k.timer_tick(due);
            }
        }
    }
    assert_eq!(sh.events, 40);
    assert_eq!(sh.produced.len(), 20);
    assert_eq!(sh.consumed.len(), 20);
    assert_eq!(sh.buf, [0; 6]);
    // every produced item was consumed: same multiset of values
    let mut p = sh.produced.clone();
    let mut c = sh.consumed.clone();
    p.sort();
    c.sort();
    assert_eq!(p, c);
    for tid in tids {
        assert_eq!(k.sched.threads[tid].as_ref().unwrap().exit_code, Some(0));
    }
}

/// Semaphore counting on concrete values: after interleaved P and V the
/// counter is `initial + #V - #P` and the blocked waiters number
/// `max(0, -counter)`.
#[test]
fn sem_counting_concrete() {
    let mut k = Kernel::new();
    let s = k.sys_sem_create(2);
    let mut tids = Vec::new();
    for _ in 0..4 {
        tids.push(k.sys_thread_create(0, 0) as usize);
    }
    // 4 P operations from 4 threads: counter 2 -> -2, two blocked
    for i in 0..4 {
        assert_eq!(k.run_next(), Some(tids[i]));
        assert_eq!(k.sys_sem_wait(s), 0);
        if i < 2 {
            assert!(k.sched.current_task().is_some());
            assert_eq!(k.sys_yield(), 0);
        } else {
            assert!(k.sched.current_task().is_none());
        }
    }
    {
        let sem = k.sem_list[s].as_ref().unwrap();
        assert_eq!(sem.value, 2 + 0 - 4);
        assert_eq!(sem.waited_queue.len(), 2);
    }
    // 3 V operations: counter -2 -> 1, nobody blocked
    assert_eq!(k.run_next(), Some(tids[0]));
    for _ in 0..3 {
        assert_eq!(k.sys_sem_post(s), 0);
    }
    let sem = k.sem_list[s].as_ref().unwrap();
    assert_eq!(sem.value, 2 + 3 - 4);
    assert_eq!(sem.waited_queue.len(), 0);
}

/// FIFO wakeup: the k-th thread to block on the semaphore is the k-th
/// woken by the matching posts.
#[test]
fn sem_fifo_wakeup() {
    let mut k = Kernel::new();
    let s = k.sys_sem_create(0);
    let mut tids = Vec::new();
    for _ in 0..3 {
        tids.push(k.sys_thread_create(0, 0) as usize);
    }
    for tid in &tids {
        assert_eq!(k.run_next(), Some(*tid));
        assert_eq!(k.sys_sem_wait(s), 0);
        assert!(k.sched.current_task().is_none());
    }
    // three posts wake them oldest-first; each joins the ready tail
    for i in 0..3 {
        assert_eq!(k.sys_sem_post(s), 0);
        assert_eq!(k.sched.ready[i], tids[i]);
    }
    for tid in &tids {
        assert_eq!(
            k.sched.threads[*tid].as_ref().unwrap().status,
            TaskStatus::Ready
        );
    }
}

/// Operations on a missing semaphore id fail with -1; a destroyed id is
/// reused by the next create.
#[test]
fn sem_bad_id_and_reuse() {
    let mut k = Kernel::new();
    let t = k.sys_thread_create(0, 0) as usize;
    assert_eq!(k.run_next(), Some(t));
    assert_eq!(k.sys_sem_wait(3), -1);
    assert_eq!(k.sys_sem_post(3), -1);
    assert_eq!(k.sys_sem_destroy(3), -1);
    let a = k.sys_sem_create(1);
    let b = k.sys_sem_create(5);
    assert_eq!((a, b), (0, 1));
    assert_eq!(k.sys_sem_destroy(a), 0);
    assert_eq!(k.sys_sem_wait(a), -1);
    let c = k.sys_sem_create(7);
    assert_eq!(c, a);
    assert_eq!(k.sem_list[c].as_ref().unwrap().value, 7);
}

/// The user-level handle drives the same kernel semaphore.
#[test]
fn user_semaphore_handle() {
    let mut k = Kernel::new();
    let t = k.sys_thread_create(0, 0) as usize;
    assert_eq!(k.run_next(), Some(t));
    let s = user::Semaphore::new(&mut k, 1);
    assert_eq!(s.wait(&mut k), 0);
    assert_eq!(k.sem_list[s.id].as_ref().unwrap().value, 0);
    assert_eq!(s.post(&mut k), 0);
    assert_eq!(k.sem_list[s.id].as_ref().unwrap().value, 1);
    assert_eq!(s.destroy(&mut k), 0);
    assert!(k.sem_list[s.id].is_none());
}
