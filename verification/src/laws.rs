//! The core's quantified guarantees, stated as theorems.
//!
//! Each law here is proved from the invariants and contracts of the
//! primitives; nothing is assumed.  The per-operation contracts carry the
//! step-by-step versions (who wakes, in what order, what a counter
//! becomes); these theorems state the properties that hold of every
//! reachable state or of arbitrarily long runs.

use vstd::prelude::*;
use crate::kernel::Kernel;
use crate::monitor::HoareMonitor;
use crate::monitor::lemma_sum_nonneg;
use crate::mutex::Mutex;
use crate::semaphore::Semaphore;

verus! {

/// `t` holds the mutex.
pub open spec fn mutex_held_by(m: Mutex, t: usize) -> bool {
    m.owner@ == Some(t)
}

/// Mutual exclusion: a well-formed mutex is held by at most one thread,
/// and it is locked exactly while some thread holds it.  Lock and unlock
/// preserve well-formedness, so this holds in every reachable state.
pub proof fn lemma_mutex_exclusion(m: Mutex)
    requires
        m.wf(),
    ensures
        forall|a: usize, b: usize|
            mutex_held_by(m, a) && mutex_held_by(m, b) ==> a == b,
        (exists|t: usize| mutex_held_by(m, t)) <==> m.is_locked,
{
    if m.is_locked {
        assert(mutex_held_by(m, m.owner@.unwrap()));
    }
}

/// One semaphore operation: a P by thread `t`, or a V.
pub enum SemOp {
    /// P operation issued by this thread.
    Wait(usize),
    /// V operation.
    Post,
}

/// Sign invariant of a semaphore state: a negative counter counts the
/// waiters exactly, a non-negative one has none.
pub open spec fn sem_inv(value: int, waiters: Seq<usize>) -> bool {
    &&& value >= 0 ==> waiters.len() == 0
    &&& value < 0 ==> waiters.len() == -value
}

/// What a P by thread `t` does to a semaphore state, exactly as
/// `Semaphore::sem_wait` does it.
pub open spec fn sem_wait_step(value: int, waiters: Seq<usize>, t: usize) -> (
    int,
    Seq<usize>,
) {
    if value > 0 {
        (value - 1, waiters)
    } else {
        (value - 1, waiters.push(t))
    }
}

/// What a V does to a semaphore state, exactly as `Semaphore::sem_post`
/// does it.
pub open spec fn sem_post_step(value: int, waiters: Seq<usize>) -> (int, Seq<usize>) {
    if value >= 0 {
        (value + 1, waiters)
    } else {
        (value + 1, waiters.drop_first())
    }
}

/// A semaphore state after a sequence of interleaved P and V operations.
pub open spec fn sem_run(value: int, waiters: Seq<usize>, ops: Seq<SemOp>) -> (
    int,
    Seq<usize>,
)
    decreases ops.len(),
{
    if ops.len() == 0 {
        (value, waiters)
    } else {
        let stepped = match ops[0] {
            SemOp::Wait(t) => sem_wait_step(value, waiters, t),
            SemOp::Post => sem_post_step(value, waiters),
        };
        sem_run(stepped.0, stepped.1, ops.drop_first())
    }
}

/// Number of V operations in a sequence.
pub open spec fn num_posts(ops: Seq<SemOp>) -> int
    decreases ops.len(),
{
    if ops.len() == 0 {
        0
    } else {
        (if ops[0] is Post {
            1int
        } else {
            0int
        }) + num_posts(ops.drop_first())
    }
}

/// Number of P operations in a sequence.
pub open spec fn num_waits(ops: Seq<SemOp>) -> int
    decreases ops.len(),
{
    if ops.len() == 0 {
        0
    } else {
        (if ops[0] is Wait {
            1int
        } else {
            0int
        }) + num_waits(ops.drop_first())
    }
}

/// Semaphore counting: after any interleaving of P and V operations the
/// counter is the initial counter plus the V count minus the P count, and
/// the number of blocked waiters is exactly `max(0, -counter)`.
pub proof fn lemma_semaphore_counting(value: int, waiters: Seq<usize>, ops: Seq<SemOp>)
    requires
        sem_inv(value, waiters),
    ensures
        sem_run(value, waiters, ops).0 == value + num_posts(ops) - num_waits(ops),
        sem_inv(sem_run(value, waiters, ops).0, sem_run(value, waiters, ops).1),
        sem_run(value, waiters, ops).1.len() == if sem_run(value, waiters, ops).0 < 0 {
            -sem_run(value, waiters, ops).0
        } else {
            0int
        },
    decreases ops.len(),
{
    if ops.len() > 0 {
        match ops[0] {
            SemOp::Wait(t) => {
                lemma_semaphore_counting(value - 1, sem_wait_step(value, waiters, t).1, ops.drop_first());
            },
            SemOp::Post => {
                lemma_semaphore_counting(value + 1, sem_post_step(value, waiters).1, ops.drop_first());
            },
        }
    }
}

/// FIFO wakeup for a semaphore: the k-th thread ever to block on it is
/// the k-th thread woken from it.  The woken history is a prefix of the
/// blocked history; the threads still queued are the remainder, in order.
pub proof fn lemma_semaphore_fifo(s: Semaphore)
    requires
        s.wf(),
    ensures
        s.hist_woken@.len() <= s.hist_blocked@.len(),
        s.hist_woken@ == s.hist_blocked@.take(s.hist_woken@.len() as int),
        forall|k: int|
            0 <= k < s.hist_woken@.len() ==> s.hist_woken@[k] == s.hist_blocked@[k],
        s.waited_queue@ == s.hist_blocked@.skip(s.hist_woken@.len() as int),
{
    assert(s.hist_woken@ =~= s.hist_blocked@.take(s.hist_woken@.len() as int));
    assert(s.waited_queue@ =~= s.hist_blocked@.skip(s.hist_woken@.len() as int));
}

/// FIFO wakeup for a mutex, in the same sense.
pub proof fn lemma_mutex_fifo(m: Mutex)
    requires
        m.wf(),
    ensures
        m.hist_woken@.len() <= m.hist_blocked@.len(),
        m.hist_woken@ == m.hist_blocked@.take(m.hist_woken@.len() as int),
        forall|k: int|
            0 <= k < m.hist_woken@.len() ==> m.hist_woken@[k] == m.hist_blocked@[k],
    {
    assert(m.hist_woken@ =~= m.hist_blocked@.take(m.hist_woken@.len() as int));
}

/// FIFO wakeup inside a monitor: each condition queue, the urgent queue
/// and the entry queue are semaphores, so the semaphore law applies to
/// every one of them.
pub proof fn lemma_monitor_fifo(m: HoareMonitor)
    requires
        m.wf(),
    ensures
        forall|j: int|
            0 <= j < m.cond_sems@.len()
                ==> (#[trigger] m.cond_sems@[j]).hist_woken@
                    == m.cond_sems@[j].hist_blocked@.take(
                    m.cond_sems@[j].hist_woken@.len() as int,
                ),
        m.urgent.hist_woken@ == m.urgent.hist_blocked@.take(
            m.urgent.hist_woken@.len() as int,
        ),
        m.entry.hist_woken@ == m.entry.hist_blocked@.take(
            m.entry.hist_woken@.len() as int,
        ),
{
    assert forall|j: int| 0 <= j < m.cond_sems@.len()
        implies (#[trigger] m.cond_sems@[j]).hist_woken@
            == m.cond_sems@[j].hist_blocked@.take(
            m.cond_sems@[j].hist_woken@.len() as int,
        ) by {
        lemma_semaphore_fifo(m.cond_sems@[j]);
    }
    lemma_semaphore_fifo(m.urgent);
    lemma_semaphore_fifo(m.entry);
}

/// `t` holds the monitor region.
pub open spec fn monitor_held_by(m: HoareMonitor, t: usize) -> bool {
    m.active@ == Some(t)
}

/// Monitor exclusion: at most one thread is ever between a successful
/// `enter` (or a hand-off of the region) and its matching release, and
/// the region is occupied exactly while the entry counter is not
/// positive.  Threads parked on a condition or on urgent have released
/// the region and are not counted.  The population count never goes
/// negative.
pub proof fn lemma_monitor_exclusion(m: HoareMonitor)
    requires
        m.wf(),
    ensures
        forall|a: usize, b: usize|
            monitor_held_by(m, a) && monitor_held_by(m, b) ==> a == b,
        (exists|t: usize| monitor_held_by(m, t)) <==> m.entry.value <= 0,
        m.thread_count >= 0,
{
    if m.entry.value <= 0 {
        assert(monitor_held_by(m, m.active@.unwrap()));
    }
    lemma_sum_nonneg(m.cond_counts@);
}

/// Condition counters: in every well-formed monitor state, each counter
/// equals the number of threads blocked on its condition's queue.
pub proof fn lemma_condition_counters(m: HoareMonitor)
    requires
        m.wf(),
    ensures
        forall|i: int|
            0 <= i < m.cond_counts@.len()
                ==> m.cond_counts@[i] == (#[trigger] m.cond_sems@[i]).waited_queue@.len(),
        m.urgent_count == m.urgent.waited_queue@.len(),
{
}

/// Id reuse for mutexes: in a state where slot `id` is free and every
/// earlier slot is taken — as after `create` returned `id` and `destroy`
/// tombstoned it, with no other slot touched — a create that returns
/// `id2` (the first free slot) returns `id` again.
pub proof fn lemma_mutex_id_reuse(k: Kernel, id: usize, id2: usize)
    requires
        !k.valid_mutex(id),
        forall|i: usize| i < id ==> #[trigger] k.valid_mutex(i),
        !k.valid_mutex(id2),
        forall|i: usize| i < id2 ==> #[trigger] k.valid_mutex(i),
    ensures
        id2 == id,
{
    if id < id2 {
        assert(k.valid_mutex(id));
    } else if id2 < id {
        assert(k.valid_mutex(id2));
    }
}

/// Id reuse for semaphores, in the same sense.
pub proof fn lemma_sem_id_reuse(k: Kernel, id: usize, id2: usize)
    requires
        !k.valid_sem(id),
        forall|i: usize| i < id ==> #[trigger] k.valid_sem(i),
        !k.valid_sem(id2),
        forall|i: usize| i < id2 ==> #[trigger] k.valid_sem(i),
    ensures
        id2 == id,
{
    if id < id2 {
        assert(k.valid_sem(id));
    } else if id2 < id {
        assert(k.valid_sem(id2));
    }
}

/// Id reuse for monitors, in the same sense.
pub proof fn lemma_monitor_id_reuse(k: Kernel, id: usize, id2: usize)
    requires
        !k.valid_monitor(id),
        forall|i: usize| i < id ==> #[trigger] k.valid_monitor(i),
        !k.valid_monitor(id2),
        forall|i: usize| i < id2 ==> #[trigger] k.valid_monitor(i),
    ensures
        id2 == id,
{
    if id < id2 {
        assert(k.valid_monitor(id));
    } else if id2 < id {
        assert(k.valid_monitor(id2));
    }
}

} // verus!
