//! Hoare monitor: mutual-exclusion region with condition variables.
//!
//! The classic two-semaphore encoding: an `entry` semaphore (initially 1)
//! gates the region, an `urgent` semaphore (initially 0) parks signallers,
//! and each condition variable is a 0-initialized semaphore paired with a
//! waiter counter.  `signal` hands the region to the signalled waiter at
//! once and parks the signaller on `urgent`; every release prefers
//! `urgent` over `entry`.
//!
//! The ghost `active` slot names the one thread holding the region, which
//! includes a thread the region was just handed to.  The invariant ties it
//! to the entry counter, so at most one thread is ever between a
//! successful `enter` and its matching release.
//!
//! `check_self` is the liveness audit: when every thread inside the
//! monitor's sphere is blocked on one of its queues, nothing can ever run
//! again, and the audit terminates them all in place.

use vstd::prelude::*;
use vstd::pervasive::VecAdditionalExecFns;
use crate::sched::MAX_THREADS;
use crate::sched::Sched;
use crate::semaphore::Semaphore;
use crate::tcb::Pending;
use crate::tcb::TaskStatus;
use crate::tcb::ThreadControlBlock;
use crate::tcb::WaitLoc;

verus! {

/// Sum of a sequence of counters.
pub open spec fn sum_counts(s: Seq<usize>) -> int
    decreases s.len(),
{
    if s.len() == 0 {
        0
    } else {
        s[0] + sum_counts(s.drop_first())
    }
}

/// Counter sums are non-negative.
pub proof fn lemma_sum_nonneg(s: Seq<usize>)
    ensures
        sum_counts(s) >= 0,
    decreases s.len(),
{
    if s.len() > 0 {
        lemma_sum_nonneg(s.drop_first());
    }
}

/// Appending a counter adds it to the sum.
pub proof fn lemma_sum_push(s: Seq<usize>, v: usize)
    ensures
        sum_counts(s.push(v)) == sum_counts(s) + v,
    decreases s.len(),
{
    if s.len() == 0 {
        assert(s.push(v)[0] == v);
        assert(s.push(v).drop_first() =~= Seq::<usize>::empty());
        assert(sum_counts(s.push(v).drop_first()) == 0);
    } else {
        assert(s.push(v)[0] == s[0]);
        assert(s.push(v).drop_first() =~= s.drop_first().push(v));
        lemma_sum_push(s.drop_first(), v);
    }
}

/// Replacing one counter shifts the sum by the difference.
pub proof fn lemma_sum_update(s: Seq<usize>, i: int, v: usize)
    requires
        0 <= i < s.len(),
    ensures
        sum_counts(s.update(i, v)) == sum_counts(s) - s[i] + v,
    decreases s.len(),
{
    if i == 0 {
        assert(s.update(i, v).drop_first() =~= s.drop_first());
    } else {
        assert(s.update(i, v).drop_first() =~= s.drop_first().update(i - 1, v));
        lemma_sum_update(s.drop_first(), i - 1, v);
    }
}

/// A sum of zeroes is zero.
pub proof fn lemma_sum_zero(s: Seq<usize>)
    requires
        forall|i: int| 0 <= i < s.len() ==> s[i] == 0,
    ensures
        sum_counts(s) == 0,
    decreases s.len(),
{
    if s.len() > 0 {
        lemma_sum_zero(s.drop_first());
    }
}

/// A prefix sum never exceeds the whole sum.
pub proof fn lemma_sum_take_le(s: Seq<usize>, k: int)
    requires
        0 <= k <= s.len(),
    ensures
        sum_counts(s.take(k)) <= sum_counts(s),
    decreases s.len(),
{
    if s.len() == 0 || k == 0 {
        assert(s.take(k) =~= Seq::<usize>::empty());
        lemma_sum_nonneg(s);
    } else {
        assert(s.take(k).drop_first() =~= s.drop_first().take(k - 1));
        lemma_sum_take_le(s.drop_first(), k - 1);
    }
}

/// Extending a prefix by one element adds that element to its sum.
pub proof fn lemma_sum_take_next(s: Seq<usize>, k: int)
    requires
        0 <= k < s.len(),
    ensures
        sum_counts(s.take(k + 1)) == sum_counts(s.take(k)) + s[k],
{
    assert(s.take(k + 1) =~= s.take(k).push(s[k]));
    lemma_sum_push(s.take(k), s[k]);
}

/// The whole sum is the sum of the full prefix.
pub proof fn lemma_sum_take_all(s: Seq<usize>)
    ensures
        sum_counts(s.take(s.len() as int)) == sum_counts(s),
{
    assert(s.take(s.len() as int) =~= s);
}

/// Between `pre` and `post` the thread `tid` was terminated in place:
/// exit code -1, user resource gone, everything else as it was.
pub open spec fn terminated_from(pre: Sched, post: Sched, tid: usize) -> bool {
    post.thread_of(tid) == (ThreadControlBlock {
        exit_code: Some(-1i32),
        res: None,
        loc: Ghost(None),
        ..pre.thread_of(tid)
    })
}

/// Hoare monitor.
pub struct HoareMonitor {
    /// One semaphore per condition variable, addressed by dense `res_id`
    /// in creation order; all start at 0.
    pub cond_sems: Vec<Semaphore>,
    /// Number of threads waiting on each condition, parallel to
    /// `cond_sems`.
    pub cond_counts: Vec<usize>,
    /// Gates entry to the region; starts at 1.
    pub entry: Semaphore,
    /// Parks signallers that must resume inside the region; starts at 0.
    pub urgent: Semaphore,
    /// Number of threads parked on `urgent`.
    pub urgent_count: usize,
    /// Threads inside the region or waiting at `entry` (also counts those
    /// parked on a condition or on `urgent`).
    pub thread_count: isize,
    /// The one thread holding the region, if any: the thread that last
    /// acquired or was handed the region and has not yet released it
    /// (ghost).
    pub active: Ghost<Option<usize>>,
}

impl HoareMonitor {
    /// Sum of the condition counters.
    pub open spec fn waiting_on_conds(self) -> int {
        sum_counts(self.cond_counts@)
    }

    /// `x` sits in one of the first `j` condition queues.
    pub open spec fn in_cond_prefix(self, j: int, x: usize) -> bool {
        exists|jj: int|
            0 <= jj < j && (#[trigger] self.cond_sems@[jj]).waited_queue@.contains(x)
    }

    /// `x` sits in one of the monitor's waiter queues.
    pub open spec fn in_waiter_queues(self, x: usize) -> bool {
        ||| self.entry.waited_queue@.contains(x)
        ||| self.urgent.waited_queue@.contains(x)
        ||| self.in_cond_prefix(self.cond_sems@.len() as int, x)
    }

    /// Monitor invariant.
    ///
    /// The region is held by exactly one thread whenever the entry counter
    /// is not positive; every condition counter equals the length of its
    /// waiter queue; and the thread population splits exactly into the
    /// holder, the entry queue, the urgent queue and the condition queues.
    pub open spec fn wf(self) -> bool {
        &&& self.entry.wf()
        &&& self.entry.value <= 1
        &&& self.urgent.wf()
        &&& self.urgent.value <= 0
        &&& self.urgent_count == self.urgent.waited_queue@.len()
        &&& self.cond_sems@.len() == self.cond_counts@.len()
        &&& forall|i: int|
            0 <= i < self.cond_sems@.len() ==> (#[trigger] self.cond_sems@[i]).wf()
        &&& forall|i: int|
            0 <= i < self.cond_sems@.len() ==> (#[trigger] self.cond_sems@[i]).value <= 0
        &&& forall|i: int|
            0 <= i < self.cond_sems@.len()
                ==> self.cond_counts@[i] == (#[trigger] self.cond_sems@[i]).waited_queue@.len()
        &&& ((self.active@ is Some) <==> self.entry.value <= 0)
        &&& self.thread_count == (if self.active@ is Some {
            1int
        } else {
            0int
        }) + self.entry.waited_queue@.len() + self.urgent.waited_queue@.len()
            + self.waiting_on_conds()
    }

    /// An empty monitor: region free, no conditions yet.
    pub fn new() -> (m: HoareMonitor)
        ensures
            m.wf(),
            m.cond_sems@.len() == 0,
            m.cond_counts@.len() == 0,
            m.thread_count == 0,
            m.urgent_count == 0,
            (m.active@ is None),
            m.entry.value == 1,
            m.entry.waited_queue@.len() == 0,
            m.urgent.waited_queue@.len() == 0,
    {
        HoareMonitor {
            cond_sems: Vec::new(),
            cond_counts: Vec::new(),
            entry: Semaphore::new(1),
            urgent: Semaphore::new(0),
            urgent_count: 0,
            thread_count: 0,
            active: Ghost(None),
        }
    }

    /// Create a condition variable: a fresh 0-semaphore and counter.
    /// Returns its dense id, stable for the monitor's lifetime.
    pub fn create_res_sem(&mut self) -> (res_id: usize)
        requires
            old(self).wf(),
            old(self).cond_sems@.len() < usize::MAX,
        ensures
            final(self).wf(),
            res_id == old(self).cond_sems@.len(),
            final(self).cond_sems@.len() == old(self).cond_sems@.len() + 1,
            final(self).cond_counts@ == old(self).cond_counts@.push(0),
            final(self).cond_sems@[res_id as int].waited_queue@.len() == 0,
            final(self).cond_sems@[res_id as int].value == 0,
            forall|i: int|
                0 <= i < old(self).cond_sems@.len()
                    ==> final(self).cond_sems@[i] == (#[trigger] old(self).cond_sems@[i]),
            final(self).entry == old(self).entry,
            final(self).urgent == old(self).urgent,
            final(self).urgent_count == old(self).urgent_count,
            final(self).thread_count == old(self).thread_count,
            final(self).active == old(self).active,
    {
        let sem = Semaphore::new(0);
        self.cond_sems.push(sem);
        self.cond_counts.push(0);
        proof {
            lemma_sum_push(old(self).cond_counts@, 0);
        }
        self.cond_sems.len() - 1
    }

    /// Enter the monitor: count the thread in, then acquire the region
    /// through the entry semaphore.  Returns whether the region was free;
    /// otherwise the caller is parked in the entry queue and will hold the
    /// region when it is next dispatched.
    pub fn enter(&mut self, sched: &mut Sched, mid: usize) -> (entered: bool)
        requires
            old(self).wf(),
            old(sched).wf(),
            (old(sched).current is Some),
            old(self).thread_count < isize::MAX,
            old(self).entry.waited_queue@.len() < MAX_THREADS,
        ensures
            final(self).wf(),
            final(sched).wf(),
            final(self).thread_count == old(self).thread_count + 1,
            final(self).cond_sems == old(self).cond_sems,
            final(self).cond_counts == old(self).cond_counts,
            final(self).urgent == old(self).urgent,
            final(self).urgent_count == old(self).urgent_count,
            entered == (old(self).entry.value > 0),
            // region free: the caller holds it, nothing else moves
            old(self).entry.value > 0 ==> {
                &&& final(self).active@ == Some(old(sched).current.unwrap())
                &&& final(self).entry.value == 0
                &&& final(self).entry.waited_queue == old(self).entry.waited_queue
                &&& *final(sched) == *old(sched)
            },
            // region held: the caller queues at entry and blocks
            old(self).entry.value <= 0 ==> {
                let c = old(sched).current.unwrap();
                &&& final(self).active == old(self).active
                &&& final(self).entry.value == old(self).entry.value - 1
                &&& final(self).entry.waited_queue@ == old(self).entry.waited_queue@.push(c)
                &&& Sched::same_threads_except(*old(sched), *final(sched), c)
                &&& final(sched).thread_of(c) == (ThreadControlBlock {
                    status: TaskStatus::Blocked,
                    loc: Ghost(Some(WaitLoc::MonEntry(mid))),
                    pending: Pending::Return0,
                    ..old(sched).thread_of(c)
                })
                &&& final(sched).parked(c, WaitLoc::MonEntry(mid))
                &&& (final(sched).current is None)
                &&& final(sched).ready == old(sched).ready
                &&& final(sched).timers == old(sched).timers
                &&& final(sched).time_ms == old(sched).time_ms
                &&& final(sched).tid_alloc == old(sched).tid_alloc
            },
    {
        let entered = self.entry.value > 0;
        self.thread_count = self.thread_count + 1;
        let ghost c = old(sched).current.unwrap();
        self.entry.sem_wait(sched, Ghost(WaitLoc::MonEntry(mid)));
        if entered {
            proof {
                self.active@ = Some(c);
            }
        }
        entered
    }

    /// Leave the monitor.  A parked signaller resumes first if there is
    /// one (urgent wins over entry unconditionally); else the oldest entry
    /// waiter is admitted; else the region becomes free.  The departing
    /// thread is counted out either way.
    pub fn leave(&mut self, sched: &mut Sched, mid: usize)
        requires
            old(self).wf(),
            old(sched).wf(),
            (old(sched).current is Some),
            // leaving without holding the region is undefined behavior
            old(self).active@ == Some(old(sched).current.unwrap()),
            old(self).urgent_count > 0
                ==> old(sched).parked(
                    old(self).urgent.waited_queue@[0],
                    WaitLoc::MonUrgent(mid),
                ),
            old(self).urgent_count == 0 && old(self).entry.value < 0
                ==> old(sched).parked(
                    old(self).entry.waited_queue@[0],
                    WaitLoc::MonEntry(mid),
                ),
        ensures
            final(self).wf(),
            final(sched).wf(),
            final(self).thread_count == old(self).thread_count - 1,
            final(self).cond_sems == old(self).cond_sems,
            final(self).cond_counts == old(self).cond_counts,
            // a signaller resumes: it holds the region at once
            old(self).urgent_count > 0 ==> {
                let w = old(self).urgent.waited_queue@[0];
                &&& final(self).active@ == Some(w)
                &&& final(self).urgent_count == old(self).urgent_count - 1
                &&& final(self).urgent.value == old(self).urgent.value + 1
                &&& final(self).urgent.waited_queue@
                    == old(self).urgent.waited_queue@.drop_first()
                &&& final(self).entry == old(self).entry
                &&& Sched::same_threads_except(*old(sched), *final(sched), w)
                &&& final(sched).runnable(w)
                &&& final(sched).ready@ == old(sched).ready@.push(w)
                &&& final(sched).current == old(sched).current
                &&& final(sched).timers == old(sched).timers
                &&& final(sched).time_ms == old(sched).time_ms
                &&& final(sched).tid_alloc == old(sched).tid_alloc
            },
            // no signaller, a thread waits at entry: it holds the region
            old(self).urgent_count == 0 && old(self).entry.value < 0 ==> {
                let w = old(self).entry.waited_queue@[0];
                &&& final(self).active@ == Some(w)
                &&& final(self).urgent == old(self).urgent
                &&& final(self).urgent_count == old(self).urgent_count
                &&& final(self).entry.value == old(self).entry.value + 1
                &&& final(self).entry.waited_queue@
                    == old(self).entry.waited_queue@.drop_first()
                &&& Sched::same_threads_except(*old(sched), *final(sched), w)
                &&& final(sched).runnable(w)
                &&& final(sched).ready@ == old(sched).ready@.push(w)
                &&& final(sched).current == old(sched).current
                &&& final(sched).timers == old(sched).timers
                &&& final(sched).time_ms == old(sched).time_ms
                &&& final(sched).tid_alloc == old(sched).tid_alloc
            },
            // nobody to admit: the region is free
            old(self).urgent_count == 0 && old(self).entry.value >= 0 ==> {
                &&& (final(self).active@ is None)
                &&& final(self).urgent == old(self).urgent
                &&& final(self).urgent_count == old(self).urgent_count
                &&& final(self).entry.value == 1
                &&& final(self).entry.waited_queue == old(self).entry.waited_queue
                &&& *final(sched) == *old(sched)
            },
    {
        proof {
            lemma_sum_nonneg(self.cond_counts@);
        }
        if self.urgent_count > 0 {
            let ghost w = self.urgent.waited_queue@[0];
            self.urgent.sem_post(sched, Ghost(WaitLoc::MonUrgent(mid)));
            self.urgent_count = self.urgent_count - 1;
            proof {
                self.active@ = Some(w);
            }
        } else {
            let ghost entry_waited = self.entry.value < 0;
            let ghost w = self.entry.waited_queue@[0];
            self.entry.sem_post(sched, Ghost(WaitLoc::MonEntry(mid)));
            proof {
                if entry_waited {
                    self.active@ = Some(w);
                } else {
                    self.active@ = None;
                }
            }
        }
        self.thread_count = self.thread_count - 1;
    }

    /// Wait on condition `res_id`: release the region exactly as `leave`
    /// does — urgent first, else entry — but keep the caller counted, then
    /// park it on the condition's queue.  When it is dispatched again it
    /// holds the region once more.
    pub fn wait(&mut self, sched: &mut Sched, mid: usize, res_id: usize)
        requires
            old(self).wf(),
            old(sched).wf(),
            (old(sched).current is Some),
            // waiting without holding the region is undefined behavior
            old(self).active@ == Some(old(sched).current.unwrap()),
            res_id < old(self).cond_sems@.len(),
            old(self).cond_sems@[res_id as int].waited_queue@.len() < MAX_THREADS,
            old(self).urgent_count > 0
                ==> old(sched).parked(
                    old(self).urgent.waited_queue@[0],
                    WaitLoc::MonUrgent(mid),
                ),
            old(self).urgent_count == 0 && old(self).entry.value < 0
                ==> old(sched).parked(
                    old(self).entry.waited_queue@[0],
                    WaitLoc::MonEntry(mid),
                ),
        ensures
            final(self).wf(),
            final(sched).wf(),
            final(self).thread_count == old(self).thread_count,
            // the caller joins the condition's queue and its counter
            final(self).cond_counts@ == old(self).cond_counts@.update(
                res_id as int,
                (old(self).cond_counts@[res_id as int] + 1) as usize,
            ),
            final(self).cond_sems@.len() == old(self).cond_sems@.len(),
            final(self).cond_sems@[res_id as int].waited_queue@
                == old(self).cond_sems@[res_id as int].waited_queue@.push(
                    old(sched).current.unwrap(),
                ),
            forall|i: int|
                0 <= i < old(self).cond_sems@.len() && i != res_id
                    ==> final(self).cond_sems@[i] == (#[trigger] old(self).cond_sems@[i]),
            final(sched).parked(
                old(sched).current.unwrap(),
                WaitLoc::MonCond { mon_id: mid, res_id },
            ),
            final(sched).thread_of(old(sched).current.unwrap()) == (ThreadControlBlock {
                status: TaskStatus::Blocked,
                loc: Ghost(Some(WaitLoc::MonCond { mon_id: mid, res_id })),
                pending: Pending::Return0,
                ..old(sched).thread_of(old(sched).current.unwrap())
            }),
            (final(sched).current is None),
            final(sched).threads@.len() == old(sched).threads@.len(),
            final(sched).timers == old(sched).timers,
            final(sched).time_ms == old(sched).time_ms,
            final(sched).tid_alloc == old(sched).tid_alloc,
            // a signaller resumes with the region
            old(self).urgent_count > 0 ==> {
                let w = old(self).urgent.waited_queue@[0];
                let c = old(sched).current.unwrap();
                &&& final(self).active@ == Some(w)
                &&& final(self).urgent_count == old(self).urgent_count - 1
                &&& final(self).urgent.value == old(self).urgent.value + 1
                &&& final(self).urgent.waited_queue@
                    == old(self).urgent.waited_queue@.drop_first()
                &&& final(self).entry == old(self).entry
                &&& final(sched).runnable(w)
                &&& final(sched).thread_of(w) == (ThreadControlBlock {
                    status: TaskStatus::Ready,
                    loc: Ghost(None),
                    ..old(sched).thread_of(w)
                })
                &&& final(sched).ready@ == old(sched).ready@.push(w)
                &&& forall|i: int|
                    0 <= i < old(sched).threads@.len() && i != w && i != c
                        ==> final(sched).threads@[i] == #[trigger] old(sched).threads@[i]
            },
            // no signaller: the oldest entry waiter takes the region
            old(self).urgent_count == 0 && old(self).entry.value < 0 ==> {
                let w = old(self).entry.waited_queue@[0];
                let c = old(sched).current.unwrap();
                &&& final(self).active@ == Some(w)
                &&& final(self).urgent == old(self).urgent
                &&& final(self).urgent_count == old(self).urgent_count
                &&& final(self).entry.value == old(self).entry.value + 1
                &&& final(self).entry.waited_queue@
                    == old(self).entry.waited_queue@.drop_first()
                &&& final(sched).runnable(w)
                &&& final(sched).thread_of(w) == (ThreadControlBlock {
                    status: TaskStatus::Ready,
                    loc: Ghost(None),
                    ..old(sched).thread_of(w)
                })
                &&& final(sched).ready@ == old(sched).ready@.push(w)
                &&& forall|i: int|
                    0 <= i < old(sched).threads@.len() && i != w && i != c
                        ==> final(sched).threads@[i] == #[trigger] old(sched).threads@[i]
            },
            // nobody to admit: the region is free while the caller waits
            old(self).urgent_count == 0 && old(self).entry.value >= 0 ==> {
                let c = old(sched).current.unwrap();
                &&& (final(self).active@ is None)
                &&& final(self).urgent == old(self).urgent
                &&& final(self).urgent_count == old(self).urgent_count
                &&& final(self).entry.value == 1
                &&& final(self).entry.waited_queue == old(self).entry.waited_queue
                &&& final(sched).ready == old(sched).ready
                &&& forall|i: int|
                    0 <= i < old(sched).threads@.len() && i != c
                        ==> final(sched).threads@[i] == #[trigger] old(sched).threads@[i]
            },
    {
        let ghost c = old(sched).current.unwrap();
        // release the region, preferring a parked signaller; the caller
        // stays counted in `thread_count`: it is still logically inside
        if self.urgent_count > 0 {
            let ghost w = self.urgent.waited_queue@[0];
            self.urgent.sem_post(sched, Ghost(WaitLoc::MonUrgent(mid)));
            self.urgent_count = self.urgent_count - 1;
            proof {
                self.active@ = Some(w);
            }
        } else {
            let ghost entry_waited = self.entry.value < 0;
            let ghost w = self.entry.waited_queue@[0];
            self.entry.sem_post(sched, Ghost(WaitLoc::MonEntry(mid)));
            proof {
                if entry_waited {
                    self.active@ = Some(w);
                } else {
                    self.active@ = None;
                }
            }
        }
        // park the caller on the condition, counter and queue in step
        let x_count = self.cond_counts[res_id];
        self.cond_counts.set(res_id, x_count + 1);
        proof {
            lemma_sum_update(
                old(self).cond_counts@,
                res_id as int,
                (x_count + 1) as usize,
            );
        }
        let cs = &mut self.cond_sems[res_id];
        cs.sem_wait(sched, Ghost(WaitLoc::MonCond { mon_id: mid, res_id }));
    }

    /// Signal condition `res_id`.  With no waiter it does nothing at all.
    /// Otherwise the oldest waiter is woken and holds the region at once
    /// (Hoare semantics), while the signaller parks on the urgent queue
    /// until the region is next released.
    pub fn signal(&mut self, sched: &mut Sched, mid: usize, res_id: usize)
        requires
            old(self).wf(),
            old(sched).wf(),
            (old(sched).current is Some),
            // signalling without holding the region is undefined behavior
            old(self).active@ == Some(old(sched).current.unwrap()),
            res_id < old(self).cond_sems@.len(),
            old(self).urgent.waited_queue@.len() < MAX_THREADS,
            old(self).cond_counts@[res_id as int] > 0
                ==> old(sched).parked(
                    old(self).cond_sems@[res_id as int].waited_queue@[0],
                    WaitLoc::MonCond { mon_id: mid, res_id },
                ),
        ensures
            final(self).wf(),
            final(sched).wf(),
            // no waiter: a complete no-op
            old(self).cond_counts@[res_id as int] == 0 ==> {
                &&& *final(self) == *old(self)
                &&& *final(sched) == *old(sched)
            },
            // a waiter: it takes the region now, the signaller parks
            old(self).cond_counts@[res_id as int] > 0 ==> {
                let w = old(self).cond_sems@[res_id as int].waited_queue@[0];
                let c = old(sched).current.unwrap();
                &&& final(self).thread_count == old(self).thread_count
                &&& final(self).active@ == Some(w)
                &&& final(self).urgent_count == old(self).urgent_count + 1
                &&& final(self).urgent.value == old(self).urgent.value - 1
                &&& final(self).urgent.waited_queue@
                    == old(self).urgent.waited_queue@.push(c)
                &&& final(self).entry == old(self).entry
                &&& final(self).cond_counts@ == old(self).cond_counts@.update(
                    res_id as int,
                    (old(self).cond_counts@[res_id as int] - 1) as usize,
                )
                &&& final(self).cond_sems@.len() == old(self).cond_sems@.len()
                &&& final(self).cond_sems@[res_id as int].waited_queue@
                    == old(self).cond_sems@[res_id as int].waited_queue@.drop_first()
                &&& forall|i: int|
                    0 <= i < old(self).cond_sems@.len() && i != res_id
                        ==> final(self).cond_sems@[i]
                            == (#[trigger] old(self).cond_sems@[i])
                &&& final(sched).runnable(w)
                &&& final(sched).thread_of(w) == (ThreadControlBlock {
                    status: TaskStatus::Ready,
                    loc: Ghost(None),
                    ..old(sched).thread_of(w)
                })
                &&& final(sched).parked(c, WaitLoc::MonUrgent(mid))
                &&& final(sched).thread_of(c) == (ThreadControlBlock {
                    status: TaskStatus::Blocked,
                    loc: Ghost(Some(WaitLoc::MonUrgent(mid))),
                    pending: Pending::Return0,
                    ..old(sched).thread_of(c)
                })
                &&& (final(sched).current is None)
                &&& final(sched).ready@ == old(sched).ready@.push(w)
                &&& final(sched).threads@.len() == old(sched).threads@.len()
                &&& forall|i: int|
                    0 <= i < old(sched).threads@.len() && i != w && i != c
                        ==> final(sched).threads@[i] == #[trigger] old(sched).threads@[i]
                &&& final(sched).timers == old(sched).timers
                &&& final(sched).time_ms == old(sched).time_ms
                &&& final(sched).tid_alloc == old(sched).tid_alloc
            },
    {
        let ghost c = old(sched).current.unwrap();
        let x_count = self.cond_counts[res_id];
        if x_count > 0 {
            // one more thread will sit on urgent: the signaller itself
            self.urgent_count = self.urgent_count + 1;
            let ghost w = self.cond_sems@[res_id as int].waited_queue@[0];
            let cs = &mut self.cond_sems[res_id];
            cs.sem_post(sched, Ghost(WaitLoc::MonCond { mon_id: mid, res_id }));
            // the woken waiter is off the condition: counter follows queue
            self.cond_counts.set(res_id, x_count - 1);
            proof {
                lemma_sum_update(
                    old(self).cond_counts@,
                    res_id as int,
                    (x_count - 1) as usize,
                );
            }
            // park the signaller until the region is released to it
            self.urgent.sem_wait(sched, Ghost(WaitLoc::MonUrgent(mid)));
            proof {
                self.active@ = Some(w);
            }
        }
    }

    /// Liveness audit.  Counts the threads blocked on the monitor's
    /// queues; if the whole population of the monitor is blocked, no
    /// thread of it can ever run again on this cooperative uniprocessor,
    /// so every one of them is terminated in place and 1 is returned.
    /// Otherwise nothing changes and 0 is returned.
    pub fn check_self(&mut self, sched: &mut Sched, mid: usize) -> (r: isize)
        requires
            old(self).wf(),
            old(sched).wf(),
            old(sched).queue_ok(old(self).entry.waited_queue@, WaitLoc::MonEntry(mid)),
            old(sched).queue_ok(old(self).urgent.waited_queue@, WaitLoc::MonUrgent(mid)),
            forall|j: int|
                0 <= j < old(self).cond_sems@.len()
                    ==> old(sched).queue_ok(
                        (#[trigger] old(self).cond_sems@[j]).waited_queue@,
                        WaitLoc::MonCond { mon_id: mid, res_id: j as usize },
                    ),
        ensures
            final(self).wf(),
            final(sched).wf(),
            r == 1 || r == 0,
            // fault exactly when a non-empty population is fully blocked
            (r == 1) <==> (old(self).thread_count != 0
                && old(self).entry.waited_queue@.len() + old(self).urgent.waited_queue@.len()
                    + sum_counts(old(self).cond_counts@) == old(self).thread_count),
            r == 1 ==> (old(self).active@ is None),
            r == 0 ==> *final(self) == *old(self) && *final(sched) == *old(sched),
            r == 1 ==> {
                &&& final(self).thread_count == 0
                &&& final(self).urgent_count == 0
                &&& (final(self).active@ is None)
                &&& final(self).entry.waited_queue@.len() == 0
                &&& final(self).urgent.waited_queue@.len() == 0
                &&& final(self).cond_sems@.len() == old(self).cond_sems@.len()
                &&& final(self).cond_counts@.len() == old(self).cond_counts@.len()
                &&& forall|j: int|
                    0 <= j < final(self).cond_sems@.len()
                        ==> (#[trigger] final(self).cond_sems@[j]).waited_queue@.len() == 0
                &&& forall|j: int|
                    0 <= j < final(self).cond_counts@.len()
                        ==> final(self).cond_counts@[j] == 0
                // every thread that was blocked inside is terminated
                &&& forall|k: int|
                    0 <= k < old(self).urgent.waited_queue@.len()
                        ==> terminated_from(
                            *old(sched),
                            *final(sched),
                            #[trigger] old(self).urgent.waited_queue@[k],
                        )
                &&& forall|j: int, k: int|
                    0 <= j < old(self).cond_sems@.len()
                        && 0 <= k < old(self).cond_sems@[j].waited_queue@.len()
                        ==> terminated_from(
                            *old(sched),
                            *final(sched),
                            (#[trigger] old(self).cond_sems@[j].waited_queue@[k]),
                        )
                // and nothing else moves
                &&& final(sched).threads@.len() == old(sched).threads@.len()
                &&& forall|i: int|
                    0 <= i < old(sched).threads@.len()
                        && !old(self).in_waiter_queues(i as usize)
                        ==> final(sched).threads@[i] == #[trigger] old(sched).threads@[i]
                &&& final(sched).ready == old(sched).ready
                &&& final(sched).timers == old(sched).timers
                &&& final(sched).current == old(sched).current
                &&& final(sched).time_ms == old(sched).time_ms
                &&& forall|x: usize|
                    !old(self).in_waiter_queues(x)
                        ==> final(sched).tid_alloc.allocated(x)
                            == old(sched).tid_alloc.allocated(x)
            },
    {
        if self.thread_count == 0 {
            return 0;
        }
        // count the threads blocked on the condition queues
        let mut waited: isize = 0;
        let mut i: usize = 0;
        while i < self.cond_sems.len()
            invariant
                *self == *old(self),
                *sched == *old(sched),
                self.wf(),
                i <= self.cond_sems@.len(),
                waited == sum_counts(self.cond_counts@.take(i as int)),
            decreases self.cond_sems@.len() - i,
        {
            proof {
                lemma_sum_nonneg(self.cond_counts@.take(i as int));
                lemma_sum_take_next(self.cond_counts@, i as int);
                lemma_sum_take_le(self.cond_counts@, i as int + 1);
                lemma_sum_nonneg(self.cond_counts@);
            }
            let sem_count = self.cond_sems[i].waited_queue.len();
            waited = waited + (sem_count as isize);
            i = i + 1;
        }
        proof {
            lemma_sum_take_all(self.cond_counts@);
            lemma_sum_nonneg(self.cond_counts@);
        }
        // plus those parked on urgent and those waiting at entry
        let ul = self.urgent.waited_queue.len();
        let el = self.entry.waited_queue.len();
        waited = waited + (ul as isize);
        waited = waited + (el as isize);
        if waited == self.thread_count {
            proof {
                // the whole population is queued: nobody holds the region,
                // so in particular the entry queue must be empty
                assert(self.active@ is None);
                assert(self.entry.value == 1);
                assert(self.entry.waited_queue@.len() == 0);
            }
            let ghost pre_sched = *sched;
            let ghost pre_mon = *old(self);
            // terminate the threads waiting on each condition
            let mut j: usize = 0;
            while j < self.cond_sems.len()
                invariant
                    sched.wf(),
                    pre_mon == *old(self),
                    pre_mon.wf(),
                    j <= pre_mon.cond_sems@.len(),
                    self.cond_sems@.len() == pre_mon.cond_sems@.len(),
                    self.cond_counts@.len() == pre_mon.cond_counts@.len(),
                    self.entry == pre_mon.entry,
                    self.urgent == pre_mon.urgent,
                    self.urgent_count == pre_mon.urgent_count,
                    self.thread_count == pre_mon.thread_count,
                    self.active == pre_mon.active,
                    // conditions not yet reached are untouched
                    forall|jj: int|
                        j <= jj < pre_mon.cond_sems@.len()
                            ==> self.cond_sems@[jj] == (#[trigger] pre_mon.cond_sems@[jj])
                                && self.cond_counts@[jj] == pre_mon.cond_counts@[jj],
                    // conditions already drained are empty and reset
                    forall|jj: int|
                        0 <= jj < j
                            ==> (#[trigger] self.cond_sems@[jj]).waited_queue@.len() == 0
                                && self.cond_sems@[jj].value == 0
                                && self.cond_sems@[jj].wf()
                                && self.cond_counts@[jj] == 0,
                    // their former waiters are terminated
                    forall|jj: int, k: int|
                        0 <= jj < j && 0 <= k < pre_mon.cond_sems@[jj].waited_queue@.len()
                            ==> terminated_from(
                                pre_sched,
                                *sched,
                                (#[trigger] pre_mon.cond_sems@[jj].waited_queue@[k]),
                            ),
                    // everything else in the scheduler is untouched
                    sched.threads@.len() == pre_sched.threads@.len(),
                    forall|i2: int|
                        0 <= i2 < pre_sched.threads@.len()
                            && !pre_mon.in_cond_prefix(j as int, i2 as usize)
                            ==> sched.threads@[i2] == #[trigger] pre_sched.threads@[i2],
                    sched.ready == pre_sched.ready,
                    sched.timers == pre_sched.timers,
                    sched.current == pre_sched.current,
                    sched.time_ms == pre_sched.time_ms,
                    forall|x: usize|
                        !pre_mon.in_cond_prefix(j as int, x)
                            ==> sched.tid_alloc.allocated(x)
                                == pre_sched.tid_alloc.allocated(x),
                    // queues still to drain are intact and well parked
                    forall|jj: int|
                        j <= jj < pre_mon.cond_sems@.len()
                            ==> sched.queue_ok(
                                (#[trigger] pre_mon.cond_sems@[jj]).waited_queue@,
                                WaitLoc::MonCond { mon_id: mid, res_id: jj as usize },
                            ),
                    sched.queue_ok(pre_mon.urgent.waited_queue@, WaitLoc::MonUrgent(mid)),
                    sched.queue_ok(pre_mon.entry.waited_queue@, WaitLoc::MonEntry(mid)),
                    // and how all queues looked before any termination
                    forall|jj: int|
                        0 <= jj < pre_mon.cond_sems@.len()
                            ==> pre_sched.queue_ok(
                                (#[trigger] pre_mon.cond_sems@[jj]).waited_queue@,
                                WaitLoc::MonCond { mon_id: mid, res_id: jj as usize },
                            ),
                    pre_sched.queue_ok(pre_mon.urgent.waited_queue@, WaitLoc::MonUrgent(mid)),
                    pre_sched.wf(),
                decreases pre_mon.cond_sems@.len() - j,
            {
                let ghost sched_before = *sched;
                proof {
                    assert(self.cond_sems@[j as int] == pre_mon.cond_sems@[j as int]);
                    assert(sched.queue_ok(
                        pre_mon.cond_sems@[j as int].waited_queue@,
                        WaitLoc::MonCond { mon_id: mid, res_id: j },
                    ));
                }
                let cs = &mut self.cond_sems[j];
                drain_queue(
                    sched,
                    &mut cs.waited_queue,
                    Ghost(WaitLoc::MonCond { mon_id: mid, res_id: j }),
                );
                cs.value = 0;
                proof {
                    cs.hist_blocked@ = cs.hist_woken@;
                }
                self.cond_counts.set(j, 0);
                j = j + 1;
                proof {
                    assert forall|jj: int| j <= jj < pre_mon.cond_sems@.len()
                        implies self.cond_sems@[jj] == (#[trigger] pre_mon.cond_sems@[jj])
                            && self.cond_counts@[jj] == pre_mon.cond_counts@[jj] by {
                        assert(jj != j - 1);
                    }
                    let qj = pre_mon.cond_sems@[j - 1].waited_queue@;
                    // a thread of another queue is parked elsewhere, so it
                    // was not in the queue just drained
                    assert forall|i2: int|
                        0 <= i2 < pre_sched.threads@.len()
                            && !pre_mon.in_cond_prefix(j as int, i2 as usize)
                            implies sched.threads@[i2]
                                == #[trigger] pre_sched.threads@[i2] by {
                        assert(!qj.contains(i2 as usize));
                        assert(sched_before.threads@[i2] == pre_sched.threads@[i2]);
                    }
                    assert forall|jj: int, k: int|
                        0 <= jj < j && 0 <= k < pre_mon.cond_sems@[jj].waited_queue@.len()
                            implies terminated_from(
                                pre_sched,
                                *sched,
                                (#[trigger] pre_mon.cond_sems@[jj].waited_queue@[k]),
                            ) by {
                        let t = pre_mon.cond_sems@[jj].waited_queue@[k];
                        assert(pre_sched.parked(t, WaitLoc::MonCond {
                            mon_id: mid,
                            res_id: jj as usize,
                        }));
                        if jj < j - 1 {
                            // killed earlier; the latest drain left it alone
                            assert(!qj.contains(t)) by {
                                if qj.contains(t) {
                                    let k2 = choose|k2: int|
                                        0 <= k2 < qj.len() && qj[k2] == t;
                                    assert(sched_before.parked(qj[k2], WaitLoc::MonCond {
                                        mon_id: mid,
                                        res_id: (j - 1) as usize,
                                    }));
                                    assert(terminated_from(pre_sched, sched_before, t));
                                }
                            }
                            assert(sched.threads@[t as int] == sched_before.threads@[t as int]);
                        } else {
                            // killed by the latest drain, untouched before it
                            assert(qj.contains(qj[k]));
                            assert(!pre_mon.in_cond_prefix(jj, t));
                            assert(sched_before.threads@[t as int]
                                == pre_sched.threads@[t as int]);
                        }
                    }
                    assert forall|x: usize|
                        !pre_mon.in_cond_prefix(j as int, x)
                            implies sched.tid_alloc.allocated(x)
                                == pre_sched.tid_alloc.allocated(x) by {
                        assert(!qj.contains(x));
                    }
                    // later queues hold other threads: their slots stand
                    assert forall|jj: int|
                        j <= jj < pre_mon.cond_sems@.len()
                            implies sched.queue_ok(
                                (#[trigger] pre_mon.cond_sems@[jj]).waited_queue@,
                                WaitLoc::MonCond { mon_id: mid, res_id: jj as usize },
                            ) by {
                        let q2 = pre_mon.cond_sems@[jj].waited_queue@;
                        assert forall|k: int| 0 <= k < q2.len()
                            implies sched.parked(#[trigger] q2[k], WaitLoc::MonCond {
                                mon_id: mid,
                                res_id: jj as usize,
                            }) by {
                            let t = q2[k];
                            assert(sched_before.parked(t, WaitLoc::MonCond {
                                mon_id: mid,
                                res_id: jj as usize,
                            }));
                            assert(!qj.contains(t)) by {
                                if qj.contains(t) {
                                    let k2 = choose|k2: int|
                                        0 <= k2 < qj.len() && qj[k2] == t;
                                    assert(sched_before.parked(qj[k2], WaitLoc::MonCond {
                                        mon_id: mid,
                                        res_id: (j - 1) as usize,
                                    }));
                                }
                            }
                            assert(sched.threads@[t as int]
                                == sched_before.threads@[t as int]);
                        }
                    }
                    assert forall|k: int| 0 <= k < pre_mon.urgent.waited_queue@.len()
                        implies sched.parked(
                            #[trigger] pre_mon.urgent.waited_queue@[k],
                            WaitLoc::MonUrgent(mid),
                        ) by {
                        let t = pre_mon.urgent.waited_queue@[k];
                        assert(sched_before.parked(t, WaitLoc::MonUrgent(mid)));
                        assert(!qj.contains(t)) by {
                            if qj.contains(t) {
                                let k2 = choose|k2: int| 0 <= k2 < qj.len() && qj[k2] == t;
                                assert(sched_before.parked(qj[k2], WaitLoc::MonCond {
                                    mon_id: mid,
                                    res_id: (j - 1) as usize,
                                }));
                            }
                        }
                        assert(sched.threads@[t as int] == sched_before.threads@[t as int]);
                    }
                }
            }
            // terminate the parked signallers
            let ghost sched_before_urgent = *sched;
            drain_queue(sched, &mut self.urgent.waited_queue, Ghost(WaitLoc::MonUrgent(mid)));
            self.urgent.value = 0;
            proof {
                self.urgent.hist_blocked@ = self.urgent.hist_woken@;
            }
            self.urgent_count = 0;
            // the entry queue was shown empty above; nothing to terminate
            self.thread_count = 0;
            proof {
                let uq = pre_mon.urgent.waited_queue@;
                assert forall|jj: int, k: int|
                    0 <= jj < pre_mon.cond_sems@.len()
                        && 0 <= k < pre_mon.cond_sems@[jj].waited_queue@.len()
                        implies terminated_from(
                            pre_sched,
                            *sched,
                            (#[trigger] pre_mon.cond_sems@[jj].waited_queue@[k]),
                        ) by {
                    let t = pre_mon.cond_sems@[jj].waited_queue@[k];
                    assert(pre_sched.parked(t, WaitLoc::MonCond {
                        mon_id: mid,
                        res_id: jj as usize,
                    }));
                    assert(!uq.contains(t)) by {
                        if uq.contains(t) {
                            let k2 = choose|k2: int| 0 <= k2 < uq.len() && uq[k2] == t;
                            assert(sched_before_urgent.parked(uq[k2], WaitLoc::MonUrgent(mid)));
                            assert(terminated_from(pre_sched, sched_before_urgent, t));
                        }
                    }
                    assert(sched.threads@[t as int]
                        == sched_before_urgent.threads@[t as int]);
                }
                assert forall|k: int| 0 <= k < uq.len()
                    implies terminated_from(pre_sched, *sched, #[trigger] uq[k]) by {
                    let t = uq[k];
                    assert(uq.contains(uq[k]));
                    assert(pre_sched.parked(t, WaitLoc::MonUrgent(mid)));
                    assert(!pre_mon.in_cond_prefix(pre_mon.cond_sems@.len() as int, t));
                    assert(sched_before_urgent.threads@[t as int]
                        == pre_sched.threads@[t as int]);
                }
                // the audit left every counter at zero
                assert forall|jj: int| 0 <= jj < self.cond_counts@.len()
                    implies self.cond_counts@[jj] == 0 by {
                    assert(self.cond_sems@[jj].waited_queue@.len() == 0);
                }
                lemma_sum_zero(self.cond_counts@);
                // the drains only touched threads of this monitor's queues
                assert forall|i2: int|
                    0 <= i2 < old(sched).threads@.len()
                        && !pre_mon.in_waiter_queues(i2 as usize)
                        implies sched.threads@[i2] == #[trigger] old(sched).threads@[i2] by {
                    assert(!pre_mon.in_cond_prefix(
                        pre_mon.cond_sems@.len() as int,
                        i2 as usize,
                    ));
                    assert(sched_before_urgent.threads@[i2] == pre_sched.threads@[i2]);
                    assert(!pre_mon.urgent.waited_queue@.contains(i2 as usize));
                }
                assert forall|x: usize| !pre_mon.in_waiter_queues(x)
                    implies sched.tid_alloc.allocated(x)
                        == old(sched).tid_alloc.allocated(x) by {
                    assert(!pre_mon.in_cond_prefix(pre_mon.cond_sems@.len() as int, x));
                    assert(!pre_mon.urgent.waited_queue@.contains(x));
                }
            }
            1
        } else {
            0
        }
    }
}

/// Terminate every thread in one waiter queue, oldest first, without
/// waking any: each gets exit code -1 and loses its user resource.  Leaves
/// everything else in the scheduler untouched.
fn drain_queue(sched: &mut Sched, q: &mut Vec<usize>, Ghost(l): Ghost<WaitLoc>)
    requires
        old(sched).wf(),
        old(sched).queue_ok(old(q)@, l),
        !(l is Timer),
    ensures
        final(sched).wf(),
        final(q)@.len() == 0,
        final(sched).threads@.len() == old(sched).threads@.len(),
        forall|k: int|
            0 <= k < old(q)@.len()
                ==> final(sched).thread_of(#[trigger] old(q)@[k]) == (ThreadControlBlock {
                    exit_code: Some(-1i32),
                    res: None,
                    loc: Ghost(None),
                    ..old(sched).thread_of(old(q)@[k])
                }),
        forall|i: int|
            0 <= i < old(sched).threads@.len() && !old(q)@.contains(i as usize)
                ==> final(sched).threads@[i] == #[trigger] old(sched).threads@[i],
        final(sched).ready == old(sched).ready,
        final(sched).timers == old(sched).timers,
        final(sched).current == old(sched).current,
        final(sched).time_ms == old(sched).time_ms,
        forall|x: usize|
            !old(q)@.contains(x)
                ==> final(sched).tid_alloc.allocated(x) == old(sched).tid_alloc.allocated(x),
        final(sched).tid_alloc.horizon() == old(sched).tid_alloc.horizon(),
{
    let ghost q0 = old(q)@;
    let mut n: usize = 0;
    proof {
        assert(old(q).len() == q0.len());
    }
    while q.len() > 0
        invariant
            sched.wf(),
            q0.len() <= usize::MAX,
            n + q@.len() == q0.len(),
            q@ == q0.skip(n as int),
            sched.queue_ok(q@, l),
            old(sched).queue_ok(q0, l),
            !(l is Timer),
            sched.threads@.len() == old(sched).threads@.len(),
            forall|k: int|
                0 <= k < n
                    ==> sched.thread_of(#[trigger] q0[k]) == (ThreadControlBlock {
                        exit_code: Some(-1i32),
                        res: None,
                        loc: Ghost(None),
                        ..old(sched).thread_of(q0[k])
                    }),
            forall|i: int|
                0 <= i < old(sched).threads@.len()
                    && (forall|k: int| 0 <= k < n ==> q0[k] != i)
                    ==> sched.threads@[i] == #[trigger] old(sched).threads@[i],
            sched.ready == old(sched).ready,
            sched.timers == old(sched).timers,
            sched.current == old(sched).current,
            sched.time_ms == old(sched).time_ms,
            forall|x: usize|
                (forall|k: int| 0 <= k < n ==> q0[k] != x)
                    ==> sched.tid_alloc.allocated(x) == old(sched).tid_alloc.allocated(x),
            sched.tid_alloc.horizon() == old(sched).tid_alloc.horizon(),
        decreases q@.len(),
    {
        proof {
            assert(n < q0.len());
        }
        let w = q.remove(0);
        proof {
            assert(w == q0[n as int]);
            assert(q@ =~= q0.skip(n as int + 1));
        }
        let ghost mid_sched = *sched;
        sched.kill_thread(w, Ghost(l));
        n = n + 1;
        proof {
            // the rest of the queue is other threads, still parked
            assert forall|k: int| 0 <= k < q@.len()
                implies sched.parked(#[trigger] q@[k], l) by {
                assert(q@[k] == q0[n + k]);
                assert(q0[n - 1] != q0[n + k]);
                assert(mid_sched.parked(q@[k], l));
            }
            assert forall|i: int|
                0 <= i < old(sched).threads@.len()
                    && (forall|k: int| 0 <= k < n ==> q0[k] != i)
                    implies sched.threads@[i] == #[trigger] old(sched).threads@[i] by {
                assert(q0[n - 1] != i);
                assert(mid_sched.threads@[i] == old(sched).threads@[i]);
            }
            assert forall|k: int| 0 <= k < n
                implies sched.thread_of(#[trigger] q0[k]) == (ThreadControlBlock {
                    exit_code: Some(-1i32),
                    res: None,
                    loc: Ghost(None),
                    ..old(sched).thread_of(q0[k])
                }) by {
                assert(old(sched).parked(q0[k], l));
                if k < n - 1 {
                    assert(q0[k] != q0[n - 1]);
                    assert(sched.threads@[q0[k] as int] == mid_sched.threads@[q0[k] as int]);
                } else {
                    // the thread just killed was untouched before this step
                    assert(mid_sched.threads@[q0[k] as int]
                        == old(sched).threads@[q0[k] as int]);
                }
            }
        }
    }
    proof {
        assert forall|k: int| 0 <= k < q0.len()
            implies sched.thread_of(#[trigger] q0[k]) == (ThreadControlBlock {
                exit_code: Some(-1i32),
                res: None,
                loc: Ghost(None),
                ..old(sched).thread_of(q0[k])
            }) by {
            assert(n == q0.len());
        }
        assert forall|i: int|
            0 <= i < old(sched).threads@.len() && !q0.contains(i as usize)
            implies sched.threads@[i] == #[trigger] old(sched).threads@[i] by {
            assert forall|k: int| 0 <= k < n implies q0[k] != i by {
                assert(q0.contains(q0[k]));
            }
        }
        assert forall|x: usize| !q0.contains(x)
            implies sched.tid_alloc.allocated(x) == old(sched).tid_alloc.allocated(x) by {
            assert forall|k: int| 0 <= k < n implies q0[k] != x by {
                assert(q0.contains(q0[k]));
            }
        }
    }
}

} // verus!
