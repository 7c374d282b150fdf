//! Synchronization core of a uniprocessor teaching kernel.
//!
//! The crate models the in-kernel primitives that let the threads of one
//! process coordinate: a mutex, a counting semaphore, and a Hoare-style
//! monitor with condition variables, together with the scheduler fragments
//! they depend on (a FIFO ready queue, block/wake on threads, a sleep
//! timer) and the per-process primitive tables behind the syscall surface.
//!
//! The kernel is single-processor and cooperative: exactly one thread runs
//! kernel code at a time, and control changes hands only at explicit
//! suspension points.  The whole core is therefore a sequential state
//! machine, held in a [`kernel::Kernel`] value; every operation is a
//! verified function from one kernel state to the next, and the classic
//! guarantees — mutual exclusion, semaphore counting, FIFO wakeup, Hoare
//! hand-off, soundness of the liveness audit — are stated in the
//! operations' contracts and in the theorems of [`laws`].

pub mod cell;
pub mod kernel;
pub mod laws;
pub mod monitor;
pub mod mutex;
pub mod recycle;
pub mod sched;
pub mod semaphore;
pub mod seq_facts;
pub mod tcb;
pub mod user;
