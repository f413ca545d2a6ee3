//! A cooperative, stackful-coroutine scheduler core.
//!
//! The crate verifies the decision logic of a runtime that multiplexes
//! many cooperatively-scheduled *routines* onto a fixed pool of worker
//! threads: the routine state machine, the one-shot future/promise cell
//! with its queue of parked waiters, the park/unpark race tiebreaker,
//! and the per-worker ready and suspended queues with the id registry.
//!
//! Everything that inherently escapes verification — OS threads, mutexes,
//! condition variables and the coroutine stack switches themselves — lives
//! in an unverified shell that drives these functions: it pops the next
//! decision, performs the outside action (resume a stack, signal a
//! condition variable) and reports the outcome back.

pub mod directory_entry;
pub mod external_routine;
pub mod future;
pub mod routine;
pub mod scheduler;
pub mod suspended_routine_queue;
