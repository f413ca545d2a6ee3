//! The suspended-routine queue: the FIFO of parked waiters that futures —
//! and any other condition-like object — park routines on and later drain.
//!
//! The park side runs under the lock that protects the awaited condition:
//! it publishes the waiter on the queue and announces the park in one
//! critical section, so a concurrent resolver either sees the waiter (and
//! will wake it) or has not yet resumed anything (and the park proceeds
//! cleanly). The shell then drops that lock and yields the stack — strictly
//! in that order.

use vstd::prelude::*;

use crate::external_routine::ExternalRoutine;
use crate::routine::RoutineState;
use crate::scheduler::Scheduler;

verus! {

/// Park the current scheduled routine on `suspended_routines`: publish its
/// id at the back of the queue and announce the park to the scheduler. The
/// shell must drop the queue's lock and yield the stack afterwards.
pub fn suspend(suspended_routines: &mut Vec<u64>, scheduler: &mut Scheduler, current_id: u64)
    requires
        old(scheduler).wf(),
        old(scheduler).registered(current_id),
        old(scheduler).not_queued(current_id),
        old(scheduler).routine_of(current_id).state == RoutineState::Running,
    ensures
        final(suspended_routines)@ == old(suspended_routines)@.push(current_id),
        final(scheduler).wf(),
        final(scheduler).registered(current_id),
        final(scheduler).not_queued(current_id),
        final(scheduler).contexts == old(scheduler).contexts,
        final(scheduler).next_id == old(scheduler).next_id,
        final(scheduler).routine_of(current_id) == (crate::routine::Routine {
            state: RoutineState::PendingSuspend,
            ..old(scheduler).routine_of(current_id)
        }),
        forall|id2: u64|
            old(scheduler).registered(id2) && id2 != current_id
                ==> #[trigger] final(scheduler).routine_of(id2) == old(scheduler).routine_of(id2)
                    && final(scheduler).registered(id2),
{
    scheduler.pending_suspend(current_id);
    suspended_routines.push(current_id);
}

/// Park the calling host thread's external routine on `suspended_routines`:
/// the same protocol, with the park announced on the adapter instead of the
/// scheduler. The shell must drop the queue's lock before it begins the
/// condition-variable wait.
pub fn suspend_external(suspended_routines: &mut Vec<u64>, routine: &mut ExternalRoutine)
    requires
        old(routine).state == RoutineState::Running,
    ensures
        final(suspended_routines)@ == old(suspended_routines)@.push(old(routine).id),
        *final(routine) == (ExternalRoutine {
            state: RoutineState::PendingSuspend,
            ..*old(routine)
        }),
{
    routine.pending_suspend();
    suspended_routines.push(routine.id());
}

/// Drain the queue and hand every parked id back, in park (FIFO) order, for
/// the caller to resume each one.
pub fn resume(suspended_routines: &mut Vec<u64>) -> (woken: Vec<u64>)
    ensures
        woken@ == old(suspended_routines)@,
        final(suspended_routines)@ == Seq::<u64>::empty(),
{
    let mut woken: Vec<u64> = Vec::new();
    core::mem::swap(&mut woken, suspended_routines);
    woken
}

} // verus!
