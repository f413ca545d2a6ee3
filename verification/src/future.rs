//! The one-shot future/promise cell: a shared result slot that transitions
//! exactly once from `Pending` to a terminal state and wakes every waiter
//! parked on it.
//!
//! In the running system the cell sits behind a reference-counted mutex,
//! with the reader half (`result`) and the writer half (`resolve`/`reject`)
//! held by different routines; the shell owns that sharing and locking.
//! What is verified here is everything that happens under the cell's lock.

use vstd::prelude::*;

use crate::external_routine::ExternalRoutine;
use crate::routine::RoutineState;
use crate::scheduler::Scheduler;
use crate::suspended_routine_queue;

verus! {

/// The lifecycle of a future cell: `Pending` until the promise half
/// resolves (`Complete`) or rejects (`Fail`) it, exactly once.
#[derive(Clone, Copy, Debug, PartialEq, Eq, Structural)]
pub enum FutureState {
    Pending,
    Complete,
    Fail,
}

/// The shared cell both halves point at: the state, the queue of waiters
/// parked on `result`, and the result slot.
pub struct FutureData<T, E> {
    /// Terminal exactly once.
    pub state: FutureState,
    /// Ids of the routines parked on this cell, in park (FIFO) order.
    pub suspended_routines: Vec<u64>,
    /// `None` exactly while `Pending`; `Ok` under `Complete`, `Err` under
    /// `Fail`.
    pub result: Option<Result<T, E>>,
}

impl<T, E> FutureData<T, E> {
    /// The cell's invariant: the result slot is empty exactly while the
    /// cell is pending, a terminal state matches the result it carries, and
    /// a terminal cell holds no waiters. Once terminal, the cell is mutated
    /// by nothing: the only remaining step is the one-time move of the
    /// result out of a consumed future.
    pub open spec fn wf(self) -> bool {
        &&& (self.state == FutureState::Pending <==> self.result is None)
        &&& (self.state == FutureState::Complete ==> self.result matches Some(Ok(_)))
        &&& (self.state == FutureState::Fail ==> self.result matches Some(Err(_)))
        &&& (self.state != FutureState::Pending ==> self.suspended_routines@.len() == 0)
    }

    /// A fresh cell: pending, empty result slot, no waiters.
    pub fn new() -> (r: FutureData<T, E>)
        ensures
            r.wf(),
            r.state == FutureState::Pending,
            r.result is None,
            r.suspended_routines@ == Seq::<u64>::empty(),
    {
        FutureData { state: FutureState::Pending, suspended_routines: Vec::new(), result: None }
    }

    /// The cell's one-time terminal transition: record the new state —
    /// which must match the result already written — and drain the waiter
    /// queue, handing back every parked id in park order for the caller to
    /// resume.
    pub fn set_state(&mut self, state: FutureState) -> (woken: Vec<u64>)
        requires
            old(self).state == FutureState::Pending,
            state != FutureState::Pending,
            state == FutureState::Complete ==> old(self).result matches Some(Ok(_)),
            state == FutureState::Fail ==> old(self).result matches Some(Err(_)),
            old(self).result is Some,
        ensures
            final(self).wf(),
            final(self).state == state,
            final(self).result == old(self).result,
            woken@ == old(self).suspended_routines@,
            final(self).suspended_routines@ == Seq::<u64>::empty(),
    {
        self.state = state;
        suspended_routine_queue::resume(&mut self.suspended_routines)
    }

    /// Fulfil the promise half with a value: write `Ok(value)`, go
    /// `Complete`, and hand back every parked waiter — all of them, in park
    /// order — for the caller to resume.
    pub fn resolve(&mut self, value: T) -> (woken: Vec<u64>)
        requires
            old(self).state == FutureState::Pending,
        ensures
            final(self).wf(),
            final(self).state == FutureState::Complete,
            final(self).result == Some(Result::<T, E>::Ok(value)),
            woken@ == old(self).suspended_routines@,
            final(self).suspended_routines@ == Seq::<u64>::empty(),
    {
        self.result = Some(Ok(value));
        self.set_state(FutureState::Complete)
    }

    /// Fail the promise half with an error: write `Err(error)`, go `Fail`,
    /// and hand back every parked waiter in park order.
    pub fn reject(&mut self, error: E) -> (woken: Vec<u64>)
        requires
            old(self).state == FutureState::Pending,
        ensures
            final(self).wf(),
            final(self).state == FutureState::Fail,
            final(self).result == Some(Result::<T, E>::Err(error)),
            woken@ == old(self).suspended_routines@,
            final(self).suspended_routines@ == Seq::<u64>::empty(),
    {
        self.result = Some(Err(error));
        self.set_state(FutureState::Fail)
    }

    /// The reader half's poll of the cell's state.
    pub fn state(&self) -> (r: FutureState)
        ensures
            r == self.state,
    {
        self.state
    }

    /// Park the current scheduled routine on this pending cell: what the
    /// reader half does, under the cell's lock, when it finds no result
    /// yet. The shell drops the lock and yields the stack afterwards.
    pub fn park(&mut self, scheduler: &mut Scheduler, current_id: u64)
        requires
            old(self).state == FutureState::Pending,
            old(scheduler).wf(),
            old(scheduler).registered(current_id),
            old(scheduler).not_queued(current_id),
            old(scheduler).routine_of(current_id).state == RoutineState::Running,
        ensures
            final(self).state == old(self).state,
            final(self).result == old(self).result,
            final(self).suspended_routines@ == old(self).suspended_routines@.push(current_id),
            old(self).wf() ==> final(self).wf(),
            final(scheduler).wf(),
            final(scheduler).registered(current_id),
            final(scheduler).not_queued(current_id),
            final(scheduler).contexts == old(scheduler).contexts,
            final(scheduler).routine_of(current_id) == (crate::routine::Routine {
                state: RoutineState::PendingSuspend,
                ..old(scheduler).routine_of(current_id)
            }),
            forall|id2: u64|
                old(scheduler).registered(id2) && id2 != current_id
                    ==> #[trigger] final(scheduler).routine_of(id2) == old(scheduler).routine_of(
                    id2,
                ),
    {
        suspended_routine_queue::suspend(&mut self.suspended_routines, scheduler, current_id);
    }

    /// Park the calling host thread's external routine on this pending
    /// cell: the reader half's step when the caller is not a scheduled
    /// routine. The shell then waits on the adapter's condition variable.
    pub fn park_external(&mut self, routine: &mut ExternalRoutine)
        requires
            old(self).state == FutureState::Pending,
            old(routine).state == RoutineState::Running,
        ensures
            final(self).state == old(self).state,
            final(self).result == old(self).result,
            final(self).suspended_routines@ == old(self).suspended_routines@.push(
                old(routine).id,
            ),
            old(self).wf() ==> final(self).wf(),
            *final(routine) == (ExternalRoutine {
                state: RoutineState::PendingSuspend,
                ..*old(routine)
            }),
    {
        suspended_routine_queue::suspend_external(&mut self.suspended_routines, routine);
    }

    /// Consume a terminal cell and move its result out: the reader half's
    /// final step, done at most once because the future is consumed with
    /// it. `Complete` yields the resolved `Ok`, `Fail` the rejected `Err`.
    pub fn result(self) -> (r: Result<T, E>)
        requires
            self.wf(),
            self.state != FutureState::Pending,
        ensures
            Some(r) == self.result,
            self.state == FutureState::Complete ==> r is Ok,
            self.state == FutureState::Fail ==> r is Err,
    {
        self.result.unwrap()
    }
}

/// Law: resolving a cell with `value` and then consuming its result yields
/// exactly `Ok(value)` — for the cell `resolve` leaves behind, the move
/// `result` performs has only one possible outcome.
pub proof fn lemma_resolve_then_result<T, E>(
    resolved: FutureData<T, E>,
    value: T,
    taken: Result<T, E>,
)
    requires
        resolved.state == FutureState::Complete,
        resolved.result == Some(Result::<T, E>::Ok(value)),
        Some(taken) == resolved.result,
    ensures
        taken == Result::<T, E>::Ok(value),
{
}

/// Law: rejecting a cell with `error` and then consuming its result yields
/// exactly `Err(error)`.
pub proof fn lemma_reject_then_result<T, E>(
    rejected: FutureData<T, E>,
    error: E,
    taken: Result<T, E>,
)
    requires
        rejected.state == FutureState::Fail,
        rejected.result == Some(Result::<T, E>::Err(error)),
        Some(taken) == rejected.result,
    ensures
        taken == Result::<T, E>::Err(error),
{
}

} // verus!
