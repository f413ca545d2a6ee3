//! The routine abstraction: a cooperatively-scheduled unit of execution.
//!
//! A routine moves through the states of [`RoutineState`] along the
//! transitions of [`valid_transition`]; `Complete` is absorbing. The
//! two-phase suspend (`PendingSuspend`, then `Suspended`) exists because a
//! routine must publish "I am about to park" while the lock over the awaited
//! condition is still held, yet must drop that lock before yielding its
//! stack; a racing resumer that takes the same lock sees the intent and
//! latches a *pending resume* that undoes the eventual park.

use vstd::prelude::*;

verus! {

/// The lifecycle states of a routine.
///
/// `Pending` is created-but-never-resumed; `PendingSuspend` is the window
/// between a routine deciding to park and its worker observing that
/// decision; `Suspended` is parked.
#[derive(Clone, Copy, Debug, PartialEq, Eq, Structural)]
pub enum RoutineState {
    Pending,
    Running,
    PendingSuspend,
    Suspended,
    Complete,
}

/// The transition relation of the routine state machine.
///
/// Staying in place is always allowed; otherwise a routine is first resumed
/// (`Pending -> Running`), may announce a park (`Running -> PendingSuspend`)
/// which its worker then observes (`PendingSuspend -> Suspended`), is woken
/// and rerun (`Suspended -> Running`), and finally returns
/// (`Running -> Complete`). No transition leaves `Complete`.
pub open spec fn valid_transition(pre: RoutineState, post: RoutineState) -> bool {
    pre == post || match pre {
        RoutineState::Pending => post == RoutineState::Running,
        RoutineState::Running => post == RoutineState::PendingSuspend
            || post == RoutineState::Complete,
        RoutineState::PendingSuspend => post == RoutineState::Suspended,
        RoutineState::Suspended => post == RoutineState::Running,
        RoutineState::Complete => false,
    }
}

/// Law: `Complete` is absorbing — no valid transition leaves it.
pub proof fn lemma_complete_absorbing(pre: RoutineState, post: RoutineState)
    requires
        valid_transition(pre, post),
        pre == RoutineState::Complete,
    ensures
        post == RoutineState::Complete,
{
}

/// The record a scheduler keeps per scheduled routine: its identity, its
/// fixed worker affinity, its lifecycle state, the latched pending-resume
/// signal, and the completion promises registered by waiters.
///
/// The execution stack that the record stands for is owned by the
/// unverified shell and keyed by `id`.
pub struct Routine {
    /// Identifier, unique process-wide, drawn from a monotonic counter.
    pub id: u64,
    /// Index of the worker this routine is pinned to; fixed at construction.
    pub context_id: usize,
    /// Current lifecycle state.
    pub state: RoutineState,
    /// Latched signal that a resume raced in before the park completed.
    pub is_pending_resume: bool,
    /// Identifiers of the promises to resolve when this routine terminates.
    pub wait_promises: Vec<u64>,
}

impl Routine {
    /// A freshly spawned routine: not yet resumed, no latched resume, no
    /// registered waiters.
    pub fn new(id: u64, context_id: usize) -> (r: Routine)
        ensures
            r.id == id,
            r.context_id == context_id,
            r.state == RoutineState::Pending,
            !r.is_pending_resume,
            r.wait_promises@ == Seq::<u64>::empty(),
    {
        Routine {
            id,
            context_id,
            state: RoutineState::Pending,
            is_pending_resume: false,
            wait_promises: Vec::new(),
        }
    }

    pub fn id(&self) -> (r: u64)
        ensures
            r == self.id,
    {
        self.id
    }

    pub fn context_id(&self) -> (r: usize)
        ensures
            r == self.context_id,
    {
        self.context_id
    }

    pub fn state(&self) -> (r: RoutineState)
        ensures
            r == self.state,
    {
        self.state
    }

    pub fn is_pending_resume(&self) -> (r: bool)
        ensures
            r == self.is_pending_resume,
    {
        self.is_pending_resume
    }

    pub fn set_pending_resume(&mut self, is_pending_resume: bool)
        ensures
            *final(self) == (Routine { is_pending_resume, ..*old(self) }),
    {
        self.is_pending_resume = is_pending_resume;
    }

    /// Record a completion promise: it is resolved when this routine
    /// terminates.
    pub fn wait(&mut self, promise_id: u64)
        ensures
            *final(self) == (Routine {
                wait_promises: final(self).wait_promises,
                ..*old(self)
            }),
            final(self).wait_promises@ == old(self).wait_promises@.push(promise_id),
    {
        self.wait_promises.push(promise_id);
    }

    /// Write a new lifecycle state, which must follow the state machine.
    pub fn set_state(&mut self, state: RoutineState)
        requires
            valid_transition(old(self).state, state),
        ensures
            *final(self) == (Routine { state, ..*old(self) }),
    {
        self.state = state;
    }

    /// Announce the intent to park. The caller publishes the routine on a
    /// waiter queue under the same lock, before the stack is yielded.
    pub fn pending_suspend(&mut self)
        requires
            old(self).state == RoutineState::Running,
        ensures
            *final(self) == (Routine { state: RoutineState::PendingSuspend, ..*old(self) }),
    {
        self.set_state(RoutineState::PendingSuspend);
    }

    /// Begin one quantum: the worker installs the routine as current,
    /// consumes any latched resume and runs it. The stack switch itself is
    /// the shell's; this is the state it observes.
    pub fn advance(&mut self)
        requires
            old(self).state != RoutineState::Complete,
            old(self).state != RoutineState::PendingSuspend,
        ensures
            *final(self) == (Routine {
                state: RoutineState::Running,
                is_pending_resume: false,
                ..*old(self)
            }),
            valid_transition(old(self).state, final(self).state),
    {
        self.is_pending_resume = false;
        self.set_state(RoutineState::Running);
    }

    /// The routine's body returned: its terminal transition.
    pub fn complete(&mut self)
        requires
            old(self).state == RoutineState::Running,
        ensures
            *final(self) == (Routine { state: RoutineState::Complete, ..*old(self) }),
    {
        self.set_state(RoutineState::Complete);
    }

    /// Drain the completion promises so the caller can resolve each one;
    /// done once, when the routine terminates.
    pub fn take_wait_promises(&mut self) -> (r: Vec<u64>)
        ensures
            r@ == old(self).wait_promises@,
            *final(self) == (Routine { wait_promises: final(self).wait_promises, ..*old(self) }),
            final(self).wait_promises@ == Seq::<u64>::empty(),
    {
        let mut drained: Vec<u64> = Vec::new();
        core::mem::swap(&mut drained, &mut self.wait_promises);
        drained
    }
}

} // verus!
