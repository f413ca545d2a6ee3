//! The external routine: an adapter that lets a host thread which did not
//! originate inside the runtime participate in the same waiting primitives.
//!
//! Where a scheduled routine parks by yielding its stack to a worker, an
//! external routine blocks its host thread on a condition variable. The
//! condition variable and its mutex belong to the unverified shell; what is
//! verified here is the decision logic under that lock — in particular the
//! pending-resume latch that defeats the race between a resumer and a host
//! thread that has announced its park but not yet begun to wait.

use vstd::prelude::*;

use crate::routine::{valid_transition, RoutineState};

verus! {

/// The sentinel affinity of an external routine: it is never queued on any
/// worker context.
pub const EXTERNAL_CONTEXT_ID: usize = usize::MAX;

/// The per-thread record behind a host thread that waits alongside
/// scheduled routines: its identity, lifecycle state, the pending-resume
/// latch, and the completion promises registered by waiters.
pub struct ExternalRoutine {
    /// Identifier drawn from the same process-wide counter as scheduled
    /// routines'.
    pub id: u64,
    /// Current lifecycle state.
    pub state: RoutineState,
    /// Latched signal that a resume arrived before the park finished.
    pub is_pending_resume: bool,
    /// Identifiers of the promises to resolve when the host thread is done.
    pub wait_promises: Vec<u64>,
}

/// The exact effect of [`ExternalRoutine::resume`]: a routine that has only
/// announced its park gets the latch; one that finished parking is set
/// running again, and the host thread's condition variable must be
/// signalled (`notify`).
pub open spec fn external_resume_post(
    pre: ExternalRoutine,
    post: ExternalRoutine,
    notify: bool,
) -> bool {
    if pre.state == RoutineState::PendingSuspend {
        &&& !notify
        &&& post == (ExternalRoutine { is_pending_resume: true, ..pre })
    } else {
        &&& notify
        &&& post == (ExternalRoutine { state: RoutineState::Running, ..pre })
    }
}

/// The exact effect of [`ExternalRoutine::suspend_begin`]: the routine is
/// now parked — unless the latch was set, in which case the park is undone
/// in the same critical section (`proceed`): the routine comes out running
/// and the host thread never waits.
pub open spec fn external_suspend_begin_post(
    pre: ExternalRoutine,
    post: ExternalRoutine,
    proceed: bool,
) -> bool {
    &&& proceed == pre.is_pending_resume
    &&& post == (ExternalRoutine {
        state: if proceed {
            RoutineState::Running
        } else {
            RoutineState::Suspended
        },
        is_pending_resume: false,
        ..pre
    })
}

impl ExternalRoutine {
    /// A fresh adapter for a live host thread: running, latch clear, no
    /// registered waiters.
    pub fn new(id: u64) -> (r: ExternalRoutine)
        ensures
            r.id == id,
            r.state == RoutineState::Running,
            !r.is_pending_resume,
            r.wait_promises@ == Seq::<u64>::empty(),
    {
        ExternalRoutine {
            id,
            state: RoutineState::Running,
            is_pending_resume: false,
            wait_promises: Vec::new(),
        }
    }

    pub fn id(&self) -> (r: u64)
        ensures
            r == self.id,
    {
        self.id
    }

    /// External routines have no worker: the sentinel affinity.
    pub fn context_id(&self) -> (r: usize)
        ensures
            r == EXTERNAL_CONTEXT_ID,
    {
        EXTERNAL_CONTEXT_ID
    }

    pub fn state(&self) -> (r: RoutineState)
        ensures
            r == self.state,
    {
        self.state
    }

    /// Record a completion promise: it is resolved when the host thread is
    /// done with the runtime.
    pub fn wait(&mut self, promise_id: u64)
        ensures
            *final(self) == (ExternalRoutine {
                wait_promises: final(self).wait_promises,
                ..*old(self)
            }),
            final(self).wait_promises@ == old(self).wait_promises@.push(promise_id),
    {
        self.wait_promises.push(promise_id);
    }

    /// Announce the intent to park, under the lock of the awaited
    /// condition.
    pub fn pending_suspend(&mut self)
        requires
            old(self).state == RoutineState::Running,
        ensures
            *final(self) == (ExternalRoutine {
                state: RoutineState::PendingSuspend,
                ..*old(self)
            }),
            valid_transition(old(self).state, final(self).state),
    {
        self.state = RoutineState::PendingSuspend;
    }

    /// Park, under the latch's lock: mark the routine suspended and consume
    /// a latched resume. When one was latched the park is undone on the
    /// spot — suspended for an instant, then running again (`proceed`) —
    /// and the host thread returns without waiting; otherwise it must now
    /// wait on its condition variable as long as
    /// [`ExternalRoutine::still_suspended`].
    pub fn suspend_begin(&mut self) -> (proceed: bool)
        requires
            old(self).state == RoutineState::PendingSuspend,
        ensures
            external_suspend_begin_post(*old(self), *final(self), proceed),
            valid_transition(RoutineState::PendingSuspend, RoutineState::Suspended),
            valid_transition(RoutineState::Suspended, final(self).state),
    {
        self.state = RoutineState::Suspended;
        if self.is_pending_resume {
            self.is_pending_resume = false;
            self.state = RoutineState::Running;
            true
        } else {
            false
        }
    }

    /// The condition the host thread's wait loop checks: still parked.
    pub fn still_suspended(&self) -> (r: bool)
        ensures
            r == (self.state == RoutineState::Suspended),
    {
        self.state == RoutineState::Suspended
    }

    /// Wake the host thread, under the latch's lock: latch the resume when
    /// the park has only been announced; otherwise set the routine running
    /// and tell the caller to signal the condition variable (`notify`).
    pub fn resume(&mut self) -> (notify: bool)
        requires
            old(self).state == RoutineState::Suspended || old(self).state
                == RoutineState::PendingSuspend || old(self).state == RoutineState::Running,
        ensures
            external_resume_post(*old(self), *final(self), notify),
            valid_transition(old(self).state, final(self).state),
    {
        if self.state == RoutineState::PendingSuspend {
            self.is_pending_resume = true;
            false
        } else {
            self.state = RoutineState::Running;
            true
        }
    }

    /// The host thread is done with the runtime: mark the routine complete
    /// and hand back its completion promises so the caller resolves each.
    pub fn finish(&mut self) -> (promises: Vec<u64>)
        requires
            old(self).state == RoutineState::Running,
        ensures
            final(self).state == RoutineState::Complete,
            final(self).id == old(self).id,
            final(self).is_pending_resume == old(self).is_pending_resume,
            promises@ == old(self).wait_promises@,
            final(self).wait_promises@ == Seq::<u64>::empty(),
            valid_transition(old(self).state, final(self).state),
    {
        self.state = RoutineState::Complete;
        let mut drained: Vec<u64> = Vec::new();
        core::mem::swap(&mut drained, &mut self.wait_promises);
        drained
    }
}

/// Law (no lost wakeup, resume first): the resume arrives while the park is
/// only announced, so it latches; the park then consumes the latch and the
/// host thread proceeds without ever waiting.
pub proof fn lemma_external_race_resume_first(
    pre: ExternalRoutine,
    mid: ExternalRoutine,
    post: ExternalRoutine,
    notify: bool,
    proceed: bool,
)
    requires
        pre.state == RoutineState::PendingSuspend,
        external_resume_post(pre, mid, notify),
        external_suspend_begin_post(mid, post, proceed),
    ensures
        proceed,
        post.state == RoutineState::Running,
{
}

/// Law (no lost wakeup, park first): the park completes first, so the
/// resume finds the routine suspended, sets it running and signals the
/// condition variable; the wait loop's condition is now false and the host
/// thread wakes.
pub proof fn lemma_external_race_park_first(
    pre: ExternalRoutine,
    mid: ExternalRoutine,
    post: ExternalRoutine,
    proceed: bool,
    notify: bool,
)
    requires
        pre.state == RoutineState::PendingSuspend,
        !pre.is_pending_resume,
        external_suspend_begin_post(pre, mid, proceed),
        external_resume_post(mid, post, notify),
    ensures
        !proceed,
        notify,
        post.state != RoutineState::Suspended,
{
}

} // verus!
