use routines::routine::{Routine, RoutineState};

#[test]
fn new_routine_is_pending() {
    let r = Routine::new(7, 3);
    assert_eq!(r.id(), 7);
    assert_eq!(r.context_id(), 3);
    assert_eq!(r.state(), RoutineState::Pending);
    assert!(!r.is_pending_resume());
}

#[test]
fn advance_runs_and_clears_latch() {
    let mut r = Routine::new(1, 0);
    r.set_pending_resume(true);
    r.advance();
    assert_eq!(r.state(), RoutineState::Running);
    assert!(!r.is_pending_resume());
}

#[test]
fn full_lifecycle_transitions() {
    let mut r = Routine::new(1, 0);
    assert_eq!(r.state(), RoutineState::Pending);
    r.advance();
    assert_eq!(r.state(), RoutineState::Running);
    r.pending_suspend();
    assert_eq!(r.state(), RoutineState::PendingSuspend);
    r.set_state(RoutineState::Suspended);
    assert_eq!(r.state(), RoutineState::Suspended);
    r.advance();
    assert_eq!(r.state(), RoutineState::Running);
    r.complete();
    assert_eq!(r.state(), RoutineState::Complete);
}

#[test]
fn wait_promises_accumulate_and_drain_in_order() {
    let mut r = Routine::new(1, 0);
    r.wait(10);
    r.wait(11);
    r.wait(12);
    let drained = r.take_wait_promises();
    assert_eq!(drained, vec![10, 11, 12]);
    let empty = r.take_wait_promises();
    assert!(empty.is_empty());
}
