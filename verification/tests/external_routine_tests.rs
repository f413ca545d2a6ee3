use routines::external_routine::{ExternalRoutine, EXTERNAL_CONTEXT_ID};
use routines::future::FutureData;
use routines::routine::RoutineState;
use routines::scheduler::{wait, DispatchOutcome, Scheduler, WorkerAction};

#[test]
fn new_external_routine_runs_off_any_context() {
    let r = ExternalRoutine::new(9);
    assert_eq!(r.id(), 9);
    assert_eq!(r.state(), RoutineState::Running);
    assert_eq!(r.context_id(), EXTERNAL_CONTEXT_ID);
}

#[test]
fn park_then_resume_wakes_the_host_thread() {
    let mut r = ExternalRoutine::new(1);
    r.pending_suspend();
    // the park completes: the host thread is about to wait
    let proceed = r.suspend_begin();
    assert!(!proceed);
    assert!(r.still_suspended());
    // the resume finds it parked, sets it running and signals
    let notify = r.resume();
    assert!(notify);
    assert!(!r.still_suspended());
    assert_eq!(r.state(), RoutineState::Running);
}

#[test]
fn resume_before_park_is_latched() {
    let mut r = ExternalRoutine::new(1);
    r.pending_suspend();
    // the resume lands while the park is only announced
    let notify = r.resume();
    assert!(!notify);
    assert_eq!(r.state(), RoutineState::PendingSuspend);
    // the park then consumes the latch and never waits
    let proceed = r.suspend_begin();
    assert!(proceed);
    assert_eq!(r.state(), RoutineState::Running);
}

#[test]
fn finish_resolves_registered_wait_promises() {
    let mut r = ExternalRoutine::new(1);
    r.wait(4);
    r.wait(5);
    let promises = r.finish();
    assert_eq!(promises, vec![4, 5]);
    assert_eq!(r.state(), RoutineState::Complete);
}

#[test]
fn external_wait_wakes_when_the_routine_completes() {
    // the initiating host thread, never entered via spawn, waits for a
    // spawned routine that defers a while and then terminates
    let mut sched = Scheduler::new(1);
    let mut host = ExternalRoutine::new(1000);
    let target = sched.spawn(0);
    let mut cell: FutureData<(), ()> = FutureData::new();
    let promise_id = 50;
    assert!(wait(&mut sched, host.id(), target, promise_id));
    // the host thread parks on the linked future
    cell.park_external(&mut host);
    let proceed = host.suspend_begin();
    assert!(!proceed);
    assert!(host.still_suspended());
    // the routine defers a few quanta, then returns
    for _ in 0..3 {
        match sched.worker_poll(0) {
            WorkerAction::Run(id) => {
                assert_eq!(id, target);
                sched.advance(id);
            }
            other => panic!("expected the routine to be ready, worker was told {:?}", other),
        }
        match sched.dispatch(target) {
            DispatchOutcome::Requeued(_) => {}
            other => panic!("expected a requeue, worker was told {:?}", other),
        }
        // the host thread is still parked: its wait loop keeps waiting
        assert!(host.still_suspended());
    }
    match sched.worker_poll(0) {
        WorkerAction::Run(id) => {
            assert_eq!(id, target);
            sched.advance(id);
        }
        other => panic!("expected the routine to be ready, worker was told {:?}", other),
    }
    sched.complete(target);
    let promises = match sched.dispatch(target) {
        DispatchOutcome::Destroyed(promises) => promises,
        other => panic!("expected destruction, worker was told {:?}", other),
    };
    assert_eq!(promises, vec![promise_id]);
    // resolving the promise wakes exactly the parked host thread
    let woken = cell.resolve(());
    assert_eq!(woken, vec![host.id()]);
    let notify = host.resume();
    assert!(notify);
    assert!(!host.still_suspended());
    assert_eq!(cell.result(), Ok(()));
}
