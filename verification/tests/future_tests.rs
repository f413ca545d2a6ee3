use routines::external_routine::ExternalRoutine;
use routines::future::{FutureData, FutureState};
use routines::routine::RoutineState;
use routines::scheduler::Scheduler;

#[test]
fn new_cell_is_pending() {
    let cell: FutureData<u32, u32> = FutureData::new();
    assert_eq!(cell.state(), FutureState::Pending);
}

#[test]
fn resolve_then_result_is_ok() {
    let mut cell: FutureData<u32, u32> = FutureData::new();
    let woken = cell.resolve(42);
    assert!(woken.is_empty());
    assert_eq!(cell.state(), FutureState::Complete);
    assert_eq!(cell.result(), Ok(42));
}

#[test]
fn reject_then_result_is_err() {
    let mut cell: FutureData<u32, u32> = FutureData::new();
    let woken = cell.reject(7);
    assert!(woken.is_empty());
    assert_eq!(cell.state(), FutureState::Fail);
    assert_eq!(cell.result(), Err(7));
}

#[test]
fn resolve_carries_arbitrary_values() {
    let mut cell: FutureData<String, ()> = FutureData::new();
    cell.resolve(String::from("payload"));
    assert_eq!(cell.result(), Ok(String::from("payload")));
}

#[test]
fn set_state_records_terminal_and_drains() {
    let mut cell: FutureData<u32, u32> = FutureData::new();
    cell.result = Some(Ok(5));
    let woken = cell.set_state(FutureState::Complete);
    assert!(woken.is_empty());
    assert_eq!(cell.state(), FutureState::Complete);
    assert_eq!(cell.result(), Ok(5));
}

#[test]
fn resolve_wakes_every_parked_waiter_in_fifo_order() {
    let mut sched = Scheduler::new(1);
    let mut cell: FutureData<u32, ()> = FutureData::new();
    let mut ids = Vec::new();
    for _ in 0..3 {
        let id = sched.spawn(0);
        ids.push(id);
    }
    for &id in &ids {
        match sched.worker_poll(0) {
            routines::scheduler::WorkerAction::Run(popped) => assert_eq!(popped, id),
            _ => panic!("expected a ready routine"),
        }
        sched.advance(id);
        cell.park(&mut sched, id);
        match sched.dispatch(id) {
            routines::scheduler::DispatchOutcome::Parked => {}
            _ => panic!("expected the routine to park"),
        }
    }
    let woken = cell.resolve(9);
    assert_eq!(woken, ids);
    assert_eq!(cell.result(), Ok(9));
}

#[test]
fn reject_wakes_parked_waiters_too() {
    let mut sched = Scheduler::new(1);
    let mut cell: FutureData<(), u32> = FutureData::new();
    let id = sched.spawn(0);
    match sched.worker_poll(0) {
        routines::scheduler::WorkerAction::Run(popped) => assert_eq!(popped, id),
        _ => panic!("expected a ready routine"),
    }
    sched.advance(id);
    cell.park(&mut sched, id);
    match sched.dispatch(id) {
        routines::scheduler::DispatchOutcome::Parked => {}
        _ => panic!("expected the routine to park"),
    }
    let woken = cell.reject(3);
    assert_eq!(woken, vec![id]);
    assert!(sched.resume(id));
    assert_eq!(cell.state(), FutureState::Fail);
    assert_eq!(cell.result(), Err(3));
}

#[test]
fn park_external_queues_host_thread() {
    let mut cell: FutureData<u32, ()> = FutureData::new();
    let mut host = ExternalRoutine::new(100);
    cell.park_external(&mut host);
    assert_eq!(host.state(), RoutineState::PendingSuspend);
    let woken = cell.resolve(1);
    assert_eq!(woken, vec![100]);
}

#[test]
fn producer_consumer_park_first() {
    // the consumer parks before the producer resolves
    let mut sched = Scheduler::new(2);
    let mut cell: FutureData<u32, ()> = FutureData::new();
    let a = sched.spawn(0);
    match sched.worker_poll(0) {
        routines::scheduler::WorkerAction::Run(id) => assert_eq!(id, a),
        _ => panic!("expected a ready routine"),
    }
    sched.advance(a);
    // a: result() finds the cell pending and parks
    cell.park(&mut sched, a);
    match sched.dispatch(a) {
        routines::scheduler::DispatchOutcome::Parked => {}
        _ => panic!("expected the routine to park"),
    }
    assert_eq!(sched.routine_state(a), Some(RoutineState::Suspended));
    // b (elsewhere): resolve(42) wakes a
    let woken = cell.resolve(42);
    assert_eq!(woken, vec![a]);
    assert!(sched.resume(a));
    // a runs again and takes the result
    match sched.worker_poll(0) {
        routines::scheduler::WorkerAction::Run(id) => assert_eq!(id, a),
        _ => panic!("expected the woken routine"),
    }
    sched.advance(a);
    assert_eq!(cell.state(), FutureState::Complete);
    assert_eq!(cell.result(), Ok(42));
}

#[test]
fn producer_consumer_resolve_first() {
    // the producer resolves before the consumer ever looks
    let mut cell: FutureData<u32, ()> = FutureData::new();
    let woken = cell.resolve(42);
    assert!(woken.is_empty());
    // the consumer's result() sees a terminal state and never parks
    assert_eq!(cell.state(), FutureState::Complete);
    assert_eq!(cell.result(), Ok(42));
}
