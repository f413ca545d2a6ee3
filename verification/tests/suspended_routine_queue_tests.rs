use routines::external_routine::ExternalRoutine;
use routines::routine::RoutineState;
use routines::scheduler::{Scheduler, WorkerAction};
use routines::suspended_routine_queue::{resume, suspend, suspend_external};

#[test]
fn suspend_publishes_the_waiter_and_announces_the_park() {
    let mut sched = Scheduler::new(1);
    let id = sched.spawn(0);
    match sched.worker_poll(0) {
        WorkerAction::Run(popped) => assert_eq!(popped, id),
        other => panic!("expected a ready routine, worker was told {:?}", other),
    }
    sched.advance(id);
    let mut queue: Vec<u64> = Vec::new();
    suspend(&mut queue, &mut sched, id);
    assert_eq!(queue, vec![id]);
    assert_eq!(sched.routine_state(id), Some(RoutineState::PendingSuspend));
}

#[test]
fn suspend_external_publishes_the_host_thread() {
    let mut queue: Vec<u64> = Vec::new();
    let mut host = ExternalRoutine::new(31);
    suspend_external(&mut queue, &mut host);
    assert_eq!(queue, vec![31]);
    assert_eq!(host.state(), RoutineState::PendingSuspend);
}

#[test]
fn resume_drains_in_fifo_order() {
    let mut queue: Vec<u64> = vec![3, 1, 2];
    let woken = resume(&mut queue);
    assert_eq!(woken, vec![3, 1, 2]);
    assert!(queue.is_empty());
    let empty = resume(&mut queue);
    assert!(empty.is_empty());
}
