use routines::future::{FutureData, FutureState};
use routines::routine::RoutineState;
use routines::scheduler::{defer, spawn, suspend_into, wait, DispatchOutcome, Scheduler,
    WorkerAction};

fn pop_and_advance(sched: &mut Scheduler, context_id: usize) -> u64 {
    match sched.worker_poll(context_id) {
        WorkerAction::Run(id) => {
            sched.advance(id);
            id
        }
        other => panic!("expected a ready routine, worker was told {:?}", other),
    }
}

#[test]
fn new_scheduler_is_empty_and_running() {
    let sched = Scheduler::new(3);
    assert_eq!(sched.thread_count(), 3);
    for c in 0..3 {
        assert!(sched.is_running(c));
        assert!(!sched.has_pending_routines(c));
        assert_eq!(sched.pending_count(c), 0);
        assert_eq!(sched.suspended_count(c), 0);
    }
}

#[test]
fn spawn_assigns_ids_from_one_and_spreads_by_modulo() {
    let mut sched = Scheduler::new(2);
    let first = spawn(&mut sched);
    let second = spawn(&mut sched);
    assert_eq!(first, 1);
    assert_eq!(second, 2);
    // id % 2 puts id 1 on context 1 and id 2 on context 0
    assert_eq!(sched.pending_count(1), 1);
    assert_eq!(sched.pending_count(0), 1);
    assert_eq!(sched.routine_state(first), Some(RoutineState::Pending));
}

#[test]
fn spawn_honours_explicit_affinity() {
    let mut sched = Scheduler::new(4);
    let id = sched.spawn(3);
    assert_eq!(sched.pending_count(3), 1);
    assert_eq!(sched.pending_count(id as usize % 4), 0);
}

#[test]
fn ready_queue_is_fifo() {
    let mut sched = Scheduler::new(1);
    let a = sched.spawn(0);
    let b = sched.spawn(0);
    let c = sched.spawn(0);
    assert_eq!(sched.worker_poll(0), WorkerAction::Run(a));
    assert_eq!(sched.worker_poll(0), WorkerAction::Run(b));
    assert_eq!(sched.worker_poll(0), WorkerAction::Run(c));
    assert_eq!(sched.worker_poll(0), WorkerAction::Sleep);
}

#[test]
fn basic_spawn_completes_and_leaves_registry() {
    let mut sched = Scheduler::new(2);
    let id = spawn(&mut sched);
    assert!(sched.is_registered(id));
    let ctx = id as usize % 2;
    let popped = pop_and_advance(&mut sched, ctx);
    assert_eq!(popped, id);
    // the body runs and returns
    sched.complete(id);
    match sched.dispatch(id) {
        DispatchOutcome::Destroyed(promises) => assert!(promises.is_empty()),
        other => panic!("expected destruction, worker was told {:?}", other),
    }
    assert!(!sched.is_registered(id));
    assert_eq!(sched.routine_state(id), None);
}

#[test]
fn defer_preserves_observable_state() {
    let mut sched = Scheduler::new(1);
    let id = sched.spawn(0);
    let popped = pop_and_advance(&mut sched, 0);
    assert_eq!(popped, id);
    let before = (
        sched.pending_count(0),
        sched.suspended_count(0),
        sched.routine_state(id),
        sched.is_registered(id),
        sched.is_running(0),
    );
    defer(&mut sched, id);
    let after = (
        sched.pending_count(0),
        sched.suspended_count(0),
        sched.routine_state(id),
        sched.is_registered(id),
        sched.is_running(0),
    );
    assert_eq!(before, after);
    // the worker sees it still running and requeues it
    match sched.dispatch(id) {
        DispatchOutcome::Requeued(notify) => assert!(notify),
        other => panic!("expected a requeue, worker was told {:?}", other),
    }
    assert_eq!(sched.worker_poll(0), WorkerAction::Run(id));
}

#[test]
fn park_then_resume_moves_to_ready() {
    let mut sched = Scheduler::new(1);
    let id = sched.spawn(0);
    pop_and_advance(&mut sched, 0);
    sched.pending_suspend(id);
    match sched.dispatch(id) {
        DispatchOutcome::Parked => {}
        other => panic!("expected a park, worker was told {:?}", other),
    }
    assert_eq!(sched.routine_state(id), Some(RoutineState::Suspended));
    assert_eq!(sched.suspended_count(0), 1);
    assert!(sched.resume(id));
    assert_eq!(sched.suspended_count(0), 0);
    assert_eq!(sched.worker_poll(0), WorkerAction::Run(id));
}

#[test]
fn resume_before_park_is_not_lost() {
    // the race: the resume lands between the announcement and the park
    let mut sched = Scheduler::new(1);
    let id = sched.spawn(0);
    pop_and_advance(&mut sched, 0);
    sched.pending_suspend(id);
    // the resumer runs first: the routine is in no suspended queue yet
    assert!(!sched.resume(id));
    // the worker then observes the announced park — and undoes it
    match sched.dispatch(id) {
        DispatchOutcome::Requeued(notify) => assert!(notify),
        other => panic!("expected the park to be undone, worker was told {:?}", other),
    }
    assert_eq!(sched.suspended_count(0), 0);
    assert_eq!(sched.worker_poll(0), WorkerAction::Run(id));
}

#[test]
fn suspend_into_records_the_current_routine() {
    let mut sched = Scheduler::new(1);
    let id = sched.spawn(0);
    pop_and_advance(&mut sched, 0);
    let mut slot: u64 = 0;
    suspend_into(&mut slot, &mut sched, id);
    assert_eq!(slot, id);
    assert_eq!(sched.routine_state(id), Some(RoutineState::PendingSuspend));
    match sched.dispatch(id) {
        DispatchOutcome::Parked => {}
        other => panic!("expected a park, worker was told {:?}", other),
    }
    // a custom waker later resumes the recorded id
    assert!(sched.resume(slot));
    assert_eq!(sched.worker_poll(0), WorkerAction::Run(id));
}

#[test]
fn wait_registers_promise_and_completion_delivers_it() {
    let mut sched = Scheduler::new(2);
    let waiter = sched.spawn(0);
    let target = sched.spawn(1);
    // the waiter runs and blocks on the target
    let popped = pop_and_advance(&mut sched, 0);
    assert_eq!(popped, waiter);
    let mut cell: FutureData<(), ()> = FutureData::new();
    let promise_id = 77;
    assert!(wait(&mut sched, waiter, target, promise_id));
    cell.park(&mut sched, waiter);
    match sched.dispatch(waiter) {
        DispatchOutcome::Parked => {}
        other => panic!("expected the waiter to park, worker was told {:?}", other),
    }
    // the target runs to completion; its destruction hands out the promise
    let popped = pop_and_advance(&mut sched, 1);
    assert_eq!(popped, target);
    sched.complete(target);
    let promises = match sched.dispatch(target) {
        DispatchOutcome::Destroyed(promises) => promises,
        other => panic!("expected destruction, worker was told {:?}", other),
    };
    assert_eq!(promises, vec![promise_id]);
    // resolving the promise wakes the waiter exactly once
    let woken = cell.resolve(());
    assert_eq!(woken, vec![waiter]);
    assert!(sched.resume(waiter));
    assert_eq!(sched.worker_poll(0), WorkerAction::Run(waiter));
    assert_eq!(cell.result(), Ok(()));
}

#[test]
fn wait_on_terminated_routine_returns_immediately() {
    let mut sched = Scheduler::new(1);
    let id = sched.spawn(0);
    pop_and_advance(&mut sched, 0);
    sched.complete(id);
    match sched.dispatch(id) {
        DispatchOutcome::Destroyed(_) => {}
        other => panic!("expected destruction, worker was told {:?}", other),
    }
    // the routine is gone: wait finds nothing and the caller must not block
    assert!(!wait(&mut sched, 999, id, 5));
}

#[test]
fn cross_worker_resume_lands_on_the_pinned_context() {
    let mut sched = Scheduler::new(2);
    // pin the routine to worker 0
    let r = sched.spawn(0);
    let popped = pop_and_advance(&mut sched, 0);
    assert_eq!(popped, r);
    let mut cell: FutureData<u32, ()> = FutureData::new();
    cell.park(&mut sched, r);
    match sched.dispatch(r) {
        DispatchOutcome::Parked => {}
        other => panic!("expected the routine to park, worker was told {:?}", other),
    }
    assert_eq!(sched.suspended_count(0), 1);
    // a routine on worker 1 resolves the future r is parked on
    let resolver = sched.spawn(1);
    let popped = pop_and_advance(&mut sched, 1);
    assert_eq!(popped, resolver);
    let woken = cell.resolve(5);
    assert_eq!(woken, vec![r]);
    assert!(sched.resume(r));
    // r resumes on worker 0, not on the resolver's worker
    assert_eq!(sched.pending_count(0), 1);
    assert_eq!(sched.pending_count(1), 0);
    assert_eq!(sched.worker_poll(0), WorkerAction::Run(r));
}

#[test]
fn park_race_hundred_waiters_none_lost() {
    let mut sched = Scheduler::new(4);
    let mut cells: Vec<FutureData<u64, ()>> = Vec::new();
    let mut ids: Vec<u64> = Vec::new();
    for _ in 0..100 {
        let id = spawn(&mut sched);
        ids.push(id);
        cells.push(FutureData::new());
    }
    // every routine runs and parks on its own cell
    for (k, &id) in ids.iter().enumerate() {
        let ctx = id as usize % 4;
        let popped = pop_and_advance(&mut sched, ctx);
        assert_eq!(popped, id);
        cells[k].park(&mut sched, id);
        match sched.dispatch(id) {
            DispatchOutcome::Parked => {}
            other => panic!("expected a park, worker was told {:?}", other),
        }
    }
    // a single resolver resolves all hundred in sequence
    for (k, &id) in ids.iter().enumerate() {
        let woken = cells[k].resolve(id);
        assert_eq!(woken, vec![id]);
        assert!(sched.resume(id));
    }
    // every routine runs exactly once more and takes its result
    for (k, id) in ids.into_iter().enumerate() {
        let ctx = id as usize % 4;
        let popped = pop_and_advance(&mut sched, ctx);
        assert_eq!(popped, id);
        assert_eq!(cells[k].state(), FutureState::Complete);
        sched.complete(id);
        match sched.dispatch(id) {
            DispatchOutcome::Destroyed(_) => {}
            other => panic!("expected destruction, worker was told {:?}", other),
        }
    }
    for (k, cell) in cells.into_iter().enumerate() {
        assert_eq!(cell.result(), Ok((k + 1) as u64));
    }
}

#[test]
fn shutdown_drains_deferring_routines() {
    let mut sched = Scheduler::new(2);
    let mut ids = Vec::new();
    for _ in 0..10 {
        ids.push(spawn(&mut sched));
    }
    // shutdown is requested at once; the workers still drain what is queued
    sched.stop();
    // each routine defers a thousand times, then returns
    let mut remaining = vec![1000u32; ids.len()];
    let mut completed = 0;
    for c in 0..2 {
        loop {
            let id = match sched.worker_poll(c) {
                WorkerAction::Run(id) => id,
                WorkerAction::Exit => break,
                other => panic!("the drained worker was told {:?}", other),
            };
            sched.advance(id);
            let slot = ids.iter().position(|&x| x == id).unwrap();
            if remaining[slot] > 0 {
                remaining[slot] -= 1;
                defer(&mut sched, id);
                match sched.dispatch(id) {
                    DispatchOutcome::Requeued(_) => {}
                    other => panic!("expected a requeue, worker was told {:?}", other),
                }
            } else {
                sched.complete(id);
                match sched.dispatch(id) {
                    DispatchOutcome::Destroyed(_) => {}
                    other => panic!("expected destruction, worker was told {:?}", other),
                }
                completed += 1;
            }
        }
    }
    // every routine ran its full course; nothing is left behind
    assert_eq!(completed, 10);
    assert!(remaining.iter().all(|&r| r == 0));
    for c in 0..2 {
        assert!(!sched.is_running(c));
        assert_eq!(sched.pending_count(c), 0);
        assert_eq!(sched.suspended_count(c), 0);
        assert_eq!(sched.worker_poll(c), WorkerAction::Exit);
    }
}

#[test]
fn workers_do_not_exit_while_routines_are_parked() {
    let mut sched = Scheduler::new(1);
    let id = sched.spawn(0);
    pop_and_advance(&mut sched, 0);
    sched.pending_suspend(id);
    match sched.dispatch(id) {
        DispatchOutcome::Parked => {}
        other => panic!("expected a park, worker was told {:?}", other),
    }
    sched.stop();
    // a parked routine still holds the worker open
    assert_eq!(sched.worker_poll(0), WorkerAction::Sleep);
    assert!(sched.resume(id));
    assert_eq!(sched.worker_poll(0), WorkerAction::Run(id));
    sched.advance(id);
    sched.complete(id);
    match sched.dispatch(id) {
        DispatchOutcome::Destroyed(_) => {}
        other => panic!("expected destruction, worker was told {:?}", other),
    }
    assert_eq!(sched.worker_poll(0), WorkerAction::Exit);
}
