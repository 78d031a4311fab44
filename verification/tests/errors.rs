use task_coordinator::coordinator::{CoordError, CoordinatorPhase, TaskCoordinator, WorkerPhase};

#[test]
fn run_walks_through_every_phase() {
    let mut pool = TaskCoordinator::new(3, 1);
    assert_eq!(pool.current_phase(), CoordinatorPhase::Idle);
    pool.spawn_worker(0);
    assert_eq!(pool.current_phase(), CoordinatorPhase::Spawning);
    pool.spawn_worker(1);
    assert_eq!(pool.current_phase(), CoordinatorPhase::Spawning);
    pool.spawn_worker(2);
    assert_eq!(pool.current_phase(), CoordinatorPhase::AwaitingCompletion);
    for w in 0..3 {
        pool.step_unit_done(w, 1);
    }
    let verdict = pool.join_all(&vec![true, true, true]);
    assert_eq!(verdict, Ok(3));
    assert_eq!(pool.current_phase(), CoordinatorPhase::Joined);
}

#[test]
fn worker_failure_surfaces_at_join() {
    let mut pool = TaskCoordinator::new(2, 1);
    pool.start_all();
    pool.step_unit_done(0, 5);
    pool.step_unit_failed(1);
    assert_eq!(pool.worker_phase(1), WorkerPhase::Failed);
    let verdict = pool.join_all(&vec![true, true]);
    assert_eq!(verdict, Err(CoordError::WorkerFailure { worker: 1 }));
    assert_eq!(pool.progress(), 1);
}

#[test]
fn join_failure_surfaces_at_join() {
    let mut pool = TaskCoordinator::new(1, 1);
    pool.start_all();
    pool.step_unit_done(0, 2);
    let verdict = pool.join_all(&vec![false]);
    assert_eq!(verdict, Err(CoordError::JoinFailure { worker: 0 }));
}

#[test]
fn first_failure_in_worker_order_wins() {
    let mut pool = TaskCoordinator::new(3, 1);
    pool.start_all();
    pool.step_unit_failed(0);
    pool.step_unit_done(1, 1);
    pool.step_unit_failed(2);
    let verdict = pool.join_all(&vec![true, true, true]);
    assert_eq!(verdict, Err(CoordError::WorkerFailure { worker: 0 }));
}

#[test]
fn unjoinable_worker_reported_before_later_failures() {
    let mut pool = TaskCoordinator::new(3, 1);
    pool.start_all();
    pool.step_unit_done(0, 1);
    pool.step_unit_done(1, 1);
    pool.step_unit_failed(2);
    let verdict = pool.join_all(&vec![true, false, true]);
    assert_eq!(verdict, Err(CoordError::JoinFailure { worker: 1 }));
}

#[test]
fn clean_join_returns_the_exact_total() {
    let mut pool = TaskCoordinator::new(2, 2);
    pool.start_all();
    pool.step_unit_done(0, 1);
    pool.step_unit_done(1, 1);
    pool.step_unit_done(1, 1);
    pool.step_unit_done(0, 1);
    let verdict = pool.join_all(&vec![true, true]);
    assert_eq!(verdict, Ok(4));
}

#[test]
fn failed_worker_leaves_counters_untouched() {
    let mut pool = TaskCoordinator::new(2, 3);
    pool.start_all();
    pool.step_unit_done(0, 9);
    let before = pool.progress();
    pool.step_unit_failed(1);
    assert_eq!(pool.progress(), before);
    assert_eq!(pool.worker_remaining(1), 3);
}

#[test]
fn worker_phases_follow_the_life_cycle() {
    let mut pool = TaskCoordinator::new(1, 2);
    assert_eq!(pool.worker_phase(0), WorkerPhase::Created);
    pool.start_all();
    assert_eq!(pool.worker_phase(0), WorkerPhase::Running);
    pool.step_unit_done(0, 1);
    assert_eq!(pool.worker_phase(0), WorkerPhase::Running);
    pool.step_unit_done(0, 1);
    assert_eq!(pool.worker_phase(0), WorkerPhase::Completed);
}

#[test]
fn zero_iteration_workers_complete_on_spawn() {
    let mut pool = TaskCoordinator::new(3, 0);
    pool.start_all();
    assert!(pool.is_complete());
    for w in 0..3 {
        assert_eq!(pool.worker_phase(w), WorkerPhase::Completed);
    }
    let verdict = pool.join_all(&vec![true, true, true]);
    assert_eq!(verdict, Ok(0));
}
