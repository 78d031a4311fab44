use task_coordinator::coordinator::TaskCoordinator;
use task_coordinator::counter::ProgressCounter;
use task_coordinator::scenarios::{chapter_one_example_container, chapter_two_example_container};
use task_coordinator::schedule::{block_schedule, round_robin_schedule, run, run_schedule};

#[test]
fn run_returns_the_exact_total_for_every_pair() {
    let pairs: Vec<(usize, u64)> = vec![(1, 0), (1, 1), (2, 0), (2, 5), (4, 25), (8, 100)];
    for (w, n) in pairs {
        let durations = vec![1u64; w * n as usize];
        assert_eq!(run(w, n, &durations), Ok((w as u64) * n));
    }
}

fn run_exact(worker_count: usize, iterations_per_worker: u64) -> u64 {
    let schedule = round_robin_schedule(worker_count, iterations_per_worker);
    let durations = vec![1u64; schedule.len()];
    let pool = run_schedule(worker_count, iterations_per_worker, &schedule, &durations);
    pool.progress()
}

#[test]
fn single_worker_with_nothing_to_do() {
    assert_eq!(run_exact(1, 0), 0);
}

#[test]
fn single_worker_single_unit() {
    assert_eq!(run_exact(1, 1), 1);
}

#[test]
fn exact_count_across_many_pairs() {
    let pairs: Vec<(usize, u64)> = vec![(1, 0), (1, 5), (2, 3), (3, 7), (4, 25), (5, 0), (7, 11)];
    for (w, n) in pairs {
        assert_eq!(run_exact(w, n), (w as u64) * n);
    }
}

#[test]
fn stress_no_lost_updates() {
    for _ in 0..3 {
        assert_eq!(run_exact(8, 1000), 8000);
    }
}

#[test]
fn interleaved_and_blocked_schedules_agree() {
    let interleaved = round_robin_schedule(6, 40);
    let blocked = block_schedule(6, 40);
    assert_ne!(interleaved, blocked);
    let durations = vec![2u64; interleaved.len()];
    let a = run_schedule(6, 40, &interleaved, &durations);
    let b = run_schedule(6, 40, &blocked, &durations);
    assert_eq!(a.progress(), 240);
    assert_eq!(b.progress(), 240);
    assert_eq!(a.progress(), b.progress());
}

#[test]
fn scrambled_interleavings_lose_nothing() {
    // Swapping entries preserves each worker's unit count, so any scramble
    // of a well-formed schedule is still a well-formed interleaving.
    let mut schedule = round_robin_schedule(5, 30);
    let len = schedule.len();
    for i in 0..len / 2 {
        schedule.swap(i, len - 1 - i);
    }
    for i in (0..len).step_by(3) {
        schedule.swap(i, len / 2);
    }
    let durations = vec![1u64; len];
    let pool = run_schedule(5, 30, &schedule, &durations);
    assert_eq!(pool.progress(), 150);
}

#[test]
fn observer_predicate_turns_true_exactly_at_target() {
    let mut pool = TaskCoordinator::new(4, 25);
    pool.start_all();
    let schedule = round_robin_schedule(4, 25);
    for (k, &w) in schedule.iter().enumerate() {
        assert!(!pool.is_complete(), "complete before unit {}", k);
        pool.step_unit_done(w, 3);
    }
    assert!(pool.is_complete());
    assert_eq!(pool.progress(), 100);
    assert_eq!(pool.target(), 100);
}

#[test]
fn pipeline_scenario_counts_to_one_hundred() {
    assert_eq!(chapter_two_example_container(), 100);
}

#[test]
fn exclusive_access_scenario_counts_to_one_thousand() {
    assert_eq!(chapter_one_example_container(), 1000);
}

#[test]
fn progress_counter_counts_and_completes() {
    let mut c = ProgressCounter::new(3);
    assert_eq!(c.value(), 0);
    assert!(!c.is_complete());
    c.increment();
    c.increment();
    assert!(!c.is_complete());
    c.increment();
    assert_eq!(c.value(), 3);
    assert_eq!(c.target(), 3);
    assert!(c.is_complete());
}
