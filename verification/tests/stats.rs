use task_coordinator::stats::DurationAccumulator;
use task_coordinator::schedule::{round_robin_schedule, run_schedule};

#[test]
fn no_data_is_a_sentinel_not_a_division() {
    let acc = DurationAccumulator::new();
    assert!(acc.aggregate_stats().is_none());
}

#[test]
fn aggregate_reports_count_total_max_and_mean() {
    let mut acc = DurationAccumulator::new();
    acc.record(10);
    acc.record(20);
    acc.record(40);
    let report = acc.aggregate_stats().unwrap();
    assert_eq!(report.completed, 3);
    assert_eq!(report.total_duration, 70);
    assert_eq!(report.max_duration, 40);
    assert_eq!(report.average_duration, 23);
}

#[test]
fn single_measurement_is_its_own_mean_and_max() {
    let mut acc = DurationAccumulator::new();
    acc.record(17);
    let report = acc.aggregate_stats().unwrap();
    assert_eq!(report.completed, 1);
    assert_eq!(report.total_duration, 17);
    assert_eq!(report.max_duration, 17);
    assert_eq!(report.average_duration, 17);
}

#[test]
fn total_saturates_instead_of_wrapping() {
    let mut acc = DurationAccumulator::new();
    acc.record(u64::MAX);
    acc.record(5);
    let report = acc.aggregate_stats().unwrap();
    assert_eq!(report.completed, 2);
    assert_eq!(report.total_duration, u64::MAX);
    assert_eq!(report.max_duration, u64::MAX);
}

#[test]
fn zero_durations_leave_a_zero_maximum() {
    let mut acc = DurationAccumulator::new();
    acc.record(0);
    acc.record(0);
    let report = acc.aggregate_stats().unwrap();
    assert_eq!(report.completed, 2);
    assert_eq!(report.total_duration, 0);
    assert_eq!(report.max_duration, 0);
    assert_eq!(report.average_duration, 0);
}

#[test]
fn recording_order_does_not_change_the_aggregate() {
    let mut a = DurationAccumulator::new();
    let mut b = DurationAccumulator::new();
    let durations = vec![3u64, 50, 7, 50, 0, 12];
    for &d in &durations {
        a.record(d);
    }
    for &d in durations.iter().rev() {
        b.record(d);
    }
    assert_eq!(a.aggregate_stats(), b.aggregate_stats());
}

#[test]
fn run_aggregates_the_recorded_durations() {
    let schedule = round_robin_schedule(2, 2);
    let durations = vec![4u64, 8, 12, 16];
    let pool = run_schedule(2, 2, &schedule, &durations);
    let report = pool.aggregate_stats().unwrap();
    assert_eq!(report.completed, 4);
    assert_eq!(report.total_duration, 40);
    assert_eq!(report.max_duration, 16);
    assert_eq!(report.average_duration, 10);
}

#[test]
fn run_with_no_units_reports_no_data() {
    let schedule = round_robin_schedule(3, 0);
    let durations: Vec<u64> = Vec::new();
    let pool = run_schedule(3, 0, &schedule, &durations);
    assert!(pool.aggregate_stats().is_none());
}
