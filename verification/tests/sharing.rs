use task_coordinator::atomic::{increment, AtomicCell};
use task_coordinator::lazy::LazyKey;
use task_coordinator::publish::PublishCell;

#[test]
fn store_then_load_round_trips() {
    let mut cell = AtomicCell::new(0);
    cell.store(42);
    assert_eq!(cell.load(), 42);
}

#[test]
fn fetch_add_returns_the_previous_value() {
    let mut cell = AtomicCell::new(10);
    assert_eq!(cell.fetch_add(5), 10);
    assert_eq!(cell.load(), 15);
}

#[test]
fn saturating_add_clamps_at_the_top() {
    let mut cell = AtomicCell::new(u64::MAX - 1);
    assert_eq!(cell.fetch_add_saturating(7), u64::MAX - 1);
    assert_eq!(cell.load(), u64::MAX);
}

#[test]
fn fetch_max_keeps_the_larger_value() {
    let mut cell = AtomicCell::new(30);
    assert_eq!(cell.fetch_max(20), 30);
    assert_eq!(cell.load(), 30);
    assert_eq!(cell.fetch_max(45), 30);
    assert_eq!(cell.load(), 45);
}

#[test]
fn compare_exchange_succeeds_only_on_a_match() {
    let mut cell = AtomicCell::new(5);
    assert_eq!(cell.compare_exchange(5, 6), Ok(5));
    assert_eq!(cell.load(), 6);
    assert_eq!(cell.compare_exchange(5, 7), Err(6));
    assert_eq!(cell.load(), 6);
}

#[test]
fn increment_adds_exactly_one() {
    let mut cell = AtomicCell::new(99);
    increment(&mut cell);
    assert_eq!(cell.load(), 100);
}

#[test]
fn lazy_key_keeps_the_first_candidate() {
    let mut key = LazyKey::new();
    assert_eq!(key.get_key(7), 7);
    assert_eq!(key.get_key(9), 7);
    assert_eq!(key.get_key(1), 7);
}

#[test]
fn every_racer_agrees_on_the_winner() {
    let mut key = LazyKey::new();
    let candidates = vec![13u64, 2, 99, 13, 5];
    let mut results = Vec::new();
    for &c in &candidates {
        results.push(key.get_key(c));
    }
    for &r in &results {
        assert_eq!(r, candidates[0]);
    }
}

#[test]
fn nothing_received_before_the_flag_is_up() {
    let cell = PublishCell::new();
    assert_eq!(cell.try_receive(), None);
}

#[test]
fn acquired_read_sees_the_published_payload() {
    let mut cell = PublishCell::new();
    cell.publish(123);
    assert_eq!(cell.try_receive(), Some(123));
    assert_eq!(cell.receive(), 123);
}

#[test]
fn later_publication_replaces_the_payload() {
    let mut cell = PublishCell::new();
    cell.publish(7);
    cell.publish(123);
    assert_eq!(cell.receive(), 123);
}
