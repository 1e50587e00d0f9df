use moenia::{CountBased, Policy, SlidingWindow};
use std::time::{Duration, Instant};

fn wait(d: Duration) {
    let start = Instant::now();
    while start.elapsed() < d {}
}

#[test]
fn count_based_opens_at_threshold() {
    let mut policy = CountBased::new(5);
    policy.record_failure();
    policy.record_failure();
    policy.record_failure();
    policy.record_failure();
    assert!(!policy.should_open());
    policy.record_failure();
    assert!(policy.should_open());
}

#[test]
fn sliding_window_opens_at_threshold() {
    let mut policy = SlidingWindow::new(5, Duration::from_secs(30));
    policy.record_failure();
    policy.record_failure();
    policy.record_failure();
    policy.record_failure();
    assert!(!policy.should_open());
    policy.record_failure();
    assert!(policy.should_open());
}

#[test]
fn sliding_window_eviction() {
    let mut policy = SlidingWindow::new(2, Duration::from_secs(1));
    policy.record_failure();
    wait(Duration::from_secs(1));
    policy.record_failure();
    assert!(!policy.should_open());
}

#[test]
fn count_based_success_takes_back_a_failure() {
    let mut policy = CountBased::new(2);
    policy.record_failure();
    policy.record_success();
    policy.record_failure();
    assert!(!policy.should_open());
    policy.record_failure();
    assert!(policy.should_open());
}

#[test]
fn count_based_success_does_not_go_below_zero() {
    let mut policy = CountBased::new(1);
    policy.record_success();
    policy.record_success();
    policy.record_failure();
    assert!(policy.should_open());
}

#[test]
fn count_based_reset_forgets_failures() {
    let mut policy = CountBased::new(2);
    policy.record_failure();
    policy.record_failure();
    assert!(policy.should_open());
    policy.reset();
    assert!(!policy.should_open());
}

#[test]
fn count_based_zero_threshold_always_opens() {
    let mut policy = CountBased::new(0);
    assert!(policy.should_open());
    policy.reset();
    assert!(policy.should_open());
}

#[test]
fn sliding_window_drops_failures_older_than_the_window() {
    let mut policy = SlidingWindow::new(2, Duration::from_nanos(10));
    policy.record_failure_at(0);
    policy.record_failure_at(5);
    assert!(policy.should_open());
    policy.record_failure_at(14);
    // the failure at 0 is 14 ns old and leaves; those at 5 and 14 remain
    assert!(policy.should_open());
    policy.record_failure_at(100);
    assert!(!policy.should_open());
}

#[test]
fn sliding_window_failure_at_window_edge_leaves() {
    let mut policy = SlidingWindow::new(2, Duration::from_nanos(10));
    policy.record_failure_at(0);
    policy.record_failure_at(10);
    assert!(!policy.should_open());
    policy.record_failure_at(19);
    assert!(policy.should_open());
}

#[test]
fn sliding_window_ignores_successes_and_reset_clears() {
    let mut policy = SlidingWindow::new(1, Duration::from_secs(30));
    policy.record_success();
    assert!(!policy.should_open());
    policy.record_failure();
    policy.record_success();
    assert!(policy.should_open());
    policy.reset();
    assert!(!policy.should_open());
}

#[test]
fn sliding_window_clock_failures_within_window_all_count() {
    let mut policy = SlidingWindow::new(3, Duration::from_secs(60));
    policy.record_failure();
    policy.record_failure();
    assert!(!policy.should_open());
    policy.record_failure();
    assert!(policy.should_open());
}
