use moenia::{transition, CountBased, Policy, State};
use std::time::Duration;

const NOW: u128 = 1_000_000_000;

#[test]
fn closed_to_closed_should_open_false() {
    let mut policy = CountBased::new(5);
    let state = State::Closed;

    let result = transition(&state, &mut policy, 1, Duration::from_secs(5), NOW);
    assert!(result.is_none());
}

#[test]
fn closed_to_open_should_open_true() {
    let mut policy = CountBased::new(1);
    let duration = Duration::from_secs(5);
    let state = State::Closed;

    policy.record_failure();
    let result = transition(&state, &mut policy, 1, duration, NOW);

    assert!(matches!(result, Some(State::Open { .. })));
}

#[test]
fn open_to_open_time_not_elapsed() {
    let mut policy = CountBased::new(5);
    let duration = Duration::from_secs(5);
    let state = State::Open {
        until: NOW + duration.as_nanos(),
    };

    let result = transition(&state, &mut policy, 1, duration, NOW);
    assert!(result.is_none());
}

#[test]
fn open_to_halfopen_time_elapsed() {
    let mut policy = CountBased::new(5);
    let duration = Duration::from_secs(1);
    let state = State::Open {
        until: NOW + duration.as_nanos(),
    };

    let later = NOW + Duration::from_secs(1).as_nanos();

    let result = transition(&state, &mut policy, 1, duration, later);
    assert!(matches!(result, Some(State::HalfOpen { .. })));
}

#[test]
fn halfopen_to_closed_probe_success_threshold() {
    let mut policy = CountBased::new(5);
    let duration = Duration::from_secs(1);
    let state = State::HalfOpen {
        n_successful_probes: 1,
        in_flight: false,
    };

    let result = transition(&state, &mut policy, 1, duration, NOW);
    assert!(matches!(result, Some(State::Closed)));
}

#[test]
fn halfopen_to_halfopen_probe_in_flight() {
    let mut policy = CountBased::new(5);
    let duration = Duration::from_secs(1);
    let state = State::HalfOpen {
        n_successful_probes: 0,
        in_flight: true,
    };

    let result = transition(&state, &mut policy, 1, duration, NOW);
    assert!(result.is_none());
}

#[test]
fn halfopen_to_open_probe_failed() {
    let mut policy = CountBased::new(5);
    let duration = Duration::from_secs(1);
    let state = State::HalfOpen {
        n_successful_probes: 0,
        in_flight: false,
    };

    let result = transition(&state, &mut policy, 1, duration, NOW);
    assert!(matches!(result, Some(State::Open { .. })));
}

#[test]
fn opening_sets_the_deadline_one_open_duration_ahead() {
    let mut policy = CountBased::new(0);
    let result = transition(&State::Closed, &mut policy, 1, Duration::from_secs(5), NOW);
    assert_eq!(result, Some(State::Open { until: NOW + 5_000_000_000 }));
    let failed = State::HalfOpen { n_successful_probes: 0, in_flight: false };
    let result = transition(&failed, &mut policy, 3, Duration::from_millis(7), NOW);
    assert_eq!(result, Some(State::Open { until: NOW + 7_000_000 }));
}

#[test]
fn open_becomes_half_open_exactly_at_deadline() {
    let mut policy = CountBased::new(5);
    let state = State::Open { until: NOW };
    assert_eq!(
        transition(&state, &mut policy, 1, Duration::from_secs(1), NOW - 1),
        None
    );
    assert_eq!(
        transition(&state, &mut policy, 1, Duration::from_secs(1), NOW),
        Some(State::HalfOpen { n_successful_probes: 0, in_flight: false })
    );
}

#[test]
fn closing_resets_the_policy() {
    let mut policy = CountBased::new(1);
    policy.record_failure();
    let state = State::HalfOpen { n_successful_probes: 2, in_flight: false };
    let result = transition(&state, &mut policy, 2, Duration::from_secs(1), NOW);
    assert_eq!(result, Some(State::Closed));
    assert!(!policy.should_open());
}

#[test]
fn half_open_between_successful_probes_waits() {
    let mut policy = CountBased::new(5);
    let state = State::HalfOpen { n_successful_probes: 1, in_flight: false };
    let result = transition(&state, &mut policy, 3, Duration::from_secs(1), NOW);
    assert!(result.is_none());
}
