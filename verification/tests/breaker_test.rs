use moenia::{
    SlidingWindow, AlwaysFailure, CallOutcome, CircuitBreaker, Config, CountBased, Error, MatchClassifier,
    NeverFailure, State,
};
use std::time::{Duration, Instant};

fn wait(d: Duration) {
    let start = Instant::now();
    while start.elapsed() < d {}
}

fn test_error() -> std::io::Error {
    std::io::Error::new(std::io::ErrorKind::Other, "test error")
}

#[test]
fn never_failure_test() {
    let config = Config::new("never_failure_test");
    let policy = CountBased::new(1);
    let classifier = NeverFailure;

    let mut cb = CircuitBreaker::new(policy, config, classifier);
    let _ = cb.call_blocking(|| Err::<(), _>(test_error()));

    assert!(cb.is_closed());
}

#[test]
fn always_failure_test() {
    let config = Config::new("never_failure_test");
    let policy = CountBased::new(1);
    let classifier = AlwaysFailure;

    let mut cb = CircuitBreaker::new(policy, config, classifier);
    let _ = cb.call_blocking(|| Err::<(), _>(test_error()));

    assert!(cb.is_open());
}

#[test]
fn half_open_to_closed_transition_test() {
    let config = Config::new("half_open_test")
        .open_duration(Duration::from_millis(1))
        .half_open_probes(1);
    let policy = CountBased::new(1);
    let classifier =
        MatchClassifier::new(|e: &std::io::Error| e.kind() == std::io::ErrorKind::Other);

    let mut cb = CircuitBreaker::new(policy, config, classifier);

    let _ = cb.call_blocking(|| Err::<(), _>(test_error()));
    assert!(cb.is_open());

    wait(Duration::from_millis(10));

    let _ = cb.call_blocking(|| Ok(1234));
    assert!(cb.is_closed());
}

#[test]
fn half_open_to_open_transition_test() {
    let config = Config::new("half_open_test")
        .open_duration(Duration::from_millis(1))
        .half_open_probes(1);
    let policy = CountBased::new(1);
    let classifier = AlwaysFailure;

    let mut cb = CircuitBreaker::new(policy, config, classifier);

    let _ = cb.call_blocking(|| Err::<(), _>(test_error()));
    assert!(cb.is_open());

    wait(Duration::from_millis(10));

    let _ = cb.call_blocking(|| Err::<(), _>(test_error()));
    assert!(cb.is_open());
}

#[test]
fn call_blocking_half_open_to_closed_transition_test() {
    let config = Config::new("half_open_test")
        .open_duration(Duration::from_millis(1))
        .half_open_probes(1);
    let policy = CountBased::new(1);
    let classifier =
        MatchClassifier::new(|e: &std::io::Error| e.kind() == std::io::ErrorKind::Other);

    let mut cb = CircuitBreaker::new(policy, config, classifier);

    let _ = cb.call_blocking(|| Err::<(), _>(test_error()));
    assert!(cb.is_open());

    wait(Duration::from_millis(10));

    let _ = cb.call_blocking(|| Ok(1234));
    assert!(cb.is_closed());
}

#[test]
fn call_blocking_half_open_to_open_transition_test() {
    let config = Config::new("half_open_test")
        .open_duration(Duration::from_millis(1))
        .half_open_probes(1);
    let policy = CountBased::new(1);
    let classifier = AlwaysFailure;

    let mut cb = CircuitBreaker::new(policy, config, classifier);

    let _ = cb.call_blocking(|| Err::<(), _>(test_error()));
    assert!(cb.is_open());

    wait(Duration::from_millis(10));

    let _ = cb.call_blocking(|| Err::<(), _>(test_error()));
    assert!(cb.is_open());
}

#[test]
fn new_breaker_is_closed() {
    let cb: CircuitBreaker<std::io::Error, _, _> =
        CircuitBreaker::new(CountBased::new(3), Config::new("x"), AlwaysFailure);
    assert!(cb.is_closed());
    assert!(!cb.is_open());
    assert!(!cb.is_half_open());
    assert_eq!(cb.state(), State::Closed);
}

#[test]
fn call_blocking_returns_value_and_wraps_error() {
    let mut cb = CircuitBreaker::new(CountBased::new(3), Config::new("x"), AlwaysFailure);
    assert_eq!(cb.call_blocking(|| Ok::<u32, std::io::Error>(7)).unwrap(), 7);
    let r = cb.call_blocking(|| Err::<u32, _>(test_error()));
    match r {
        Err(Error::Inner(e)) => assert_eq!(e.kind(), std::io::ErrorKind::Other),
        _ => panic!("expected the inner error"),
    }
    assert!(cb.is_closed());
}

#[test]
fn open_breaker_rejects_without_running_the_call() {
    let mut cb = CircuitBreaker::new(CountBased::new(1), Config::new("x"), AlwaysFailure);
    let _ = cb.call_blocking(|| Err::<(), _>(test_error()));
    assert!(cb.is_open());
    let mut ran = false;
    let r = cb.call_blocking(|| {
        ran = true;
        Ok::<(), std::io::Error>(())
    });
    assert!(matches!(r, Err(Error::CircuitOpen)));
    assert!(!ran);
    assert!(cb.is_open());
}

#[test]
fn count_based_breaker_trips_after_threshold_failures() {
    let mut cb = CircuitBreaker::new(CountBased::new(3), Config::new("x"), AlwaysFailure);
    let _ = cb.call_blocking(|| Err::<(), _>(test_error()));
    let _ = cb.call_blocking(|| Err::<(), _>(test_error()));
    assert!(cb.is_closed());
    let _ = cb.call_blocking(|| Err::<(), _>(test_error()));
    assert!(cb.is_open());
}

fn opened_breaker(
    probes: u32,
) -> CircuitBreaker<std::io::Error, CountBased, AlwaysFailure> {
    let config = Config::new("x").open_duration(Duration::from_nanos(100)).half_open_probes(probes);
    let mut cb = CircuitBreaker::new(CountBased::new(1), config, AlwaysFailure);
    assert!(cb.pre_call_at(0).is_ok());
    cb.post_call_at(CallOutcome::Failure, 10);
    assert_eq!(cb.state(), State::Open { until: 110 });
    cb
}

#[test]
fn open_rejects_until_deadline_then_admits_one_probe() {
    let mut cb = opened_breaker(1);
    assert!(matches!(cb.pre_call_at(109), Err(Error::CircuitOpen)));
    assert_eq!(cb.state(), State::Open { until: 110 });
    assert!(cb.pre_call_at(110).is_ok());
    assert_eq!(cb.state(), State::HalfOpen { n_successful_probes: 0, in_flight: true });
    assert!(matches!(cb.pre_call_at(111), Err(Error::ProbeInFlight)));
    assert_eq!(cb.state(), State::HalfOpen { n_successful_probes: 0, in_flight: true });
}

#[test]
fn successful_probe_closes_and_resets_policy() {
    let mut cb = opened_breaker(1);
    assert!(cb.pre_call_at(200).is_ok());
    cb.post_call_at(CallOutcome::Success, 201);
    assert_eq!(cb.state(), State::Closed);
    // the policy was reset: one more failure is needed to trip again
    assert!(cb.pre_call_at(202).is_ok());
    assert_eq!(cb.state(), State::Closed);
}

#[test]
fn failed_probe_reopens_for_open_duration() {
    let mut cb = opened_breaker(1);
    assert!(cb.pre_call_at(200).is_ok());
    cb.post_call_at(CallOutcome::Failure, 250);
    assert_eq!(cb.state(), State::Open { until: 350 });
}

#[test]
fn half_open_probes_successes_are_needed_to_close() {
    let mut cb = opened_breaker(3);
    assert!(cb.pre_call_at(200).is_ok());
    cb.post_call_at(CallOutcome::Success, 201);
    assert_eq!(cb.state(), State::HalfOpen { n_successful_probes: 1, in_flight: false });
    assert!(cb.pre_call_at(202).is_ok());
    cb.post_call_at(CallOutcome::Success, 203);
    assert_eq!(cb.state(), State::HalfOpen { n_successful_probes: 2, in_flight: false });
    assert!(cb.pre_call_at(204).is_ok());
    cb.post_call_at(CallOutcome::Success, 205);
    assert_eq!(cb.state(), State::Closed);
}

#[test]
fn failed_probe_after_successes_reopens() {
    let mut cb = opened_breaker(3);
    assert!(cb.pre_call_at(200).is_ok());
    cb.post_call_at(CallOutcome::Success, 201);
    assert!(cb.pre_call_at(202).is_ok());
    cb.post_call_at(CallOutcome::Failure, 203);
    assert_eq!(cb.state(), State::Open { until: 303 });
}

#[test]
fn ignored_error_is_not_counted_while_closed() {
    let config = Config::new("x");
    let mut cb: CircuitBreaker<std::io::Error, _, _> =
        CircuitBreaker::new(CountBased::new(1), config, NeverFailure);
    assert!(cb.pre_call_at(0).is_ok());
    cb.post_call_at(CallOutcome::Ignored, 1);
    assert_eq!(cb.state(), State::Closed);
}

#[test]
fn uncounted_error_of_first_probe_reopens() {
    let mut cb = opened_breaker(1);
    assert!(cb.pre_call_at(200).is_ok());
    cb.post_call_at(CallOutcome::Ignored, 201);
    assert_eq!(cb.state(), State::Open { until: 301 });
    assert!(matches!(cb.pre_call_at(202), Err(Error::CircuitOpen)));
    assert!(cb.pre_call_at(301).is_ok());
    assert_eq!(cb.state(), State::HalfOpen { n_successful_probes: 0, in_flight: true });
}

#[test]
fn uncounted_error_after_successful_probes_waits_for_next_probe() {
    let mut cb = opened_breaker(3);
    assert!(cb.pre_call_at(200).is_ok());
    cb.post_call_at(CallOutcome::Success, 201);
    assert!(cb.pre_call_at(202).is_ok());
    cb.post_call_at(CallOutcome::Ignored, 203);
    assert_eq!(cb.state(), State::HalfOpen { n_successful_probes: 1, in_flight: false });
    assert!(cb.pre_call_at(204).is_ok());
    assert_eq!(cb.state(), State::HalfOpen { n_successful_probes: 1, in_flight: true });
}

#[test]
fn uncounted_probe_error_does_not_block_later_calls() {
    let config = Config::new("p").open_duration(Duration::from_millis(1)).half_open_probes(1);
    let mut cb = CircuitBreaker::new(
        CountBased::new(1),
        config,
        MatchClassifier::new(|e: &std::io::Error| e.kind() == std::io::ErrorKind::Other),
    );
    let _ = cb.call_blocking(|| Err::<(), _>(test_error()));
    assert!(cb.is_open());
    wait(Duration::from_millis(10));
    let _ = cb.call_blocking(|| {
        Err::<(), _>(std::io::Error::new(std::io::ErrorKind::NotFound, "e"))
    });
    assert!(!matches!(cb.state(), State::HalfOpen { in_flight: true, .. }));
    let r = cb.call_blocking(|| Ok::<u32, std::io::Error>(1));
    assert!(!matches!(r, Err(Error::ProbeInFlight)));
}

#[test]
fn breaker_reports_room_for_failures() {
    let cb: CircuitBreaker<std::io::Error, _, _> =
        CircuitBreaker::new(CountBased::new(1), Config::new("x"), AlwaysFailure);
    assert!(cb.can_record_failure());
}

#[test]
fn service_error_converts_to_inner() {
    let e: Error<std::io::Error> = test_error().into();
    assert!(matches!(e, Error::Inner(ref inner) if inner.kind() == std::io::ErrorKind::Other));
}

#[test]
fn post_call_classifies_errors() {
    let mut cb = CircuitBreaker::new(
        CountBased::new(1),
        Config::new("x"),
        MatchClassifier::new(|e: &std::io::Error| e.kind() == std::io::ErrorKind::TimedOut),
    );
    assert!(cb.pre_call().is_ok());
    cb.post_call(&Err::<(), _>(test_error()));
    assert!(cb.is_closed());
    assert!(cb.pre_call().is_ok());
    cb.post_call(&Err::<(), _>(std::io::Error::new(std::io::ErrorKind::TimedOut, "slow")));
    assert!(cb.is_open());
}

#[test]
fn classify_then_record_outcome() {
    let mut cb = CircuitBreaker::new(CountBased::new(1), Config::new("x"), AlwaysFailure);
    assert!(cb.pre_call().is_ok());
    let result = Err::<(), _>(test_error());
    let outcome = cb.classify(&result);
    assert_eq!(outcome, CallOutcome::Failure);
    cb.record_outcome(outcome);
    assert!(cb.is_open());
    let ok: Result<u8, std::io::Error> = Ok(3);
    assert_eq!(cb.classify(&ok), CallOutcome::Success);
}

#[test]
fn sliding_window_breaker_stays_closed_below_threshold() {
    let mut cb = CircuitBreaker::new(
        SlidingWindow::new(2, Duration::from_secs(60)),
        Config::new("x"),
        AlwaysFailure,
    );
    let _ = cb.call_blocking(|| Err::<(), _>(test_error()));
    assert!(cb.is_closed());
    let _ = cb.call_blocking(|| Err::<(), _>(test_error()));
    assert!(cb.is_open());
}
