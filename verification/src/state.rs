//! The states of the breaker and the transitions between them.
use std::time::Duration;
use vstd::prelude::*;

use crate::policy::Policy;
use crate::time::{nanos_of, MAX_DURATION_NANOS};

verus! {

/// The state of a breaker. Times are nanoseconds on the breaker's clock.
#[derive(Clone, Copy, Debug, PartialEq, Eq, Structural)]
pub enum State {
    /// Calls are rejected until the clock reaches `until`.
    Open { until: u128 },
    /// Probe calls test whether the service has recovered:
    /// `n_successful_probes` probes have succeeded so far, and `in_flight`
    /// tells whether a probe is running now.
    HalfOpen { n_successful_probes: u32, in_flight: bool },
    /// Calls pass through and failures are counted.
    Closed,
}

/// The state that `state` moves to at time `now`, if it moves: `opens` is
/// what the policy says, `probes` the number of successful probes that close
/// the breaker and `open_nanos` how long the breaker stays open.
///
/// - an open breaker becomes half-open once `now` reaches its deadline;
/// - a half-open breaker closes once `probes` probes have succeeded, and
///   opens again when its probe failed (no success and no probe running);
/// - a closed breaker opens when the policy says so.
pub open spec fn transition_spec(
    state: State,
    opens: bool,
    probes: u32,
    open_nanos: u128,
    now: u128,
) -> Option<State> {
    match state {
        State::Open { until } => {
            if now >= until {
                Some(State::HalfOpen { n_successful_probes: 0, in_flight: false })
            } else {
                None
            }
        },
        State::HalfOpen { n_successful_probes, in_flight } => {
            if n_successful_probes >= probes {
                Some(State::Closed)
            } else if !in_flight && n_successful_probes == 0 {
                Some(State::Open { until: (now + open_nanos) as u128 })
            } else {
                None
            }
        },
        State::Closed => {
            if opens {
                Some(State::Open { until: (now + open_nanos) as u128 })
            } else {
                None
            }
        },
    }
}

/// Whether the transition from `state` resets the policy: it does exactly
/// when a half-open breaker closes.
pub open spec fn transition_resets(state: State, probes: u32) -> bool {
    state matches State::HalfOpen { n_successful_probes, .. } && n_successful_probes >= probes
}

/// The state after the transition: the new state if there is one, else
/// `state` itself.
pub open spec fn after_transition(
    state: State,
    opens: bool,
    probes: u32,
    open_nanos: u128,
    now: u128,
) -> State {
    match transition_spec(state, opens, probes, open_nanos, now) {
        Some(next) => next,
        None => state,
    }
}

/// The transition that the breaker takes from `state` at time `now`, or
/// `None` if it stays. When a half-open breaker closes, `policy` is reset;
/// otherwise it is left as it is.
pub fn transition<P: Policy>(
    state: &State,
    policy: &mut P,
    half_open_probes: u32,
    open_duration: Duration,
    now: u128,
) -> (r: Option<State>)
    requires
        now <= MAX_DURATION_NANOS,
    ensures
        r == transition_spec(
            *state,
            old(policy).opens(),
            half_open_probes,
            crate::time::duration_nanos(open_duration),
            now,
        ),
        transition_resets(*state, half_open_probes) ==> old(policy).reset_step(final(policy))
            && final(policy).can_record_failure(),
        !transition_resets(*state, half_open_probes) ==> *final(policy) == *old(policy),
{
    match state {
        State::Open { until } => {
            if now >= *until {
                Some(State::HalfOpen { n_successful_probes: 0, in_flight: false })
            } else {
                None
            }
        },
        State::HalfOpen { n_successful_probes, in_flight } => {
            if *n_successful_probes >= half_open_probes {
                policy.reset();
                Some(State::Closed)
            } else if !*in_flight && *n_successful_probes == 0 {
                Some(State::Open { until: now + nanos_of(open_duration) })
            } else {
                None
            }
        },
        State::Closed => {
            if policy.should_open() {
                Some(State::Open { until: now + nanos_of(open_duration) })
            } else {
                None
            }
        },
    }
}

} // verus!
