//! The circuit breaker: it decides, from its state and its policy, whether a
//! call may run, and it updates both from the outcome of the call.
use std::marker::PhantomData;
use std::time::{Duration, Instant};
use vstd::prelude::*;

use crate::classifier::{AlwaysFailure, Classifier, NeverFailure};
use crate::config::Config;
use crate::error::Error;
use crate::policy::{CountBased, Policy, SlidingWindow};
use crate::state::{transition, State};
use crate::time::{clock_nanos, instant_now, MAX_DURATION_NANOS};

verus! {

/// How a call that ran ended, as the breaker counts it.
#[derive(Clone, Copy, Debug, PartialEq, Eq, Structural)]
pub enum CallOutcome {
    /// The call returned a value.
    Success,
    /// The call returned an error that the classifier counts as a failure.
    Failure,
    /// The call returned an error that the classifier does not count.
    Ignored,
}

/// The state after the outcome of a call is recorded, before the
/// transition: a successful probe adds one to the successful probes, a
/// failed probe clears them, and a probe whose error is not counted leaves
/// them as they are; in every case the probe has returned and no longer
/// runs.
pub open spec fn after_outcome(state: State, outcome: CallOutcome) -> State {
    match state {
        State::HalfOpen { n_successful_probes, in_flight } => match outcome {
            CallOutcome::Success => State::HalfOpen {
                n_successful_probes: (n_successful_probes + 1) as u32,
                in_flight: false,
            },
            CallOutcome::Failure => State::HalfOpen { n_successful_probes: 0, in_flight: false },
            CallOutcome::Ignored => State::HalfOpen { n_successful_probes, in_flight: false },
        },
        _ => state,
    }
}

/// The state in which a call is let through from `state` (after the
/// transition): a half-open breaker with no probe running starts one.
pub open spec fn admitted(state: State) -> State {
    match state {
        State::HalfOpen { n_successful_probes, in_flight } => State::HalfOpen {
            n_successful_probes,
            in_flight: true,
        },
        _ => state,
    }
}

/// Whether a call may run from `state` (after the transition): an open
/// breaker rejects it, and so does a half-open breaker whose probe is
/// running.
pub open spec fn admission<E>(state: State) -> Result<(), Error<E>> {
    match state {
        State::Open { .. } => Err(Error::CircuitOpen),
        State::HalfOpen { in_flight, .. } => if in_flight {
            Err(Error::ProbeInFlight)
        } else {
            Ok(())
        },
        State::Closed => Ok(()),
    }
}

/// What the breaker returns for the result of the wrapped call.
pub open spec fn lift<T, E>(result: Result<T, E>) -> Result<T, Error<E>> {
    match result {
        Ok(v) => Ok(v),
        Err(e) => Err(Error::Inner(e)),
    }
}

/// A circuit breaker: wraps calls to a service, counts their failures with
/// a policy `P`, tells failures from other errors with a classifier `C`,
/// and rejects calls while the service is deemed down.
pub struct CircuitBreaker<E, P: Policy, C: Classifier<E>> {
    state: State,
    policy: P,
    config: Config,
    classifier: C,
    origin: Instant,
    last_reading: u128,
    _phantom: PhantomData<E>,
}

impl<E, P: Policy, C: Classifier<E>> CircuitBreaker<E, P, C> {
    /// The state of the breaker.
    pub closed spec fn current_state(&self) -> State {
        self.state
    }

    /// The latest clock reading the breaker has acted on, in nanoseconds
    /// since it was made.
    pub closed spec fn last_reading(&self) -> u128 {
        self.last_reading
    }

    /// The failure policy in its current state.
    pub closed spec fn current_policy(&self) -> P {
        self.policy
    }

    /// The configuration.
    pub closed spec fn config_of(&self) -> Config {
        self.config
    }

    /// The classifier.
    pub closed spec fn classifier_of(&self) -> C {
        self.classifier
    }

    /// How many successful probes close the breaker.
    pub open spec fn probes(&self) -> u32 {
        self.config_of().probe_count()
    }

    /// How long the breaker stays open, in nanoseconds.
    pub open spec fn open_nanos(&self) -> u128 {
        crate::time::duration_nanos(self.config_of().open_duration_of())
    }

    /// The invariant of the breaker: a half-open breaker has fewer
    /// successful probes than it needs to close, unless it has none yet, and
    /// the last clock reading is within the range of a `Duration`. Every
    /// breaker made by `new` has it, and every method keeps it.
    pub open spec fn wf(&self) -> bool {
        &&& self.current_state() matches State::HalfOpen { n_successful_probes, .. } ==> (
        n_successful_probes < self.probes() || n_successful_probes == 0)
        &&& self.last_reading() <= MAX_DURATION_NANOS
    }

    /// Whether the breaker is half-open with a probe call running.
    pub open spec fn probe_running(&self) -> bool {
        self.current_state() matches State::HalfOpen { in_flight, .. } && in_flight
    }

    /// `next` has the configuration and classifier of `self`.
    pub open spec fn same_setup(&self, next: &Self) -> bool {
        &&& next.config_of() == self.config_of()
        &&& next.classifier_of() == self.classifier_of()
    }

    /// `next` is `self` after it decided, at time `now`, whether a call may
    /// run, and `r` is that decision: first the transition, then the
    /// admission.
    pub open spec fn pre_call_step(&self, next: &Self, r: Result<(), Error<E>>, now: u128) -> bool {
        let s = self.current_state();
        let after = crate::state::after_transition(
            s,
            self.current_policy().opens(),
            self.probes(),
            self.open_nanos(),
            now,
        );
        &&& now <= MAX_DURATION_NANOS
        &&& self.same_setup(next)
        &&& if crate::state::transition_resets(s, self.probes()) {
            &&& self.current_policy().reset_step(&next.current_policy())
            &&& next.current_policy().can_record_failure()
        } else {
            next.current_policy() == self.current_policy()
        }
        &&& next.current_state() == admitted(after)
        &&& r == admission::<E>(after)
    }

    /// `next` is `self` after the outcome of a call was recorded and the
    /// breaker took its transition at time `now`; `mid` is the policy after
    /// the outcome was recorded, before the transition.
    pub open spec fn post_call_via(
        &self,
        mid: P,
        next: &Self,
        outcome: CallOutcome,
        now: u128,
    ) -> bool {
        let p = self.current_policy();
        let s = after_outcome(self.current_state(), outcome);
        &&& now <= MAX_DURATION_NANOS
        &&& self.same_setup(next)
        &&& match outcome {
            CallOutcome::Success => p.success_step(&mid),
            CallOutcome::Failure => p.failure_step(&mid),
            CallOutcome::Ignored => mid == p,
        }
        &&& if crate::state::transition_resets(s, self.probes()) {
            &&& mid.reset_step(&next.current_policy())
            &&& next.current_policy().can_record_failure()
        } else {
            next.current_policy() == mid
        }
        &&& next.current_state() == crate::state::after_transition(
            s,
            mid.opens(),
            self.probes(),
            self.open_nanos(),
            now,
        )
    }

    /// `next` is `self` after the outcome of a call was recorded and the
    /// breaker took its transition at time `now`.
    pub open spec fn post_call_step(&self, next: &Self, outcome: CallOutcome, now: u128) -> bool {
        exists|mid: P| #[trigger] self.post_call_via(mid, next, outcome, now)
    }

    /// `outcome` is how the breaker may count `result`: a value is a
    /// success, and an error is a failure or is ignored, as the classifier
    /// answers.
    pub open spec fn classified<T>(&self, result: &Result<T, E>, outcome: CallOutcome) -> bool {
        match result {
            Ok(_) => outcome == CallOutcome::Success,
            Err(e) => {
                ||| outcome == CallOutcome::Failure && self.classifier_of().classifies(e, true)
                ||| outcome == CallOutcome::Ignored && self.classifier_of().classifies(e, false)
            },
        }
    }

    /// `next` is `self` after a call was rejected with the error in `r` at
    /// a clock reading no earlier than the last one, which became the last
    /// reading; the wrapped function did not run.
    pub open spec fn rejects_call<T>(&self, next: &Self, r: Result<T, Error<E>>) -> bool {
        exists|e: Error<E>, now: u128|
            #![trigger self.pre_call_step(next, Err(e), now)]
            self.pre_call_step(next, Err(e), now) && r == Err::<T, Error<E>>(e)
                && self.last_reading() <= now && next.last_reading() == now
                && (exists|elapsed: Duration|
                    #[trigger] crate::time::duration_nanos(elapsed) <= MAX_DURATION_NANOS && now == (
                    if crate::time::duration_nanos(elapsed) >= self.last_reading() {
                        crate::time::duration_nanos(elapsed)
                    } else {
                        self.last_reading()
                    }))
    }

    /// `next` is `self` after a call of `f` ran: the breaker let it through
    /// at time `now1`, which left it as `mid`; `f` returned `result`, which
    /// the breaker counted as `outcome` at time `now2`; and `r` is `result`
    /// with its error wrapped. The clock readings `now1` and `now2` never go
    /// back, and each becomes the last reading.
    pub open spec fn runs_call_via<T, F: FnOnce() -> Result<T, E>>(
        &self,
        f: F,
        mid: Self,
        now1: u128,
        result: Result<T, E>,
        outcome: CallOutcome,
        now2: u128,
        next: &Self,
        r: Result<T, Error<E>>,
    ) -> bool {
        &&& self.pre_call_step(&mid, Ok(()), now1)
        &&& self.last_reading() <= now1
        &&& mid.last_reading() == now1
        &&& now1 <= now2
        &&& next.last_reading() == now2
        &&& (exists|elapsed: Duration|
            #[trigger] crate::time::duration_nanos(elapsed) <= MAX_DURATION_NANOS && now1 == (
            if crate::time::duration_nanos(elapsed) >= self.last_reading() {
                crate::time::duration_nanos(elapsed)
            } else {
                self.last_reading()
            }))
        &&& (exists|elapsed: Duration|
            #[trigger] crate::time::duration_nanos(elapsed) <= MAX_DURATION_NANOS && now2 == (
            if crate::time::duration_nanos(elapsed) >= now1 {
                crate::time::duration_nanos(elapsed)
            } else {
                now1
            }))
        &&& f.ensures((), result)
        &&& mid.classified(&result, outcome)
        &&& mid.post_call_step(next, outcome, now2)
        &&& r == lift(result)
    }

    /// `next` is `self` after a call of `f` ran and returned `r`.
    pub open spec fn runs_call<T, F: FnOnce() -> Result<T, E>>(
        &self,
        f: F,
        next: &Self,
        r: Result<T, Error<E>>,
    ) -> bool {
        exists|mid: Self, now1: u128, result: Result<T, E>, outcome: CallOutcome, now2: u128|
            #[trigger] self.runs_call_via(f, mid, now1, result, outcome, now2, next, r)
    }

    /// A new breaker: closed, with the given policy, configuration and
    /// classifier.
    pub fn new(policy: P, config: Config, classifier: C) -> (b: Self)
        ensures
            b.wf(),
            b.current_state() == State::Closed,
            b.current_policy() == policy,
            b.config_of() == config,
            b.classifier_of() == classifier,
            b.last_reading() == 0,
    {
        CircuitBreaker {
            policy,
            config,
            classifier,
            state: State::Closed,
            origin: instant_now(),
            last_reading: 0,
            _phantom: PhantomData,
        }
    }

    /// The state of the breaker.
    pub fn state(&self) -> (s: State)
        ensures
            s == self.current_state(),
    {
        self.state
    }

    /// The classifier.
    pub fn classifier(&self) -> (c: &C)
        ensures
            *c == self.classifier_of(),
    {
        &self.classifier
    }

    /// Whether the policy can record one more failure, as `post_call`
    /// requires when the call ended in a counted failure.
    pub fn can_record_failure(&self) -> (r: bool)
        ensures
            r == self.current_policy().can_record_failure(),
    {
        self.policy.has_room_for_failure()
    }

    /// Whether the breaker is closed.
    pub fn is_closed(&self) -> (r: bool)
        ensures
            r == (self.current_state() is Closed),
    {
        match self.state {
            State::Closed => true,
            _ => false,
        }
    }

    /// Whether the breaker is open.
    pub fn is_open(&self) -> (r: bool)
        ensures
            r == (self.current_state() is Open),
    {
        match self.state {
            State::Open { .. } => true,
            _ => false,
        }
    }

    /// Whether the breaker is half-open.
    pub fn is_half_open(&self) -> (r: bool)
        ensures
            r == (self.current_state() is HalfOpen),
    {
        match self.state {
            State::HalfOpen { .. } => true,
            _ => false,
        }
    }

    /// Decides at time `now` whether a call may run: takes the transition
    /// that is due, then lets the call through (`Ok`) or rejects it.
    pub fn pre_call_at(&mut self, now: u128) -> (r: Result<(), Error<E>>)
        requires
            old(self).wf(),
            now <= MAX_DURATION_NANOS,
        ensures
            final(self).wf(),
            old(self).pre_call_step(final(self), r, now),
            final(self).last_reading() == old(self).last_reading(),
    {
        let probes: u32 = self.config.probes_value();
        let open_duration = self.config.open_duration_value();
        if let Some(next) = transition(&self.state, &mut self.policy, probes, open_duration, now) {
            self.state = next;
        }
        match self.state {
            State::Open { .. } => Err(Error::CircuitOpen),
            State::HalfOpen { n_successful_probes, in_flight } => {
                if in_flight {
                    Err(Error::ProbeInFlight)
                } else {
                    self.state = State::HalfOpen { n_successful_probes, in_flight: true };
                    Ok(())
                }
            },
            State::Closed => Ok(()),
        }
    }

    /// Records at time `now` how a call ended, then takes the transition
    /// that is due.
    pub fn post_call_at(&mut self, outcome: CallOutcome, now: u128)
        requires
            old(self).wf(),
            now <= MAX_DURATION_NANOS,
            outcome == CallOutcome::Failure ==> old(self).current_policy().can_record_failure(),
        ensures
            final(self).wf(),
            old(self).post_call_step(final(self), outcome, now),
            !final(self).probe_running(),
            final(self).last_reading() == old(self).last_reading(),
    {
        match outcome {
            CallOutcome::Success => {
                self.policy.record_success();
                if let State::HalfOpen { n_successful_probes, .. } = self.state {
                    self.state = State::HalfOpen {
                        n_successful_probes: n_successful_probes + 1,
                        in_flight: false,
                    };
                }
            },
            CallOutcome::Failure => {
                if let State::HalfOpen { .. } = self.state {
                    self.state = State::HalfOpen { n_successful_probes: 0, in_flight: false };
                }
                self.policy.record_failure();
            },
            CallOutcome::Ignored => {
                if let State::HalfOpen { n_successful_probes, .. } = self.state {
                    self.state = State::HalfOpen { n_successful_probes, in_flight: false };
                }
            },
        }
        let ghost mid = self.policy;
        let probes: u32 = self.config.probes_value();
        let open_duration = self.config.open_duration_value();
        if let Some(next) = transition(&self.state, &mut self.policy, probes, open_duration, now) {
            self.state = next;
        }
        assert(old(self).post_call_via(mid, self, outcome, now));
    }

    /// Decides, at the time of the call, whether a call may run: takes the
    /// transition that is due, then lets the call through (`Ok`) or rejects
    /// it.
    pub fn pre_call(&mut self) -> (r: Result<(), Error<E>>)
        requires
            old(self).wf(),
        ensures
            final(self).wf(),
            exists|now: u128|
                #[trigger] old(self).pre_call_step(final(self), r, now) && old(self).last_reading()
                    <= now && final(self).last_reading() == now,
            exists|elapsed: Duration|
                #[trigger] crate::time::duration_nanos(elapsed) <= MAX_DURATION_NANOS && final(self).last_reading() == (
                if crate::time::duration_nanos(elapsed) >= old(self).last_reading() {
                    crate::time::duration_nanos(elapsed)
                } else {
                    old(self).last_reading()
                }),
    {
        let now: u128 = self.read_clock();
        let ghost read = *self;
        let r = self.pre_call_at(now);
        assert(read.pre_call_step(self, r, now));
        assert(old(self).pre_call_step(self, r, now));
        r
    }

    /// Reads the clock: the nanoseconds of the `Duration` that
    /// `Instant::elapsed` gives for the breaker's origin. The monotonic clock
    /// never goes back, so the reading is never below the last one; should a
    /// reading be lower all the same, the last one is kept. The reading
    /// becomes the last reading.
    fn read_clock(&mut self) -> (now: u128)
        requires
            old(self).wf(),
        ensures
            final(self).wf(),
            old(self).last_reading() <= now,
            exists|elapsed: Duration|
                #[trigger] crate::time::duration_nanos(elapsed) <= MAX_DURATION_NANOS && now == (
                if crate::time::duration_nanos(elapsed) >= old(self).last_reading() {
                    crate::time::duration_nanos(elapsed)
                } else {
                    old(self).last_reading()
                }),
            final(self).last_reading() == now,
            final(self).current_state() == old(self).current_state(),
            final(self).current_policy() == old(self).current_policy(),
            old(self).same_setup(final(self)),
    {
        let reading: u128 = clock_nanos(&self.origin);
        let now: u128 = if reading >= self.last_reading {
            reading
        } else {
            self.last_reading
        };
        self.last_reading = now;
        now
    }

    /// Records how a call ended, as the classifier counts its result, then
    /// takes the transition that is due at the time of the call.
    pub fn post_call<T>(&mut self, result: &Result<T, E>)
        requires
            old(self).wf(),
            match result {
                Ok(_) => true,
                Err(e) => old(self).classifier_of().classifies(e, true)
                    ==> old(self).current_policy().can_record_failure(),
            },
        ensures
            final(self).wf(),
            exists|outcome: CallOutcome, now: u128|
                #![trigger old(self).post_call_step(final(self), outcome, now)]
                old(self).classified(result, outcome) && old(self).post_call_step(
                    final(self),
                    outcome,
                    now,
                ) && old(self).last_reading() <= now && final(self).last_reading() == now,
            exists|elapsed: Duration|
                #[trigger] crate::time::duration_nanos(elapsed) <= MAX_DURATION_NANOS && final(self).last_reading() == (
                if crate::time::duration_nanos(elapsed) >= old(self).last_reading() {
                    crate::time::duration_nanos(elapsed)
                } else {
                    old(self).last_reading()
                }),
            !final(self).probe_running(),
    {
        let outcome = self.classify(result);
        self.record_outcome(outcome);
    }

    /// How the breaker counts `result`: a value is a success, and an error
    /// is a failure or is ignored, as the classifier answers.
    pub fn classify<T>(&self, result: &Result<T, E>) -> (outcome: CallOutcome)
        ensures
            self.classified(result, outcome),
            result is Ok ==> outcome == CallOutcome::Success,
            result is Err ==> outcome != CallOutcome::Success,
    {
        match result {
            Ok(_) => CallOutcome::Success,
            Err(e) => if self.classifier.is_failure(e) {
                CallOutcome::Failure
            } else {
                CallOutcome::Ignored
            },
        }
    }

    /// Records, at the time of the call, how a call ended, then takes the
    /// transition that is due.
    pub fn record_outcome(&mut self, outcome: CallOutcome)
        requires
            old(self).wf(),
            outcome == CallOutcome::Failure ==> old(self).current_policy().can_record_failure(),
        ensures
            final(self).wf(),
            exists|now: u128|
                #[trigger] old(self).post_call_step(final(self), outcome, now) && old(
                    self,
                ).last_reading() <= now && final(self).last_reading() == now,
            exists|elapsed: Duration|
                #[trigger] crate::time::duration_nanos(elapsed) <= MAX_DURATION_NANOS && final(self).last_reading() == (
                if crate::time::duration_nanos(elapsed) >= old(self).last_reading() {
                    crate::time::duration_nanos(elapsed)
                } else {
                    old(self).last_reading()
                }),
            !final(self).probe_running(),
    {
        let now: u128 = self.read_clock();
        let ghost read = *self;
        self.post_call_at(outcome, now);
        let ghost mid = choose|mid: P| #[trigger] read.post_call_via(mid, self, outcome, now);
        assert(old(self).post_call_via(mid, self, outcome, now));
        assert(old(self).post_call_step(self, outcome, now));
    }

    /// Runs `f` through the breaker. The call is rejected with
    /// `CircuitOpen` while the breaker is open and with `ProbeInFlight`
    /// while a probe runs; otherwise `f` runs, its outcome is recorded, and
    /// its value is returned or its error wrapped in `Inner`.
    pub fn call_blocking<F, T>(&mut self, f: F) -> (r: Result<T, Error<E>>) where
        F: FnOnce() -> Result<T, E>,

        requires
            old(self).wf(),
            f.requires(()),
            forall|e: E|
                #[trigger] f.ensures((), Err::<T, E>(e)) && old(self).classifier_of().classifies(
                    &e,
                    true,
                ) ==> old(self).current_policy().can_record_failure(),
        ensures
            final(self).wf(),
            old(self).rejects_call(final(self), r) || old(self).runs_call(f, final(self), r),
            !(r is Ok || r matches Err(Error::Inner(_))) ==> old(self).rejects_call(final(self), r),
            old(self).last_reading() <= final(self).last_reading(),
    {
        let ghost start = *self;
        let decision = self.pre_call();
        let ghost now1 = choose|now: u128|
            #[trigger] start.pre_call_step(self, decision, now) && start.last_reading() <= now
                && self.last_reading() == now;
        match decision {
            Err(e) => {
                assert(start.pre_call_step(self, Err(e), now1) && start.last_reading() <= now1
                    && self.last_reading() == now1);
                return Err(e);
            },
            Ok(()) => {},
        }
        let ghost mid = *self;
        let result = f();
        let ghost res = result;
        self.post_call(&result);
        let ghost (outcome, now2) = choose|outcome: CallOutcome, now: u128|
            #![trigger mid.post_call_step(self, outcome, now)]
            mid.classified(&res, outcome) && mid.post_call_step(self, outcome, now)
                && mid.last_reading() <= now && self.last_reading() == now;
        let r = match result {
            Ok(v) => Ok(v),
            Err(e) => Err(Error::Inner(e)),
        };
        assert(start.runs_call_via(f, mid, now1, res, outcome, now2, self, r));
        r
    }
}

/// An open breaker rejects every call before its deadline with
/// `CircuitOpen`, and is left as it was.
pub proof fn open_rejects_before_deadline<E, P: Policy, C: Classifier<E>>(
    a: CircuitBreaker<E, P, C>,
    b: CircuitBreaker<E, P, C>,
    r: Result<(), Error<E>>,
    now: u128,
)
    requires
        a.pre_call_step(&b, r, now),
        a.current_state() matches State::Open { until } && now < until,
    ensures
        r == Err::<(), Error<E>>(Error::CircuitOpen),
        b.current_state() == a.current_state(),
        b.current_policy() == a.current_policy(),
{
}

/// Once its deadline has passed, an open breaker lets a probe call through
/// and is half-open with that probe running and no success yet.
pub proof fn open_admits_probe_after_deadline<E, P: Policy, C: Classifier<E>>(
    a: CircuitBreaker<E, P, C>,
    b: CircuitBreaker<E, P, C>,
    r: Result<(), Error<E>>,
    now: u128,
)
    requires
        a.pre_call_step(&b, r, now),
        a.current_state() matches State::Open { until } && now >= until,
    ensures
        r == Ok::<(), Error<E>>(()),
        b.current_state() == (State::HalfOpen { n_successful_probes: 0, in_flight: true }),
        b.current_policy() == a.current_policy(),
{
}

/// While a probe runs, a half-open breaker rejects every other call with
/// `ProbeInFlight`, and is left as it was.
pub proof fn running_probe_rejects_calls<E, P: Policy, C: Classifier<E>>(
    a: CircuitBreaker<E, P, C>,
    b: CircuitBreaker<E, P, C>,
    r: Result<(), Error<E>>,
    now: u128,
)
    requires
        a.pre_call_step(&b, r, now),
        a.current_state() matches State::HalfOpen { n_successful_probes, in_flight }
            && in_flight && n_successful_probes < a.probes(),
    ensures
        r == Err::<(), Error<E>>(Error::ProbeInFlight),
        b.current_state() == a.current_state(),
        b.current_policy() == a.current_policy(),
{
}

/// A closed breaker lets every call through and stays closed.
pub proof fn closed_admits_calls<E, P: Policy, C: Classifier<E>>(
    a: CircuitBreaker<E, P, C>,
    b: CircuitBreaker<E, P, C>,
    r: Result<(), Error<E>>,
    now: u128,
)
    requires
        a.pre_call_step(&b, r, now),
        a.current_state() == State::Closed,
        !a.current_policy().opens(),
    ensures
        r == Ok::<(), Error<E>>(()),
        b.current_state() == State::Closed,
        b.current_policy() == a.current_policy(),
{
}

/// A closed breaker opens, for the open duration, exactly when its policy
/// says so once the outcome of a call is recorded.
pub proof fn closed_opens_when_policy_says<E, P: Policy, C: Classifier<E>>(
    a: CircuitBreaker<E, P, C>,
    mid: P,
    b: CircuitBreaker<E, P, C>,
    outcome: CallOutcome,
    now: u128,
)
    requires
        a.post_call_via(mid, &b, outcome, now),
        a.current_state() == State::Closed,
    ensures
        b.current_policy() == mid,
        b.current_state() == (if mid.opens() {
            State::Open { until: (now + a.open_nanos()) as u128 }
        } else {
            State::Closed
        }),
{
}

/// An error that the classifier does not count leaves a closed breaker's
/// policy as it was.
pub proof fn ignored_error_is_not_counted<E, P: Policy, C: Classifier<E>>(
    a: CircuitBreaker<E, P, C>,
    b: CircuitBreaker<E, P, C>,
    now: u128,
)
    requires
        a.post_call_step(&b, CallOutcome::Ignored, now),
        a.current_state() == State::Closed,
    ensures
        b.current_policy() == a.current_policy(),
        b.current_state() is Closed <==> !a.current_policy().opens(),
{
    let mid = choose|mid: P| a.post_call_via(mid, &b, CallOutcome::Ignored, now);
}

/// A failed probe opens the breaker again for the open duration.
pub proof fn failed_probe_reopens<E, P: Policy, C: Classifier<E>>(
    a: CircuitBreaker<E, P, C>,
    b: CircuitBreaker<E, P, C>,
    now: u128,
)
    requires
        a.post_call_step(&b, CallOutcome::Failure, now),
        a.current_state() is HalfOpen,
        a.probes() > 0,
    ensures
        b.current_state() == (State::Open { until: (now + a.open_nanos()) as u128 }),
{
    let mid = choose|mid: P| a.post_call_via(mid, &b, CallOutcome::Failure, now);
}

/// A successful probe counts: the breaker closes, with its policy reset,
/// once `half_open_probes` probes have succeeded, and otherwise stays
/// half-open, with no probe running, waiting for the next one.
pub proof fn successful_probe_counts<E, P: Policy, C: Classifier<E>>(
    a: CircuitBreaker<E, P, C>,
    b: CircuitBreaker<E, P, C>,
    now: u128,
)
    requires
        a.wf(),
        a.post_call_step(&b, CallOutcome::Success, now),
        a.current_state() is HalfOpen,
    ensures
        ({
            let n: u32 = a.current_state()->n_successful_probes;
            if n + 1 >= a.probes() {
                &&& b.current_state() == State::Closed
                &&& exists|p: P| #[trigger] p.reset_step(&b.current_policy())
            } else {
                b.current_state() == (State::HalfOpen {
                    n_successful_probes: (n + 1) as u32,
                    in_flight: false,
                })
            }
        }),
{
    let mid = choose|mid: P| a.post_call_via(mid, &b, CallOutcome::Success, now);
    if a.current_state()->n_successful_probes + 1 >= a.probes() {
        assert(mid.reset_step(&b.current_policy()));
    }
}

/// `half_open_probes` successful probes close the breaker. Along a run of
/// calls that starts at an open breaker whose deadline has passed, where
/// each call is let through and succeeds, every call is let through; after
/// the `j`-th call fewer than `half_open_probes` have succeeded, the breaker
/// is half-open and waits for the next probe; after the last one it is
/// closed.
///
/// `run[2 * j]` is the breaker before the `j`-th call, `run[2 * j + 1]` the
/// breaker after it was let through (or not, as `admissions[j]` says) at
/// time `times[2 * j]`, and `run[2 * j + 2]` the breaker after its success
/// was recorded at time `times[2 * j + 1]`.
pub proof fn successful_probes_close<E, P: Policy, C: Classifier<E>>(
    run: Seq<CircuitBreaker<E, P, C>>,
    admissions: Seq<Result<(), Error<E>>>,
    times: Seq<u128>,
)
    requires
        run.len() > 0,
        run[0].probes() >= 1,
        admissions.len() == run[0].probes(),
        run.len() == 2 * admissions.len() + 1,
        times.len() == 2 * admissions.len(),
        run[0].current_state() matches State::Open { until } && times[0] >= until,
        forall|j: int|
            0 <= j < admissions.len() ==> {
                &&& run[2 * j].pre_call_step(&run[2 * j + 1], #[trigger] admissions[j], times[2 * j])
                &&& run[2 * j + 1].post_call_step(
                    &run[2 * j + 2],
                    CallOutcome::Success,
                    times[2 * j + 1],
                )
            },
    ensures
        forall|j: int| 0 <= j < admissions.len() ==> #[trigger] admissions[j] is Ok,
        forall|j: int|
            1 <= j < admissions.len() ==> (#[trigger] run[2 * j]).current_state() == (
            State::HalfOpen { n_successful_probes: j as u32, in_flight: false }),
        run.last().current_state() == State::Closed,
{
    let k: int = admissions.len() as int;
    successful_probes_prefix(run, admissions, times, k);
    assert(run.last() == run[2 * k]);
}

/// The first `rounds` rounds of `successful_probes_close`.
proof fn successful_probes_prefix<E, P: Policy, C: Classifier<E>>(
    run: Seq<CircuitBreaker<E, P, C>>,
    admissions: Seq<Result<(), Error<E>>>,
    times: Seq<u128>,
    rounds: int,
)
    requires
        run.len() > 0,
        run[0].probes() >= 1,
        admissions.len() == run[0].probes(),
        run.len() == 2 * admissions.len() + 1,
        times.len() == 2 * admissions.len(),
        run[0].current_state() matches State::Open { until } && times[0] >= until,
        forall|j: int|
            0 <= j < admissions.len() ==> {
                &&& run[2 * j].pre_call_step(&run[2 * j + 1], #[trigger] admissions[j], times[2 * j])
                &&& run[2 * j + 1].post_call_step(
                    &run[2 * j + 2],
                    CallOutcome::Success,
                    times[2 * j + 1],
                )
            },
        0 <= rounds <= admissions.len(),
    ensures
        forall|j: int| 0 <= j < rounds ==> #[trigger] admissions[j] is Ok,
        forall|j: int|
            1 <= j <= rounds && j < admissions.len() ==> (#[trigger] run[2 * j]).current_state()
                == (State::HalfOpen { n_successful_probes: j as u32, in_flight: false }),
        forall|j: int| 0 <= j <= rounds ==> (#[trigger] run[2 * j]).probes() == run[0].probes(),
        rounds == admissions.len() ==> run[2 * rounds].current_state() == State::Closed,
    decreases rounds,
{
    if rounds > 0 {
        let j: int = rounds - 1;
        successful_probes_prefix(run, admissions, times, j);
        let k: int = admissions.len() as int;
        let a = run[2 * j];
        let b = run[2 * j + 1];
        let c = run[2 * j + 2];
        assert(a.pre_call_step(&b, admissions[j], times[2 * j]));
        assert(b.post_call_step(&c, CallOutcome::Success, times[2 * j + 1]));
        let t: u128 = times[2 * j + 1];
        let mid = choose|mid: P| #[trigger] b.post_call_via(mid, &c, CallOutcome::Success, t);
        if j == 0 {
            assert(b.current_state() == (State::HalfOpen {
                n_successful_probes: 0,
                in_flight: true,
            }));
        } else {
            assert(a.current_state() == (State::HalfOpen {
                n_successful_probes: j as u32,
                in_flight: false,
            }));
            assert(b.current_state() == (State::HalfOpen {
                n_successful_probes: j as u32,
                in_flight: true,
            }));
        }
        assert(2 * rounds == 2 * j + 2);
        assert(run[2 * rounds] == c);
    }
}

/// A half-open breaker that waits for its next probe lets it through.
pub proof fn waiting_breaker_admits_next_probe<E, P: Policy, C: Classifier<E>>(
    a: CircuitBreaker<E, P, C>,
    b: CircuitBreaker<E, P, C>,
    r: Result<(), Error<E>>,
    now: u128,
)
    requires
        a.pre_call_step(&b, r, now),
        a.current_state() matches State::HalfOpen { n_successful_probes, in_flight }
            && !in_flight && 0 < n_successful_probes < a.probes(),
    ensures
        r == Ok::<(), Error<E>>(()),
        b.current_state() == (State::HalfOpen {
            n_successful_probes: a.current_state()->n_successful_probes,
            in_flight: true,
        }),
        b.current_policy() == a.current_policy(),
{
}

/// Once a call has returned and its outcome is recorded, no probe is
/// running, whatever the outcome: a success, a counted failure or an error
/// that the classifier does not count.
pub proof fn recorded_call_frees_probe_slot<E, P: Policy, C: Classifier<E>>(
    a: CircuitBreaker<E, P, C>,
    b: CircuitBreaker<E, P, C>,
    outcome: CallOutcome,
    now: u128,
)
    requires
        a.post_call_step(&b, outcome, now),
    ensures
        !b.probe_running(),
{
    let mid = choose|mid: P| a.post_call_via(mid, &b, outcome, now);
}

/// A probe whose error the classifier does not count frees the probe
/// slot: with no success yet the probe did not show recovery and the
/// breaker opens again for the open duration; after some successes the
/// breaker stays half-open and waits for the next probe.
pub proof fn uncounted_probe_error_frees_slot<E, P: Policy, C: Classifier<E>>(
    a: CircuitBreaker<E, P, C>,
    b: CircuitBreaker<E, P, C>,
    now: u128,
)
    requires
        a.post_call_step(&b, CallOutcome::Ignored, now),
        a.current_state() matches State::HalfOpen { n_successful_probes, .. }
            && n_successful_probes < a.probes(),
    ensures
        b.current_policy() == a.current_policy(),
        b.current_state() == (if a.current_state()->n_successful_probes == 0 {
            State::Open { until: (now + a.open_nanos()) as u128 }
        } else {
            State::HalfOpen {
                n_successful_probes: a.current_state()->n_successful_probes,
                in_flight: false,
            }
        }),
{
    let mid = choose|mid: P| a.post_call_via(mid, &b, CallOutcome::Ignored, now);
}

/// A breaker with no probe running never rejects a call with
/// `ProbeInFlight`; in particular the call after a recorded call is never
/// rejected for that reason.
pub proof fn no_running_probe_no_probe_in_flight<E, P: Policy, C: Classifier<E>>(
    a: CircuitBreaker<E, P, C>,
    b: CircuitBreaker<E, P, C>,
    r: Result<(), Error<E>>,
    now: u128,
)
    requires
        !a.probe_running(),
        a.pre_call_step(&b, r, now),
    ensures
        r != Err::<(), Error<E>>(Error::ProbeInFlight),
{
}

/// A closed breaker whose count-based policy has a threshold of at least
/// one has a policy that does not say open: after the outcome of a call is
/// recorded and after a call is let through.
pub proof fn closed_count_based_breaker_is_quiet<E, C: Classifier<E>>(
    a: CircuitBreaker<E, CountBased, C>,
    b: CircuitBreaker<E, CountBased, C>,
    outcome: CallOutcome,
    now: u128,
)
    requires
        a.post_call_step(&b, outcome, now),
        a.current_policy().threshold_count() >= 1,
        b.current_state() == State::Closed,
    ensures
        !b.current_policy().opens(),
{
    let mid = choose|mid: CountBased| a.post_call_via(mid, &b, outcome, now);
}

/// The same as `closed_count_based_breaker_is_quiet`, for a call that is
/// let through.
pub proof fn admitted_count_based_breaker_is_quiet<E, C: Classifier<E>>(
    a: CircuitBreaker<E, CountBased, C>,
    b: CircuitBreaker<E, CountBased, C>,
    r: Result<(), Error<E>>,
    now: u128,
)
    requires
        a.pre_call_step(&b, r, now),
        a.current_policy().threshold_count() >= 1,
        b.current_state() == State::Closed,
    ensures
        !b.current_policy().opens(),
{
}

/// A closed breaker whose sliding window has a threshold of at least one
/// has a policy that does not say open, after the outcome of a call is
/// recorded.
pub proof fn closed_sliding_window_breaker_is_quiet<E, C: Classifier<E>>(
    a: CircuitBreaker<E, SlidingWindow, C>,
    b: CircuitBreaker<E, SlidingWindow, C>,
    outcome: CallOutcome,
    now: u128,
)
    requires
        a.post_call_step(&b, outcome, now),
        a.current_policy().threshold_count() >= 1,
        b.current_state() == State::Closed,
    ensures
        !b.current_policy().opens(),
{
    let mid = choose|mid: SlidingWindow| a.post_call_via(mid, &b, outcome, now);
    if outcome == CallOutcome::Failure {
        let t: u128 = choose|t: u128|
            #[trigger] a.current_policy().failed_at(&mid, t) && a.current_policy().last_reading()
                <= t && mid.last_reading() == t;
    }
}

/// The same as `closed_sliding_window_breaker_is_quiet`, for a call that is
/// let through.
pub proof fn admitted_sliding_window_breaker_is_quiet<E, C: Classifier<E>>(
    a: CircuitBreaker<E, SlidingWindow, C>,
    b: CircuitBreaker<E, SlidingWindow, C>,
    r: Result<(), Error<E>>,
    now: u128,
)
    requires
        a.pre_call_step(&b, r, now),
        a.current_policy().threshold_count() >= 1,
        b.current_state() == State::Closed,
    ensures
        !b.current_policy().opens(),
{
}

/// No success makes a policy of type `P` say open when it did not.
pub open spec fn successes_keep_quiet<P: Policy>() -> bool {
    forall|p: P, q: P| !p.opens() && #[trigger] p.success_step(&q) ==> !q.opens()
}

/// Successes never make a count-based policy open.
pub proof fn count_based_successes_keep_quiet()
    ensures
        successes_keep_quiet::<CountBased>(),
{
}

/// Successes never make a sliding window open.
pub proof fn sliding_window_successes_keep_quiet()
    ensures
        successes_keep_quiet::<SlidingWindow>(),
{
}

/// A breaker whose classifier counts no error, and whose policy no
/// success makes open, stays closed: along a run of calls made with
/// `call_blocking` from a closed breaker whose policy does not say open,
/// every call runs, its result is the result of the wrapped function with
/// the error wrapped in `Inner`, and the breaker stays closed.
///
/// `run[i + 1]` is the breaker after the call of `calls[i]`, which returned
/// `results[i]`.
pub proof fn never_failure_breaker_stays_closed<E, P: Policy, T, F: FnOnce() -> Result<T, E>>(
    run: Seq<CircuitBreaker<E, P, NeverFailure>>,
    calls: Seq<F>,
    results: Seq<Result<T, Error<E>>>,
)
    requires
        successes_keep_quiet::<P>(),
        run.len() == calls.len() + 1,
        results.len() == calls.len(),
        run[0].current_state() == State::Closed,
        !run[0].current_policy().opens(),
        forall|i: int|
            0 <= i < calls.len() ==> run[i].rejects_call(&run[i + 1], #[trigger] results[i])
                || run[i].runs_call(calls[i], &run[i + 1], results[i]),
    ensures
        forall|i: int|
            0 <= i < run.len() ==> (#[trigger] run[i]).current_state() == State::Closed
                && !run[i].current_policy().opens(),
        forall|i: int|
            0 <= i < calls.len() ==> run[i].runs_call(calls[i], &run[i + 1], #[trigger] results[i]),
    decreases calls.len(),
{
    if calls.len() > 0 {
        let k: int = calls.len() - 1;
        never_failure_breaker_stays_closed(run.drop_last(), calls.drop_last(), results.drop_last());
        assert(run.drop_last()[k] == run[k]);
        assert(run[k].current_state() == State::Closed && !run[k].current_policy().opens());
        assert(run[k].rejects_call(&run[k + 1], results[k]) || run[k].runs_call(
            calls[k],
            &run[k + 1],
            results[k],
        ));
        never_failure_call_keeps_closed(run[k], calls[k], run[k + 1], results[k]);
        assert forall|i: int| 0 <= i < run.len() implies (#[trigger] run[i]).current_state()
            == State::Closed && !run[i].current_policy().opens() by {
            if i < run.len() - 1 {
                assert(run.drop_last()[i] == run[i]);
            }
        }
        assert forall|i: int| 0 <= i < calls.len() implies run[i].runs_call(
            calls[i],
            &run[i + 1],
            #[trigger] results[i],
        ) by {
            if i < k {
                assert(run.drop_last()[i] == run[i]);
                assert(run.drop_last()[i + 1] == run[i + 1]);
                assert(calls.drop_last()[i] == calls[i]);
                assert(results.drop_last()[i] == results[i]);
            }
        }
    }
}

/// One call of `never_failure_breaker_stays_closed`.
proof fn never_failure_call_keeps_closed<E, P: Policy, T, F: FnOnce() -> Result<T, E>>(
    a: CircuitBreaker<E, P, NeverFailure>,
    f: F,
    b: CircuitBreaker<E, P, NeverFailure>,
    r: Result<T, Error<E>>,
)
    requires
        successes_keep_quiet::<P>(),
        a.current_state() == State::Closed,
        !a.current_policy().opens(),
        a.rejects_call(&b, r) || a.runs_call(f, &b, r),
    ensures
        a.runs_call(f, &b, r),
        b.current_state() == State::Closed,
        !b.current_policy().opens(),
{
    if a.rejects_call(&b, r) {
        let (e, now) = choose|e: Error<E>, now: u128|
            #[trigger] a.pre_call_step(&b, Err(e), now) && r == Err::<T, Error<E>>(e);
        assert(false);
    }
    let (mid, now1, result, outcome, now2) = choose|
        mid: CircuitBreaker<E, P, NeverFailure>,
        now1: u128,
        result: Result<T, E>,
        outcome: CallOutcome,
        now2: u128,
    | #[trigger] a.runs_call_via(f, mid, now1, result, outcome, now2, &b, r);
    assert(mid.current_state() == State::Closed);
    assert(outcome != CallOutcome::Failure);
    let p = choose|p: P| #[trigger] mid.post_call_via(p, &b, outcome, now2);
    if outcome == CallOutcome::Success {
        assert(mid.current_policy().success_step(&p));
    }
}

/// With `AlwaysFailure`, every error of the wrapped call counts as a
/// failure.
pub proof fn always_failure_counts_every_error<E, P: Policy, T>(
    b: CircuitBreaker<E, P, AlwaysFailure>,
    e: E,
    outcome: CallOutcome,
)
    requires
        b.classified(&Err::<T, E>(e), outcome),
    ensures
        outcome == CallOutcome::Failure,
{
}

/// With `NeverFailure`, no error of the wrapped call counts as a failure.
pub proof fn never_failure_ignores_every_error<E, P: Policy, T>(
    b: CircuitBreaker<E, P, NeverFailure>,
    e: E,
    outcome: CallOutcome,
)
    requires
        b.classified(&Err::<T, E>(e), outcome),
    ensures
        outcome == CallOutcome::Ignored,
{
}

/// A call that returned a value counts as a success, in every state of
/// the breaker and whatever the classifier says of errors.
pub proof fn a_value_counts_as_success<E, P: Policy, C: Classifier<E>, T>(
    b: CircuitBreaker<E, P, C>,
    v: T,
    outcome: CallOutcome,
)
    requires
        b.classified(&Ok::<T, E>(v), outcome),
    ensures
        outcome == CallOutcome::Success,
{
}

/// A recorded success takes one failure back from a closed breaker's
/// count-based policy (down to zero), and keeps its threshold.
pub proof fn recorded_success_takes_back_a_failure<E, C: Classifier<E>>(
    a: CircuitBreaker<E, CountBased, C>,
    b: CircuitBreaker<E, CountBased, C>,
    now: u128,
)
    requires
        a.post_call_step(&b, CallOutcome::Success, now),
        a.current_state() == State::Closed,
    ensures
        b.current_policy().failure_count() == (if a.current_policy().failure_count() == 0 {
            0
        } else {
            a.current_policy().failure_count() - 1
        }),
        b.current_policy().threshold_count() == a.current_policy().threshold_count(),
{
    let mid = choose|mid: CountBased| #[trigger] a.post_call_via(mid, &b, CallOutcome::Success, now);
}

/// A call that ran returns what the wrapped function returned: its value,
/// or its error wrapped in `Inner`, whatever the classifier says of the
/// error; it is never reported as rejected.
pub proof fn a_call_that_ran_returns_its_result<E, P: Policy, C: Classifier<E>, T, F: FnOnce() -> Result<T, E>>(
    a: CircuitBreaker<E, P, C>,
    f: F,
    mid: CircuitBreaker<E, P, C>,
    now1: u128,
    result: Result<T, E>,
    outcome: CallOutcome,
    now2: u128,
    next: CircuitBreaker<E, P, C>,
    r: Result<T, Error<E>>,
)
    requires
        a.runs_call_via(f, mid, now1, result, outcome, now2, &next, r),
    ensures
        f.ensures((), result),
        result matches Ok(v) ==> r == Ok::<T, Error<E>>(v),
        result matches Err(e) ==> r == Err::<T, Error<E>>(Error::Inner(e)),
        r != Err::<T, Error<E>>(Error::CircuitOpen),
        r != Err::<T, Error<E>>(Error::ProbeInFlight),
{
}

/// A rejected call is reported as `CircuitOpen` when the breaker is open
/// and as `ProbeInFlight` when a probe runs, and the breaker is left in
/// that state.
pub proof fn a_rejected_call_reports_why<E, P: Policy, C: Classifier<E>, T>(
    a: CircuitBreaker<E, P, C>,
    next: CircuitBreaker<E, P, C>,
    r: Result<T, Error<E>>,
)
    requires
        a.rejects_call(&next, r),
    ensures
        r == Err::<T, Error<E>>(Error::CircuitOpen) ==> next.current_state() is Open,
        r == Err::<T, Error<E>>(Error::ProbeInFlight) ==> next.probe_running(),
        r == Err::<T, Error<E>>(Error::CircuitOpen) || r == Err::<T, Error<E>>(
            Error::ProbeInFlight,
        ),
{
    let (e, now) = choose|e: Error<E>, now: u128|
        #[trigger] a.pre_call_step(&next, Err(e), now) && r == Err::<T, Error<E>>(e)
            && a.last_reading() <= now && next.last_reading() == now && (exists|elapsed: Duration|
            #[trigger] crate::time::duration_nanos(elapsed) <= MAX_DURATION_NANOS && now == (
            if crate::time::duration_nanos(elapsed) >= a.last_reading() {
                crate::time::duration_nanos(elapsed)
            } else {
                a.last_reading()
            }));
}

/// A breaker that opens when the outcome of a call is recorded at time
/// `opened_at` stays open until `opened_at` plus the open duration: it is
/// open with that deadline, and it rejects every call made before it with
/// `CircuitOpen`. (Every `Duration` holds at most `MAX_DURATION_NANOS`
/// nanoseconds.)
pub proof fn opened_breaker_rejects_for_open_duration<E, P: Policy, C: Classifier<E>>(
    a: CircuitBreaker<E, P, C>,
    b: CircuitBreaker<E, P, C>,
    outcome: CallOutcome,
    opened_at: u128,
    c: CircuitBreaker<E, P, C>,
    r: Result<(), Error<E>>,
    now: u128,
)
    requires
        a.post_call_step(&b, outcome, opened_at),
        !(a.current_state() is Open),
        b.current_state() is Open,
        b.pre_call_step(&c, r, now),
        now < opened_at + a.open_nanos(),
        a.open_nanos() <= MAX_DURATION_NANOS,
    ensures
        b.current_state() == (State::Open { until: (opened_at + a.open_nanos()) as u128 }),
        r == Err::<(), Error<E>>(Error::CircuitOpen),
        c.current_state() == b.current_state(),
{
    let mid = choose|mid: P| #[trigger] a.post_call_via(mid, &b, outcome, opened_at);
}

} // verus!
