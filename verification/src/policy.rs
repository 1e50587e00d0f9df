//! Failure policies: they count the failures that the breaker reports and
//! say when the breaker should open.
use std::collections::VecDeque;
use std::time::{Duration, Instant};
use vstd::prelude::*;

use crate::time::{clock_nanos, instant_now, nanos_of};

verus! {

broadcast use vstd::std_specs::vecdeque::group_vec_dequeue_axioms;

/// What a failure policy does, stated over its own spec functions.
///
/// Each step is a relation between the policy before and after it, so that a
/// policy may depend on the clock (as [`SlidingWindow`] does).
pub trait Policy: Sized {
    /// Whether the policy tells the breaker to open.
    spec fn opens(&self) -> bool;

    /// Whether a failure can be recorded without overflowing a counter.
    spec fn can_record_failure(&self) -> bool;

    /// `next` is a possible policy after a success is recorded on `self`.
    spec fn success_step(&self, next: &Self) -> bool;

    /// `next` is a possible policy after a failure is recorded on `self`.
    spec fn failure_step(&self, next: &Self) -> bool;

    /// `next` is a possible policy after `self` is reset.
    spec fn reset_step(&self, next: &Self) -> bool;

    /// Records a successful call.
    fn record_success(&mut self)
        ensures
            old(self).success_step(final(self)),
    ;

    /// Records a failed call.
    fn record_failure(&mut self)
        requires
            old(self).can_record_failure(),
        ensures
            old(self).failure_step(final(self)),
    ;

    /// Whether the breaker should open.
    fn should_open(&self) -> (r: bool)
        ensures
            r == self.opens(),
    ;

    /// Whether a failure can be recorded now.
    fn has_room_for_failure(&self) -> (r: bool)
        ensures
            r == self.can_record_failure(),
    ;

    /// Forgets every failure recorded so far.
    fn reset(&mut self)
        ensures
            old(self).reset_step(final(self)),
            final(self).can_record_failure(),
    ;
}

/// Opens after a number of failures: each failure adds one to a counter,
/// each success takes one away (down to zero), and the breaker opens once
/// the counter reaches the threshold.
pub struct CountBased {
    failures: u32,
    threshold: u32,
}

impl CountBased {
    /// The failures counted so far.
    pub closed spec fn failure_count(&self) -> u32 {
        self.failures
    }

    /// The number of failures at which the breaker opens.
    pub closed spec fn threshold_count(&self) -> u32 {
        self.threshold
    }

    /// A policy that has counted no failure yet and opens after `threshold`
    /// failures.
    pub fn new(threshold: u32) -> (p: Self)
        ensures
            p.failure_count() == 0,
            p.threshold_count() == threshold,
    {
        CountBased { threshold, failures: 0 }
    }
}

impl Policy for CountBased {
    open spec fn opens(&self) -> bool {
        self.failure_count() >= self.threshold_count()
    }

    open spec fn can_record_failure(&self) -> bool {
        self.failure_count() < u32::MAX
    }

    open spec fn success_step(&self, next: &Self) -> bool {
        &&& next.failure_count() == (if self.failure_count() == 0 {
            0
        } else {
            self.failure_count() - 1
        })
        &&& next.threshold_count() == self.threshold_count()
    }

    open spec fn failure_step(&self, next: &Self) -> bool {
        &&& next.failure_count() == self.failure_count() + 1
        &&& next.threshold_count() == self.threshold_count()
    }

    open spec fn reset_step(&self, next: &Self) -> bool {
        &&& next.failure_count() == 0
        &&& next.threshold_count() == self.threshold_count()
    }

    fn record_success(&mut self) {
        self.failures = self.failures.saturating_sub(1);
    }

    fn record_failure(&mut self) {
        self.failures = self.failures + 1;
    }

    fn should_open(&self) -> (r: bool) {
        self.failures >= self.threshold
    }

    fn has_room_for_failure(&self) -> (r: bool) {
        self.failures < u32::MAX
    }

    fn reset(&mut self) {
        self.failures = 0;
    }
}

/// Whether a failure recorded at `at` is still inside a window of `window`
/// nanoseconds that ends at `now`. A failure recorded after `now` has age 0.
pub open spec fn within_window(now: u128, window: u128, at: u128) -> bool {
    (if now >= at { now - at } else { 0 }) < window
}

/// `within_window` for the given end and length of the window, as a predicate
/// on failure times.
pub open spec fn recent(now: u128, window: u128) -> spec_fn(u128) -> bool {
    |at: u128| within_window(now, window, at)
}

/// Opens after a number of recent failures: a failure counts while it is
/// younger than the window, and the breaker opens once the failures in the
/// window reach the threshold.
pub struct SlidingWindow {
    failures: VecDeque<u128>,
    window: u128,
    threshold: u32,
    origin: Instant,
    last_reading: u128,
}

impl SlidingWindow {
    /// The times of the failures kept, newest first, in nanoseconds since
    /// the policy was made.
    pub closed spec fn failure_times(&self) -> Seq<u128> {
        self.failures@
    }

    /// The latest clock reading at which a failure was recorded through
    /// `record_failure`, in nanoseconds since the policy was made.
    pub closed spec fn last_reading(&self) -> u128 {
        self.last_reading
    }

    /// The length of the window in nanoseconds.
    pub closed spec fn window_nanos(&self) -> u128 {
        self.window
    }

    /// The number of recent failures at which the breaker opens.
    pub closed spec fn threshold_count(&self) -> u32 {
        self.threshold
    }

    /// `next` is `self` after a failure was recorded at time `now`: the
    /// failures that have left the window are dropped and `now` is put first.
    pub open spec fn failed_at(&self, next: &Self, now: u128) -> bool {
        &&& next.failure_times() == seq![now] + self.failure_times().filter(
            recent(now, self.window_nanos()),
        )
        &&& next.window_nanos() == self.window_nanos()
        &&& next.threshold_count() == self.threshold_count()
    }

    /// A policy with no failure yet, a window of `window` and a threshold of
    /// `threshold` failures.
    pub fn new(threshold: u32, window: Duration) -> (p: Self)
        ensures
            p.failure_times() == Seq::<u128>::empty(),
            p.window_nanos() == crate::time::duration_nanos(window),
            p.threshold_count() == threshold,
            p.last_reading() == 0,
    {
        SlidingWindow {
            threshold,
            window: nanos_of(window),
            failures: VecDeque::new(),
            origin: instant_now(),
            last_reading: 0,
        }
    }

    /// Records a failure that happened at time `now` (nanoseconds since the
    /// policy was made).
    pub fn record_failure_at(&mut self, now: u128)
        ensures
            old(self).failed_at(final(self), now),
            final(self).last_reading() == old(self).last_reading(),
    {
        let ghost keep = recent(now, self.window);
        let n: usize = self.failures.len();
        let mut kept: VecDeque<u128> = VecDeque::new();
        let mut i: usize = 0;
        while i < n
            invariant
                n == self.failures@.len(),
                i <= n,
                keep == recent(now, self.window),
                kept@ == self.failures@.take(i as int).filter(keep),
            decreases n - i,
        {
            let at: u128 = self.failures[i];
            let age: u128 = if now >= at {
                now - at
            } else {
                0
            };
            if age < self.window {
                kept.push_back(at);
            }
            proof {
                reveal(Seq::filter);
                assert(self.failures@.take(i + 1).drop_last() == self.failures@.take(i as int));
            }
            i = i + 1;
        }
        proof {
            assert(self.failures@.take(n as int) == self.failures@);
        }
        kept.push_front(now);
        self.failures = kept;
    }
}

impl Policy for SlidingWindow {
    open spec fn opens(&self) -> bool {
        self.failure_times().len() >= self.threshold_count()
    }

    open spec fn can_record_failure(&self) -> bool {
        true
    }

    open spec fn success_step(&self, next: &Self) -> bool {
        &&& next.failure_times() == self.failure_times()
        &&& next.window_nanos() == self.window_nanos()
        &&& next.threshold_count() == self.threshold_count()
        &&& next.last_reading() == self.last_reading()
    }

    /// The failure is recorded at a clock reading: the nanoseconds of the
    /// `Duration` that `Instant::elapsed` gives for the policy's origin, or
    /// the last reading if that is later. The reading becomes the last one.
    open spec fn failure_step(&self, next: &Self) -> bool {
        exists|now: u128|
            #[trigger] self.failed_at(next, now) && self.last_reading() <= now
                && next.last_reading() == now && (exists|elapsed: Duration|
                #[trigger] crate::time::duration_nanos(elapsed) <= crate::time::MAX_DURATION_NANOS
                    && now == (if crate::time::duration_nanos(elapsed) >= self.last_reading() {
                    crate::time::duration_nanos(elapsed)
                } else {
                    self.last_reading()
                }))
    }

    open spec fn reset_step(&self, next: &Self) -> bool {
        &&& next.failure_times() == Seq::<u128>::empty()
        &&& next.window_nanos() == self.window_nanos()
        &&& next.threshold_count() == self.threshold_count()
        &&& next.last_reading() == self.last_reading()
    }

    fn record_success(&mut self) {
    }

    fn record_failure(&mut self) {
        // The monotonic clock never goes back; should a reading be lower
        // than the last one all the same, the last one is kept.
        let reading: u128 = clock_nanos(&self.origin);
        let now: u128 = if reading >= self.last_reading {
            reading
        } else {
            self.last_reading
        };
        self.record_failure_at(now);
        self.last_reading = now;
        assert(old(self).failed_at(self, now));
    }

    fn should_open(&self) -> (r: bool) {
        self.failures.len() >= self.threshold as usize
    }

    fn has_room_for_failure(&self) -> (r: bool) {
        true
    }

    fn reset(&mut self) {
        self.failures.clear();
    }
}

/// A count-based policy trips after exactly `threshold` failures: along a
/// run of failures that starts from a fresh policy, the policy has counted
/// `i` failures after the `i`-th, and it opens exactly when `i` has reached
/// the threshold.
pub proof fn count_based_trips_at_threshold(run: Seq<CountBased>)
    requires
        run.len() > 0,
        run[0].failure_count() == 0,
        forall|i: int| 0 <= i < run.len() - 1 ==> #[trigger] run[i].failure_step(&run[i + 1]),
    ensures
        forall|i: int|
            0 <= i < run.len() ==> {
                &&& #[trigger] run[i].failure_count() == i
                &&& run[i].threshold_count() == run[0].threshold_count()
                &&& run[i].opens() <==> i >= run[0].threshold_count()
            },
    decreases run.len(),
{
    if run.len() > 1 {
        let shorter = run.drop_last();
        assert forall|i: int| 0 <= i < shorter.len() - 1 implies #[trigger] shorter[i].failure_step(
            &shorter[i + 1],
        ) by {
            assert(run[i].failure_step(&run[i + 1]));
        }
        count_based_trips_at_threshold(shorter);
        let k: int = run.len() - 2;
        assert(run[k].failure_step(&run[k + 1]));
        assert(shorter[k] == run[k]);
        assert forall|i: int| 0 <= i < run.len() implies {
            &&& #[trigger] run[i].failure_count() == i
            &&& run[i].threshold_count() == run[0].threshold_count()
            &&& run[i].opens() <==> i >= run[0].threshold_count()
        } by {
            if i < run.len() - 1 {
                assert(shorter[i] == run[i]);
            }
        }
    }
}

/// For a count-based policy, a success takes back a failure.
pub proof fn count_based_success_undoes_failure(a: CountBased, b: CountBased, c: CountBased)
    requires
        a.failure_step(&b),
        b.success_step(&c),
    ensures
        c.failure_count() == a.failure_count(),
        c.threshold_count() == a.threshold_count(),
        c.opens() == a.opens(),
{
}

/// A reset count-based policy has no failure left, and opens only if its
/// threshold is zero.
pub proof fn count_based_reset_forgets(a: CountBased, b: CountBased)
    requires
        a.reset_step(&b),
    ensures
        b.failure_count() == 0,
        b.opens() <==> b.threshold_count() == 0,
{
}

/// A sliding window keeps exactly the failures of the last `window`
/// nanoseconds: after a failure at `now`, it holds `now` followed by the
/// earlier failures that lie within the window, and so it opens exactly
/// when one more than the number of those reaches the threshold.
pub proof fn sliding_window_counts_recent_failures(a: SlidingWindow, b: SlidingWindow, now: u128)
    requires
        a.failed_at(&b, now),
    ensures
        b.failure_times()[0] == now,
        b.failure_times().len() == 1 + a.failure_times().filter(
            recent(now, a.window_nanos()),
        ).len(),
        forall|i: int|
            1 <= i < b.failure_times().len() ==> within_window(
                now,
                a.window_nanos(),
                #[trigger] b.failure_times()[i],
            ),
        b.opens() <==> 1 + a.failure_times().filter(recent(now, a.window_nanos())).len()
            >= a.threshold_count(),
{
    let kept = a.failure_times().filter(recent(now, a.window_nanos()));
    assert forall|i: int| 1 <= i < b.failure_times().len() implies within_window(
        now,
        a.window_nanos(),
        #[trigger] b.failure_times()[i],
    ) by {
        assert(b.failure_times()[i] == kept[i - 1]);
        a.failure_times().lemma_filter_pred(recent(now, a.window_nanos()), i - 1);
    }
}

/// Failures that all fall within one window are all counted: along a run of
/// failures recorded at non-decreasing times that span less than the window,
/// starting from an empty policy, the policy holds `i` failures after the
/// `i`-th and opens exactly when `i` has reached the threshold.
pub proof fn sliding_window_trips_within_window(run: Seq<SlidingWindow>, times: Seq<u128>)
    requires
        run.len() == times.len() + 1,
        run[0].failure_times().len() == 0,
        forall|i: int| 0 <= i < times.len() ==> #[trigger] run[i].failed_at(&run[i + 1], times[i]),
        forall|i: int, j: int| 0 <= i <= j < times.len() ==> times[i] <= times[j],
        times.len() > 0 ==> times.last() - times[0] < run[0].window_nanos(),
    ensures
        forall|i: int|
            0 <= i < run.len() ==> {
                &&& #[trigger] run[i].failure_times().len() == i
                &&& run[i].window_nanos() == run[0].window_nanos()
                &&& run[i].threshold_count() == run[0].threshold_count()
                &&& run[i].opens() <==> i >= run[0].threshold_count()
            },
    decreases times.len(),
{
    if times.len() > 0 {
        let k: int = times.len() - 1;
        let shorter = run.drop_last();
        let earlier = times.drop_last();
        assert forall|i: int| 0 <= i < earlier.len() implies #[trigger] shorter[i].failed_at(
            &shorter[i + 1],
            earlier[i],
        ) by {
            assert(run[i].failed_at(&run[i + 1], times[i]));
        }
        if earlier.len() > 0 {
            assert(earlier.last() - earlier[0] < run[0].window_nanos()) by {
                assert(times[k - 1] <= times[k]);
            }
        }
        sliding_window_trips_within_window(shorter, earlier);
        assert(shorter[k] == run[k]);
        let prev = run[k];
        let now: u128 = times[k];
        assert(prev.failed_at(&run[k + 1], now));
        // every failure that `prev` holds is one of the earlier times, so it
        // is still within the window at `now`
        recorded_times_within(shorter, earlier, k);
        let keep = recent(now, prev.window_nanos());
        assert forall|j: int| 0 <= j < prev.failure_times().len() implies keep(
            #[trigger] prev.failure_times()[j],
        ) by {
            let t: u128 = prev.failure_times()[j];
            let m: int = choose|m: int| 0 <= m < k && earlier[m] == t;
            assert(times[m] == t);
            assert(times[0] <= times[m]);
            assert(times[m] <= now);
        }
        filter_keeps_all(prev.failure_times(), keep);
        assert forall|i: int| 0 <= i < run.len() implies {
            &&& #[trigger] run[i].failure_times().len() == i
            &&& run[i].window_nanos() == run[0].window_nanos()
            &&& run[i].threshold_count() == run[0].threshold_count()
            &&& run[i].opens() <==> i >= run[0].threshold_count()
        } by {
            if i < run.len() - 1 {
                assert(shorter[i] == run[i]);
            }
        }
    }
}

/// Failures recorded through the clock that all fall within one window
/// are all counted: along a run of `record_failure` calls that starts from
/// an empty policy, where the first and the last failure were recorded less
/// than the window apart, the policy holds `i` failures after the `i`-th and
/// opens exactly when `i` has reached the threshold.
pub proof fn sliding_window_clock_failures_trip_within_window(run: Seq<SlidingWindow>)
    requires
        run.len() > 0,
        run[0].failure_times().len() == 0,
        forall|i: int| 0 <= i < run.len() - 1 ==> #[trigger] run[i].failure_step(&run[i + 1]),
        run.len() > 1 ==> run.last().last_reading() - run[1].last_reading()
            < run[0].window_nanos(),
    ensures
        forall|i: int|
            0 <= i < run.len() ==> {
                &&& #[trigger] run[i].failure_times().len() == i
                &&& run[i].window_nanos() == run[0].window_nanos()
                &&& run[i].threshold_count() == run[0].threshold_count()
                &&& run[i].opens() <==> i >= run[0].threshold_count()
            },
{
    let times = Seq::new((run.len() - 1) as nat, |i: int| run[i + 1].last_reading());
    assert forall|i: int| 0 <= i < times.len() implies #[trigger] run[i].failed_at(
        &run[i + 1],
        times[i],
    ) by {
        assert(run[i].failure_step(&run[i + 1]));
        let now: u128 = choose|now: u128|
            #[trigger] run[i].failed_at(&run[i + 1], now) && run[i].last_reading() <= now
                && run[i + 1].last_reading() == now;
    }
    assert forall|i: int, j: int| 0 <= i <= j < times.len() implies times[i] <= times[j] by {
        readings_never_go_back(run, j + 1);
    }
    if times.len() > 0 {
        assert(times.last() == run.last().last_reading());
        assert(times[0] == run[1].last_reading());
    }
    sliding_window_trips_within_window(run, times);
}

/// `record_failure` records a failure at the clock reading: the newest
/// failure time is the nanoseconds of the `Duration` that `Instant::elapsed`
/// gave for the policy's origin, or the last reading if that is later; it
/// is the new last reading, and it never goes back.
pub proof fn failure_is_recorded_at_clock_reading(a: SlidingWindow, b: SlidingWindow)
    requires
        a.failure_step(&b),
    ensures
        b.failure_times().len() > 0,
        b.failure_times()[0] == b.last_reading(),
        a.last_reading() <= b.last_reading(),
        exists|elapsed: Duration|
            #[trigger] crate::time::duration_nanos(elapsed) <= crate::time::MAX_DURATION_NANOS
                && b.last_reading() == (if crate::time::duration_nanos(elapsed)
                >= a.last_reading() {
                crate::time::duration_nanos(elapsed)
            } else {
                a.last_reading()
            }),
        b.window_nanos() == a.window_nanos(),
{
    let now: u128 = choose|now: u128|
        #[trigger] a.failed_at(&b, now) && a.last_reading() <= now && b.last_reading() == now
            && (exists|elapsed: Duration|
            #[trigger] crate::time::duration_nanos(elapsed) <= crate::time::MAX_DURATION_NANOS
                && now == (if crate::time::duration_nanos(elapsed) >= a.last_reading() {
                crate::time::duration_nanos(elapsed)
            } else {
                a.last_reading()
            }));
}

/// Along a run of `record_failure` calls the last reading never goes back.
proof fn readings_never_go_back(run: Seq<SlidingWindow>, j: int)
    requires
        0 <= j < run.len(),
        forall|i: int| 0 <= i < run.len() - 1 ==> #[trigger] run[i].failure_step(&run[i + 1]),
    ensures
        forall|i: int| 0 <= i <= j ==> (#[trigger] run[i]).last_reading() <= run[j].last_reading(),
    decreases j,
{
    if j > 0 {
        readings_never_go_back(run, j - 1);
        let k: int = j - 1;
        assert(run[k].failure_step(&run[k + 1]));
        let now: u128 = choose|now: u128|
            #[trigger] run[k].failed_at(&run[k + 1], now) && run[k].last_reading() <= now
                && run[k + 1].last_reading() == now;
    }
}

/// Every failure time held after a run of recorded failures is one of the
/// times at which they were recorded.
proof fn recorded_times_within(run: Seq<SlidingWindow>, times: Seq<u128>, k: int)
    requires
        run.len() == times.len() + 1,
        run[0].failure_times().len() == 0,
        forall|i: int| 0 <= i < times.len() ==> #[trigger] run[i].failed_at(&run[i + 1], times[i]),
        0 <= k < run.len(),
    ensures
        forall|j: int|
            0 <= j < run[k].failure_times().len() ==> exists|m: int|
                0 <= m < k && times[m] == #[trigger] run[k].failure_times()[j],
    decreases k,
{
    if k > 0 {
        recorded_times_within(run, times, k - 1);
        let i: int = k - 1;
        let prev = run[i];
        let now: u128 = times[i];
        assert(run[i].failed_at(&run[i + 1], times[i]));
        let kept = prev.failure_times().filter(recent(now, prev.window_nanos()));
        assert forall|j: int| 0 <= j < run[k].failure_times().len() implies exists|m: int|
            0 <= m < k && times[m] == #[trigger] run[k].failure_times()[j] by {
            if j == 0 {
                assert(times[k - 1] == run[k].failure_times()[0]);
            } else {
                assert(run[k].failure_times()[j] == kept[j - 1]);
                assert(prev.failure_times().filter(recent(now, prev.window_nanos())).contains(
                    kept[j - 1],
                ));
                lemma_filter_subset(prev.failure_times(), recent(now, prev.window_nanos()), j - 1);
                let jj: int = choose|jj: int|
                    0 <= jj < prev.failure_times().len() && prev.failure_times()[jj] == kept[j - 1];
                assert(prev.failure_times()[jj] == run[k].failure_times()[j]);
                let m: int = choose|m: int|
                    0 <= m < k - 1 && times[m] == #[trigger] prev.failure_times()[jj];
                assert(0 <= m < k && times[m] == run[k].failure_times()[j]);
            }
        }
    }
}

/// Every element of a filtered sequence comes from the sequence.
proof fn lemma_filter_subset(s: Seq<u128>, pred: spec_fn(u128) -> bool, i: int)
    requires
        0 <= i < s.filter(pred).len(),
    ensures
        exists|j: int| 0 <= j < s.len() && s[j] == s.filter(pred)[i],
    decreases s.len(),
{
    reveal(Seq::filter);
    let rest = s.drop_last().filter(pred);
    if pred(s.last()) && i == rest.len() {
        assert(s[s.len() - 1] == s.filter(pred)[i]);
    } else {
        assert(s.filter(pred)[i] == rest[i]);
        lemma_filter_subset(s.drop_last(), pred, i);
        let j: int = choose|j: int| 0 <= j < s.drop_last().len() && s.drop_last()[j] == rest[i];
        assert(s[j] == s.filter(pred)[i]);
    }
}

/// Filtering keeps a sequence whole when every element passes.
proof fn filter_keeps_all(s: Seq<u128>, pred: spec_fn(u128) -> bool)
    requires
        forall|j: int| 0 <= j < s.len() ==> pred(#[trigger] s[j]),
    ensures
        s.filter(pred) == s,
    decreases s.len(),
{
    reveal(Seq::filter);
    if s.len() > 0 {
        filter_keeps_all(s.drop_last(), pred);
        assert(pred(s[s.len() - 1]));
        assert(s.drop_last().push(s.last()) == s);
    }
}

} // verus!
