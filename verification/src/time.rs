//! Readings of the monotonic clock, as nanoseconds elapsed since a fixed
//! instant, and conversions of `Duration` to nanoseconds.
use std::time::{Duration, Instant};
use vstd::prelude::*;

verus! {

/// The largest number of nanoseconds that a `Duration` can hold:
/// `u64::MAX` whole seconds and 999 999 999 nanoseconds.
pub const MAX_DURATION_NANOS: u128 = 18_446_744_073_709_551_615_999_999_999u128;

#[verifier::external_type_specification]
#[verifier::external_body]
pub struct ExInstant(Instant);

/// The number of nanoseconds that a `Duration` holds, as
/// `Duration::as_nanos` computes it.
pub uninterp spec fn duration_nanos(d: Duration) -> u128;

/// Calls `Duration::as_nanos`. Trusted: the result is the named value
/// `duration_nanos(d)`, and it is at most `MAX_DURATION_NANOS`, since a
/// `Duration` is a `u64` count of seconds and fewer than 10^9 nanoseconds.
#[verifier::external_body]
pub(crate) fn nanos_of(d: Duration) -> (n: u128)
    ensures
        n == duration_nanos(d),
        n <= MAX_DURATION_NANOS,
{
    d.as_nanos()
}

/// Calls `Duration::from_secs`. Trusted: the duration holds exactly
/// `secs` seconds.
#[verifier::external_body]
pub(crate) fn duration_from_secs(secs: u64) -> (d: Duration)
    ensures
        duration_nanos(d) == secs * 1_000_000_000,
{
    Duration::from_secs(secs)
}

/// Calls `Instant::now`. Nothing is promised of the reading: it depends on
/// the time at which the call is made.
#[verifier::external_body]
pub(crate) fn instant_now() -> Instant {
    Instant::now()
}

/// Calls `Instant::elapsed`. Nothing is promised of the result: it depends
/// on the time at which the call is made.
#[verifier::external_body]
pub(crate) fn elapsed_since(origin: &Instant) -> Duration {
    origin.elapsed()
}

/// Nanoseconds elapsed since `origin`, read from the monotonic clock: the
/// nanoseconds held by the `Duration` that `Instant::elapsed` gave. Which
/// duration that is depends on the time of the call; the reading is at most
/// `MAX_DURATION_NANOS`.
pub(crate) fn clock_nanos(origin: &Instant) -> (t: u128)
    ensures
        exists|elapsed: Duration| #[trigger] duration_nanos(elapsed) == t,
        t <= MAX_DURATION_NANOS,
{
    nanos_of(elapsed_since(origin))
}

} // verus!
