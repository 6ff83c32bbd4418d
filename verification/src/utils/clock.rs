//! The monotonic clock. Everything here depends on the time at which it runs, so nothing is
//! promised of the values it hands back.

use std::time::{Duration, Instant};
use vstd::prelude::*;

verus! {

/// `std::time::Instant`, a point of the monotonic clock.
#[verifier::external_type_specification]
#[verifier::external_body]
pub struct ExInstant(Instant);

/// The current instant (`Instant::now`).
#[verifier::external_body]
pub(crate) fn instant_now() -> Instant {
    Instant::now()
}

/// `earlier` plus `delay` as `Instant::checked_add` computes it (`None` where the clock cannot
/// represent it).
pub uninterp spec fn instant_after(earlier: Instant, delay: Duration) -> Option<Instant>;

/// Whether one instant is before another (`Instant < Instant`).
pub uninterp spec fn instant_precedes(a: Instant, b: Instant) -> bool;

/// The time from one instant to a later one, as `Instant::duration_since` computes it.
pub uninterp spec fn time_between(later: Instant, earlier: Instant) -> Duration;

/// The length of a duration in nanoseconds (`Duration::as_nanos`).
pub uninterp spec fn duration_nanos(d: Duration) -> u128;

/// `earlier` plus `delay`, or `None` where the clock cannot represent it (`Instant::checked_add`):
/// a function of the two.
#[verifier::external_body]
pub(crate) fn instant_checked_add(earlier: &Instant, delay: Duration) -> (r: Option<Instant>)
    ensures
        r == instant_after(*earlier, delay),
{
    earlier.checked_add(delay)
}

/// Whether `a` is before `b` (`Instant < Instant`): a function of the two.
#[verifier::external_body]
pub(crate) fn instant_before(a: &Instant, b: &Instant) -> (r: bool)
    ensures
        r == instant_precedes(*a, *b),
{
    a < b
}

/// The time from `earlier` to `later`, zero if `later` is not after it
/// (`Instant::duration_since`): a function of the two.
#[verifier::external_body]
pub(crate) fn instant_duration_since(later: &Instant, earlier: &Instant) -> (r: Duration)
    ensures
        r == time_between(*later, *earlier),
{
    later.duration_since(*earlier)
}

/// A duration of `ms` milliseconds (`Duration::from_millis`): `ms` million nanoseconds.
#[verifier::external_body]
pub(crate) fn duration_from_millis(ms: u64) -> (r: Duration)
    ensures
        duration_nanos(r) == ms as u128 * 1_000_000,
{
    Duration::from_millis(ms)
}

/// Whether `a` is no longer than `b` (`Duration <= Duration`, which compares total lengths).
#[verifier::external_body]
pub(crate) fn duration_at_most(a: &Duration, b: &Duration) -> (r: bool)
    ensures
        r == (duration_nanos(*a) <= duration_nanos(*b)),
{
    a <= b
}

/// The whole milliseconds of a duration (`Duration::as_millis`).
#[verifier::external_body]
pub(crate) fn duration_as_millis(d: &Duration) -> (r: u128)
    ensures
        r == duration_nanos(*d) / 1_000_000,
{
    d.as_millis()
}

/// The whole seconds of a duration (`Duration::as_secs`).
#[verifier::external_body]
pub(crate) fn duration_secs(d: &Duration) -> (r: u64)
    ensures
        r == duration_nanos(*d) / 1_000_000_000,
{
    d.as_secs()
}

/// The nanoseconds of a duration beyond its whole seconds (`Duration::subsec_nanos`), always
/// less than one billion.
#[verifier::external_body]
pub(crate) fn duration_subsec_nanos(d: &Duration) -> (r: u32)
    ensures
        r == duration_nanos(*d) % 1_000_000_000,
        r < 1_000_000_000,
{
    d.subsec_nanos()
}

} // verus!
