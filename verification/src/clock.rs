//! Wall-clock time of the running process (`std::time`), used for
//! deadlines and for measuring how long a check took.
use vstd::prelude::*;
use std::time::Instant;
use core::time::Duration;

verus! {

/// A point in time (`std::time::Instant`).
#[verifier::external_type_specification]
#[verifier::external_body]
pub struct ExInstant(Instant);

/// Cloning a `Duration` (a `Copy` type) gives the same duration.
pub assume_specification[ <core::time::Duration as Clone>::clone ](d: &Duration) -> (r: Duration)
    ensures
        r == *d,
;

/// The current instant (`Instant::now`).
#[verifier::external_body]
pub(crate) fn now() -> Instant {
    Instant::now()
}

/// Time elapsed since `start` (`Instant::elapsed`).
#[verifier::external_body]
pub(crate) fn elapsed(start: &Instant) -> Duration {
    start.elapsed()
}

/// The instant `timeout` from now, when representable (`Instant::checked_add`).
#[verifier::external_body]
pub(crate) fn deadline_after(timeout: Duration) -> Option<Instant> {
    Instant::now().checked_add(timeout)
}

/// Whether the given deadline has passed (`Instant::now() >= deadline`).
#[verifier::external_body]
pub(crate) fn deadline_passed(deadline: &Instant) -> bool {
    Instant::now() >= *deadline
}

/// The duration of `secs` seconds and `nanos` nanoseconds, `nanos` below
/// one second: what `Duration::new(secs, nanos)` gives.
pub uninterp spec fn duration_of(secs: u64, nanos: u32) -> Duration;

/// A `Duration` of seconds and sub-second nanoseconds (`Duration::new`,
/// which panics only when carrying the nanoseconds into the seconds
/// overflows, impossible below one second).
#[verifier::external_body]
pub(crate) fn duration_new(secs: u64, nanos: u32) -> (r: Duration)
    requires
        nanos < 1_000_000_000,
    ensures
        r == duration_of(secs, nanos),
{
    Duration::new(secs, nanos)
}

/// Seconds as a `Duration` (`Duration::from_secs`): the duration of that
/// many whole seconds.
#[verifier::external_body]
pub(crate) fn duration_from_secs(secs: u64) -> (r: Duration)
    ensures
        r == duration_of(secs, 0),
{
    Duration::from_secs(secs)
}

/// Milliseconds as a `Duration` (`Duration::from_millis`): the whole
/// seconds and the remaining milliseconds as nanoseconds.
#[verifier::external_body]
pub(crate) fn duration_from_millis(millis: u64) -> (r: Duration)
    ensures
        r == duration_of(millis / 1000, ((millis % 1000) * 1_000_000) as u32),
{
    Duration::from_millis(millis)
}

/// Whole milliseconds of a `Duration` (`Duration::as_millis`).
#[verifier::external_body]
pub(crate) fn duration_as_millis(d: &Duration) -> (r: u128)
    ensures
        forall|secs: u64, nanos: u32| nanos < 1_000_000_000 && *d == #[trigger] duration_of(secs, nanos)
            ==> r == (secs * 1_000_000_000 + nanos) / 1_000_000,
{
    d.as_millis()
}

/// Total nanoseconds of a `Duration` (`Duration::as_nanos`).
#[verifier::external_body]
pub(crate) fn duration_as_nanos(d: &Duration) -> (r: u128)
    ensures
        forall|secs: u64, nanos: u32| nanos < 1_000_000_000 && *d == #[trigger] duration_of(secs, nanos)
            ==> r == secs * 1_000_000_000 + nanos,
{
    d.as_nanos()
}

} // verus!
