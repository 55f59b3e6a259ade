//! The clock readings that heartbeat tracking needs, from `std::time`.
use vstd::prelude::*;
use std::time::{Duration, Instant};

verus! {

/// `std::time::Instant`, carried through opaquely as a heartbeat timestamp.
#[verifier::external_type_specification]
#[verifier::external_body]
pub struct ExInstant(Instant);

/// The whole number of nanoseconds that a `Duration` spans, as
/// `Duration::as_nanos` returns it.
pub uninterp spec fn duration_nanos(d: Duration) -> nat;

/// Calls `Instant::now`. The reading depends on the clock: nothing is
/// promised of it.
#[verifier::external_body]
pub(crate) fn now() -> (t: Instant) {
    Instant::now()
}

/// The time from `earlier` to `later`, or zero where `earlier` is the later of
/// the two, as `Instant::saturating_duration_since` returns it.
pub uninterp spec fn instant_since(later: Instant, earlier: Instant) -> Duration;

/// Calls `Instant::saturating_duration_since`: the time from `earlier` to
/// `later`, a function of the two instants alone; it does not panic.
#[verifier::external_body]
pub(crate) fn since(later: &Instant, earlier: &Instant) -> (d: Duration)
    ensures
        d == instant_since(*later, *earlier),
{
    later.saturating_duration_since(*earlier)
}

/// Calls `Duration::as_nanos`, which returns the total number of whole
/// nanoseconds in `d`.
#[verifier::external_body]
pub(crate) fn nanos_of(d: &Duration) -> (n: u128)
    ensures
        n as nat == duration_nanos(*d),
{
    d.as_nanos()
}

/// Calls `Duration::from_secs`, which makes a duration of `secs` whole seconds;
/// its nanosecond count is `secs * 1_000_000_000`.
#[verifier::external_body]
pub(crate) fn from_secs(secs: u64) -> (d: Duration)
    ensures
        duration_nanos(d) == secs * 1_000_000_000,
{
    Duration::from_secs(secs)
}

} // verus!
