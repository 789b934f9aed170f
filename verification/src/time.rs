//! Lengths of time, as far as the crate reasons about them.
use std::time::Duration;
use vstd::prelude::*;

verus! {

/// The longest representable [`Duration`] in nanoseconds.
pub open spec fn max_nanos() -> nat {
    (u64::MAX * 1_000_000_000 + 999_999_999) as nat
}

/// The whole of a duration, counted in nanoseconds.
pub uninterp spec fn duration_nanos(d: Duration) -> nat;

/// The whole seconds of a duration.
pub open spec fn duration_secs(d: Duration) -> nat {
    duration_nanos(d) / 1_000_000_000
}

/// `Duration::from_secs` makes a duration of exactly that many seconds.
pub assume_specification[ Duration::from_secs ](secs: u64) -> (d: Duration)
    ensures
        duration_nanos(d) == secs * 1_000_000_000,
;

/// `Duration::from_millis` makes a duration of exactly that many milliseconds.
pub assume_specification[ Duration::from_millis ](millis: u64) -> (d: Duration)
    ensures
        duration_nanos(d) == millis * 1_000_000,
;

/// `Duration::as_secs` drops the part of the duration below one second.
pub assume_specification[ Duration::as_secs ](d: &Duration) -> (secs: u64)
    ensures
        secs == duration_secs(*d),
;

/// `Duration::checked_sub` gives `None` exactly when the result would be negative.
pub assume_specification[ Duration::checked_sub ](a: Duration, b: Duration) -> (r: Option<Duration>)
    ensures
        r is Some <==> duration_nanos(a) >= duration_nanos(b),
        r matches Some(d) ==> duration_nanos(d) == duration_nanos(a) - duration_nanos(b),
;

/// `Duration::checked_add` gives `None` exactly when the sum is too long for a duration.
pub assume_specification[ Duration::checked_add ](a: Duration, b: Duration) -> (r: Option<Duration>)
    ensures
        r is Some <==> duration_nanos(a) + duration_nanos(b) <= max_nanos(),
        r matches Some(d) ==> duration_nanos(d) == duration_nanos(a) + duration_nanos(b),
;

} // verus!
