use std::time::Duration;

use vstd::prelude::*;

verus! {

/// The length of a `Duration` in nanoseconds (the value `Duration::as_nanos`
/// gives). Every `Duration` is whole seconds that fit a `u64` plus fewer than
/// a billion nanoseconds.
pub uninterp spec fn duration_nanos(d: Duration) -> nat;

/// The longest representable `Duration`, in nanoseconds: `u64::MAX` seconds
/// and 999,999,999 nanoseconds.
pub open spec fn max_duration_nanos() -> nat {
    18_446_744_073_709_551_615nat * 1_000_000_000nat + 999_999_999nat
}

/// The whole milliseconds of a duration, as `Duration::as_millis` reports them.
pub open spec fn duration_millis(d: Duration) -> nat {
    duration_nanos(d) / 1_000_000
}

/// `Duration::as_millis`: the whole number of milliseconds in `d`.
#[verifier::external_body]
pub(crate) fn millis_of(d: &Duration) -> (ms: u128)
    ensures
        ms == duration_millis(*d),
{
    d.as_millis()
}

/// `Duration::checked_add`: the sum of two durations, `None` when the sum is
/// longer than the longest representable duration.
#[verifier::external_body]
pub(crate) fn checked_sum(a: Duration, b: Duration) -> (r: Option<Duration>)
    ensures
        r is Some <==> duration_nanos(a) + duration_nanos(b) <= max_duration_nanos(),
        r matches Some(c) ==> duration_nanos(c) == duration_nanos(a) + duration_nanos(b),
{
    a.checked_add(b)
}

/// `Duration::clone`: a copy of the duration (`Duration` is `Copy`).
pub assume_specification[ <Duration as Clone>::clone ](d: &Duration) -> (r: Duration)
    ensures
        r == *d,
;

/// `Duration::from_millis`: a duration of `ms` milliseconds.
#[verifier::external_body]
pub(crate) fn duration_from_millis(ms: u64) -> (d: Duration)
    ensures
        duration_nanos(d) == ms * 1_000_000,
{
    Duration::from_millis(ms)
}

/// `Duration::ZERO`: the empty duration.
#[verifier::external_body]
pub(crate) fn zero_duration() -> (z: Duration)
    ensures
        duration_nanos(z) == 0,
{
    Duration::ZERO
}

} // verus!
