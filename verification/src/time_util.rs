//! Points in time and durations, through `std::time`.

use vstd::prelude::*;
use std::time::{Duration, Instant};

verus! {

#[verifier::external_type_specification]
#[verifier::external_body]
pub struct ExInstant(std::time::Instant);

/// `std::time::Instant::now()`: the current time. Nothing is stated of it.
#[verifier::external_body]
pub(crate) fn instant_now() -> (t: Instant) {
    Instant::now()
}

/// `std::time::Instant::elapsed`: the time since `t`. Nothing is stated of it.
#[verifier::external_body]
pub(crate) fn instant_elapsed(t: &Instant) -> (d: Duration) {
    t.elapsed()
}

/// `std::time::Duration::from_secs`: a duration of `secs` seconds. `Duration`
/// is opaque here, so nothing is stated of the result.
#[verifier::external_body]
pub(crate) fn duration_from_secs(secs: u64) -> (d: Duration) {
    Duration::from_secs(secs)
}

/// `std::time::Duration::from_millis`: a duration of `ms` milliseconds.
/// `Duration` is opaque here, so nothing is stated of the result.
#[verifier::external_body]
pub(crate) fn duration_from_millis(ms: u64) -> (d: Duration) {
    Duration::from_millis(ms)
}

/// `std::time::Duration::as_millis`: the whole milliseconds in `d`.
/// `Duration` is opaque here, so nothing is stated of the result.
#[verifier::external_body]
pub(crate) fn duration_as_millis(d: &Duration) -> (ms: u128) {
    d.as_millis()
}

/// `<Duration as PartialOrd>::gt`: whether `a` is longer than `b`. Durations
/// are opaque here, so nothing is stated of the result.
#[verifier::external_body]
pub(crate) fn duration_longer(a: &Duration, b: &Duration) -> (r: bool) {
    *a > *b
}

} // verus!
