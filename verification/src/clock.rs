//! Reading the clock. Nothing is stated of what the clock says: the
//! functions that decide by elapsed time take the elapsed milliseconds as an
//! argument and are verified for every value of it.

use std::time::{Duration, Instant, SystemTime};
use vstd::prelude::*;

verus! {

#[verifier::external_type_specification]
#[verifier::external_body]
pub struct ExInstant(Instant);

#[verifier::external_type_specification]
#[verifier::external_body]
pub struct ExSystemTime(SystemTime);

/// `Instant` is `Copy`: its clone is the same instant.
pub assume_specification[ <Instant as Clone>::clone ](t: &Instant) -> (r: Instant)
    ensures
        r == *t,
;

/// `Instant::now`.
#[verifier::external_body]
pub(crate) fn now() -> Instant {
    Instant::now()
}

/// `Instant::elapsed`.
#[verifier::external_body]
pub(crate) fn elapsed(t: &Instant) -> Duration {
    t.elapsed()
}

/// Whole milliseconds in a duration (`Duration::as_millis`).
pub uninterp spec fn millis_of(d: Duration) -> u128;

/// `Duration::as_millis`, whose result is named by `millis_of`.
#[verifier::external_body]
pub(crate) fn as_millis(d: &Duration) -> (r: u128)
    ensures
        r == millis_of(*d),
{
    d.as_millis()
}

/// `SystemTime::now`.
#[verifier::external_body]
pub(crate) fn system_now() -> SystemTime {
    SystemTime::now()
}

/// `SystemTime::duration_since(UNIX_EPOCH)`, `None` for a time before it.
#[verifier::external_body]
pub(crate) fn since_epoch(t: &SystemTime) -> Option<Duration> {
    t.duration_since(std::time::UNIX_EPOCH).ok()
}

/// Milliseconds since `t`.
pub(crate) fn millis_since(t: &Instant) -> u128 {
    let d = elapsed(t);
    as_millis(&d)
}

/// Milliseconds since the Unix epoch, 0 for a clock set before it.
pub(crate) fn unix_millis() -> u128 {
    match since_epoch(&system_now()) {
        Some(d) => as_millis(&d),
        None => 0,
    }
}

} // verus!
