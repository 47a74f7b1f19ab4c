//! The wall clock, read as whole seconds or milliseconds since the Unix
//! epoch. Nothing is known about a reading in advance, so the functions
//! that depend on one also come in a form that takes the reading as an
//! argument.

use std::time::{Duration, SystemTime, SystemTimeError};
use vstd::prelude::*;

verus! {

#[verifier::external_type_specification]
#[verifier::external_body]
pub struct ExSystemTime(SystemTime);

#[verifier::external_type_specification]
#[verifier::external_body]
pub struct ExSystemTimeError(SystemTimeError);

/// `SystemTime::now` reads the system clock; nothing is claimed of the value.
pub assume_specification[ SystemTime::now ]() -> (t: SystemTime)
;

/// `SystemTime::duration_since` gives the time elapsed since `earlier`, or an
/// error when `earlier` is the later of the two; nothing more is claimed.
pub assume_specification[ SystemTime::duration_since ](
    t: &SystemTime,
    earlier: SystemTime,
) -> (r: Result<Duration, SystemTimeError>)
;

/// `Duration::as_secs` gives the whole seconds of a duration; the duration
/// itself is opaque here, so nothing is claimed of the number.
pub assume_specification[ Duration::as_secs ](d: &Duration) -> (secs: u64)
;

/// `Duration::as_millis` gives the whole milliseconds of a duration; nothing
/// is claimed of the number.
pub assume_specification[ Duration::as_millis ](d: &Duration) -> (millis: u128)
;

/// The constant `std::time::UNIX_EPOCH`.
#[verifier::external_body]
fn unix_epoch() -> (t: SystemTime) {
    std::time::UNIX_EPOCH
}

/// Seconds since the Unix epoch, or zero when the clock stands before it.
pub fn unix_seconds() -> (secs: u64) {
    let now = SystemTime::now();
    match now.duration_since(unix_epoch()) {
        Ok(elapsed) => elapsed.as_secs(),
        Err(_) => 0,
    }
}

/// Milliseconds since the Unix epoch, or zero when the clock stands before it.
pub fn unix_millis() -> (millis: u128) {
    let now = SystemTime::now();
    match now.duration_since(unix_epoch()) {
        Ok(elapsed) => elapsed.as_millis(),
        Err(_) => 0,
    }
}

} // verus!
