//! Reading the wall clock as seconds since the UNIX epoch.

use vstd::prelude::*;

use std::time::{Duration, SystemTime, SystemTimeError};

verus! {

#[verifier::external_type_specification]
#[verifier::external_body]
pub struct ExSystemTime(SystemTime);

#[verifier::external_type_specification]
#[verifier::external_body]
pub struct ExSystemTimeError(SystemTimeError);

/// `std::time::SystemTime::now()`: the machine's clock, of which nothing is
/// stated.
#[verifier::external_body]
fn system_now() -> (r: SystemTime) {
    SystemTime::now()
}

/// `SystemTime::duration_since(UNIX_EPOCH)`: the time elapsed since the
/// epoch, or an error when `t` is earlier. Nothing is stated of either: the
/// value depends on the clock that gave `t`.
#[verifier::external_body]
fn since_unix_epoch(t: &SystemTime) -> (r: Result<Duration, SystemTimeError>) {
    t.duration_since(std::time::UNIX_EPOCH)
}

/// `Duration::as_secs`: the whole seconds of the duration. The duration is
/// opaque here, so nothing is stated of the number.
pub assume_specification[ Duration::as_secs ](d: &Duration) -> u64;

/// Seconds since the UNIX epoch on the system clock, or `None` when the clock
/// reads earlier than the epoch.
pub(crate) fn unix_time_now() -> (r: Option<u64>) {
    match since_unix_epoch(&system_now()) {
        Ok(elapsed) => Some(elapsed.as_secs()),
        Err(_) => None,
    }
}

} // verus!
