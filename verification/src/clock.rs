//! The wall clock of std. Verus sees nothing of a time: what is read from the
//! clock is an arbitrary value.

use vstd::prelude::*;
use std::time::{Duration, SystemTime, SystemTimeError};

verus! {

/// `std::time::SystemTime`, carried as an opaque value.
#[verifier::external_type_specification]
#[verifier::external_body]
pub struct ExSystemTime(SystemTime);

/// `std::time::SystemTimeError`, carried as an opaque value.
#[verifier::external_type_specification]
#[verifier::external_body]
pub struct ExSystemTimeError(SystemTimeError);

/// `SystemTime::now` reads the clock. Nothing is claimed of the time read:
/// two readings may differ in either direction.
pub assume_specification[ SystemTime::now ]() -> (now: SystemTime);

/// `SystemTime::duration_since` returns the time from `earlier` to `time`,
/// or an error where `earlier` is the later of the two. Nothing is claimed
/// of which, nor of the duration.
pub assume_specification[ SystemTime::duration_since ](
    time: &SystemTime,
    earlier: SystemTime,
) -> (elapsed: Result<Duration, SystemTimeError>);

/// `Duration::as_millis` gives the whole milliseconds of a duration. Nothing
/// is claimed of their number.
pub assume_specification[ Duration::as_millis ](duration: &Duration) -> (millis: u128);

/// The constant `std::time::UNIX_EPOCH`.
#[verifier::external_body]
fn unix_epoch() -> (epoch: SystemTime) {
    std::time::UNIX_EPOCH
}

/// The present time in milliseconds since the Unix epoch, and zero where the
/// clock stands before the epoch.
pub(crate) fn now_millis() -> (millis: u128) {
    match SystemTime::now().duration_since(unix_epoch()) {
        Ok(elapsed) => elapsed.as_millis(),
        Err(_) => 0,
    }
}

} // verus!
