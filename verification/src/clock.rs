//! The wall clock, in milliseconds.

use std::time::Duration;
use std::time::SystemTime;
use std::time::SystemTimeError;
use std::time::UNIX_EPOCH;
use vstd::prelude::*;

verus! {

/// `std::time::SystemTime`, a reading of the system clock.
#[verifier::external_type_specification]
#[verifier::external_body]
pub struct ExSystemTime(SystemTime);

/// `std::time::SystemTimeError`, the error of a `SystemTime` that lies
/// before the one it is measured from.
#[verifier::external_type_specification]
#[verifier::external_body]
pub struct ExSystemTimeError(SystemTimeError);

/// Assumed of `SystemTime::now`, which reads the system clock: that it
/// returns. Nothing is claimed of the reading: two of them may differ in
/// either direction.
pub assume_specification[ SystemTime::now ]() -> SystemTime;

/// Assumed of `Duration::as_millis`, which gives the whole milliseconds of
/// a duration: that it returns. Nothing is claimed of the number.
pub assume_specification[ Duration::as_millis ](duration: &Duration) -> u128;

/// Calls `SystemTime::duration_since` with the Unix epoch, which gives the
/// time elapsed since the epoch, or an error for a reading before it.
/// Nothing is claimed of either.
#[verifier::external_body]
fn since_epoch(time: &SystemTime) -> Result<Duration, SystemTimeError> {
    time.duration_since(UNIX_EPOCH)
}

/// The present time in milliseconds since the Unix epoch; zero for a clock
/// set before it.
pub(crate) fn now_ms() -> u64 {
    let elapsed = match since_epoch(&SystemTime::now()) {
        Ok(elapsed) => Some(elapsed.as_millis()),
        Err(_) => None,
    };
    stamp_of(elapsed)
}

/// The low 64 bits of a count of milliseconds.
pub open spec fn low_64_bits(millis: u128) -> u64 {
    (millis % 0x1_0000_0000_0000_0000) as u64
}

/// The time stamp for a clock that stands `elapsed_ms` milliseconds after
/// the Unix epoch, or before the epoch where there is no such count: the
/// low 64 bits of the count, or zero.
pub fn stamp_of(elapsed_ms: Option<u128>) -> (r: u64)
    ensures
        r == match elapsed_ms {
            Some(millis) => low_64_bits(millis),
            None => 0,
        },
{
    match elapsed_ms {
        Some(millis) => (millis % 0x1_0000_0000_0000_0000u128) as u64,
        None => 0,
    }
}

} // verus!
