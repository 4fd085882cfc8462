//! The one place the library reads the clock. Nothing can be promised of
//! what the clock returns; everything that depends on the current second
//! has an exact core that takes it as an argument.

use vstd::prelude::*;

verus! {

#[verifier::external_type_specification]
#[verifier::external_body]
pub struct ExSystemTime(std::time::SystemTime);

#[verifier::external_type_specification]
#[verifier::external_body]
pub struct ExSystemTimeError(std::time::SystemTimeError);

pub assume_specification[ std::time::SystemTime::now ]() -> std::time::SystemTime;

pub assume_specification[ std::time::SystemTime::duration_since ](
    t: &std::time::SystemTime,
    earlier: std::time::SystemTime,
) -> Result<core::time::Duration, std::time::SystemTimeError>;

pub assume_specification[ core::time::Duration::as_secs ](d: &core::time::Duration) -> u64;

/// Relies on std::time::UNIX_EPOCH: the fixed reference instant.
#[verifier::external_body]
fn unix_epoch() -> std::time::SystemTime {
    std::time::UNIX_EPOCH
}

/// The current second since the epoch, as far as the system clock knows
/// it; a clock set before the epoch reads as zero. Nothing is assumed of
/// the value: callers hand it to functions that are verified for every
/// second.
pub fn now_unix_seconds() -> u64 {
    let now = std::time::SystemTime::now();
    match now.duration_since(unix_epoch()) {
        Ok(d) => d.as_secs(),
        Err(_) => 0,
    }
}

} // verus!
