//! The wall clock, in whole milliseconds since the Unix epoch.
use std::time::{Duration, SystemTime, SystemTimeError};

use vstd::prelude::*;

verus! {

#[verifier::external_type_specification]
#[verifier::external_body]
pub struct ExSystemTime(SystemTime);

#[verifier::external_type_specification]
#[verifier::external_body]
pub struct ExSystemTimeError(SystemTimeError);

/// Calls `SystemTime::now()`, the machine's wall clock. What it reads depends on the
/// machine, so nothing is stated of it.
#[verifier::external_body]
fn system_now() -> SystemTime {
    SystemTime::now()
}

/// Hands back `std::time::UNIX_EPOCH`, the instant 1970-01-01 00:00:00 UTC.
#[verifier::external_body]
fn unix_epoch() -> SystemTime {
    std::time::UNIX_EPOCH
}

/// Calls `SystemTime::duration_since`: the time from `earlier` to `t`, or an error where
/// `earlier` is later than `t`. The times are opaque here, so nothing is stated of which
/// comes back.
#[verifier::external_body]
fn duration_since(t: &SystemTime, earlier: &SystemTime) -> Result<Duration, SystemTimeError> {
    t.duration_since(*earlier)
}

/// Calls `Duration::as_millis`, the whole milliseconds in `d`. A `Duration` is opaque here,
/// so nothing is stated of the number.
#[verifier::external_body]
fn whole_millis(d: &Duration) -> u128 {
    d.as_millis()
}

/// The reading in milliseconds, or 0 where the clock stood before the epoch.
pub open spec fn millis_or_zero(reading: Option<u128>) -> u128 {
    match reading {
        Some(m) => m,
        None => 0,
    }
}

/// Turns a clock reading into the milliseconds stored in a proxy: 0 where the clock stood
/// before the epoch.
pub fn stored_millis(reading: Option<u128>) -> (r: u128)
    ensures
        r == millis_or_zero(reading),
{
    match reading {
        Some(m) => m,
        None => 0,
    }
}

/// The wall clock in whole milliseconds since the Unix epoch, or 0 where the clock stands
/// before the epoch. The reading depends on the machine.
pub fn now() -> u128 {
    let t = system_now();
    let epoch = unix_epoch();
    let reading = match duration_since(&t, &epoch) {
        Ok(d) => Some(whole_millis(&d)),
        Err(_) => None,
    };
    stored_millis(reading)
}

} // verus!
