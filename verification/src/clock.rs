//! Reading the wall clock, in milliseconds since the Unix epoch.
//!
//! Every operation of the board that needs the current time has a variant
//! that takes the time as an argument (the `_at` methods); the variants
//! without it read the clock here and hand the reading on.

use vstd::prelude::*;
use std::time::SystemTime;
use std::time::SystemTimeError;
use core::time::Duration;

verus! {

#[verifier::external_type_specification]
#[verifier::external_body]
pub struct ExSystemTime(std::time::SystemTime);

#[verifier::external_type_specification]
#[verifier::external_body]
pub struct ExSystemTimeError(std::time::SystemTimeError);

/// `std::time::SystemTime::now`: the current wall-clock time. Nothing is
/// claimed of the value, which depends on the machine's clock.
#[verifier::external_body]
fn system_now() -> (t: SystemTime) {
    SystemTime::now()
}

/// `std::time::SystemTime::duration_since` with `UNIX_EPOCH` as the earlier
/// time: the time elapsed since the epoch, or an error when `t` lies before
/// it. Nothing is claimed of the value, since `SystemTime` is opaque here.
#[verifier::external_body]
fn since_unix_epoch(t: &SystemTime) -> (r: Result<Duration, SystemTimeError>) {
    t.duration_since(std::time::UNIX_EPOCH)
}

/// `core::time::Duration::as_millis`: the whole milliseconds in `d`. Nothing
/// is claimed of the value, since `Duration` is opaque here.
#[verifier::external_body]
fn duration_millis(d: &Duration) -> (r: u128) {
    d.as_millis()
}

/// The millisecond count that a clock reading gives: the milliseconds
/// elapsed since the Unix epoch truncated to 64 bits, or 0 for a clock that
/// reads before the epoch (`None`).
pub open spec fn epoch_millis_spec(reading: Option<u128>) -> u64 {
    match reading {
        Some(m) => m as u64,
        None => 0,
    }
}

/// Turns a clock reading (milliseconds since the epoch, or `None` for a
/// clock set before the epoch) into the 64-bit millisecond count that the
/// board stamps on ticks.
pub fn epoch_millis_to_u64(reading: Option<u128>) -> (ms: u64)
    ensures
        ms == epoch_millis_spec(reading),
{
    match reading {
        Some(m) => m as u64,
        None => 0,
    }
}

/// The current time in milliseconds since the Unix epoch, truncated to 64
/// bits. A clock set before the epoch reads as 0.
///
/// Which reading it is depends on the machine's clock; what is promised is
/// how a reading becomes the result.
pub fn now_ms() -> (r: u64)
    ensures
        exists|reading: Option<u128>| r == #[trigger] epoch_millis_spec(reading),
{
    let now = system_now();
    let reading = match since_unix_epoch(&now) {
        Ok(d) => Some(duration_millis(&d)),
        Err(_) => None,
    };
    let r = epoch_millis_to_u64(reading);
    assert(r == epoch_millis_spec(reading));
    r
}

} // verus!
