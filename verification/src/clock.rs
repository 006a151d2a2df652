//! The wall clock.

use vstd::prelude::*;

verus! {

/// `chrono::Utc::now` and `DateTime::timestamp_millis`: the milliseconds
/// since the Unix epoch on the system clock. Nothing is claimed of the
/// value. On a machine whose clock stands before 1970 the call does not
/// return: the state of the machine is no input of the library.
#[verifier::external_body]
fn utc_timestamp_millis() -> i64 {
    chrono::Utc::now().timestamp_millis()
}

/// The reading of a clock in unsigned milliseconds: the reading itself
/// from the epoch on, zero for a reading before the epoch.
pub open spec fn clamped_millis(reading: i64) -> u64 {
    if reading < 0 {
        0
    } else {
        reading as u64
    }
}

/// The latest time that the clock can tell, in milliseconds.
pub const MAX_EPOCH_MS: u64 = 0x7fff_ffff_ffff_ffff;

/// Whether `ms` is a time that the clock can tell, in milliseconds.
pub open spec fn clock_ms(ms: u64) -> bool {
    ms <= MAX_EPOCH_MS
}

/// Whether `secs` is a time that the clock can tell, in whole seconds.
pub open spec fn clock_secs(secs: u64) -> bool {
    secs <= MAX_EPOCH_MS / 1000
}

/// The reading of a clock in unsigned milliseconds.
pub fn millis_from_reading(reading: i64) -> (ms: u64)
    ensures
        ms == clamped_millis(reading),
        ms <= MAX_EPOCH_MS,
{
    if reading < 0 {
        0
    } else {
        reading as u64
    }
}

/// The current time in milliseconds since the Unix epoch; zero for a clock
/// that stands before the epoch. The time is within what the signed
/// reading of the clock can tell.
pub fn now_epoch_ms() -> (ms: u64)
    ensures
        clock_ms(ms),
{
    millis_from_reading(utc_timestamp_millis())
}

/// The current time in whole seconds since the Unix epoch: the
/// milliseconds of the clock, rounded down.
pub fn now_epoch_secs() -> (secs: u64)
    ensures
        clock_secs(secs),
{
    now_epoch_ms() / 1000
}

} // verus!
