//! The clock of the scheme: seconds since the Unix epoch, and the window
//! within which a timestamp counts as fresh.

use vstd::prelude::*;
use std::time::{Duration, SystemTime, SystemTimeError};
use crate::error::AAKAError;

verus! {

/// How far, in seconds, a timestamp may lie from the reader's clock, in
/// either direction.
pub const ALLOWED_SKEW_SECONDS: u64 = 300;

/// Whether `timestamp` lies within the allowed skew of `now`.
pub open spec fn within_skew(now: u64, timestamp: u64) -> bool {
    if now >= timestamp {
        now - timestamp <= ALLOWED_SKEW_SECONDS
    } else {
        timestamp - now <= ALLOWED_SKEW_SECONDS
    }
}

/// `std::time::SystemTime`: a reading of the system clock.
#[verifier::external_type_specification]
#[verifier::external_body]
pub struct ExSystemTime(std::time::SystemTime);

/// `std::time::SystemTimeError`: what `duration_since` fails with.
#[verifier::external_type_specification]
#[verifier::external_body]
pub struct ExSystemTimeError(std::time::SystemTimeError);

/// `SystemTime::now`: the system clock's reading. Nothing is known of it.
pub assume_specification[ SystemTime::now ]() -> (r: SystemTime)
;

/// `SystemTime::duration_since`: the time from `earlier` to `t`, or an
/// error where `earlier` is the later of the two. Nothing is known of either.
pub assume_specification[ SystemTime::duration_since ](t: &SystemTime, earlier: SystemTime) -> (r:
    Result<Duration, SystemTimeError>)
;

/// `Duration::as_secs`: the whole seconds of a duration. Nothing is known
/// of them.
pub assume_specification[ Duration::as_secs ](d: &Duration) -> (r: u64)
;

/// `std::time::UNIX_EPOCH`: the instant from which timestamps count.
#[verifier::external_body]
fn unix_epoch() -> (r: SystemTime) {
    std::time::UNIX_EPOCH
}

/// Whether `timestamp` is fresh for a reader whose clock shows `now`.
pub fn is_fresh_at(now: u64, timestamp: u64) -> (r: bool)
    ensures
        r == within_skew(now, timestamp),
{
    let diff = if now >= timestamp {
        now - timestamp
    } else {
        timestamp - now
    };
    diff <= ALLOWED_SKEW_SECONDS
}

/// The seconds that have passed since the Unix epoch, by the system clock.
/// Fails with `CryptoError` where the clock stands before the epoch.
pub fn get_current_timestamp() -> (r: Result<u64, AAKAError>)
    ensures
        r is Err ==> r->Err_0 is CryptoError,
{
    let now = SystemTime::now();
    let elapsed = match now.duration_since(unix_epoch()) {
        Ok(elapsed) => Some(elapsed.as_secs()),
        Err(_) => None,
    };
    timestamp_from_elapsed(elapsed)
}

/// Whether `timestamp` is fresh by the system clock: within the allowed
/// skew of the clock's reading. Fails with `CryptoError` where the clock
/// stands before the epoch.
pub fn is_timestamp_fresh(timestamp: u64) -> (r: Result<bool, AAKAError>)
    ensures
        r is Err ==> r->Err_0 is CryptoError,
{
    match get_current_timestamp() {
        Ok(now) => Ok(is_fresh_at(now, timestamp)),
        Err(e) => Err(e),
    }
}

/// The timestamp for a reading of the clock: the seconds that have passed
/// since the epoch, where the clock stands at or after it. Where it stands
/// before, there is no reading, and the call fails with `CryptoError`.
pub fn timestamp_from_elapsed(elapsed: Option<u64>) -> (r: Result<u64, AAKAError>)
    ensures
        match elapsed {
            Some(seconds) => r == Ok::<u64, AAKAError>(seconds),
            None => r is Err && r->Err_0 is CryptoError,
        },
{
    match elapsed {
        Some(seconds) => Ok(seconds),
        None => Err(AAKAError::CryptoError("system time lies before the epoch".to_owned())),
    }
}

} // verus!
