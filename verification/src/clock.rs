//! The wall clock.
use vstd::prelude::*;
use std::time::{Duration, SystemTime, SystemTimeError};
use crate::error::SolidError;

verus! {

/// A reading of the system clock.
#[verifier::external_type_specification]
#[verifier::external_body]
pub struct ExSystemTime(std::time::SystemTime);

/// The difference of two readings that are the wrong way round.
#[verifier::external_type_specification]
#[verifier::external_body]
pub struct ExSystemTimeError(std::time::SystemTimeError);

/// How far a reading stands behind the Unix epoch, as told by `std`; none if it
/// stands before it.
pub uninterp spec fn epoch_distance(t: std::time::SystemTime) -> Option<std::time::Duration>;

/// The whole seconds in a span of time, as told by `std`.
pub uninterp spec fn whole_seconds(d: std::time::Duration) -> u64;

/// `std`'s `SystemTime::now` reads the clock; nothing is known of the reading.
pub assume_specification[ std::time::SystemTime::now ]() -> std::time::SystemTime
;

/// `std`'s `Duration::as_secs`: the whole seconds, which depend on the span
/// alone.
pub assume_specification[ std::time::Duration::as_secs ](d: &std::time::Duration) -> (secs: u64)
    ensures
        secs == whole_seconds(*d),
;

/// `std`'s `SystemTime::duration_since` the Unix epoch: the distance depends on
/// the reading alone, and it fails where there is none.
#[verifier::external_body]
fn since_epoch(t: SystemTime) -> (r: Result<Duration, SystemTimeError>)
    ensures
        match r {
            Ok(d) => epoch_distance(t) == Some(d),
            Err(_) => epoch_distance(t) is None,
        },
{
    t.duration_since(std::time::UNIX_EPOCH)
}

/// A reading in seconds since the Unix epoch; one that stands before the epoch
/// is an error.
pub open spec fn epoch_seconds(t: SystemTime) -> Result<u64, SolidError> {
    match epoch_distance(t) {
        Some(d) => Ok(whole_seconds(d)),
        None => Err(SolidError::ClockBeforeEpoch),
    }
}

/// The seconds are those of a reading of the clock.
pub open spec fn is_reading(secs: u64) -> bool {
    exists|t: SystemTime| #[trigger] epoch_seconds(t) == Ok::<u64, SolidError>(secs)
}

/// The failure is that of a reading of the clock: it stood before the epoch.
pub open spec fn is_clock_failure(e: SolidError) -> bool {
    exists|t: SystemTime| #[trigger] epoch_seconds(t) == Err::<u64, SolidError>(e)
}

/// A reading in seconds since the Unix epoch.
pub fn seconds_at(t: SystemTime) -> (secs: Result<u64, SolidError>)
    ensures
        secs == epoch_seconds(t),
{
    match since_epoch(t) {
        Ok(d) => Ok(d.as_secs()),
        Err(_) => Err(SolidError::ClockBeforeEpoch),
    }
}

/// Seconds since the Unix epoch, of whatever reading the clock gives.
pub fn now() -> (secs: Result<u64, SolidError>)
    ensures
        exists|t: SystemTime| secs == #[trigger] epoch_seconds(t),
{
    seconds_at(SystemTime::now())
}

/// A reading counts in whole seconds from the epoch on, and one before the epoch
/// is the one failure.
pub proof fn law_reading(t: SystemTime, d: Duration, secs: u64, e: SolidError)
    ensures
        epoch_distance(t) == Some(d) ==> epoch_seconds(t) == Ok::<u64, SolidError>(
            whole_seconds(d),
        ),
        epoch_distance(t) is None ==> epoch_seconds(t) == Err::<u64, SolidError>(
            SolidError::ClockBeforeEpoch,
        ),
        is_reading(secs) ==> exists|at: SystemTime, by: Duration|
            #[trigger] epoch_distance(at) == Some(by) && #[trigger] whole_seconds(by) == secs,
        is_clock_failure(e) ==> e == SolidError::ClockBeforeEpoch && exists|at: SystemTime|
            #[trigger] epoch_distance(at) is None,
{
    if is_reading(secs) {
        let at = choose|at: SystemTime| #[trigger]
            epoch_seconds(at) == Ok::<u64, SolidError>(secs);
        let by = epoch_distance(at)->0;
        assert(epoch_distance(at) == Some(by) && whole_seconds(by) == secs);
    }
    if is_clock_failure(e) {
        let at = choose|at: SystemTime| #[trigger]
            epoch_seconds(at) == Err::<u64, SolidError>(e);
        assert(epoch_distance(at) is None);
    }
}

} // verus!
