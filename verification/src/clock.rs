//! The system clock, read in whole seconds since the Unix epoch.

use crate::time::{Duration, NANOS_PER_SEC};
use std::time::{SystemTime, SystemTimeError, UNIX_EPOCH};
use vstd::prelude::*;

verus! {

/// `std::time::SystemTime`: a reading of the system clock.
#[verifier::external_type_specification]
#[verifier::external_body]
pub struct ExSystemTime(std::time::SystemTime);

/// `std::time::SystemTimeError`: the clock stands before the epoch.
#[verifier::external_type_specification]
#[verifier::external_body]
pub struct ExSystemTimeError(std::time::SystemTimeError);

/// `SystemTime::now`. Nothing is claimed of the reading.
#[verifier::external_body]
pub(crate) fn system_now() -> (res: SystemTime) {
    SystemTime::now()
}

/// `SystemTime::duration_since`, from the Unix epoch, with the span handed over
/// as this library's own. Nothing is claimed of the result: whether the clock
/// stands before the epoch, and how far past it, is up to the machine.
#[verifier::external_body]
pub(crate) fn since_epoch(reading: SystemTime) -> (res: Result<Duration, SystemTimeError>) {
    reading.duration_since(UNIX_EPOCH).map(
        |span| Duration::new(span.as_secs(), span.subsec_nanos()),
    )
}

/// Whether this is the whole seconds of a span since the Unix epoch, or nothing
/// where the clock stood before it.
pub open spec fn is_seconds_of(
    span: Result<Duration, SystemTimeError>,
    seconds: Option<u64>,
) -> bool {
    match span {
        Ok(span) => seconds matches Some(secs) && secs == span@ / (NANOS_PER_SEC as nat),
        Err(_) => seconds is None,
    }
}

/// The whole seconds of a span since the Unix epoch, or nothing where the clock
/// stood before it.
pub fn seconds_of(span: Result<Duration, SystemTimeError>) -> (res: Option<u64>)
    ensures
        is_seconds_of(span, res),
{
    match span {
        Ok(span) => Some(span.as_secs()),
        Err(_) => None,
    }
}

/// The seconds since the Unix epoch, or nothing where the clock stands before
/// it. Which of the two, and how many, is up to the machine.
pub(crate) fn read_unix_seconds() -> (res: Option<u64>)
    ensures
        exists|reading: SystemTime, span: Result<Duration, SystemTimeError>|
            {
                &&& call_ensures(system_now, (), reading)
                &&& #[trigger] call_ensures(since_epoch, (reading,), span)
                &&& is_seconds_of(span, res)
            },
{
    seconds_of(since_epoch(system_now()))
}

/// A reading of the clock, with the epoch itself for a clock that stands before
/// it.
pub fn seconds_or_epoch(reading: Option<u64>) -> (res: u64)
    ensures
        res == match reading {
            Some(secs) => secs,
            None => 0,
        },
{
    match reading {
        Some(secs) => secs,
        None => 0,
    }
}

} // verus!
