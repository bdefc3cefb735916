//! The clock that serial numbers come from.

use std::time::{Duration, SystemTime, SystemTimeError, UNIX_EPOCH};
use vstd::prelude::*;

verus! {

/// A point in time of the system clock, carried through as it is.
#[verifier::external_type_specification]
#[verifier::external_body]
pub struct ExSystemTime(SystemTime);

/// The failure of a clock that stands before the epoch, carried through as it is.
#[verifier::external_type_specification]
#[verifier::external_body]
pub struct ExSystemTimeError(SystemTimeError);

/// The point in time that the clock counts from, `UNIX_EPOCH`.
#[verifier::external_body]
fn unix_epoch() -> SystemTime {
    UNIX_EPOCH
}

/// `SystemTime::now` reads the clock; nothing is known of what it gives.
pub assume_specification[ SystemTime::now ]() -> SystemTime;

/// `SystemTime::duration_since` gives the span between two points in time, or
/// fails where the second lies behind the first; nothing is claimed of either.
pub assume_specification[ SystemTime::duration_since ](
    now: &SystemTime,
    earlier: SystemTime,
) -> Result<Duration, SystemTimeError>;

/// `Duration::as_secs` gives the whole seconds of a span; nothing is claimed
/// of their number.
pub assume_specification[ Duration::as_secs ](span: &Duration) -> u64;

/// Seconds since the Unix epoch, as the system clock has them.
pub fn unix_epoch_seconds() -> Result<u64, SystemTimeError> {
    let span: Duration = SystemTime::now().duration_since(unix_epoch())?;
    Ok(span.as_secs())
}

} // verus!
