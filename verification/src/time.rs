//! Points in time, and their count of milliseconds since the Unix epoch.

use crate::errors::RowIDError;
use std::time::SystemTime;
use vstd::prelude::*;

verus! {

/// The nanoseconds of one millisecond.
pub const NANOS_PER_MILLI: i128 = 1_000_000;

/// A point in time, as its distance from the Unix epoch in nanoseconds;
/// a negative distance is a point before the epoch.
#[derive(Clone, Copy, Debug, PartialEq, Eq, Structural)]
pub struct PointInTime {
    /// The nanoseconds from the epoch to this point.
    pub unix_nanos: i128,
}

/// The whole milliseconds between the epoch and a point in time, rounded
/// towards the past.
pub open spec fn millis_of(point: PointInTime) -> int {
    (point.unix_nanos as int) / (NANOS_PER_MILLI as int)
}

/// The milliseconds since the epoch of a point in time: none for a point
/// before the epoch, none for a count beyond 64 bits.
pub open spec fn timestamp_of(point: PointInTime) -> Result<u64, RowIDError> {
    if point.unix_nanos < 0 {
        Err(RowIDError::EpochUnderflow)
    } else if millis_of(point) > u64::MAX {
        Err(RowIDError::TimestampOverflow)
    } else {
        Ok(millis_of(point) as u64)
    }
}

/// The point in time that lies `timestamp` milliseconds after the epoch.
pub open spec fn point_of(timestamp: u64) -> PointInTime {
    PointInTime { unix_nanos: (timestamp * NANOS_PER_MILLI) as i128 }
}

/// A point in time without what it holds beyond whole milliseconds.
pub open spec fn truncated_to_millis(point: PointInTime) -> PointInTime {
    PointInTime {
        unix_nanos: (millis_of(point) * NANOS_PER_MILLI) as i128,
    }
}

/// Reads the system clock through std's `SystemTime::elapsed`, called on
/// `UNIX_EPOCH`: `Ok` holds the nanoseconds from the epoch to now, `Err`
/// those from now to the epoch where the clock stands before it. Nothing
/// is claimed of the reading.
#[verifier::external_body]
fn unix_epoch_elapsed() -> (reading: Result<u128, u128>) {
    match SystemTime::UNIX_EPOCH.elapsed() {
        Ok(since) => Ok(since.as_nanos()),
        Err(until) => Err(until.duration().as_nanos()),
    }
}

impl PointInTime {
    /// The Unix epoch.
    pub fn epoch() -> (point: PointInTime)
        ensures
            point.unix_nanos == 0,
    {
        PointInTime { unix_nanos: 0 }
    }

    /// The point in time that a clock reading stands for: `Ok` counts
    /// nanoseconds after the epoch, `Err` nanoseconds before it. A count
    /// beyond the type's range gives the last point of that side.
    pub fn from_reading(reading: Result<u128, u128>) -> (point: PointInTime)
        ensures
            point == point_of_reading(reading),
    {
        match reading {
            Ok(since) => {
                if since <= i128::MAX as u128 {
                    PointInTime { unix_nanos: since as i128 }
                } else {
                    PointInTime { unix_nanos: i128::MAX }
                }
            },
            Err(until) => {
                if until <= i128::MAX as u128 {
                    PointInTime { unix_nanos: -(until as i128) }
                } else {
                    PointInTime { unix_nanos: -i128::MAX }
                }
            },
        }
    }

    /// The system clock's present reading, as a point in time. Which
    /// reading the clock gives is not for this library to say; whatever
    /// it is, the point is the one that `from_reading` makes of it: as
    /// far from the epoch as the reading says, and on the side it says.
    pub fn now() -> (now: PointInTime)
        ensures
            exists|reading: Result<u128, u128>| now == point_of_reading(reading),
    {
        PointInTime::from_reading(unix_epoch_elapsed())
    }

    /// Whether this point is `other` or lies before it.
    pub fn not_after(&self, other: &PointInTime) -> (holds: bool)
        ensures
            holds == (self.unix_nanos <= other.unix_nanos),
    {
        self.unix_nanos <= other.unix_nanos
    }
}

/// The point in time that a clock reading stands for: `Ok` holds the
/// nanoseconds from the epoch to the point, `Err` those from the point to
/// the epoch. A count beyond the type's range stands for the last point
/// of its side.
pub open spec fn point_of_reading(reading: Result<u128, u128>) -> PointInTime {
    match reading {
        Ok(since) => PointInTime {
            unix_nanos: if since <= i128::MAX {
                since as i128
            } else {
                i128::MAX
            },
        },
        Err(until) => PointInTime {
            unix_nanos: if until <= i128::MAX {
                (-(until as int)) as i128
            } else {
                (-(i128::MAX as int)) as i128
            },
        },
    }
}

/// Counts the milliseconds from the epoch to `system_time`, dropping what
/// is less than a millisecond.
pub fn system_time_to_timestamp(system_time: PointInTime) -> (timestamp: Result<u64, RowIDError>)
    ensures
        timestamp == timestamp_of(system_time),
{
    if system_time.unix_nanos < 0 {
        return Err(RowIDError::EpochUnderflow);
    }
    let nanos: u128 = system_time.unix_nanos as u128;
    let millis: u128 = nanos / (NANOS_PER_MILLI as u128);
    if millis > u64::MAX as u128 {
        Err(RowIDError::TimestampOverflow)
    } else {
        Ok(millis as u64)
    }
}

/// The point in time `timestamp` milliseconds after the epoch.
pub fn timestamp_to_system_time(timestamp: u64) -> (system_time: PointInTime)
    ensures
        system_time == point_of(timestamp),
{
    PointInTime { unix_nanos: (timestamp as i128) * NANOS_PER_MILLI }
}

/// A timestamp made into a point in time counts back to itself.
pub proof fn lemma_timestamp_of_point(timestamp: u64)
    ensures
        timestamp_of(point_of(timestamp)) == Ok::<u64, RowIDError>(timestamp),
{
}

/// A point at or after the epoch whose milliseconds fit 64 bits, counted
/// and made into a point again, is that point without its part below a
/// millisecond.
pub proof fn lemma_point_of_timestamp(point: PointInTime)
    requires
        timestamp_of(point) is Ok,
    ensures
        point_of(timestamp_of(point).unwrap()) == truncated_to_millis(point),
{
}

} // verus!
