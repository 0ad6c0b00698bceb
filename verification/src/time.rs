//! Points in time.

use vstd::prelude::*;

verus! {

/// A point in wall-clock time, in nanoseconds since the Unix epoch. Negative before the epoch.
#[derive(Clone, Copy, Debug, PartialEq, Eq, Structural)]
pub struct Timestamp {
    pub nanos: i128,
}

/// The reading of the system clock, in nanoseconds: how long after the Unix epoch it is, or, as an
/// error, how long before.
///
/// Calls `std::time::SystemTime::now` and expresses what it returns as a number. Nothing is
/// claimed of the reading: it depends on the machine's clock, and the clock can be set back.
#[verifier::external_body]
fn system_clock_nanos() -> (r: Result<u128, u128>) {
    match std::time::SystemTime::now().duration_since(std::time::SystemTime::UNIX_EPOCH) {
        Ok(after) => Ok(after.as_nanos()),
        Err(before) => Err(before.duration().as_nanos()),
    }
}

/// The largest distance from the epoch that a [`Timestamp`] holds.
const MAX_DISTANCE: u128 = 0x7fff_ffff_ffff_ffff_ffff_ffff_ffff_ffff;

/// A distance from the epoch, or the largest that a [`Timestamp`] holds.
pub open spec fn bounded(nanos: u128) -> int {
    if nanos > i128::MAX {
        i128::MAX as int
    } else {
        nanos as int
    }
}

/// The time that a reading of a clock stands for: a distance after the epoch, or, as an error, one
/// before.
pub open spec fn nanos_of(reading: Result<u128, u128>) -> int {
    match reading {
        Ok(after) => bounded(after),
        Err(before) => -bounded(before),
    }
}

impl Timestamp {
    /// The Unix epoch, which stands for "never" where a time is missing.
    pub fn unix_epoch() -> (r: Self)
        ensures
            r.nanos == 0,
    {
        Timestamp { nanos: 0 }
    }

    /// The time that a reading of a clock stands for.
    pub fn from_reading(reading: Result<u128, u128>) -> (r: Self)
        ensures
            r.nanos == nanos_of(reading),
    {
        match reading {
            Ok(after) => {
                let distance = if after > MAX_DISTANCE {
                    MAX_DISTANCE
                } else {
                    after
                };
                Timestamp { nanos: distance as i128 }
            },
            Err(before) => {
                let distance = if before > MAX_DISTANCE {
                    MAX_DISTANCE
                } else {
                    before
                };
                Timestamp { nanos: -(distance as i128) }
            },
        }
    }

    /// What the system clock shows: the time that some reading stands for. Which reading that is
    /// depends on when the clock is asked.
    pub fn now() -> (r: Self)
        ensures
            exists|reading: Result<u128, u128>| r.nanos == #[trigger] nanos_of(reading),
    {
        Timestamp::from_reading(system_clock_nanos())
    }
}

/// A reading stands for the time that is as far from the epoch as it says, after it or before it. One
/// that is too far away stands for the farthest time on its side.
pub proof fn law_reading_is_as_far_from_the_epoch(distance: u128)
    ensures
        distance <= i128::MAX ==> nanos_of(Ok(distance)) == distance && nanos_of(Err(distance))
            == -distance,
        distance > i128::MAX ==> nanos_of(Ok(distance)) == i128::MAX && nanos_of(Err(distance))
            == -i128::MAX,
{
}

} // verus!
