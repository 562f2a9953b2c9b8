//! The signed offset from UTC: hours, minutes and seconds under the same
//! sign-consistency discipline as a duration, generalized to three fields.

use vstd::prelude::*;
use vstd::math::abs;
use crate::error::Error;

verus! {

/// A fixed offset from UTC, positive east of the prime meridian.
///
/// All three fields carry the sign of the whole offset: no two are ever of
/// strictly opposite signs.
#[derive(Clone, Copy, Debug, PartialEq, Eq, Structural)]
pub struct UtcOffset {
    pub hours: i8,
    pub minutes: i8,
    pub seconds: i8,
}

impl UtcOffset {
    /// The invariant every `UtcOffset` satisfies: fields in range and
    /// sign-consistent.
    pub open spec fn is_valid(self) -> bool {
        &&& -23 <= self.hours <= 23
        &&& -59 <= self.minutes <= 59
        &&& -59 <= self.seconds <= 59
        &&& ((self.hours >= 0 && self.minutes >= 0 && self.seconds >= 0) || (self.hours
            <= 0 && self.minutes <= 0 && self.seconds <= 0))
    }

    /// The whole offset as a signed count of seconds.
    pub open spec fn spec_whole_seconds(self) -> int {
        self.hours * 3600 + self.minutes * 60 + self.seconds
    }

    /// The zero offset, UTC itself.
    pub fn utc() -> (r: UtcOffset)
        ensures
            r.is_valid(),
            r.spec_whole_seconds() == 0,
            r.hours == 0 && r.minutes == 0 && r.seconds == 0,
    {
        UtcOffset { hours: 0, minutes: 0, seconds: 0 }
    }

    /// Builds an offset from hours, minutes and seconds, rejecting any
    /// field out of range and correcting signs by precedence: a non-zero
    /// hour dictates the sign of the minute and second magnitudes; with a
    /// zero hour, a non-zero minute dictates the second's sign.
    pub fn from_hms(hours: i8, minutes: i8, seconds: i8) -> (r: Result<UtcOffset, Error>)
        ensures
            r is Ok <==> -23 <= hours <= 23 && -59 <= minutes <= 59 && -59 <= seconds
                <= 59,
            r matches Ok(o) ==> {
                &&& o.is_valid()
                &&& o.hours == hours
                &&& o.minutes == if hours < 0 {
                    -(abs(minutes as int) as int)
                } else if hours > 0 {
                    abs(minutes as int) as int
                } else {
                    minutes as int
                }
                &&& o.seconds == if hours < 0 {
                    -(abs(seconds as int) as int)
                } else if hours > 0 {
                    abs(seconds as int) as int
                } else if minutes < 0 {
                    -(abs(seconds as int) as int)
                } else if minutes > 0 {
                    abs(seconds as int) as int
                } else {
                    seconds as int
                }
            },
            r matches Err(e) ==> e == Error::InvalidComponent,
    {
        if hours < -23 || hours > 23 || minutes < -59 || minutes > 59 || seconds < -59
            || seconds > 59 {
            return Err(Error::InvalidComponent);
        }
        let minute_mag: i8 = if minutes < 0 {
            -minutes
        } else {
            minutes
        };
        let second_mag: i8 = if seconds < 0 {
            -seconds
        } else {
            seconds
        };
        if hours < 0 {
            Ok(UtcOffset { hours, minutes: -minute_mag, seconds: -second_mag })
        } else if hours > 0 {
            Ok(UtcOffset { hours, minutes: minute_mag, seconds: second_mag })
        } else if minutes < 0 {
            Ok(UtcOffset { hours, minutes, seconds: -second_mag })
        } else if minutes > 0 {
            Ok(UtcOffset { hours, minutes, seconds: second_mag })
        } else {
            Ok(UtcOffset { hours, minutes, seconds })
        }
    }

    /// The three fields as a tuple.
    pub fn as_hms(self) -> (r: (i8, i8, i8))
        ensures
            r.0 == self.hours,
            r.1 == self.minutes,
            r.2 == self.seconds,
    {
        (self.hours, self.minutes, self.seconds)
    }

    /// The whole offset in seconds, within one day of zero.
    pub fn whole_seconds(self) -> (r: i32)
        requires
            self.is_valid(),
        ensures
            r == self.spec_whole_seconds(),
            -86_399 <= r <= 86_399,
    {
        self.hours as i32 * 3600 + self.minutes as i32 * 60 + self.seconds as i32
    }
}

} // verus!
