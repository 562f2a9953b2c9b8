//! An absolute instant: a UTC-anchored datetime together with the fixed
//! offset in which it is displayed.

use vstd::prelude::*;
use vstd::arithmetic::div_mod::{
    lemma_div_is_ordered, lemma_fundamental_div_mod, lemma_fundamental_div_mod_converse_div,
    lemma_mod_division_less_than_divisor,
};
use vstd::pervasive::unreached;
use crate::calendar::{
    days_before_year_ex, days_in_year, lemma_days_before_year_mono, MAX_YEAR, MIN_YEAR,
};
use crate::date::{max_rata_die, min_rata_die, Date, JULIAN_DAY_OFFSET};
use crate::duration::Duration;
use crate::error::Error;
use crate::primitive_date_time::{
    max_instant_nanos, min_instant_nanos, PrimitiveDateTime, UNIX_EPOCH_RATA_DIE,
};
use crate::time::Time;
use crate::utc_offset::UtcOffset;

verus! {

/// The earliest representable instant in whole seconds since the Unix
/// epoch.
pub open spec fn min_instant_seconds() -> int {
    (min_rata_die() - UNIX_EPOCH_RATA_DIE) * 86_400
}

/// The latest representable instant in whole seconds since the Unix
/// epoch.
pub open spec fn max_instant_seconds() -> int {
    (max_rata_die() + 1 - UNIX_EPOCH_RATA_DIE) * 86_400 - 1
}

/// An instant in time, stored as the UTC datetime it falls on plus the
/// offset under which it is to be displayed.
///
/// Changing the offset never moves the instant; it only changes how the
/// local fields render.
#[derive(Clone, Copy, Debug)]
pub struct OffsetDateTime {
    pub utc_datetime: PrimitiveDateTime,
    pub offset: UtcOffset,
}

impl OffsetDateTime {
    /// The invariant: both components valid.
    pub open spec fn is_valid(self) -> bool {
        self.utc_datetime.is_valid() && self.offset.is_valid()
    }

    /// The instant as whole seconds since the Unix epoch, independent of
    /// the display offset.
    pub open spec fn spec_unix_timestamp(self) -> int {
        self.utc_datetime.spec_instant_seconds()
    }

    /// The instant as whole seconds since the Unix epoch.
    ///
    /// The display offset plays no part: two values differing only in
    /// offset report the same timestamp.
    pub fn unix_timestamp(self) -> (r: i64)
        requires
            self.is_valid(),
        ensures
            r == self.spec_unix_timestamp(),
    {
        proof {
            lemma_days_before_year_mono(MIN_YEAR as int, self.utc_datetime.date.year as int);
            lemma_days_before_year_mono(self.utc_datetime.date.year as int, MAX_YEAR as int);
        }
        let rd: i64 = self.utc_datetime.date.to_julian_day() - JULIAN_DAY_OFFSET;
        (rd - UNIX_EPOCH_RATA_DIE) * 86_400 + self.utc_datetime.time.second_of_day() as i64
    }

    /// The UTC instant at a whole-second Unix timestamp, or a conversion
    /// failure exactly when the timestamp lies outside the supported year
    /// span.
    pub fn from_unix_timestamp(timestamp: i64) -> (r: Result<OffsetDateTime, Error>)
        ensures
            r is Ok <==> min_instant_seconds() <= timestamp <= max_instant_seconds(),
            r matches Ok(o) ==> {
                &&& o.is_valid()
                &&& o.spec_unix_timestamp() == timestamp
                &&& o.offset.hours == 0 && o.offset.minutes == 0 && o.offset.seconds == 0
                &&& o.utc_datetime.time.nanosecond == 0
            },
            r matches Err(e) ==> e == Error::ConversionFailure,
    {
        let min_rd: i64 = days_before_year_ex(MIN_YEAR) + 1;
        let max_rd: i64 = days_before_year_ex(MAX_YEAR) + days_in_year(MAX_YEAR) as i64;
        let min_sec: i64 = (min_rd - UNIX_EPOCH_RATA_DIE) * 86_400;
        let max_sec: i64 = (max_rd + 1 - UNIX_EPOCH_RATA_DIE) * 86_400 - 1;
        if timestamp < min_sec || timestamp > max_sec {
            return Err(Error::ConversionFailure);
        }
        let off: u64 = (timestamp - min_sec) as u64;
        let days_off: u64 = off / 86_400;
        let sod: u64 = off % 86_400;
        proof {
            lemma_fundamental_div_mod(off as int, 86_400);
            lemma_mod_division_less_than_divisor(off as int, 86_400);
            lemma_div_is_ordered(off as int, (max_rd - min_rd) as int * 86_400 + 86_399,
                86_400);
            lemma_fundamental_div_mod_converse_div(
                (max_rd - min_rd) as int * 86_400 + 86_399, 86_400, (max_rd - min_rd) as int,
                86_399);
        }
        let rd2: i64 = min_rd + days_off as i64;
        let date = match Date::from_julian_day(rd2 + JULIAN_DAY_OFFSET) {
            Ok(d) => d,
            Err(_) => unreached(),
        };
        let time = Time::from_second_of_day(sod as u32, 0);
        Ok(OffsetDateTime {
            utc_datetime: PrimitiveDateTime { date, time },
            offset: UtcOffset::utc(),
        })
    }

    /// The same instant displayed under another offset.
    pub fn to_offset(self, offset: UtcOffset) -> (r: OffsetDateTime)
        requires
            self.is_valid(),
            offset.is_valid(),
        ensures
            r.is_valid(),
            r.utc_datetime == self.utc_datetime,
            r.offset == offset,
            r.spec_unix_timestamp() == self.spec_unix_timestamp(),
    {
        OffsetDateTime { utc_datetime: self.utc_datetime, offset }
    }

    /// The display offset.
    pub fn offset(self) -> (r: UtcOffset)
        ensures
            r == self.offset,
    {
        self.offset
    }

    /// The date and time as they render under the display offset.
    ///
    /// At the very edges of the supported span some offsets push the local
    /// rendering out of the calendar; those are excluded.
    pub fn local_datetime(self) -> (r: PrimitiveDateTime)
        requires
            self.is_valid(),
            min_instant_nanos() <= self.utc_datetime.spec_instant_nanos()
                + self.offset.spec_whole_seconds() * 1_000_000_000 <= max_instant_nanos(),
        ensures
            r.is_valid(),
            r.spec_instant_nanos() == self.utc_datetime.spec_instant_nanos()
                + self.offset.spec_whole_seconds() * 1_000_000_000,
    {
        let shift: i64 = self.offset.whole_seconds() as i64;
        match self.utc_datetime.checked_add(Duration::seconds(shift)) {
            Some(p) => p,
            None => unreached(),
        }
    }

    /// The local rendering as [`Self::local_datetime`], or nothing when
    /// the display offset pushes it out of the supported span.
    pub fn checked_local_datetime(self) -> (r: Option<PrimitiveDateTime>)
        requires
            self.is_valid(),
        ensures
            r is Some <==> min_instant_nanos() <= self.utc_datetime.spec_instant_nanos()
                + self.offset.spec_whole_seconds() * 1_000_000_000 <= max_instant_nanos(),
            r matches Some(p) ==> p.is_valid() && p.spec_instant_nanos()
                == self.utc_datetime.spec_instant_nanos() + self.offset.spec_whole_seconds()
                * 1_000_000_000,
    {
        let shift: i64 = self.offset.whole_seconds() as i64;
        self.utc_datetime.checked_add(Duration::seconds(shift))
    }

    /// Whether two values name the same instant, whatever their display
    /// offsets.
    pub fn instant_eq(self, other: OffsetDateTime) -> (r: bool)
        requires
            self.is_valid(),
            other.is_valid(),
        ensures
            r == (self.utc_datetime.spec_instant_nanos()
                == other.utc_datetime.spec_instant_nanos()),
    {
        proof {
            if self.spec_unix_timestamp() == other.spec_unix_timestamp()
                && self.utc_datetime.time.nanosecond == other.utc_datetime.time.nanosecond {
                assert(self.utc_datetime.spec_instant_nanos()
                    == other.utc_datetime.spec_instant_nanos());
            }
            if self.utc_datetime.spec_instant_nanos()
                == other.utc_datetime.spec_instant_nanos() {
                crate::primitive_date_time::lemma_instant_injective(self.utc_datetime,
                    other.utc_datetime);
            }
        }
        self.unix_timestamp() == other.unix_timestamp()
            && self.utc_datetime.time.nanosecond() == other.utc_datetime.time.nanosecond()
    }
}

} // verus!
