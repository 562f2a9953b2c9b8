//! The unzoned date-and-time pair, with duration arithmetic that carries
//! correctly between the time of day and the date.

use vstd::prelude::*;
use vstd::arithmetic::div_mod::{
    lemma_div_is_ordered, lemma_fundamental_div_mod, lemma_fundamental_div_mod_converse_div,
    lemma_mod_division_less_than_divisor,
};
use vstd::pervasive::unreached;
use crate::calendar::{days_before_year_ex, days_in_year, MAX_YEAR, MIN_YEAR};
use crate::date::{max_rata_die, min_rata_die, Date, JULIAN_DAY_OFFSET};
use crate::date::lemma_rata_die_injective;
use crate::calendar::lemma_days_before_year_mono;
use crate::duration::{Duration, MIN_TOTAL_NANOS};
use crate::time::Time;
use crate::utc_offset::UtcOffset;

verus! {

/// The fixed day number of the Unix epoch, 1970-01-01.
pub const UNIX_EPOCH_RATA_DIE: i64 = 719_163;

/// The earliest instant the types can represent, in nanoseconds since the
/// Unix epoch: midnight opening the first supported day.
pub open spec fn min_instant_nanos() -> int {
    (min_rata_die() - UNIX_EPOCH_RATA_DIE) * 86_400 * 1_000_000_000
}

/// The latest instant the types can represent, in nanoseconds since the
/// Unix epoch: the last nanosecond of the last supported day.
pub open spec fn max_instant_nanos() -> int {
    (max_rata_die() + 1 - UNIX_EPOCH_RATA_DIE) * 86_400 * 1_000_000_000 - 1
}

/// A calendar date joined with a time of day, with no offset attached.
#[derive(Clone, Copy, Debug, PartialEq, Eq, Structural)]
pub struct PrimitiveDateTime {
    pub date: Date,
    pub time: Time,
}

impl PrimitiveDateTime {
    /// The invariant: both components valid.
    pub open spec fn is_valid(self) -> bool {
        self.date.is_valid() && self.time.is_valid()
    }

    /// The whole seconds from the Unix epoch to this date and time, read
    /// as if it were UTC.
    pub open spec fn spec_instant_seconds(self) -> int {
        (self.date.spec_rata_die() - UNIX_EPOCH_RATA_DIE) * 86_400
            + self.time.spec_second_of_day()
    }

    /// The nanoseconds from the Unix epoch to this date and time, read as
    /// if it were UTC.
    pub open spec fn spec_instant_nanos(self) -> int {
        self.spec_instant_seconds() * 1_000_000_000 + self.time.nanosecond
    }

    /// Joins a date and a time of day.
    pub fn new(date: Date, time: Time) -> (r: PrimitiveDateTime)
        ensures
            r.date == date,
            r.time == time,
    {
        PrimitiveDateTime { date, time }
    }

    /// The date component.
    pub fn date(self) -> (r: Date)
        ensures
            r == self.date,
    {
        self.date
    }

    /// The time-of-day component.
    pub fn time(self) -> (r: Time)
        ensures
            r == self.time,
    {
        self.time
    }

    /// The datetime a signed count of nanoseconds later, or nothing
    /// exactly when the result would leave the supported year span.
    fn checked_add_nanos(self, delta: i128) -> (r: Option<PrimitiveDateTime>)
        requires
            self.is_valid(),
            MIN_TOTAL_NANOS <= delta <= -(MIN_TOTAL_NANOS as int),
        ensures
            r is Some <==> min_instant_nanos() <= self.spec_instant_nanos() + delta
                <= max_instant_nanos(),
            r matches Some(p) ==> p.is_valid() && p.spec_instant_nanos()
                == self.spec_instant_nanos() + delta,
    {
        let min_rd: i64 = days_before_year_ex(MIN_YEAR) + 1;
        let max_rd: i64 = days_before_year_ex(MAX_YEAR) + days_in_year(MAX_YEAR) as i64;
        proof {
            lemma_days_before_year_mono(MIN_YEAR as int, self.date.year as int);
            lemma_days_before_year_mono(self.date.year as int, MAX_YEAR as int);
        }
        let rd: i64 = self.date.to_julian_day() - JULIAN_DAY_OFFSET;
        let inst_sec: i64 = (rd - UNIX_EPOCH_RATA_DIE) * 86_400
            + self.time.second_of_day() as i64;
        let inst: i128 = inst_sec as i128 * 1_000_000_000 + self.time.nanosecond() as i128;
        let target: i128 = inst + delta;
        let min_inst: i128 = (min_rd as i128 - UNIX_EPOCH_RATA_DIE as i128) * 86_400
            * 1_000_000_000;
        let max_inst: i128 = (max_rd as i128 + 1 - UNIX_EPOCH_RATA_DIE as i128) * 86_400
            * 1_000_000_000 - 1;
        if target < min_inst || target > max_inst {
            return None;
        }
        let off: u128 = (target - min_inst) as u128;
        let days_off: u128 = off / 86_400_000_000_000;
        let rem: u128 = off % 86_400_000_000_000;
        let sod: u128 = rem / 1_000_000_000;
        let nano: u128 = rem % 1_000_000_000;
        proof {
            lemma_fundamental_div_mod(off as int, 86_400_000_000_000);
            lemma_mod_division_less_than_divisor(off as int, 86_400_000_000_000);
            lemma_fundamental_div_mod(rem as int, 1_000_000_000);
            lemma_mod_division_less_than_divisor(rem as int, 1_000_000_000);
            lemma_div_is_ordered(rem as int, 86_399_999_999_999, 1_000_000_000);
            lemma_fundamental_div_mod_converse_div(86_399_999_999_999, 1_000_000_000,
                86_399, 999_999_999);
            lemma_div_is_ordered(off as int,
                (max_rd - min_rd) as int * 86_400_000_000_000 + 86_399_999_999_999,
                86_400_000_000_000);
            lemma_fundamental_div_mod_converse_div(
                (max_rd - min_rd) as int * 86_400_000_000_000 + 86_399_999_999_999,
                86_400_000_000_000, (max_rd - min_rd) as int, 86_399_999_999_999);
        }
        let rd2: i64 = min_rd + days_off as i64;
        let date2 = match Date::from_julian_day(rd2 + JULIAN_DAY_OFFSET) {
            Ok(d) => d,
            Err(_) => unreached(),
        };
        let time2 = Time::from_second_of_day(sod as u32, nano as u32);
        Some(PrimitiveDateTime { date: date2, time: time2 })
    }

    /// The datetime a signed duration later, or nothing exactly when the
    /// result would leave the supported year span.
    ///
    /// Seconds past midnight carry into the date, across month and year
    /// boundaries, leap years included.
    pub fn checked_add(self, duration: Duration) -> (r: Option<PrimitiveDateTime>)
        requires
            self.is_valid(),
            duration.is_valid(),
        ensures
            r is Some <==> min_instant_nanos() <= self.spec_instant_nanos()
                + duration.total_nanos() <= max_instant_nanos(),
            r matches Some(p) ==> p.is_valid() && p.spec_instant_nanos()
                == self.spec_instant_nanos() + duration.total_nanos(),
    {
        let total: i128 = duration.whole_nanoseconds();
        self.checked_add_nanos(total)
    }

    /// The signed duration from another datetime to this one: positive
    /// when this one is the later. Every difference of two representable
    /// datetimes is a representable duration.
    pub fn duration_since(self, other: PrimitiveDateTime) -> (r: Duration)
        requires
            self.is_valid(),
            other.is_valid(),
        ensures
            r.is_valid(),
            r.total_nanos() == self.spec_instant_nanos() - other.spec_instant_nanos(),
    {
        proof {
            lemma_days_before_year_mono(MIN_YEAR as int, self.date.year as int);
            lemma_days_before_year_mono(self.date.year as int, MAX_YEAR as int);
            lemma_days_before_year_mono(MIN_YEAR as int, other.date.year as int);
            lemma_days_before_year_mono(other.date.year as int, MAX_YEAR as int);
        }
        let rd_a: i64 = self.date.to_julian_day() - JULIAN_DAY_OFFSET;
        let inst_a: i128 = ((rd_a - UNIX_EPOCH_RATA_DIE) * 86_400
            + self.time.second_of_day() as i64) as i128 * 1_000_000_000
            + self.time.nanosecond() as i128;
        let rd_b: i64 = other.date.to_julian_day() - JULIAN_DAY_OFFSET;
        let inst_b: i128 = ((rd_b - UNIX_EPOCH_RATA_DIE) * 86_400
            + other.time.second_of_day() as i64) as i128 * 1_000_000_000
            + other.time.nanosecond() as i128;
        match Duration::checked_from_nanos(inst_a - inst_b) {
            Some(d) => d,
            None => unreached(),
        }
    }

    /// The datetime a signed duration earlier, or nothing exactly when the
    /// result would leave the supported year span; every duration may be
    /// subtracted, the extremes simply falling out of range.
    pub fn checked_sub(self, duration: Duration) -> (r: Option<PrimitiveDateTime>)
        requires
            self.is_valid(),
            duration.is_valid(),
        ensures
            r is Some <==> min_instant_nanos() <= self.spec_instant_nanos()
                - duration.total_nanos() <= max_instant_nanos(),
            r matches Some(p) ==> p.is_valid() && p.spec_instant_nanos()
                == self.spec_instant_nanos() - duration.total_nanos(),
    {
        let total: i128 = duration.whole_nanoseconds();
        self.checked_add_nanos(-total)
    }

    /// Reads this datetime as already expressed in UTC.
    pub fn assume_utc(self) -> (r: crate::offset_date_time::OffsetDateTime)
        requires
            self.is_valid(),
        ensures
            r.utc_datetime == self,
            r.offset.hours == 0 && r.offset.minutes == 0 && r.offset.seconds == 0,
            r.is_valid(),
    {
        crate::offset_date_time::OffsetDateTime {
            utc_datetime: self,
            offset: UtcOffset::utc(),
        }
    }

    /// Reads this datetime as having been expressed in the given offset,
    /// anchoring the instant back to UTC.
    ///
    /// The shifted instant stays within the supported span; at the very
    /// edges of the span some offsets cannot be assumed.
    pub fn assume_offset(self, offset: UtcOffset) -> (r:
        crate::offset_date_time::OffsetDateTime)
        requires
            self.is_valid(),
            offset.is_valid(),
            min_instant_nanos() <= self.spec_instant_nanos() - offset.spec_whole_seconds()
                * 1_000_000_000 <= max_instant_nanos(),
        ensures
            r.is_valid(),
            r.offset == offset,
            r.utc_datetime.spec_instant_nanos() == self.spec_instant_nanos()
                - offset.spec_whole_seconds() * 1_000_000_000,
    {
        let shift: i64 = -(offset.whole_seconds() as i64);
        let utc_datetime = match self.checked_add(Duration::seconds(shift)) {
            Some(p) => p,
            None => unreached(),
        };
        crate::offset_date_time::OffsetDateTime { utc_datetime, offset }
    }
}

/// Two valid datetimes with the same instant are equal: the instant
/// determines date and clock fields alike.
pub proof fn lemma_instant_injective(a: PrimitiveDateTime, b: PrimitiveDateTime)
    requires
        a.is_valid(),
        b.is_valid(),
        a.spec_instant_nanos() == b.spec_instant_nanos(),
    ensures
        a == b,
{
    let na = a.time.spec_nanos_of_day();
    let nb = b.time.spec_nanos_of_day();
    assert(a.spec_instant_nanos() == (a.date.spec_rata_die() - UNIX_EPOCH_RATA_DIE)
        * 86_400_000_000_000 + na);
    assert(b.spec_instant_nanos() == (b.date.spec_rata_die() - UNIX_EPOCH_RATA_DIE)
        * 86_400_000_000_000 + nb);
    assert(0 <= na < 86_400_000_000_000);
    assert(0 <= nb < 86_400_000_000_000);
    lemma_fundamental_div_mod_converse_div(a.spec_instant_nanos(), 86_400_000_000_000,
        a.date.spec_rata_die() - UNIX_EPOCH_RATA_DIE, na);
    lemma_fundamental_div_mod_converse_div(b.spec_instant_nanos(), 86_400_000_000_000,
        b.date.spec_rata_die() - UNIX_EPOCH_RATA_DIE, nb);
    lemma_rata_die_injective(a.date, b.date);
    crate::time::lemma_nanos_of_day_unique(a.time, b.time);
}

} // verus!
