//! The proleptic-Gregorian calendar date, stored as a year and a
//! day-of-year ordinal.

use vstd::prelude::*;
use vstd::arithmetic::div_mod::lemma_mod_multiples_vanish;
use crate::calendar::{
    calendar_to_ordinal, days_before_month, days_before_year, days_before_year_ex,
    days_in_year, is_leap, is_leap_year, lemma_days_before_year_mono,
    lemma_days_before_year_step, lemma_ordinal_date_unique, month_length, month_of,
    ordinal_to_calendar, rata_die, year_length, MAX_YEAR, MIN_YEAR,
};
use crate::error::Error;
use crate::weekday::{day_index, Weekday};

verus! {

/// The fixed day number of the first supported date.
pub open spec fn min_rata_die() -> int {
    rata_die(MIN_YEAR as int, 1)
}

/// The fixed day number of the last supported date.
pub open spec fn max_rata_die() -> int {
    rata_die(MAX_YEAR as int, year_length(MAX_YEAR as int))
}

/// The offset between a fixed day number and its Julian day number.
pub const JULIAN_DAY_OFFSET: i64 = 1_721_425;

/// A calendar date: a year and the day's ordinal within that year.
///
/// The ordinal form is the single source of truth; month and day are
/// derived on demand and never stored.
#[derive(Clone, Copy, Debug, PartialEq, Eq, Structural)]
pub struct Date {
    pub year: i32,
    pub ordinal: u16,
}

impl Date {
    /// The invariant every `Date` satisfies: the year is in the supported
    /// span and the ordinal is a day of that year.
    pub open spec fn is_valid(self) -> bool {
        &&& MIN_YEAR <= self.year <= MAX_YEAR
        &&& 1 <= self.ordinal <= year_length(self.year as int)
    }

    /// The date's fixed day number, day 1 being January 1 of year 1.
    pub open spec fn spec_rata_die(self) -> int {
        rata_die(self.year as int, self.ordinal as int)
    }

    /// Builds a date from a year and a day-of-year ordinal, rejecting any
    /// pair outside the calendar.
    pub fn from_ordinal_date(year: i32, ordinal: u16) -> (r: Result<Date, Error>)
        ensures
            r is Ok <==> MIN_YEAR <= year <= MAX_YEAR && 1 <= ordinal
                <= year_length(year as int),
            r matches Ok(d) ==> d.year == year && d.ordinal == ordinal && d.is_valid(),
            r matches Err(e) ==> e == Error::InvalidComponent,
    {
        if year < MIN_YEAR || year > MAX_YEAR {
            return Err(Error::InvalidComponent);
        }
        if ordinal < 1 || ordinal > days_in_year(year) {
            return Err(Error::InvalidComponent);
        }
        Ok(Date { year, ordinal })
    }

    /// Builds a date whose validity the caller has already established.
    pub(crate) fn from_ordinal_date_unchecked(year: i32, ordinal: u16) -> (r: Date)
        requires
            MIN_YEAR <= year <= MAX_YEAR,
            1 <= ordinal <= year_length(year as int),
        ensures
            r.year == year,
            r.ordinal == ordinal,
            r.is_valid(),
    {
        Date { year, ordinal }
    }

    /// Builds a date from a year, month and day, rejecting any triple that
    /// names no calendar day.
    pub fn from_calendar_date(year: i32, month: u8, day: u8) -> (r: Result<Date, Error>)
        ensures
            r is Ok <==> MIN_YEAR <= year <= MAX_YEAR && 1 <= month <= 12 && 1 <= day
                <= month_length(month as int, is_leap(year as int)),
            r matches Ok(d) ==> d.is_valid() && d.year == year && d.ordinal
                == days_before_month(month as int, is_leap(year as int)) + day,
            r matches Err(e) ==> e == Error::InvalidComponent,
    {
        if year < MIN_YEAR || year > MAX_YEAR {
            return Err(Error::InvalidComponent);
        }
        if month < 1 || month > 12 {
            return Err(Error::InvalidComponent);
        }
        if day < 1 || day > crate::calendar::days_in_year_month(year, month) {
            return Err(Error::InvalidComponent);
        }
        let ordinal = calendar_to_ordinal(year, month, day);
        Ok(Date { year, ordinal })
    }

    /// The date's year.
    pub fn year(self) -> (r: i32)
        ensures
            r == self.year,
    {
        self.year
    }

    /// The date's day-of-year ordinal.
    pub fn ordinal(self) -> (r: u16)
        ensures
            r == self.ordinal,
    {
        self.ordinal
    }

    /// The year and ordinal as a pair.
    pub fn to_ordinal_date(self) -> (r: (i32, u16))
        ensures
            r.0 == self.year,
            r.1 == self.ordinal,
    {
        (self.year, self.ordinal)
    }

    /// The year, month and day of the date.
    pub fn to_calendar_date(self) -> (r: (i32, u8, u8))
        requires
            self.is_valid(),
        ensures
            r.0 == self.year,
            1 <= r.1 <= 12,
            1 <= r.2 <= month_length(r.1 as int, is_leap(self.year as int)),
            days_before_month(r.1 as int, is_leap(self.year as int)) + r.2 == self.ordinal,
    {
        let (month, day) = ordinal_to_calendar(self.year, self.ordinal);
        (self.year, month, day)
    }

    /// The date's month, 1 being January.
    pub fn month(self) -> (r: u8)
        requires
            self.is_valid(),
        ensures
            r == month_of(self.ordinal as int, is_leap(self.year as int)),
            1 <= r <= 12,
    {
        let (month, _day) = ordinal_to_calendar(self.year, self.ordinal);
        month
    }

    /// The date's day of the month.
    pub fn day(self) -> (r: u8)
        requires
            self.is_valid(),
        ensures
            r == self.ordinal - days_before_month(
                month_of(self.ordinal as int, is_leap(self.year as int)),
                is_leap(self.year as int),
            ),
    {
        let (_month, day) = ordinal_to_calendar(self.year, self.ordinal);
        day
    }

    /// The date's Julian day number.
    pub fn to_julian_day(self) -> (r: i64)
        requires
            self.is_valid(),
        ensures
            r == self.spec_rata_die() + JULIAN_DAY_OFFSET,
    {
        proof {
            lemma_days_before_year_mono(MIN_YEAR as int, self.year as int);
            lemma_days_before_year_mono(self.year as int, MAX_YEAR as int);
        }
        days_before_year_ex(self.year) + self.ordinal as i64 + JULIAN_DAY_OFFSET
    }

    /// The date with the given Julian day number, or a conversion failure
    /// when the day lies outside the supported year span.
    pub fn from_julian_day(jd: i64) -> (r: Result<Date, Error>)
        ensures
            r is Ok <==> min_rata_die() + JULIAN_DAY_OFFSET <= jd <= max_rata_die()
                + JULIAN_DAY_OFFSET,
            r matches Ok(d) ==> d.is_valid() && d.spec_rata_die() == jd - JULIAN_DAY_OFFSET,
            r matches Err(e) ==> e == Error::ConversionFailure,
    {
        let min_rd: i64 = days_before_year_ex(MIN_YEAR) + 1;
        let max_rd: i64 = days_before_year_ex(MAX_YEAR) + days_in_year(MAX_YEAR) as i64;
        proof {
            lemma_days_before_year_mono(MIN_YEAR as int, MAX_YEAR as int);
        }
        if jd < min_rd + JULIAN_DAY_OFFSET || jd > max_rd + JULIAN_DAY_OFFSET {
            return Err(Error::ConversionFailure);
        }
        let rd: i64 = jd - JULIAN_DAY_OFFSET;
        // A first guess from the 400-year cycle of 146 097 days; the loops
        // below settle the year exactly.
        let m: i64 = rd - min_rd;
        let guess: i64 = MIN_YEAR as i64 + (m * 400) / 146_097;
        let mut y: i32 = if guess > MAX_YEAR as i64 {
            MAX_YEAR
        } else {
            proof {
                assert(m * 400 >= 0) by (nonlinear_arith)
                    requires m >= 0,
                ;
                assert((m * 400) / 146_097 >= 0);
            }
            guess as i32
        };
        let mut dby: i64 = days_before_year_ex(y);
        while rd <= dby
            invariant
                MIN_YEAR <= y <= MAX_YEAR,
                dby == days_before_year(y as int),
                min_rata_die() <= rd <= max_rata_die(),
                min_rata_die() == days_before_year(MIN_YEAR as int) + 1,
            decreases y - MIN_YEAR,
        {
            proof {
                if y == MIN_YEAR {
                    assert(false);
                }
            }
            y = y - 1;
            dby = days_before_year_ex(y);
        }
        let mut yl: u16 = days_in_year(y);
        while rd > dby + yl as i64
            invariant
                MIN_YEAR <= y <= MAX_YEAR,
                dby == days_before_year(y as int),
                yl == year_length(y as int),
                dby < rd,
                min_rata_die() <= rd <= max_rata_die(),
                max_rata_die() == days_before_year(MAX_YEAR as int)
                    + year_length(MAX_YEAR as int),
            decreases MAX_YEAR - y,
        {
            proof {
                if y == MAX_YEAR {
                    assert(false);
                }
                lemma_days_before_year_step(y as int);
                lemma_days_before_year_mono(MIN_YEAR as int, (y + 1) as int);
            }
            y = y + 1;
            dby = days_before_year_ex(y);
            yl = days_in_year(y);
        }
        let ordinal: u16 = (rd - dby) as u16;
        Ok(Date { year: y, ordinal })
    }

    /// The day of the week on which the date falls, derived from the fixed
    /// day number; day 1, January 1 of year 1, is a Monday.
    pub fn weekday(self) -> (r: Weekday)
        requires
            self.is_valid(),
        ensures
            day_index(r) == (self.spec_rata_die() - 1) % 7,
    {
        proof {
            lemma_days_before_year_mono(MIN_YEAR as int, self.year as int);
            lemma_days_before_year_mono(self.year as int, MAX_YEAR as int);
        }
        let dby: i64 = days_before_year_ex(self.year);
        let shifted: i64 = dby + self.ordinal as i64 - 1 + 42_000_000;
        proof {
            lemma_mod_multiples_vanish(6_000_000, self.spec_rata_die() - 1, 7);
        }
        let idx: i64 = shifted % 7;
        if idx == 0 {
            Weekday::Monday
        } else if idx == 1 {
            Weekday::Tuesday
        } else if idx == 2 {
            Weekday::Wednesday
        } else if idx == 3 {
            Weekday::Thursday
        } else if idx == 4 {
            Weekday::Friday
        } else if idx == 5 {
            Weekday::Saturday
        } else {
            Weekday::Sunday
        }
    }

    /// The date a number of days later (or earlier, when negative), or
    /// nothing when the result would leave the supported year span.
    pub fn checked_add_days(self, days: i64) -> (r: Option<Date>)
        requires
            self.is_valid(),
        ensures
            r is Some <==> min_rata_die() <= self.spec_rata_die() + days <= max_rata_die(),
            r matches Some(d) ==> d.is_valid() && d.spec_rata_die() == self.spec_rata_die()
                + days,
    {
        let jd = self.to_julian_day();
        if days >= 0 {
            if jd > i64::MAX - days {
                proof {
                    lemma_days_before_year_mono(MIN_YEAR as int, MAX_YEAR as int);
                }
                return None;
            }
        } else {
            if jd < i64::MIN - days {
                proof {
                    lemma_days_before_year_mono(MIN_YEAR as int, MAX_YEAR as int);
                }
                return None;
            }
        }
        match Date::from_julian_day(jd + days) {
            Ok(d) => Some(d),
            Err(_) => None,
        }
    }

    /// The date a signed duration later, moved by the duration's whole
    /// days; nothing when the result would leave the supported year span.
    pub fn checked_add(self, duration: crate::duration::Duration) -> (r: Option<Date>)
        requires
            self.is_valid(),
            duration.is_valid(),
        ensures
            r is Some <==> min_rata_die() <= self.spec_rata_die()
                + crate::duration::div_trunc(duration.seconds as int, 86_400)
                <= max_rata_die(),
            r matches Some(d) ==> d.is_valid() && d.spec_rata_die() == self.spec_rata_die()
                + crate::duration::div_trunc(duration.seconds as int, 86_400),
    {
        self.checked_add_days(duration.whole_days())
    }

    /// How many whole days separate this date from another: positive when
    /// this date is the later one.
    pub fn days_since(self, other: Date) -> (r: i64)
        requires
            self.is_valid(),
            other.is_valid(),
        ensures
            r == self.spec_rata_die() - other.spec_rata_die(),
    {
        self.to_julian_day() - other.to_julian_day()
    }
}

/// Two valid dates with the same fixed day number are equal, so the
/// Julian-day conversions invert each other.
pub proof fn lemma_rata_die_injective(a: Date, b: Date)
    requires
        a.is_valid(),
        b.is_valid(),
        a.spec_rata_die() == b.spec_rata_die(),
    ensures
        a == b,
{
    lemma_ordinal_date_unique(
        a.year as int,
        a.ordinal as int,
        b.year as int,
        b.ordinal as int,
    );
}

} // verus!
