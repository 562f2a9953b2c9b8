//! The clock time of day: hour, minute, second and nanosecond, each within
//! its fixed range, with exact conversions to and from a second-of-day
//! count.

use vstd::prelude::*;
use vstd::arithmetic::div_mod::{
    lemma_div_is_ordered, lemma_fundamental_div_mod, lemma_fundamental_div_mod_converse_div,
    lemma_fundamental_div_mod_converse_mod, lemma_mod_division_less_than_divisor,
};
use crate::error::Error;

verus! {

/// A time of day with nanosecond precision.
///
/// No carry is ever stored across fields: each stays in its own range.
#[derive(Clone, Copy, Debug, PartialEq, Eq, Structural)]
pub struct Time {
    pub hour: u8,
    pub minute: u8,
    pub second: u8,
    pub nanosecond: u32,
}

impl Time {
    /// The invariant every `Time` satisfies.
    pub open spec fn is_valid(self) -> bool {
        &&& self.hour <= 23
        &&& self.minute <= 59
        &&& self.second <= 59
        &&& self.nanosecond <= 999_999_999
    }

    /// The number of whole seconds since midnight.
    pub open spec fn spec_second_of_day(self) -> int {
        self.hour * 3600 + self.minute * 60 + self.second
    }

    /// The number of nanoseconds since midnight.
    pub open spec fn spec_nanos_of_day(self) -> int {
        self.spec_second_of_day() * 1_000_000_000 + self.nanosecond
    }

    /// Midnight, the start of the day.
    pub fn midnight() -> (r: Time)
        ensures
            r.is_valid(),
            r.spec_nanos_of_day() == 0,
    {
        Time { hour: 0, minute: 0, second: 0, nanosecond: 0 }
    }

    /// Builds a time of day from hours, minutes and seconds, rejecting any
    /// field out of range.
    pub fn from_hms(hour: u8, minute: u8, second: u8) -> (r: Result<Time, Error>)
        ensures
            r is Ok <==> hour <= 23 && minute <= 59 && second <= 59,
            r matches Ok(t) ==> t.is_valid() && t.hour == hour && t.minute == minute
                && t.second == second && t.nanosecond == 0,
            r matches Err(e) ==> e == Error::InvalidComponent,
    {
        if hour > 23 || minute > 59 || second > 59 {
            Err(Error::InvalidComponent)
        } else {
            Ok(Time { hour, minute, second, nanosecond: 0 })
        }
    }

    /// Builds a time of day from all four fields, rejecting any field out
    /// of range.
    pub fn from_hms_nano(hour: u8, minute: u8, second: u8, nanosecond: u32) -> (r: Result<
        Time,
        Error,
    >)
        ensures
            r is Ok <==> hour <= 23 && minute <= 59 && second <= 59 && nanosecond
                <= 999_999_999,
            r matches Ok(t) ==> t.is_valid() && t.hour == hour && t.minute == minute
                && t.second == second && t.nanosecond == nanosecond,
            r matches Err(e) ==> e == Error::InvalidComponent,
    {
        if hour > 23 || minute > 59 || second > 59 || nanosecond > 999_999_999 {
            Err(Error::InvalidComponent)
        } else {
            Ok(Time { hour, minute, second, nanosecond })
        }
    }

    /// Builds a time of day whose validity the caller has already
    /// established.
    pub(crate) fn from_hms_nano_unchecked(hour: u8, minute: u8, second: u8, nanosecond: u32)
        -> (r: Time)
        requires
            hour <= 23,
            minute <= 59,
            second <= 59,
            nanosecond <= 999_999_999,
        ensures
            r.is_valid(),
            r.hour == hour,
            r.minute == minute,
            r.second == second,
            r.nanosecond == nanosecond,
    {
        Time { hour, minute, second, nanosecond }
    }

    /// The hour of the day.
    pub fn hour(self) -> (r: u8)
        ensures
            r == self.hour,
    {
        self.hour
    }

    /// The minute of the hour.
    pub fn minute(self) -> (r: u8)
        ensures
            r == self.minute,
    {
        self.minute
    }

    /// The second of the minute.
    pub fn second(self) -> (r: u8)
        ensures
            r == self.second,
    {
        self.second
    }

    /// The nanosecond of the second.
    pub fn nanosecond(self) -> (r: u32)
        ensures
            r == self.nanosecond,
    {
        self.nanosecond
    }

    /// The hour, minute and second as a tuple.
    pub fn as_hms(self) -> (r: (u8, u8, u8))
        ensures
            r.0 == self.hour,
            r.1 == self.minute,
            r.2 == self.second,
    {
        (self.hour, self.minute, self.second)
    }

    /// All four fields as a tuple.
    pub fn as_hms_nano(self) -> (r: (u8, u8, u8, u32))
        ensures
            r.0 == self.hour,
            r.1 == self.minute,
            r.2 == self.second,
            r.3 == self.nanosecond,
    {
        (self.hour, self.minute, self.second, self.nanosecond)
    }

    /// The number of whole seconds since midnight, below 86 400.
    pub fn second_of_day(self) -> (r: u32)
        requires
            self.is_valid(),
        ensures
            r == self.spec_second_of_day(),
            r < 86_400,
    {
        self.hour as u32 * 3600 + self.minute as u32 * 60 + self.second as u32
    }

    /// Rebuilds the time of day holding a given second-of-day count and
    /// nanosecond.
    pub fn from_second_of_day(second_of_day: u32, nanosecond: u32) -> (r: Time)
        requires
            second_of_day < 86_400,
            nanosecond <= 999_999_999,
        ensures
            r.is_valid(),
            r.spec_second_of_day() == second_of_day,
            r.nanosecond == nanosecond,
    {
        let hour: u32 = second_of_day / 3600;
        let rem: u32 = second_of_day % 3600;
        let minute: u32 = rem / 60;
        let second: u32 = rem % 60;
        proof {
            lemma_fundamental_div_mod(second_of_day as int, 3600);
            lemma_mod_division_less_than_divisor(second_of_day as int, 3600);
            lemma_div_is_ordered(second_of_day as int, 86_399, 3600);
            lemma_fundamental_div_mod(rem as int, 60);
            lemma_mod_division_less_than_divisor(rem as int, 60);
            lemma_div_is_ordered(rem as int, 3599, 60);
        }
        Time { hour: hour as u8, minute: minute as u8, second: second as u8, nanosecond }
    }
}

impl Time {
    /// The number of nanoseconds since midnight, below 86 400 billion.
    pub fn nanos_of_day(self) -> (r: u64)
        requires
            self.is_valid(),
        ensures
            r == self.spec_nanos_of_day(),
            r < 86_400_000_000_000,
    {
        self.second_of_day() as u64 * 1_000_000_000 + self.nanosecond as u64
    }

    /// Rebuilds the time of day holding a given nanosecond-of-day count:
    /// the exact inverse of [`Self::nanos_of_day`].
    pub fn from_nanos_of_day(nanos: u64) -> (r: Time)
        requires
            nanos < 86_400_000_000_000,
        ensures
            r.is_valid(),
            r.spec_nanos_of_day() == nanos,
    {
        let second_of_day: u64 = nanos / 1_000_000_000;
        let nanosecond: u64 = nanos % 1_000_000_000;
        proof {
            lemma_fundamental_div_mod(nanos as int, 1_000_000_000);
            lemma_mod_division_less_than_divisor(nanos as int, 1_000_000_000);
            lemma_div_is_ordered(nanos as int, 86_399_999_999_999, 1_000_000_000);
            lemma_fundamental_div_mod_converse_div(86_399_999_999_999, 1_000_000_000,
                86_399, 999_999_999);
        }
        Time::from_second_of_day(second_of_day as u32, nanosecond as u32)
    }
}

/// The fields of a valid time are recoverable from its second-of-day
/// count, so the count determines the clock fields exactly.
pub proof fn lemma_second_of_day_components(t: Time)
    requires
        t.is_valid(),
    ensures
        t.hour == t.spec_second_of_day() / 3600,
        t.minute == (t.spec_second_of_day() % 3600) / 60,
        t.second == t.spec_second_of_day() % 60,
{
    let sod = t.spec_second_of_day();
    lemma_fundamental_div_mod_converse_div(sod, 3600, t.hour as int,
        t.minute * 60 + t.second);
    lemma_fundamental_div_mod_converse_mod(sod, 3600, t.hour as int,
        t.minute * 60 + t.second);
    lemma_fundamental_div_mod_converse_div(t.minute * 60 + t.second, 60, t.minute as int,
        t.second as int);
    lemma_fundamental_div_mod_converse_mod(sod, 60, t.hour * 60 + t.minute,
        t.second as int);
}

/// Two valid times with the same nanosecond-of-day count are equal.
pub proof fn lemma_nanos_of_day_unique(a: Time, b: Time)
    requires
        a.is_valid(),
        b.is_valid(),
        a.spec_nanos_of_day() == b.spec_nanos_of_day(),
    ensures
        a == b,
{
    lemma_fundamental_div_mod_converse_div(a.spec_nanos_of_day(), 1_000_000_000,
        a.spec_second_of_day(), a.nanosecond as int);
    lemma_fundamental_div_mod_converse_div(b.spec_nanos_of_day(), 1_000_000_000,
        b.spec_second_of_day(), b.nanosecond as int);
    lemma_second_of_day_components(a);
    lemma_second_of_day_components(b);
}

} // verus!
