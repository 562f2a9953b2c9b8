//! Proleptic-Gregorian calendar arithmetic: leap years, year lengths,
//! day counts, and the ordinal/calendar conversion tables.

use vstd::prelude::*;
use vstd::arithmetic::div_mod::{
    lemma_fundamental_div_mod, lemma_fundamental_div_mod_converse_div,
    lemma_fundamental_div_mod_converse_mod, lemma_mod_division_less_than_divisor,
};

verus! {

/// The first year a `Date` can hold.
pub const MIN_YEAR: i32 = -100_000;
/// The last year a `Date` can hold.
pub const MAX_YEAR: i32 = 100_000;

/// The Gregorian leap-year rule: divisible by 4, except centuries that are
/// not divisible by 400.
pub open spec fn is_leap(y: int) -> bool {
    y % 4 == 0 && (y % 100 != 0 || y % 400 == 0)
}

/// How many days the given year has.
pub open spec fn year_length(y: int) -> int {
    if is_leap(y) {
        366
    } else {
        365
    }
}

/// Days strictly before January 1 of year `y`, counted from the day before
/// January 1 of year 1 (so `days_before_year(1) == 0`).
pub open spec fn days_before_year(y: int) -> int {
    365 * (y - 1) + (y - 1) / 4 - (y - 1) / 100 + (y - 1) / 400
}

/// The fixed day number of an ordinal date: day 1 is January 1 of year 1.
pub open spec fn rata_die(y: int, ordinal: int) -> int {
    days_before_year(y) + ordinal
}

/// Quotients by a fixed positive divisor step by one exactly at multiples.
proof fn lemma_div_step(y: int, d: int)
    requires
        d > 0,
    ensures
        y / d - (y - 1) / d == if y % d == 0 {
            1int
        } else {
            0int
        },
{
    let q = y / d;
    let r = y % d;
    lemma_fundamental_div_mod(y, d);
    lemma_mod_division_less_than_divisor(y, d);
    if r == 0 {
        assert(y - 1 == (q - 1) * d + (d - 1)) by (nonlinear_arith)
            requires y == d * q + r && r == 0,
        ;
        lemma_fundamental_div_mod_converse_div(y - 1, d, q - 1, d - 1);
    } else {
        assert(y - 1 == q * d + (r - 1)) by (nonlinear_arith)
            requires y == d * q + r,
        ;
        lemma_fundamental_div_mod_converse_div(y - 1, d, q, r - 1);
    }
}

/// Divisibility by 400 implies divisibility by 100 and by 4; by 100 implies
/// by 4.
proof fn lemma_leap_divisibility(y: int)
    ensures
        y % 400 == 0 ==> y % 100 == 0,
        y % 100 == 0 ==> y % 4 == 0,
{
    if y % 400 == 0 {
        lemma_fundamental_div_mod(y, 400);
        assert(y == (4 * (y / 400)) * 100 + 0) by (nonlinear_arith)
            requires y == 400 * (y / 400),
        ;
        lemma_fundamental_div_mod_converse_mod(y, 100, 4 * (y / 400), 0);
    }
    if y % 100 == 0 {
        lemma_fundamental_div_mod(y, 100);
        assert(y == (25 * (y / 100)) * 4 + 0) by (nonlinear_arith)
            requires y == 100 * (y / 100),
        ;
        lemma_fundamental_div_mod_converse_mod(y, 4, 25 * (y / 100), 0);
    }
}

/// Advancing one year adds exactly that year's length to the day count.
pub proof fn lemma_days_before_year_step(y: int)
    ensures
        days_before_year(y + 1) == days_before_year(y) + year_length(y),
{
    lemma_div_step(y, 4);
    lemma_div_step(y, 100);
    lemma_div_step(y, 400);
    lemma_leap_divisibility(y);
}

/// The day count grows by at least 365 and at most 366 per year.
pub proof fn lemma_days_before_year_mono(y1: int, y2: int)
    requires
        y1 <= y2,
    ensures
        days_before_year(y1) + 365 * (y2 - y1) <= days_before_year(y2),
        days_before_year(y2) <= days_before_year(y1) + 366 * (y2 - y1),
    decreases y2 - y1,
{
    if y1 < y2 {
        lemma_days_before_year_mono(y1, y2 - 1);
        lemma_days_before_year_step(y2 - 1);
    }
}

/// Two ordinal dates with the same fixed day number are the same date.
pub proof fn lemma_ordinal_date_unique(y1: int, o1: int, y2: int, o2: int)
    requires
        1 <= o1 <= year_length(y1),
        1 <= o2 <= year_length(y2),
        rata_die(y1, o1) == rata_die(y2, o2),
    ensures
        y1 == y2,
        o1 == o2,
{
    if y1 < y2 {
        lemma_days_before_year_step(y1);
        lemma_days_before_year_mono(y1 + 1, y2);
        assert(false);
    }
    if y2 < y1 {
        lemma_days_before_year_step(y2);
        lemma_days_before_year_mono(y2 + 1, y1);
        assert(false);
    }
}

/// Whether `year` is a leap year.
pub fn is_leap_year(year: i32) -> (r: bool)
    requires
        MIN_YEAR <= year <= MAX_YEAR + 1,
    ensures
        r == is_leap(year as int),
{
    let z: i32 = year + 2_000_000;
    proof {
        let y = year as int;
        lemma_fundamental_div_mod(y, 4);
        lemma_mod_division_less_than_divisor(y, 4);
        lemma_fundamental_div_mod_converse_mod(z as int, 4, 500_000 + y / 4, y % 4);
        lemma_fundamental_div_mod(y, 100);
        lemma_mod_division_less_than_divisor(y, 100);
        lemma_fundamental_div_mod_converse_mod(z as int, 100, 20_000 + y / 100, y % 100);
        lemma_fundamental_div_mod(y, 400);
        lemma_mod_division_less_than_divisor(y, 400);
        lemma_fundamental_div_mod_converse_mod(z as int, 400, 5_000 + y / 400, y % 400);
    }
    z % 4 == 0 && (z % 100 != 0 || z % 400 == 0)
}

/// How many days the given year has: 365, or 366 in a leap year.
pub fn days_in_year(year: i32) -> (r: u16)
    requires
        MIN_YEAR <= year <= MAX_YEAR + 1,
    ensures
        r == year_length(year as int),
{
    if is_leap_year(year) {
        366
    } else {
        365
    }
}

/// A year has 366 days exactly when it is a leap year.
pub proof fn lemma_leap_year_iff_366_days(y: int)
    ensures
        is_leap(y) <==> year_length(y) == 366,
{
}

/// Days strictly before January 1 of `year`, as an executable count.
pub fn days_before_year_ex(year: i32) -> (r: i64)
    requires
        MIN_YEAR <= year <= MAX_YEAR + 1,
    ensures
        r == days_before_year(year as int),
{
    let n: i64 = year as i64 - 1 + 2_400_000;
    proof {
        let ym1 = year as int - 1;
        lemma_fundamental_div_mod(ym1, 4);
        lemma_mod_division_less_than_divisor(ym1, 4);
        lemma_fundamental_div_mod_converse_div(n as int, 4, 600_000 + ym1 / 4, ym1 % 4);
        lemma_fundamental_div_mod_converse_mod(n as int, 4, 600_000 + ym1 / 4, ym1 % 4);
        lemma_fundamental_div_mod(ym1, 100);
        lemma_mod_division_less_than_divisor(ym1, 100);
        lemma_fundamental_div_mod_converse_div(n as int, 100, 24_000 + ym1 / 100, ym1 % 100);
        lemma_fundamental_div_mod(ym1, 400);
        lemma_mod_division_less_than_divisor(ym1, 400);
        lemma_fundamental_div_mod_converse_div(n as int, 400, 6_000 + ym1 / 400, ym1 % 400);
    }
    365 * (year as i64 - 1) + n / 4 - 600_000 - (n / 100 - 24_000) + n / 400 - 6_000
}

/// The Monday-first index of the weekday of January 1 of year `y`:
/// day 1 of year 1 is a Monday.
pub open spec fn jan1_weekday_index(y: int) -> int {
    days_before_year(y) % 7
}

/// How many ISO 8601 weeks the given year has: 53 exactly when the year
/// starts on a Thursday, or is a leap year starting on a Wednesday.
pub open spec fn weeks_in_year_spec(y: int) -> int {
    if jan1_weekday_index(y) == 3 || (is_leap(y) && jan1_weekday_index(y) == 2) {
        53
    } else {
        52
    }
}

/// How many ISO 8601 weeks the given year has.
pub fn weeks_in_year(year: i32) -> (r: u8)
    requires
        MIN_YEAR <= year <= MAX_YEAR,
    ensures
        r == weeks_in_year_spec(year as int),
{
    let shifted: i64 = days_before_year_ex(year) + 42_000_000;
    proof {
        lemma_days_before_year_mono(MIN_YEAR as int, year as int);
        lemma_days_before_year_mono(year as int, MAX_YEAR as int);
        vstd::arithmetic::div_mod::lemma_mod_multiples_vanish(6_000_000,
            days_before_year(year as int), 7);
    }
    let idx: i64 = shifted % 7;
    if idx == 3 || (is_leap_year(year) && idx == 2) {
        53
    } else {
        52
    }
}

/// How many days the given month has, 1 being January.
pub open spec fn month_length(m: int, leap: bool) -> int {
    if m == 2 {
        if leap {
            29
        } else {
            28
        }
    } else if m == 4 || m == 6 || m == 9 || m == 11 {
        30
    } else {
        31
    }
}

/// Days of the year strictly before the first day of month `m`.
pub open spec fn days_before_month(m: int, leap: bool) -> int
    decreases m,
{
    if m <= 1 {
        0
    } else {
        days_before_month(m - 1, leap) + month_length(m - 1, leap)
    }
}

/// The cumulative month table, unrolled for months 1 through 13.
pub proof fn lemma_month_table(leap: bool)
    ensures
        days_before_month(1, leap) == 0,
        days_before_month(2, leap) == 31,
        days_before_month(3, leap) == 59 + if leap { 1int } else { 0int },
        days_before_month(4, leap) == 90 + if leap { 1int } else { 0int },
        days_before_month(5, leap) == 120 + if leap { 1int } else { 0int },
        days_before_month(6, leap) == 151 + if leap { 1int } else { 0int },
        days_before_month(7, leap) == 181 + if leap { 1int } else { 0int },
        days_before_month(8, leap) == 212 + if leap { 1int } else { 0int },
        days_before_month(9, leap) == 243 + if leap { 1int } else { 0int },
        days_before_month(10, leap) == 273 + if leap { 1int } else { 0int },
        days_before_month(11, leap) == 304 + if leap { 1int } else { 0int },
        days_before_month(12, leap) == 334 + if leap { 1int } else { 0int },
        days_before_month(13, leap) == 365 + if leap { 1int } else { 0int },
{
    reveal_with_fuel(days_before_month, 14);
}

/// The month in which a day of the year falls.
pub open spec fn month_of(o: int, leap: bool) -> int {
    let e: int = if leap {
        1
    } else {
        0
    };
    if o <= 31 {
        1
    } else if o <= 59 + e {
        2
    } else if o <= 90 + e {
        3
    } else if o <= 120 + e {
        4
    } else if o <= 151 + e {
        5
    } else if o <= 181 + e {
        6
    } else if o <= 212 + e {
        7
    } else if o <= 243 + e {
        8
    } else if o <= 273 + e {
        9
    } else if o <= 304 + e {
        10
    } else if o <= 334 + e {
        11
    } else {
        12
    }
}

/// Within one year, a (month, day) pair is determined by its ordinal.
pub proof fn lemma_month_day_unique(leap: bool, m1: int, d1: int, m2: int, d2: int)
    requires
        1 <= m1 <= 12,
        1 <= d1 <= month_length(m1, leap),
        1 <= m2 <= 12,
        1 <= d2 <= month_length(m2, leap),
        days_before_month(m1, leap) + d1 == days_before_month(m2, leap) + d2,
    ensures
        m1 == m2,
        d1 == d2,
{
    lemma_month_table(leap);
}

/// For every day of a year, reading off its month and day-of-month and
/// summing the cumulative table back reproduces the ordinal: the
/// ordinal-to-calendar conversion and its inverse round-trip.
pub proof fn lemma_ordinal_calendar_round_trip(leap: bool, o: int)
    requires
        1 <= o <= if leap {
            366int
        } else {
            365int
        },
    ensures
        ({
            let m = month_of(o, leap);
            let d = o - days_before_month(m, leap);
            &&& 1 <= m <= 12
            &&& 1 <= d <= month_length(m, leap)
            &&& days_before_month(m, leap) + d == o
        }),
{
    lemma_month_table(leap);
}

/// The month and day of the given day of the year.
///
/// The pair returned is the unique one whose cumulative day count matches
/// the ordinal, so converting it back with [`calendar_to_ordinal`]
/// reproduces the ordinal exactly.
pub fn ordinal_to_calendar(year: i32, ordinal: u16) -> (r: (u8, u8))
    requires
        MIN_YEAR <= year <= MAX_YEAR,
        1 <= ordinal <= year_length(year as int),
    ensures
        1 <= r.0 <= 12,
        1 <= r.1 <= month_length(r.0 as int, is_leap(year as int)),
        days_before_month(r.0 as int, is_leap(year as int)) + r.1 == ordinal,
        r.0 == month_of(ordinal as int, is_leap(year as int)),
{
    let leap = is_leap_year(year);
    let e: u16 = if leap {
        1
    } else {
        0
    };
    proof {
        lemma_month_table(leap);
    }
    if ordinal <= 31 {
        (1, ordinal as u8)
    } else if ordinal <= 59 + e {
        (2, (ordinal - 31) as u8)
    } else if ordinal <= 90 + e {
        (3, (ordinal - (59 + e)) as u8)
    } else if ordinal <= 120 + e {
        (4, (ordinal - (90 + e)) as u8)
    } else if ordinal <= 151 + e {
        (5, (ordinal - (120 + e)) as u8)
    } else if ordinal <= 181 + e {
        (6, (ordinal - (151 + e)) as u8)
    } else if ordinal <= 212 + e {
        (7, (ordinal - (181 + e)) as u8)
    } else if ordinal <= 243 + e {
        (8, (ordinal - (212 + e)) as u8)
    } else if ordinal <= 273 + e {
        (9, (ordinal - (243 + e)) as u8)
    } else if ordinal <= 304 + e {
        (10, (ordinal - (273 + e)) as u8)
    } else if ordinal <= 334 + e {
        (11, (ordinal - (304 + e)) as u8)
    } else {
        (12, (ordinal - (334 + e)) as u8)
    }
}

/// The day of the year on which the given month and day fall.
pub fn calendar_to_ordinal(year: i32, month: u8, day: u8) -> (r: u16)
    requires
        MIN_YEAR <= year <= MAX_YEAR,
        1 <= month <= 12,
        1 <= day <= month_length(month as int, is_leap(year as int)),
    ensures
        r == days_before_month(month as int, is_leap(year as int)) + day,
        1 <= r <= year_length(year as int),
{
    let leap = is_leap_year(year);
    let e: u16 = if leap {
        1
    } else {
        0
    };
    proof {
        lemma_month_table(leap);
    }
    let before: u16 = match month {
        1 => 0,
        2 => 31,
        3 => 59 + e,
        4 => 90 + e,
        5 => 120 + e,
        6 => 151 + e,
        7 => 181 + e,
        8 => 212 + e,
        9 => 243 + e,
        10 => 273 + e,
        11 => 304 + e,
        _ => 334 + e,
    };
    before + day as u16
}

/// How many days a month of a given year has.
pub fn days_in_year_month(year: i32, month: u8) -> (r: u8)
    requires
        MIN_YEAR <= year <= MAX_YEAR,
        1 <= month <= 12,
    ensures
        r == month_length(month as int, is_leap(year as int)),
{
    let leap = is_leap_year(year);
    if month == 2 {
        if leap {
            29
        } else {
            28
        }
    } else if month == 4 || month == 6 || month == 9 || month == 11 {
        30
    } else {
        31
    }
}

} // verus!
