//! The deterministic core of randomized value generation: mapping raw
//! random seeds to valid instances of every type, and the sign-coercion
//! steps the shrinkers apply, each with an exact contract.
//!
//! Randomness itself stays outside: callers draw raw integers however
//! they like and hand them in; every function here is total and checked
//! for every seed.

use vstd::prelude::*;
use crate::calendar::{days_in_year, year_length, MAX_YEAR, MIN_YEAR};
use crate::date::Date;
use crate::duration::Duration;
use crate::offset_date_time::OffsetDateTime;
use crate::primitive_date_time::{max_instant_nanos, min_instant_nanos, PrimitiveDateTime};
use crate::time::Time;
use crate::utc_offset::UtcOffset;
use crate::weekday::{day_index, Weekday};

verus! {

/// Maps a raw seed uniformly onto an inclusive range.
///
/// The span may be anything the signed 64-bit difference can hold; only
/// the full range, whose size overflows that difference, is out.
pub fn sample_in_range(seed: u64, min: i64, max: i64) -> (r: i64)
    requires
        min <= max,
        max - min < i64::MAX,
    ensures
        r == min + seed as int % (max - min + 1),
        min <= r <= max,
{
    let span: u64 = (max - min + 1) as u64;
    let off: u64 = seed % span;
    min + off as i64
}

/// A valid date from two seeds: the year uniform over the supported span,
/// the ordinal uniform over that year's days.
pub fn date_from_seed(year_seed: u64, ordinal_seed: u64) -> (r: Date)
    ensures
        r.is_valid(),
        r.year == MIN_YEAR + year_seed as int % 200_001,
        r.ordinal == 1 + ordinal_seed as int % year_length(r.year as int),
{
    let year: i64 = sample_in_range(year_seed, MIN_YEAR as i64, MAX_YEAR as i64);
    let year: i32 = year as i32;
    let ordinal: i64 = sample_in_range(ordinal_seed, 1, days_in_year(year) as i64);
    Date::from_ordinal_date_unchecked(year, ordinal as u16)
}

/// A valid time of day from four seeds, each field uniform over its range.
pub fn time_from_seed(hour_seed: u64, minute_seed: u64, second_seed: u64, nano_seed: u64)
    -> (r: Time)
    ensures
        r.is_valid(),
        r.hour == hour_seed as int % 24,
        r.minute == minute_seed as int % 60,
        r.second == second_seed as int % 60,
        r.nanosecond == nano_seed as int % 1_000_000_000,
{
    let hour: i64 = sample_in_range(hour_seed, 0, 23);
    let minute: i64 = sample_in_range(minute_seed, 0, 59);
    let second: i64 = sample_in_range(second_seed, 0, 59);
    let nano: i64 = sample_in_range(nano_seed, 0, 999_999_999);
    Time::from_hms_nano_unchecked(hour as u8, minute as u8, second as u8, nano as u32)
}

/// A valid duration from a signed seconds count, a non-negative
/// sub-second magnitude, and a coin.
///
/// The nanosecond part takes the sign of the seconds; the coin decides the
/// sign of a sub-second duration, so negative durations under one second
/// can arise.
pub fn duration_from_parts(seconds: i64, nanos: i32, negate_subsecond: bool) -> (r: Duration)
    requires
        0 <= nanos <= 999_999_999,
    ensures
        r.is_valid(),
        r.seconds == seconds,
        r.nanoseconds == if seconds < 0 || (seconds == 0 && negate_subsecond) {
            -nanos as int
        } else {
            nanos as int
        },
{
    if seconds < 0 || (seconds == 0 && negate_subsecond) {
        Duration { seconds, nanoseconds: -nanos }
    } else {
        Duration { seconds, nanoseconds: nanos }
    }
}

/// A valid duration from a seconds count, a seed for the sub-second
/// magnitude, and a coin for the sign of a sub-second value.
pub fn duration_from_seed(seconds: i64, nano_seed: u64, negate_subsecond: bool) -> (r:
    Duration)
    ensures
        r.is_valid(),
        r.seconds == seconds,
        r.nanoseconds == if seconds < 0 || (seconds == 0 && negate_subsecond) {
            -(nano_seed as int % 1_000_000_000)
        } else {
            nano_seed as int % 1_000_000_000
        },
{
    let nanos: i64 = sample_in_range(nano_seed, 0, 999_999_999);
    duration_from_parts(seconds, nanos as i32, negate_subsecond)
}

/// Restores sign consistency on a shrunk seconds/nanoseconds pair: the
/// nanosecond part flips exactly when the two fields have strictly
/// opposite signs.
pub fn duration_shrink_step(seconds: i64, nanoseconds: i32) -> (r: Duration)
    requires
        -999_999_999 <= nanoseconds <= 999_999_999,
    ensures
        r.is_valid(),
        r.seconds == seconds,
        r.nanoseconds == if (seconds > 0 && nanoseconds < 0) || (seconds < 0 && nanoseconds
            > 0) {
            -nanoseconds as int
        } else {
            nanoseconds as int
        },
{
    if (seconds > 0 && nanoseconds < 0) || (seconds < 0 && nanoseconds > 0) {
        Duration { seconds, nanoseconds: -nanoseconds }
    } else {
        Duration { seconds, nanoseconds }
    }
}

/// A valid offset from three seeds and two coins.
///
/// The hour is uniform over its signed range, minute and second magnitudes
/// over theirs; a negative hour carries its sign onto them, and the coins
/// allow negative offsets under one hour and under one minute.
pub fn utc_offset_from_seed(
    hour_seed: u64,
    minute_seed: u64,
    second_seed: u64,
    negate_under_hour: bool,
    negate_under_minute: bool,
) -> (r: UtcOffset)
    ensures
        r.is_valid(),
        ({
            let h = -23 + hour_seed as int % 47;
            let m = minute_seed as int % 60;
            let s = second_seed as int % 60;
            let negate = h < 0 || (h == 0 && negate_under_hour) || (h == 0 && m == 0
                && negate_under_minute);
            &&& r.hours == h
            &&& r.minutes == if negate {
                -m
            } else {
                m
            }
            &&& r.seconds == if negate {
                -s
            } else {
                s
            }
        }),
{
    let hours: i64 = sample_in_range(hour_seed, -23, 23);
    let minutes: i64 = sample_in_range(minute_seed, 0, 59);
    let seconds: i64 = sample_in_range(second_seed, 0, 59);
    let negate = hours < 0 || (hours == 0 && negate_under_hour) || (hours == 0 && minutes
        == 0 && negate_under_minute);
    if negate {
        UtcOffset {
            hours: hours as i8,
            minutes: -(minutes as i8),
            seconds: -(seconds as i8),
        }
    } else {
        UtcOffset { hours: hours as i8, minutes: minutes as i8, seconds: seconds as i8 }
    }
}

/// Restores sign consistency on a shrunk hours/minutes/seconds triple,
/// correcting by precedence: the minute flips to match a non-zero hour,
/// then the second flips to match whichever of the two is non-zero.
pub fn utc_offset_shrink_step(hours: i8, minutes: i8, seconds: i8) -> (r: UtcOffset)
    requires
        -23 <= hours <= 23,
        -59 <= minutes <= 59,
        -59 <= seconds <= 59,
    ensures
        r.is_valid(),
        r.hours == hours,
        ({
            let m = if (hours > 0 && minutes < 0) || (hours < 0 && minutes > 0) {
                -minutes as int
            } else {
                minutes as int
            };
            let s = if (hours > 0 && seconds < 0) || (hours < 0 && seconds > 0) || (m > 0
                && seconds < 0) || (m < 0 && seconds > 0) {
                -seconds as int
            } else {
                seconds as int
            };
            r.minutes == m && r.seconds == s
        }),
{
    let m: i8 = if (hours > 0 && minutes < 0) || (hours < 0 && minutes > 0) {
        -minutes
    } else {
        minutes
    };
    let s: i8 = if (hours > 0 && seconds < 0) || (hours < 0 && seconds > 0) || (m > 0
        && seconds < 0) || (m < 0 && seconds > 0) {
        -seconds
    } else {
        seconds
    };
    UtcOffset { hours, minutes: m, seconds: s }
}

/// A valid datetime from the seeds of its two components: the date drawn
/// as by [`date_from_seed`] and each clock field uniform over its range.
pub fn primitive_date_time_from_seed(
    year_seed: u64,
    ordinal_seed: u64,
    hour_seed: u64,
    minute_seed: u64,
    second_seed: u64,
    nano_seed: u64,
) -> (r: PrimitiveDateTime)
    ensures
        r.is_valid(),
        r.date.year == MIN_YEAR + year_seed as int % 200_001,
        r.date.ordinal == 1 + ordinal_seed as int % year_length(r.date.year as int),
        r.time.hour == hour_seed as int % 24,
        r.time.minute == minute_seed as int % 60,
        r.time.second == second_seed as int % 60,
        r.time.nanosecond == nano_seed as int % 1_000_000_000,
{
    let date = date_from_seed(year_seed, ordinal_seed);
    let time = time_from_seed(hour_seed, minute_seed, second_seed, nano_seed);
    PrimitiveDateTime::new(date, time)
}

/// A valid instant from a generated datetime and a generated offset.
///
/// The datetime is read as local to the offset, which is stored for
/// display; at the very edges of the supported span, where that instant
/// would leave it, the datetime is re-derived as UTC instead, so the
/// result is always valid.
pub fn offset_date_time_from_parts(datetime: PrimitiveDateTime, offset: UtcOffset) -> (r:
    OffsetDateTime)
    requires
        datetime.is_valid(),
        offset.is_valid(),
    ensures
        r.is_valid(),
        min_instant_nanos() <= datetime.spec_instant_nanos() - offset.spec_whole_seconds()
            * 1_000_000_000 <= max_instant_nanos() ==> {
            &&& r.offset == offset
            &&& r.utc_datetime.spec_instant_nanos() == datetime.spec_instant_nanos()
                - offset.spec_whole_seconds() * 1_000_000_000
        },
        !(min_instant_nanos() <= datetime.spec_instant_nanos()
            - offset.spec_whole_seconds() * 1_000_000_000 <= max_instant_nanos()) ==> {
            &&& r.utc_datetime == datetime
            &&& r.offset.hours == 0 && r.offset.minutes == 0 && r.offset.seconds == 0
        },
{
    let shift: i64 = -(offset.whole_seconds() as i64);
    match datetime.checked_add(Duration::seconds(shift)) {
        Some(utc_datetime) => OffsetDateTime { utc_datetime, offset },
        None => datetime.assume_utc(),
    }
}

/// The single shrink step of a weekday: every day steps back one toward
/// Monday, and Monday, the canonical minimum, has nothing to shrink to.
pub fn weekday_shrink(w: Weekday) -> (r: Option<Weekday>)
    ensures
        r is None <==> w == Weekday::Monday,
        r matches Some(p) ==> day_index(p) == (day_index(w) + 6) % 7,
{
    match w {
        Weekday::Monday => None,
        _ => Some(w.previous()),
    }
}

/// A weekday from a seed, uniform over the seven days.
pub fn weekday_from_seed(seed: u64) -> (r: Weekday)
    ensures
        day_index(r) == seed as int % 7,
{
    let idx: u64 = seed % 7;
    if idx == 0 {
        Weekday::Monday
    } else if idx == 1 {
        Weekday::Tuesday
    } else if idx == 2 {
        Weekday::Wednesday
    } else if idx == 3 {
        Weekday::Thursday
    } else if idx == 4 {
        Weekday::Friday
    } else if idx == 5 {
        Weekday::Saturday
    } else {
        Weekday::Sunday
    }
}

} // verus!
