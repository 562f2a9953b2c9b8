//! The signed duration: a seconds/nanoseconds pair under the
//! sign-consistency invariant, with overflow-checked arithmetic and
//! interop with the unsigned platform duration type.

use vstd::prelude::*;
use vstd::arithmetic::div_mod::{
    lemma_div_is_ordered, lemma_div_nonincreasing, lemma_fundamental_div_mod,
    lemma_fundamental_div_mod_converse_div, lemma_mod_division_less_than_divisor,
};
use vstd::math::abs;
use vstd::pervasive::unreached;
use crate::error::Error;

verus! {

/// Nanoseconds in one second.
pub const NANOS_PER_SECOND: i32 = 1_000_000_000;

/// The least total nanosecond count a `Duration` can hold.
pub const MIN_TOTAL_NANOS: i128 = -9_223_372_036_854_775_808_999_999_999;

/// The greatest total nanosecond count a `Duration` can hold.
pub const MAX_TOTAL_NANOS: i128 = 9_223_372_036_854_775_807_999_999_999;

/// A signed span of time: whole seconds plus a sub-second nanosecond part.
///
/// Both fields carry the sign of the whole value: they are never of
/// strictly opposite signs, and the nanosecond part stays below one second
/// in magnitude.
#[derive(Clone, Copy, Debug, PartialEq, Eq, Structural)]
pub struct Duration {
    pub seconds: i64,
    pub nanoseconds: i32,
}

/// Truncating (toward zero) division, the convention all whole-unit
/// accessors follow.
pub open spec fn div_trunc(a: int, b: int) -> int {
    if (a < 0) == (b < 0) {
        abs(a) as int / abs(b) as int
    } else {
        -(abs(a) as int / abs(b) as int)
    }
}

/// The seconds component of a total nanosecond count, truncated toward
/// zero.
pub open spec fn secs_of_total(t: int) -> int {
    div_trunc(t, 1_000_000_000)
}

/// Whether a total nanosecond count fits a `Duration`: its seconds
/// component must fit a signed 64-bit integer.
pub open spec fn total_in_range(t: int) -> bool {
    MIN_TOTAL_NANOS <= t <= MAX_TOTAL_NANOS
}

/// A total fits exactly when its truncated seconds component lies within
/// the signed 64-bit range: the two descriptions of the representable span
/// agree.
pub proof fn lemma_total_range_is_seconds_range(t: int)
    ensures
        total_in_range(t) <==> i64::MIN <= secs_of_total(t) <= i64::MAX,
{
    let g = 1_000_000_000int;
    let u = abs(t) as int;
    lemma_fundamental_div_mod_converse_div(MAX_TOTAL_NANOS as int, g, i64::MAX as int,
        999_999_999);
    lemma_fundamental_div_mod_converse_div(MAX_TOTAL_NANOS as int + 1, g,
        i64::MAX as int + 1, 0);
    lemma_fundamental_div_mod_converse_div(-(MIN_TOTAL_NANOS as int), g,
        -(i64::MIN as int), 999_999_999);
    lemma_fundamental_div_mod_converse_div(-(MIN_TOTAL_NANOS as int) + 1, g,
        -(i64::MIN as int) + 1, 0);
    if t >= 0 {
        if t <= MAX_TOTAL_NANOS {
            lemma_div_is_ordered(u, MAX_TOTAL_NANOS as int, g);
        } else {
            lemma_div_is_ordered(MAX_TOTAL_NANOS as int + 1, u, g);
        }
    } else {
        if MIN_TOTAL_NANOS <= t {
            lemma_div_is_ordered(u, -(MIN_TOTAL_NANOS as int), g);
        } else {
            lemma_div_is_ordered(-(MIN_TOTAL_NANOS as int) + 1, u, g);
        }
    }
}

impl Duration {
    /// The invariant every `Duration` satisfies: the nanosecond part is
    /// below one second in magnitude and never of the strictly opposite
    /// sign of the seconds part.
    pub open spec fn is_valid(self) -> bool {
        &&& -999_999_999 <= self.nanoseconds <= 999_999_999
        &&& self.seconds > 0 ==> self.nanoseconds >= 0
        &&& self.seconds < 0 ==> self.nanoseconds <= 0
    }

    /// The whole value as a single mathematical nanosecond count.
    pub open spec fn total_nanos(self) -> int {
        self.seconds * 1_000_000_000 + self.nanoseconds
    }
}

/// The fields of a valid duration are exactly the truncated seconds
/// component of its total and the signed remainder.
pub proof fn lemma_valid_components(d: Duration)
    requires
        d.is_valid(),
    ensures
        d.seconds == secs_of_total(d.total_nanos()),
        d.nanoseconds == d.total_nanos() - 1_000_000_000 * secs_of_total(d.total_nanos()),
{
    let g = 1_000_000_000int;
    let t = d.total_nanos();
    if t >= 0 {
        assert(d.seconds >= 0 && d.nanoseconds >= 0);
        lemma_fundamental_div_mod_converse_div(t, g, d.seconds as int, d.nanoseconds as int);
    } else {
        assert(d.seconds <= 0 && d.nanoseconds <= 0);
        assert(-t == (-d.seconds as int) * g + (-d.nanoseconds as int));
        lemma_fundamental_div_mod_converse_div(-t, g, -d.seconds as int, -d.nanoseconds as int);
    }
}

/// Sign consistency, spelled out: the two fields of a valid duration are
/// never of strictly opposite signs.
pub proof fn lemma_sign_consistency(d: Duration)
    requires
        d.is_valid(),
    ensures
        !(d.seconds > 0 && d.nanoseconds < 0),
        !(d.seconds < 0 && d.nanoseconds > 0),
{
}

/// A total nanosecond count has one valid representation: two valid
/// durations with equal totals are equal.
pub proof fn lemma_valid_unique(a: Duration, b: Duration)
    requires
        a.is_valid(),
        b.is_valid(),
        a.total_nanos() == b.total_nanos(),
    ensures
        a == b,
{
    lemma_valid_components(a);
    lemma_valid_components(b);
}

/// Truncating division of a signed 128-bit value by a positive one,
/// carried out on magnitudes.
fn div_trunc_i128(a: i128, b: i128) -> (r: i128)
    requires
        b > 0,
        a > i128::MIN,
    ensures
        r == div_trunc(a as int, b as int),
{
    let ua: u128 = if a >= 0 {
        a as u128
    } else {
        (-a) as u128
    };
    let q: u128 = ua / (b as u128);
    proof {
        lemma_div_nonincreasing(ua as int, b as int);
    }
    if a >= 0 {
        q as i128
    } else {
        -(q as i128)
    }
}

/// Builds the unique valid duration holding a given total nanosecond
/// count.
fn duration_from_total(t: i128) -> (r: Duration)
    requires
        MIN_TOTAL_NANOS <= t <= MAX_TOTAL_NANOS,
    ensures
        r.is_valid(),
        r.total_nanos() == t,
{
    let g: u128 = 1_000_000_000;
    if t >= 0 {
        let u: u128 = t as u128;
        let q: u128 = u / g;
        let n: u128 = u % g;
        proof {
            lemma_fundamental_div_mod(u as int, g as int);
            lemma_mod_division_less_than_divisor(u as int, g as int);
            lemma_div_is_ordered(u as int, MAX_TOTAL_NANOS as int, g as int);
            lemma_fundamental_div_mod_converse_div(MAX_TOTAL_NANOS as int, g as int,
                i64::MAX as int, 999_999_999);
        }
        Duration { seconds: q as i64, nanoseconds: n as i32 }
    } else {
        let u: u128 = (-t) as u128;
        let q: u128 = u / g;
        let n: u128 = u % g;
        proof {
            lemma_fundamental_div_mod(u as int, g as int);
            lemma_mod_division_less_than_divisor(u as int, g as int);
            lemma_div_is_ordered(u as int, -(MIN_TOTAL_NANOS as int), g as int);
            lemma_fundamental_div_mod_converse_div(-(MIN_TOTAL_NANOS as int), g as int,
                -(i64::MIN as int), 999_999_999);
        }
        let s: i128 = -(q as i128);
        let m: i128 = -(n as i128);
        Duration { seconds: s as i64, nanoseconds: m as i32 }
    }
}

/// The duration's total nanosecond count as a machine integer.
fn total_of(d: &Duration) -> (t: i128)
    ensures
        t == d.total_nanos(),
{
    d.seconds as i128 * 1_000_000_000 + d.nanoseconds as i128
}

impl Duration {
    /// Builds a duration from seconds and nanoseconds, normalizing the
    /// pair to the canonical sign-consistent form with the same total.
    ///
    /// The caller keeps the total within the representable span; the
    /// checked operations exist for untrusted inputs.
    pub fn new(seconds: i64, nanoseconds: i32) -> (r: Duration)
        requires
            total_in_range(seconds * 1_000_000_000 + nanoseconds),
        ensures
            r.is_valid(),
            r.total_nanos() == seconds * 1_000_000_000 + nanoseconds,
    {
        duration_from_total(seconds as i128 * 1_000_000_000 + nanoseconds as i128)
    }

    /// The zero duration.
    pub fn zero() -> (r: Duration)
        ensures
            r.is_valid(),
            r.total_nanos() == 0,
    {
        Duration { seconds: 0, nanoseconds: 0 }
    }

    /// The greatest representable duration.
    pub fn max_value() -> (r: Duration)
        ensures
            r.is_valid(),
            r.total_nanos() == MAX_TOTAL_NANOS,
    {
        Duration { seconds: i64::MAX, nanoseconds: 999_999_999 }
    }

    /// The least representable duration.
    pub fn min_value() -> (r: Duration)
        ensures
            r.is_valid(),
            r.total_nanos() == MIN_TOTAL_NANOS,
    {
        Duration { seconds: i64::MIN, nanoseconds: -999_999_999 }
    }

    /// A duration of a number of weeks.
    pub fn weeks(weeks: i64) -> (r: Duration)
        requires
            i64::MIN <= weeks * 604_800 <= i64::MAX,
        ensures
            r.is_valid(),
            r.total_nanos() == weeks * 604_800 * 1_000_000_000,
    {
        Duration { seconds: weeks * 604_800, nanoseconds: 0 }
    }

    /// A duration of a number of days.
    pub fn days(days: i64) -> (r: Duration)
        requires
            i64::MIN <= days * 86_400 <= i64::MAX,
        ensures
            r.is_valid(),
            r.total_nanos() == days * 86_400 * 1_000_000_000,
    {
        Duration { seconds: days * 86_400, nanoseconds: 0 }
    }

    /// A duration of a number of hours.
    pub fn hours(hours: i64) -> (r: Duration)
        requires
            i64::MIN <= hours * 3_600 <= i64::MAX,
        ensures
            r.is_valid(),
            r.total_nanos() == hours * 3_600 * 1_000_000_000,
    {
        Duration { seconds: hours * 3_600, nanoseconds: 0 }
    }

    /// A duration of a number of minutes.
    pub fn minutes(minutes: i64) -> (r: Duration)
        requires
            i64::MIN <= minutes * 60 <= i64::MAX,
        ensures
            r.is_valid(),
            r.total_nanos() == minutes * 60 * 1_000_000_000,
    {
        Duration { seconds: minutes * 60, nanoseconds: 0 }
    }

    /// A duration of a number of seconds.
    pub fn seconds(seconds: i64) -> (r: Duration)
        ensures
            r.is_valid(),
            r.total_nanos() == seconds * 1_000_000_000,
    {
        Duration { seconds, nanoseconds: 0 }
    }

    /// A duration of a number of milliseconds; every 64-bit count fits.
    pub fn milliseconds(milliseconds: i64) -> (r: Duration)
        ensures
            r.is_valid(),
            r.total_nanos() == milliseconds * 1_000_000,
    {
        duration_from_total(milliseconds as i128 * 1_000_000)
    }

    /// A duration of a number of microseconds; every 64-bit count fits.
    pub fn microseconds(microseconds: i64) -> (r: Duration)
        ensures
            r.is_valid(),
            r.total_nanos() == microseconds * 1_000,
    {
        duration_from_total(microseconds as i128 * 1_000)
    }

    /// A duration of a number of nanoseconds; every 64-bit count fits.
    pub fn nanoseconds(nanoseconds: i64) -> (r: Duration)
        ensures
            r.is_valid(),
            r.total_nanos() == nanoseconds,
    {
        duration_from_total(nanoseconds as i128)
    }

    /// The duration holding a given total nanosecond count, or nothing
    /// exactly when the count's seconds component leaves the signed
    /// 64-bit range.
    pub fn checked_from_nanos(nanos: i128) -> (r: Option<Duration>)
        ensures
            r is Some <==> total_in_range(nanos as int),
            r matches Some(d) ==> d.is_valid() && d.total_nanos() == nanos,
    {
        if nanos < MIN_TOTAL_NANOS || nanos > MAX_TOTAL_NANOS {
            None
        } else {
            Some(duration_from_total(nanos))
        }
    }

    /// The sum, or nothing exactly when the true sum's seconds component
    /// leaves the signed 64-bit range.
    pub fn checked_add(self, rhs: Duration) -> (r: Option<Duration>)
        requires
            self.is_valid(),
            rhs.is_valid(),
        ensures
            r is Some <==> total_in_range(self.total_nanos() + rhs.total_nanos()),
            r matches Some(d) ==> d.is_valid() && d.total_nanos() == self.total_nanos()
                + rhs.total_nanos(),
    {
        let t: i128 = total_of(&self) + total_of(&rhs);
        if t < MIN_TOTAL_NANOS || t > MAX_TOTAL_NANOS {
            None
        } else {
            Some(duration_from_total(t))
        }
    }

    /// The difference, or nothing exactly when the true difference's
    /// seconds component leaves the signed 64-bit range.
    pub fn checked_sub(self, rhs: Duration) -> (r: Option<Duration>)
        requires
            self.is_valid(),
            rhs.is_valid(),
        ensures
            r is Some <==> total_in_range(self.total_nanos() - rhs.total_nanos()),
            r matches Some(d) ==> d.is_valid() && d.total_nanos() == self.total_nanos()
                - rhs.total_nanos(),
    {
        let t: i128 = total_of(&self) - total_of(&rhs);
        if t < MIN_TOTAL_NANOS || t > MAX_TOTAL_NANOS {
            None
        } else {
            Some(duration_from_total(t))
        }
    }

    /// The product with a signed integer, or nothing exactly when the true
    /// product's seconds component leaves the signed 64-bit range.
    pub fn checked_mul(self, rhs: i32) -> (r: Option<Duration>)
        requires
            self.is_valid(),
        ensures
            r is Some <==> total_in_range(self.total_nanos() * rhs),
            r matches Some(d) ==> d.is_valid() && d.total_nanos() == self.total_nanos()
                * rhs,
    {
        let ta: i128 = total_of(&self);
        proof {
            assert(-0x4000_0000_0000_0000_0000_0000_0000_0000
                < ta * rhs < 0x4000_0000_0000_0000_0000_0000_0000_0000) by (nonlinear_arith)
                requires
                    MIN_TOTAL_NANOS <= ta <= MAX_TOTAL_NANOS,
                    i32::MIN <= rhs <= i32::MAX,
            ;
        }
        let t: i128 = ta * rhs as i128;
        if t < MIN_TOTAL_NANOS || t > MAX_TOTAL_NANOS {
            None
        } else {
            Some(duration_from_total(t))
        }
    }

    /// The quotient by a signed integer, truncated toward zero; nothing
    /// exactly when the divisor is zero or the quotient's seconds component
    /// leaves the signed 64-bit range.
    pub fn checked_div(self, rhs: i32) -> (r: Option<Duration>)
        requires
            self.is_valid(),
        ensures
            r is Some <==> rhs != 0 && total_in_range(div_trunc(self.total_nanos(), rhs as int)),
            r matches Some(d) ==> d.is_valid() && d.total_nanos() == div_trunc(
                self.total_nanos(),
                rhs as int,
            ),
    {
        if rhs == 0 {
            return None;
        }
        let ta: i128 = total_of(&self);
        let ub: i128 = if rhs >= 0 {
            rhs as i128
        } else {
            -(rhs as i128)
        };
        let q: i128 = div_trunc_i128(ta, ub);
        let t: i128 = if rhs >= 0 {
            q
        } else {
            -q
        };
        proof {
            assert(t == div_trunc(ta as int, rhs as int));
        }
        if t < MIN_TOTAL_NANOS || t > MAX_TOTAL_NANOS {
            None
        } else {
            Some(duration_from_total(t))
        }
    }

    /// The sum, in the operator form: defined through [`Self::checked_add`],
    /// with overflow a fatal condition excluded up front rather than a
    /// recoverable one.
    pub fn plus(self, rhs: Duration) -> (r: Duration)
        requires
            self.is_valid(),
            rhs.is_valid(),
            total_in_range(self.total_nanos() + rhs.total_nanos()),
        ensures
            r.is_valid(),
            r.total_nanos() == self.total_nanos() + rhs.total_nanos(),
    {
        match self.checked_add(rhs) {
            Some(d) => d,
            None => unreached(),
        }
    }

    /// The difference, in the operator form: defined through
    /// [`Self::checked_sub`], with overflow a fatal condition excluded up
    /// front rather than a recoverable one.
    pub fn minus(self, rhs: Duration) -> (r: Duration)
        requires
            self.is_valid(),
            rhs.is_valid(),
            total_in_range(self.total_nanos() - rhs.total_nanos()),
        ensures
            r.is_valid(),
            r.total_nanos() == self.total_nanos() - rhs.total_nanos(),
    {
        match self.checked_sub(rhs) {
            Some(d) => d,
            None => unreached(),
        }
    }

    /// The product with a signed integer, in the operator form: defined
    /// through [`Self::checked_mul`], with overflow a fatal condition
    /// excluded up front rather than a recoverable one.
    pub fn times(self, rhs: i32) -> (r: Duration)
        requires
            self.is_valid(),
            total_in_range(self.total_nanos() * rhs),
        ensures
            r.is_valid(),
            r.total_nanos() == self.total_nanos() * rhs,
    {
        match self.checked_mul(rhs) {
            Some(d) => d,
            None => unreached(),
        }
    }

    /// The quotient by a signed integer, in the operator form: defined
    /// through [`Self::checked_div`], with a zero divisor and overflow
    /// fatal conditions excluded up front rather than recoverable ones.
    pub fn divided_by(self, rhs: i32) -> (r: Duration)
        requires
            self.is_valid(),
            rhs != 0,
            total_in_range(div_trunc(self.total_nanos(), rhs as int)),
        ensures
            r.is_valid(),
            r.total_nanos() == div_trunc(self.total_nanos(), rhs as int),
    {
        match self.checked_div(rhs) {
            Some(d) => d,
            None => unreached(),
        }
    }

    /// The same span with the opposite sign.
    ///
    /// The one unrepresentable case, a seconds field at the signed 64-bit
    /// minimum, is excluded, matching the fatal-overflow convention of the
    /// unchecked operators.
    pub fn negated(self) -> (r: Duration)
        requires
            self.is_valid(),
            self.seconds != i64::MIN,
        ensures
            r.is_valid(),
            r.seconds == -self.seconds,
            r.nanoseconds == -self.nanoseconds,
            r.total_nanos() == -self.total_nanos(),
    {
        Duration { seconds: -self.seconds, nanoseconds: -self.nanoseconds }
    }

    /// The magnitude of the span, with the same exclusion as [`Self::negated`].
    pub fn abs(self) -> (r: Duration)
        requires
            self.is_valid(),
            self.seconds != i64::MIN,
        ensures
            r.is_valid(),
            r.total_nanos() == abs(self.total_nanos()),
    {
        if self.seconds < 0 || self.nanoseconds < 0 {
            self.negated()
        } else {
            self
        }
    }

    /// Whether the span is exactly zero.
    pub fn is_zero(self) -> (r: bool)
        requires
            self.is_valid(),
        ensures
            r == (self.total_nanos() == 0),
    {
        proof {
            lemma_valid_components(self);
        }
        self.seconds == 0 && self.nanoseconds == 0
    }

    /// Whether the span is strictly positive; zero is neither positive nor
    /// negative.
    pub fn is_positive(self) -> (r: bool)
        requires
            self.is_valid(),
        ensures
            r == (self.total_nanos() > 0),
    {
        self.seconds > 0 || self.nanoseconds > 0
    }

    /// Whether the span is strictly negative; zero is neither positive nor
    /// negative.
    pub fn is_negative(self) -> (r: bool)
        requires
            self.is_valid(),
        ensures
            r == (self.total_nanos() < 0),
    {
        self.seconds < 0 || self.nanoseconds < 0
    }

    /// The number of whole weeks, truncated toward zero.
    pub fn whole_weeks(self) -> (r: i64)
        requires
            self.is_valid(),
        ensures
            r == div_trunc(self.seconds as int, 604_800),
    {
        proof {
            lemma_div_is_ordered(abs(self.seconds as int) as int, i64::MAX as int + 1, 604_800);
        }
        div_trunc_i128(self.seconds as i128, 604_800) as i64
    }

    /// The number of whole days, truncated toward zero.
    pub fn whole_days(self) -> (r: i64)
        requires
            self.is_valid(),
        ensures
            r == div_trunc(self.seconds as int, 86_400),
    {
        proof {
            lemma_div_is_ordered(abs(self.seconds as int) as int, i64::MAX as int + 1, 86_400);
        }
        div_trunc_i128(self.seconds as i128, 86_400) as i64
    }

    /// The number of whole hours, truncated toward zero.
    pub fn whole_hours(self) -> (r: i64)
        requires
            self.is_valid(),
        ensures
            r == div_trunc(self.seconds as int, 3_600),
    {
        proof {
            lemma_div_is_ordered(abs(self.seconds as int) as int, i64::MAX as int + 1, 3_600);
        }
        div_trunc_i128(self.seconds as i128, 3_600) as i64
    }

    /// The number of whole minutes, truncated toward zero.
    pub fn whole_minutes(self) -> (r: i64)
        requires
            self.is_valid(),
        ensures
            r == div_trunc(self.seconds as int, 60),
    {
        proof {
            lemma_div_is_ordered(abs(self.seconds as int) as int, i64::MAX as int + 1, 60);
        }
        div_trunc_i128(self.seconds as i128, 60) as i64
    }

    /// The number of whole seconds, truncated toward zero.
    pub fn whole_seconds(self) -> (r: i64)
        requires
            self.is_valid(),
        ensures
            r == secs_of_total(self.total_nanos()),
    {
        proof {
            lemma_valid_components(self);
        }
        self.seconds
    }

    /// The number of whole milliseconds, truncated toward zero.
    pub fn whole_milliseconds(self) -> (r: i128)
        requires
            self.is_valid(),
        ensures
            r == div_trunc(self.total_nanos(), 1_000_000),
    {
        let t = total_of(&self);
        div_trunc_i128(t, 1_000_000)
    }

    /// The number of whole microseconds, truncated toward zero.
    pub fn whole_microseconds(self) -> (r: i128)
        requires
            self.is_valid(),
        ensures
            r == div_trunc(self.total_nanos(), 1_000),
    {
        let t = total_of(&self);
        div_trunc_i128(t, 1_000)
    }

    /// The total number of nanoseconds.
    pub fn whole_nanoseconds(self) -> (r: i128)
        requires
            self.is_valid(),
        ensures
            r == self.total_nanos(),
    {
        total_of(&self)
    }

    /// The sub-second part in milliseconds, carrying the sign of the whole
    /// value.
    pub fn subsec_milliseconds(self) -> (r: i16)
        requires
            self.is_valid(),
        ensures
            r == div_trunc(self.nanoseconds as int, 1_000_000),
    {
        proof {
            lemma_div_is_ordered(abs(self.nanoseconds as int) as int, 999_999_999, 1_000_000);
        }
        div_trunc_i128(self.nanoseconds as i128, 1_000_000) as i16
    }

    /// The sub-second part in microseconds, carrying the sign of the whole
    /// value.
    pub fn subsec_microseconds(self) -> (r: i32)
        requires
            self.is_valid(),
        ensures
            r == div_trunc(self.nanoseconds as int, 1_000),
    {
        proof {
            lemma_div_is_ordered(abs(self.nanoseconds as int) as int, 999_999_999, 1_000);
        }
        div_trunc_i128(self.nanoseconds as i128, 1_000) as i32
    }

    /// The sub-second part in nanoseconds, carrying the sign of the whole
    /// value.
    pub fn subsec_nanoseconds(self) -> (r: i32)
        ensures
            r == self.nanoseconds,
    {
        self.nanoseconds
    }
}

/// The whole-seconds count a platform duration holds, as reported by
/// `core::time::Duration::as_secs`.
pub uninterp spec fn std_duration_secs(d: core::time::Duration) -> u64;

/// The sub-second nanosecond count a platform duration holds, as reported
/// by `core::time::Duration::subsec_nanos`.
pub uninterp spec fn std_duration_subsec_nanos(d: core::time::Duration) -> u32;

/// Relies on core::time::Duration::new: with a nanosecond part below one
/// second no carry happens, and the parts are stored as given.
pub assume_specification[ core::time::Duration::new ](secs: u64, nanos: u32) -> (r:
    core::time::Duration)
    requires
        nanos < 1_000_000_000,
    ensures
        std_duration_secs(r) == secs,
        std_duration_subsec_nanos(r) == nanos,
;

/// Relies on core::time::Duration::as_secs: the whole-seconds part of the
/// held value.
pub assume_specification[ core::time::Duration::as_secs ](d: &core::time::Duration) -> (r:
    u64)
    ensures
        r == std_duration_secs(*d),
;

/// Relies on core::time::Duration::subsec_nanos: the fractional part in
/// nanoseconds, always below one second.
pub assume_specification[ core::time::Duration::subsec_nanos ](d: &core::time::Duration) -> (r:
    u32)
    ensures
        r == std_duration_subsec_nanos(*d),
        r < 1_000_000_000,
;

impl Duration {
    /// Narrows the signed duration to the unsigned platform type.
    ///
    /// Every negative duration is rejected; every non-negative one
    /// converts, with both parts carried over exactly.
    pub fn try_to_std(self) -> (r: Result<core::time::Duration, Error>)
        requires
            self.is_valid(),
        ensures
            r is Ok <==> self.total_nanos() >= 0,
            r matches Ok(sd) ==> std_duration_secs(sd) == self.seconds
                && std_duration_subsec_nanos(sd) == self.nanoseconds,
            r matches Err(e) ==> e == Error::ConversionFailure,
    {
        if self.seconds < 0 || self.nanoseconds < 0 {
            Err(Error::ConversionFailure)
        } else {
            Ok(core::time::Duration::new(self.seconds as u64, self.nanoseconds as u32))
        }
    }

    /// Widens the unsigned platform duration to the signed type.
    ///
    /// This fails only when the platform value's seconds count exceeds the
    /// signed 64-bit range; the result is never negative, so a value that
    /// came from [`Self::try_to_std`] converts back to the duration it
    /// came from.
    pub fn try_from_std(sd: &core::time::Duration) -> (r: Result<Duration, Error>)
        ensures
            r is Ok <==> std_duration_secs(*sd) <= i64::MAX,
            r matches Ok(d) ==> d.is_valid() && d.seconds == std_duration_secs(*sd)
                && d.nanoseconds == std_duration_subsec_nanos(*sd) && d.total_nanos() >= 0,
            r matches Err(e) ==> e == Error::ConversionFailure,
    {
        let secs = sd.as_secs();
        if secs > i64::MAX as u64 {
            Err(Error::ConversionFailure)
        } else {
            Ok(Duration { seconds: secs as i64, nanoseconds: sd.subsec_nanos() as i32 })
        }
    }

    /// The sum with a platform duration, agreeing with first widening the
    /// platform operand; nothing when the operand or the sum leaves the
    /// representable range.
    pub fn checked_add_std(self, rhs: &core::time::Duration) -> (r: Option<Duration>)
        requires
            self.is_valid(),
        ensures
            r is Some <==> std_duration_secs(*rhs) <= i64::MAX && total_in_range(
                self.total_nanos() + std_duration_secs(*rhs) * 1_000_000_000
                    + std_duration_subsec_nanos(*rhs),
            ),
            r matches Some(d) ==> d.is_valid() && d.total_nanos() == self.total_nanos()
                + std_duration_secs(*rhs) * 1_000_000_000 + std_duration_subsec_nanos(*rhs),
    {
        match Duration::try_from_std(rhs) {
            Ok(other) => self.checked_add(other),
            Err(_) => None,
        }
    }

    /// The difference with a platform duration, agreeing with first
    /// widening the platform operand; nothing when the operand or the
    /// difference leaves the representable range.
    pub fn checked_sub_std(self, rhs: &core::time::Duration) -> (r: Option<Duration>)
        requires
            self.is_valid(),
        ensures
            r is Some <==> std_duration_secs(*rhs) <= i64::MAX && total_in_range(
                self.total_nanos() - (std_duration_secs(*rhs) * 1_000_000_000
                    + std_duration_subsec_nanos(*rhs)),
            ),
            r matches Some(d) ==> d.is_valid() && d.total_nanos() == self.total_nanos()
                - (std_duration_secs(*rhs) * 1_000_000_000 + std_duration_subsec_nanos(*rhs)),
    {
        match Duration::try_from_std(rhs) {
            Ok(other) => self.checked_sub(other),
            Err(_) => None,
        }
    }

    /// The sum with the platform duration on the left, agreeing with
    /// first widening it; nothing when the operand or the sum leaves the
    /// representable range.
    pub fn std_checked_add(lhs: &core::time::Duration, rhs: Duration) -> (r: Option<
        Duration,
    >)
        requires
            rhs.is_valid(),
        ensures
            r is Some <==> std_duration_secs(*lhs) <= i64::MAX && total_in_range(
                std_duration_secs(*lhs) * 1_000_000_000 + std_duration_subsec_nanos(*lhs)
                    + rhs.total_nanos(),
            ),
            r matches Some(d) ==> d.is_valid() && d.total_nanos() == std_duration_secs(*lhs)
                * 1_000_000_000 + std_duration_subsec_nanos(*lhs) + rhs.total_nanos(),
    {
        match Duration::try_from_std(lhs) {
            Ok(left) => left.checked_add(rhs),
            Err(_) => None,
        }
    }

    /// The difference with the platform duration on the left, agreeing
    /// with first widening it; nothing when the operand or the difference
    /// leaves the representable range.
    pub fn std_checked_sub(lhs: &core::time::Duration, rhs: Duration) -> (r: Option<
        Duration,
    >)
        requires
            rhs.is_valid(),
        ensures
            r is Some <==> std_duration_secs(*lhs) <= i64::MAX && total_in_range(
                std_duration_secs(*lhs) * 1_000_000_000 + std_duration_subsec_nanos(*lhs)
                    - rhs.total_nanos(),
            ),
            r matches Some(d) ==> d.is_valid() && d.total_nanos() == std_duration_secs(*lhs)
                * 1_000_000_000 + std_duration_subsec_nanos(*lhs) - rhs.total_nanos(),
    {
        match Duration::try_from_std(lhs) {
            Ok(left) => left.checked_sub(rhs),
            Err(_) => None,
        }
    }

    /// Compares with the platform duration on the left, agreeing with
    /// [`Self::compare_std`] with the operands swapped: negative when the
    /// platform value is the shorter, zero when they are equal, positive
    /// when it is the longer.
    pub fn std_compare(lhs: &core::time::Duration, rhs: Duration) -> (r: i8)
        requires
            rhs.is_valid(),
        ensures
            r == -1 || r == 0 || r == 1,
            ({
                let lhs_total = std_duration_secs(*lhs) * 1_000_000_000
                    + std_duration_subsec_nanos(*lhs);
                &&& r == -1 <==> lhs_total < rhs.total_nanos()
                &&& r == 0 <==> lhs_total == rhs.total_nanos()
                &&& r == 1 <==> lhs_total > rhs.total_nanos()
            }),
    {
        let flipped = rhs.compare_std(lhs);
        -flipped
    }
}

impl Duration {
    /// Compares with a platform duration, agreeing with first widening the
    /// platform operand: negative when this duration is the shorter,
    /// zero when they are equal, positive when it is the longer.
    ///
    /// A platform value too large for the signed type is simply longer
    /// than every signed duration.
    pub fn compare_std(self, rhs: &core::time::Duration) -> (r: i8)
        requires
            self.is_valid(),
        ensures
            r == -1 || r == 0 || r == 1,
            ({
                let rhs_total = std_duration_secs(*rhs) * 1_000_000_000
                    + std_duration_subsec_nanos(*rhs);
                &&& r == -1 <==> self.total_nanos() < rhs_total
                &&& r == 0 <==> self.total_nanos() == rhs_total
                &&& r == 1 <==> self.total_nanos() > rhs_total
            }),
    {
        let secs = rhs.as_secs();
        let nanos = rhs.subsec_nanos();
        if self.seconds < 0 || self.nanoseconds < 0 {
            proof {
                assert(self.total_nanos() < 0);
                assert(std_duration_secs(*rhs) * 1_000_000_000 >= 0) by (nonlinear_arith);
            }
            return -1;
        }
        if secs > i64::MAX as u64 {
            proof {
                assert(std_duration_secs(*rhs) * 1_000_000_000 > MAX_TOTAL_NANOS)
                    by (nonlinear_arith)
                    requires
                        std_duration_secs(*rhs) > i64::MAX,
                ;
                assert(self.total_nanos() <= MAX_TOTAL_NANOS);
            }
            return -1;
        }
        let mine: i128 = total_of(&self);
        let theirs: i128 = secs as i128 * 1_000_000_000 + nanos as i128;
        if mine < theirs {
            -1
        } else if mine == theirs {
            0
        } else {
            1
        }
    }
}

/// Negation is an involution: negating a duration twice gives the value
/// back, and a duration plus its negation has the zero total, which only
/// the zero duration holds.
pub proof fn lemma_negation_round_trip(d: Duration, n: Duration, z: Duration)
    requires
        d.is_valid(),
        d.seconds != i64::MIN,
        n.is_valid(),
        n.total_nanos() == -d.total_nanos(),
        z.is_valid(),
        z.total_nanos() == d.total_nanos() + n.total_nanos(),
    ensures
        n.seconds == -d.seconds && n.nanoseconds == -d.nanoseconds,
        (Duration { seconds: -n.seconds as i64, nanoseconds: -n.nanoseconds as i32 }) == d,
        z == (Duration { seconds: 0i64, nanoseconds: 0i32 }),
{
    let m = Duration { seconds: -d.seconds as i64, nanoseconds: -d.nanoseconds as i32 };
    assert(m.is_valid());
    assert(m.total_nanos() == -d.total_nanos());
    lemma_valid_unique(n, m);
    lemma_valid_unique(z, Duration { seconds: 0i64, nanoseconds: 0i32 });
}

} // verus!
