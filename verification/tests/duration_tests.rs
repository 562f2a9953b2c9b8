use time::Duration;
use time::Error;

#[test]
fn new_normalizes_sign() {
    // One second minus one nanosecond is still positive: the nanosecond
    // field borrows and comes out positive.
    let d = Duration::new(1, -1);
    assert_eq!(d.seconds, 0);
    assert_eq!(d.nanoseconds, 999_999_999);

    let d = Duration::new(-1, 1);
    assert_eq!(d.seconds, 0);
    assert_eq!(d.nanoseconds, -999_999_999);

    let d = Duration::new(1, 2_000_000_000);
    assert_eq!(d.seconds, 3);
    assert_eq!(d.nanoseconds, 0);

    let d = Duration::new(0, -500);
    assert_eq!(d.seconds, 0);
    assert_eq!(d.nanoseconds, -500);
}

#[test]
fn unit_constructors() {
    assert_eq!(Duration::weeks(1).seconds, 604_800);
    assert_eq!(Duration::days(2).seconds, 172_800);
    assert_eq!(Duration::hours(-3).seconds, -10_800);
    assert_eq!(Duration::minutes(4).seconds, 240);
    assert_eq!(Duration::seconds(-5).seconds, -5);
    let d = Duration::milliseconds(-1_500);
    assert_eq!((d.seconds, d.nanoseconds), (-1, -500_000_000));
    let d = Duration::microseconds(2_000_003);
    assert_eq!((d.seconds, d.nanoseconds), (2, 3_000));
    let d = Duration::nanoseconds(-1_000_000_001);
    assert_eq!((d.seconds, d.nanoseconds), (-1, -1));
}

#[test]
fn whole_unit_accessors_truncate_toward_zero() {
    let d = Duration::new(-7 * 86_400 - 3_600, 0);
    assert_eq!(d.whole_weeks(), -1);
    assert_eq!(d.whole_days(), -7);
    assert_eq!(d.whole_hours(), -169);
    assert_eq!(d.whole_minutes(), -169 * 60);
    assert_eq!(d.whole_seconds(), -7 * 86_400 - 3_600);
    let d = Duration::new(1, 999_999_999);
    assert_eq!(d.whole_seconds(), 1);
    assert_eq!(d.whole_milliseconds(), 1_999);
    assert_eq!(d.whole_microseconds(), 1_999_999);
    assert_eq!(d.whole_nanoseconds(), 1_999_999_999);
}

#[test]
fn subsec_accessors_carry_the_sign() {
    let d = Duration::new(-1, -876_543_210);
    assert_eq!(d.subsec_milliseconds(), -876);
    assert_eq!(d.subsec_microseconds(), -876_543);
    assert_eq!(d.subsec_nanoseconds(), -876_543_210);
    let d = Duration::new(1, 876_543_210);
    assert_eq!(d.subsec_milliseconds(), 876);
}

#[test]
fn checked_add_at_the_boundary() {
    // The checked sum vanishes exactly when the true seconds component
    // leaves the 64-bit range.
    assert_eq!(Duration::max_value().checked_add(Duration::nanoseconds(1)), None);
    let almost = Duration::max_value().checked_sub(Duration::nanoseconds(1)).unwrap();
    assert_eq!(almost.checked_add(Duration::nanoseconds(1)), Some(Duration::max_value()));
    assert_eq!(Duration::min_value().checked_sub(Duration::nanoseconds(1)), None);
    assert_eq!(
        Duration::seconds(1).checked_add(Duration::seconds(2)),
        Some(Duration::seconds(3))
    );
    assert_eq!(
        Duration::new(1, 500_000_000).checked_add(Duration::new(0, 600_000_000)),
        Some(Duration::new(2, 100_000_000))
    );
}

#[test]
fn checked_mul_and_div() {
    assert_eq!(Duration::seconds(5).checked_mul(3), Some(Duration::seconds(15)));
    assert_eq!(Duration::seconds(5).checked_mul(-3), Some(Duration::seconds(-15)));
    assert_eq!(Duration::max_value().checked_mul(2), None);
    assert_eq!(Duration::min_value().checked_mul(2), None);
    assert_eq!(Duration::seconds(-7).checked_div(2), Some(Duration::new(-3, -500_000_000)));
    assert_eq!(Duration::nanoseconds(5).checked_div(2), Some(Duration::nanoseconds(2)));
    assert_eq!(Duration::nanoseconds(-5).checked_div(2), Some(Duration::nanoseconds(-2)));
    assert_eq!(Duration::seconds(10).checked_div(0), None);
    assert_eq!(Duration::min_value().checked_div(-1), None);
    assert_eq!(Duration::min_value().checked_div(1), Some(Duration::min_value()));
}

#[test]
fn operator_forms_match_the_checked_ones() {
    assert_eq!(
        Duration::seconds(1).plus(Duration::new(0, 600_000_000)),
        Duration::new(1, 600_000_000)
    );
    assert_eq!(
        Duration::seconds(1).minus(Duration::new(0, 600_000_000)),
        Duration::new(0, 400_000_000)
    );
    assert_eq!(Duration::new(2, 500_000_000).times(-2), Duration::new(-5, 0));
    assert_eq!(Duration::seconds(-7).divided_by(2), Duration::new(-3, -500_000_000));
}

#[test]
fn std_on_the_left_mixed_forms() {
    let sd = core::time::Duration::new(2, 250_000_000);
    assert_eq!(
        Duration::std_checked_add(&sd, Duration::seconds(-1)),
        Some(Duration::new(1, 250_000_000))
    );
    assert_eq!(
        Duration::std_checked_sub(&sd, Duration::seconds(3)),
        Some(Duration::new(0, -750_000_000))
    );
    assert_eq!(Duration::std_compare(&sd, Duration::seconds(3)), -1);
    assert_eq!(Duration::std_compare(&sd, Duration::new(2, 250_000_000)), 0);
    assert_eq!(Duration::std_compare(&sd, Duration::seconds(2)), 1);
    let huge = core::time::Duration::new(u64::MAX, 0);
    assert_eq!(Duration::std_checked_add(&huge, Duration::zero()), None);
    assert_eq!(Duration::std_compare(&huge, Duration::max_value()), 1);
}

#[test]
fn negation_round_trip() {
    let d = Duration::new(5, 400_000_000);
    let n = d.negated();
    assert_eq!((n.seconds, n.nanoseconds), (-5, -400_000_000));
    assert_eq!(n.negated(), d);
    let sum = d.checked_add(n).unwrap();
    assert!(sum.is_zero());
    assert_eq!(sum, Duration::zero());
}

#[test]
fn sign_predicates() {
    assert!(Duration::zero().is_zero());
    assert!(!Duration::zero().is_positive());
    assert!(!Duration::zero().is_negative());
    assert!(Duration::new(0, 1).is_positive());
    assert!(Duration::new(0, -1).is_negative());
    assert_eq!(Duration::new(-2, -100).abs(), Duration::new(2, 100));
    assert_eq!(Duration::new(2, 100).abs(), Duration::new(2, 100));
}

#[test]
fn std_duration_conversion() {
    // Negative durations never convert; non-negative ones round-trip.
    let neg = Duration::new(0, -1);
    assert_eq!(neg.try_to_std(), Err(Error::ConversionFailure));
    assert_eq!(Duration::seconds(-5).try_to_std(), Err(Error::ConversionFailure));

    let d = Duration::new(5, 500_000_000);
    let sd = d.try_to_std().unwrap();
    assert_eq!(sd, core::time::Duration::new(5, 500_000_000));
    assert_eq!(Duration::try_from_std(&sd).unwrap(), d);

    assert_eq!(Duration::zero().try_to_std().unwrap(), core::time::Duration::new(0, 0));

    let too_big = core::time::Duration::new(u64::MAX, 0);
    assert_eq!(Duration::try_from_std(&too_big), Err(Error::ConversionFailure));
}

#[test]
fn mixed_comparison_with_std() {
    let sd = core::time::Duration::new(2, 250_000_000);
    assert_eq!(Duration::seconds(2).compare_std(&sd), -1);
    assert_eq!(Duration::new(2, 250_000_000).compare_std(&sd), 0);
    assert_eq!(Duration::seconds(3).compare_std(&sd), 1);
    assert_eq!(Duration::seconds(-1).compare_std(&sd), -1);
    let huge = core::time::Duration::new(u64::MAX, 0);
    assert_eq!(Duration::max_value().compare_std(&huge), -1);
}

#[test]
fn mixed_arithmetic_with_std() {
    let sd = core::time::Duration::new(2, 250_000_000);
    let d = Duration::seconds(-1);
    assert_eq!(d.checked_add_std(&sd), Some(Duration::new(1, 250_000_000)));
    assert_eq!(d.checked_sub_std(&sd), Some(Duration::new(-3, -250_000_000)));
    assert_eq!(Duration::max_value().checked_add_std(&sd), None);
}
