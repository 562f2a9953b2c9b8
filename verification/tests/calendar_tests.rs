use time::calendar::{
    calendar_to_ordinal, days_in_year, days_in_year_month, is_leap_year, ordinal_to_calendar,
    weeks_in_year,
};
use time::{Date, Error, Weekday};

#[test]
fn leap_year_rule() {
    assert!(is_leap_year(2000));
    assert!(!is_leap_year(1900));
    assert!(!is_leap_year(2019));
    assert!(is_leap_year(2020));
    assert!(is_leap_year(-4));
    assert!(!is_leap_year(-100));
    assert!(is_leap_year(-400));
}

#[test]
fn leap_year_matches_year_length() {
    for year in 1895..2105 {
        assert_eq!(is_leap_year(year), days_in_year(year) == 366);
    }
}

#[test]
fn weeks_in_year_iso_rule() {
    // 2015 began on a Thursday; 2020 was a leap year beginning on a Wednesday.
    assert_eq!(weeks_in_year(2015), 53);
    assert_eq!(weeks_in_year(2020), 53);
    assert_eq!(weeks_in_year(2019), 52);
    assert_eq!(weeks_in_year(2016), 52);
}

#[test]
fn ordinal_to_calendar_table() {
    assert_eq!(ordinal_to_calendar(2019, 1), (1, 1));
    assert_eq!(ordinal_to_calendar(2019, 59), (2, 28));
    assert_eq!(ordinal_to_calendar(2019, 60), (3, 1));
    assert_eq!(ordinal_to_calendar(2020, 60), (2, 29));
    assert_eq!(ordinal_to_calendar(2020, 61), (3, 1));
    assert_eq!(ordinal_to_calendar(2019, 365), (12, 31));
    assert_eq!(ordinal_to_calendar(2020, 366), (12, 31));
}

#[test]
fn ordinal_calendar_round_trip_all_days() {
    for &year in &[2019, 2020] {
        for ordinal in 1..=days_in_year(year) {
            let (month, day) = ordinal_to_calendar(year, ordinal);
            assert_eq!(calendar_to_ordinal(year, month, day), ordinal);
        }
    }
}

#[test]
fn month_lengths() {
    assert_eq!(days_in_year_month(2019, 2), 28);
    assert_eq!(days_in_year_month(2020, 2), 29);
    assert_eq!(days_in_year_month(2020, 4), 30);
    assert_eq!(days_in_year_month(2020, 12), 31);
}

#[test]
fn ordinal_date_validation() {
    // A leap year admits day 366; an ordinary year does not.
    assert!(Date::from_ordinal_date(2000, 366).is_ok());
    assert_eq!(Date::from_ordinal_date(2001, 366), Err(Error::InvalidComponent));
    assert_eq!(Date::from_ordinal_date(2001, 0), Err(Error::InvalidComponent));
    assert_eq!(Date::from_ordinal_date(100_001, 1), Err(Error::InvalidComponent));
    assert_eq!(Date::from_ordinal_date(-100_001, 1), Err(Error::InvalidComponent));
}

#[test]
fn calendar_date_validation() {
    assert!(Date::from_calendar_date(2020, 2, 29).is_ok());
    assert_eq!(Date::from_calendar_date(2019, 2, 29), Err(Error::InvalidComponent));
    assert_eq!(Date::from_calendar_date(2019, 13, 1), Err(Error::InvalidComponent));
    assert_eq!(Date::from_calendar_date(2019, 0, 1), Err(Error::InvalidComponent));
}

#[test]
fn date_accessors() {
    let d = Date::from_calendar_date(2019, 2, 28).unwrap();
    assert_eq!(d.year(), 2019);
    assert_eq!(d.ordinal(), 59);
    assert_eq!(d.month(), 2);
    assert_eq!(d.day(), 28);
    assert_eq!(d.to_ordinal_date(), (2019, 59));
    assert_eq!(d.to_calendar_date(), (2019, 2, 28));
}

#[test]
fn julian_day_round_trip() {
    let d = Date::from_calendar_date(2000, 1, 1).unwrap();
    assert_eq!(d.to_julian_day(), 2_451_545);
    assert_eq!(Date::from_julian_day(2_451_545).unwrap(), d);
    let epoch = Date::from_calendar_date(1970, 1, 1).unwrap();
    assert_eq!(epoch.to_julian_day(), 2_440_588);
    let lo = Date::from_ordinal_date(-100_000, 1).unwrap();
    let hi = Date::from_ordinal_date(100_000, 366).unwrap();
    assert_eq!(Date::from_julian_day(lo.to_julian_day()).unwrap(), lo);
    assert_eq!(Date::from_julian_day(hi.to_julian_day()).unwrap(), hi);
    assert_eq!(Date::from_julian_day(lo.to_julian_day() - 1), Err(Error::ConversionFailure));
    assert_eq!(Date::from_julian_day(hi.to_julian_day() + 1), Err(Error::ConversionFailure));
}

#[test]
fn weekdays_of_known_dates() {
    let d = Date::from_calendar_date(2019, 1, 1).unwrap();
    assert_eq!(d.weekday(), Weekday::Tuesday);
    let d = Date::from_calendar_date(1970, 1, 1).unwrap();
    assert_eq!(d.weekday(), Weekday::Thursday);
    let d = Date::from_calendar_date(2000, 2, 29).unwrap();
    assert_eq!(d.weekday(), Weekday::Tuesday);
    let d = Date::from_calendar_date(1, 1, 1).unwrap();
    assert_eq!(d.weekday(), Weekday::Monday);
}

#[test]
fn date_arithmetic_rolls_over_years() {
    let d = Date::from_calendar_date(2019, 12, 31).unwrap();
    let next = d.checked_add_days(1).unwrap();
    assert_eq!(next.to_calendar_date(), (2020, 1, 1));
    let leap = Date::from_calendar_date(2020, 2, 28).unwrap();
    assert_eq!(leap.checked_add_days(1).unwrap().to_calendar_date(), (2020, 2, 29));
    assert_eq!(leap.checked_add_days(2).unwrap().to_calendar_date(), (2020, 3, 1));
    let back = Date::from_calendar_date(2020, 1, 1).unwrap().checked_add_days(-1).unwrap();
    assert_eq!(back.to_calendar_date(), (2019, 12, 31));
    assert_eq!(next.days_since(d), 1);
    assert_eq!(d.days_since(next), -1);
    let hi = Date::from_ordinal_date(100_000, 366).unwrap();
    assert_eq!(hi.checked_add_days(1), None);
    assert_eq!(hi.checked_add_days(i64::MAX), None);
}

#[test]
fn weekday_cycle() {
    let mut w = Weekday::Friday;
    for _ in 0..7 {
        w = w.previous();
    }
    assert_eq!(w, Weekday::Friday);
    assert_eq!(Weekday::Monday.previous(), Weekday::Sunday);
    assert_eq!(Weekday::Sunday.next(), Weekday::Monday);
    assert_eq!(Weekday::Wednesday.number_from_monday(), 3);
    assert_eq!(Weekday::Wednesday.number_days_from_monday(), 2);
}
