use time::{Date, Duration, Error, OffsetDateTime, PrimitiveDateTime, Time, UtcOffset};

fn pdt(year: i32, month: u8, day: u8, hour: u8, minute: u8, second: u8) -> PrimitiveDateTime {
    PrimitiveDateTime::new(
        Date::from_calendar_date(year, month, day).unwrap(),
        Time::from_hms(hour, minute, second).unwrap(),
    )
}

#[test]
fn time_validation_and_accessors() {
    assert!(Time::from_hms(23, 59, 59).is_ok());
    assert_eq!(Time::from_hms(24, 0, 0), Err(Error::InvalidComponent));
    assert_eq!(Time::from_hms(0, 60, 0), Err(Error::InvalidComponent));
    assert_eq!(Time::from_hms_nano(0, 0, 0, 1_000_000_000), Err(Error::InvalidComponent));
    let t = Time::from_hms_nano(1, 2, 3, 4).unwrap();
    assert_eq!(t.as_hms_nano(), (1, 2, 3, 4));
    assert_eq!((t.hour(), t.minute(), t.second(), t.nanosecond()), (1, 2, 3, 4));
    assert_eq!(t.second_of_day(), 3_723);
    assert_eq!(Time::from_second_of_day(3_723, 4), t);
    assert_eq!(Time::midnight().second_of_day(), 0);
}

#[test]
fn utc_offset_sign_coercion() {
    // A non-zero hour dictates the signs of the smaller fields.
    let o = UtcOffset::from_hms(-2, 30, 10).unwrap();
    assert_eq!(o.as_hms(), (-2, -30, -10));
    let o = UtcOffset::from_hms(2, -30, -10).unwrap();
    assert_eq!(o.as_hms(), (2, 30, 10));
    // With a zero hour the minute dictates the second's sign.
    let o = UtcOffset::from_hms(0, -30, 10).unwrap();
    assert_eq!(o.as_hms(), (0, -30, -10));
    let o = UtcOffset::from_hms(0, 0, -10).unwrap();
    assert_eq!(o.as_hms(), (0, 0, -10));
    assert_eq!(UtcOffset::from_hms(24, 0, 0), Err(Error::InvalidComponent));
    assert_eq!(UtcOffset::from_hms(0, 60, 0), Err(Error::InvalidComponent));
    assert_eq!(UtcOffset::from_hms(-5, -30, 0).unwrap().whole_seconds(), -19_800);
    assert_eq!(UtcOffset::utc().whole_seconds(), 0);
}

#[test]
fn datetime_addition_carries_into_the_date() {
    let start = pdt(2019, 12, 31, 23, 59, 59);
    let next = start.checked_add(Duration::seconds(1)).unwrap();
    assert_eq!(next.date().to_calendar_date(), (2020, 1, 1));
    assert_eq!(next.time().as_hms(), (0, 0, 0));

    let back = next.checked_sub(Duration::nanoseconds(1)).unwrap();
    assert_eq!(back.date().to_calendar_date(), (2019, 12, 31));
    assert_eq!(back.time().as_hms_nano(), (23, 59, 59, 999_999_999));

    let leap = pdt(2020, 2, 28, 12, 0, 0);
    let later = leap.checked_add(Duration::days(1)).unwrap();
    assert_eq!(later.date().to_calendar_date(), (2020, 2, 29));

    let hi = PrimitiveDateTime::new(
        Date::from_ordinal_date(100_000, 366).unwrap(),
        Time::from_hms_nano(23, 59, 59, 999_999_999).unwrap(),
    );
    assert_eq!(hi.checked_add(Duration::nanoseconds(1)), None);
    assert_eq!(hi.checked_add(Duration::zero()), Some(hi));
    // The extreme durations subtract too, simply falling out of range.
    assert_eq!(hi.checked_sub(Duration::min_value()), None);
    assert_eq!(hi.checked_sub(Duration::max_value()), None);
    assert_eq!(hi.checked_add(Duration::min_value()), None);
}

#[test]
fn nanos_of_day_round_trip() {
    let t = Time::from_hms_nano(23, 59, 59, 999_999_999).unwrap();
    assert_eq!(t.nanos_of_day(), 86_399_999_999_999);
    assert_eq!(Time::from_nanos_of_day(86_399_999_999_999), t);
    let t = Time::from_hms_nano(1, 2, 3, 4).unwrap();
    assert_eq!(Time::from_nanos_of_day(t.nanos_of_day()), t);
    assert_eq!(Time::from_nanos_of_day(0), Time::midnight());
}

#[test]
fn date_plus_duration_moves_by_whole_days() {
    let d = Date::from_calendar_date(2019, 12, 31).unwrap();
    assert_eq!(
        d.checked_add(Duration::days(1)).unwrap().to_calendar_date(),
        (2020, 1, 1)
    );
    // Twenty-five hours is one whole day.
    assert_eq!(
        d.checked_add(Duration::hours(25)).unwrap().to_calendar_date(),
        (2020, 1, 1)
    );
    assert_eq!(
        d.checked_add(Duration::hours(-25)).unwrap().to_calendar_date(),
        (2019, 12, 30)
    );
}

#[test]
fn duration_between_datetimes() {
    let a = pdt(2020, 1, 1, 0, 0, 0);
    let b = pdt(2019, 12, 31, 23, 59, 59);
    assert_eq!(a.duration_since(b), Duration::seconds(1));
    assert_eq!(b.duration_since(a), Duration::seconds(-1));
    assert_eq!(a.duration_since(a), Duration::zero());
    let c = b.checked_add(Duration::new(0, 400_000_000)).unwrap();
    assert_eq!(a.duration_since(c), Duration::new(0, 600_000_000));
}

#[test]
fn unix_timestamp_of_known_instant() {
    // UTC midnight opening 2019-01-01.
    let odt = pdt(2019, 1, 1, 0, 0, 0).assume_utc();
    assert_eq!(odt.unix_timestamp(), 1_546_300_800);

    let round = OffsetDateTime::from_unix_timestamp(1_546_300_800).unwrap();
    assert!(round.instant_eq(odt));
    assert_eq!(round.unix_timestamp(), 1_546_300_800);

    assert_eq!(OffsetDateTime::from_unix_timestamp(0).unwrap().unix_timestamp(), 0);
    assert_eq!(
        OffsetDateTime::from_unix_timestamp(-1).unwrap().utc_datetime,
        pdt(1969, 12, 31, 23, 59, 59)
    );
}

#[test]
fn from_unix_timestamp_range() {
    let lo = PrimitiveDateTime::new(
        Date::from_ordinal_date(-100_000, 1).unwrap(),
        Time::midnight(),
    )
    .assume_utc()
    .unix_timestamp();
    let hi = PrimitiveDateTime::new(
        Date::from_ordinal_date(100_000, 366).unwrap(),
        Time::from_hms(23, 59, 59).unwrap(),
    )
    .assume_utc()
    .unix_timestamp();
    assert!(OffsetDateTime::from_unix_timestamp(lo).is_ok());
    assert!(OffsetDateTime::from_unix_timestamp(hi).is_ok());
    assert!(matches!(
        OffsetDateTime::from_unix_timestamp(lo - 1),
        Err(Error::ConversionFailure)
    ));
    assert!(matches!(
        OffsetDateTime::from_unix_timestamp(hi + 1),
        Err(Error::ConversionFailure)
    ));
}

#[test]
fn offset_changes_never_move_the_instant() {
    let odt = pdt(2019, 1, 1, 0, 0, 0).assume_utc();
    let plus_two = odt.to_offset(UtcOffset::from_hms(2, 0, 0).unwrap());
    assert_eq!(plus_two.unix_timestamp(), odt.unix_timestamp());
    assert!(plus_two.instant_eq(odt));
    let local = plus_two.local_datetime();
    assert_eq!(local.time().as_hms(), (2, 0, 0));
    assert_eq!(local.date().to_calendar_date(), (2019, 1, 1));
}

#[test]
fn assume_offset_anchors_to_utc() {
    // 2019-01-01 02:00 at +02:00 is the same instant as midnight UTC.
    let local = pdt(2019, 1, 1, 2, 0, 0);
    let odt = local.assume_offset(UtcOffset::from_hms(2, 0, 0).unwrap());
    assert_eq!(odt.unix_timestamp(), 1_546_300_800);
    assert_eq!(odt.offset().as_hms(), (2, 0, 0));
    assert_eq!(odt.checked_local_datetime(), Some(local));

    let negative = pdt(2018, 12, 31, 19, 0, 0).assume_offset(
        UtcOffset::from_hms(-5, 0, 0).unwrap(),
    );
    assert_eq!(negative.unix_timestamp(), 1_546_300_800);
}
