use time::format_description::validate_format_string;
use time::generation::{
    date_from_seed, duration_from_parts, duration_from_seed, duration_shrink_step,
    offset_date_time_from_parts, primitive_date_time_from_seed, sample_in_range,
    time_from_seed, utc_offset_from_seed, utc_offset_shrink_step, weekday_from_seed,
    weekday_shrink,
};
use time::{Date, Error, Time, UtcOffset, Weekday};

#[test]
fn format_string_grammar() {
    // An escaped lead character is fine; a trailing bare one is not.
    assert!(validate_format_string("%H%%").is_ok());
    assert_eq!(validate_format_string("%"), Err(Error::InvalidFormatString));
    assert!(validate_format_string("").is_ok());
    assert!(validate_format_string("%Y-%m-%d %H:%M:%S").is_ok());
    assert!(validate_format_string("plain text").is_ok());
    assert_eq!(validate_format_string("%1"), Err(Error::InvalidFormatString));
    assert_eq!(validate_format_string("ab%"), Err(Error::InvalidFormatString));
    assert_eq!(validate_format_string("%% %"), Err(Error::InvalidFormatString));
}

#[test]
fn sample_in_range_is_in_range() {
    assert_eq!(sample_in_range(0, -23, 23), -23);
    assert_eq!(sample_in_range(46, -23, 23), 23);
    assert_eq!(sample_in_range(47, -23, 23), -23);
    assert_eq!(sample_in_range(1_000, 1, 366), 1 + (1_000 % 366));
    // Spans up to the signed 64-bit limit are accepted.
    assert_eq!(sample_in_range(10, 0, i64::MAX - 1), 10);
    assert_eq!(sample_in_range(5, i64::MIN, -2), i64::MIN + 5);
}

#[test]
fn generated_values_are_valid() {
    let seeds: [u64; 5] = [0, 1, 987_654_321, u64::MAX, 1 << 40];
    for &a in &seeds {
        for &b in &seeds {
            let d = date_from_seed(a, b);
            assert!(Date::from_ordinal_date(d.year(), d.ordinal()).is_ok());
            let t = time_from_seed(a, b, a ^ b, b.wrapping_add(a));
            assert!(Time::from_hms_nano(t.hour(), t.minute(), t.second(), t.nanosecond())
                .is_ok());
            let o = utc_offset_from_seed(a, b, a, a % 2 == 0, b % 2 == 0);
            let (h, m, s) = o.as_hms();
            assert!(h.abs() <= 23 && m.abs() <= 59 && s.abs() <= 59);
            assert!(!(h > 0 && (m < 0 || s < 0)));
            assert!(!(h < 0 && (m > 0 || s > 0)));
            let p = primitive_date_time_from_seed(a, b, a, b, a, b);
            let odt = offset_date_time_from_parts(p, o);
            // The stored instant renders back consistently.
            let _ = odt.unix_timestamp();
        }
    }
}

#[test]
fn generated_duration_signs() {
    let d = duration_from_seed(-5, 123, false);
    assert_eq!(d.seconds, -5);
    assert!(d.nanoseconds <= 0);
    let d = duration_from_parts(0, 5, true);
    assert_eq!((d.seconds, d.nanoseconds), (0, -5));
    let d = duration_from_parts(0, 5, false);
    assert_eq!((d.seconds, d.nanoseconds), (0, 5));
    let d = duration_from_parts(7, 5, true);
    assert_eq!((d.seconds, d.nanoseconds), (7, 5));
}

#[test]
fn shrink_steps_restore_sign_consistency() {
    let d = duration_shrink_step(3, -500);
    assert_eq!((d.seconds, d.nanoseconds), (3, 500));
    let d = duration_shrink_step(-3, 500);
    assert_eq!((d.seconds, d.nanoseconds), (-3, -500));
    let d = duration_shrink_step(0, -500);
    assert_eq!((d.seconds, d.nanoseconds), (0, -500));

    let o = utc_offset_shrink_step(2, -30, -10);
    assert_eq!(o.as_hms(), (2, 30, 10));
    let o = utc_offset_shrink_step(-2, 30, 10);
    assert_eq!(o.as_hms(), (-2, -30, -10));
    let o = utc_offset_shrink_step(0, -30, 10);
    assert_eq!(o.as_hms(), (0, -30, -10));
    let o = utc_offset_shrink_step(0, 0, 10);
    assert_eq!(o.as_hms(), (0, 0, 10));
}

#[test]
fn weekday_generation_and_shrinking() {
    assert_eq!(weekday_from_seed(0), Weekday::Monday);
    assert_eq!(weekday_from_seed(6), Weekday::Sunday);
    assert_eq!(weekday_from_seed(7), Weekday::Monday);
    // Monday is the canonical minimum: its shrink sequence is empty.
    assert_eq!(weekday_shrink(Weekday::Monday), None);
    assert_eq!(weekday_shrink(Weekday::Tuesday), Some(Weekday::Monday));
    assert_eq!(weekday_shrink(Weekday::Sunday), Some(Weekday::Saturday));
}

#[test]
fn generated_datetime_fields_follow_the_seeds() {
    let p = primitive_date_time_from_seed(200_001, 0, 25, 61, 62, 1_000_000_001);
    assert_eq!(p.date().year(), -100_000);
    assert_eq!(p.date().ordinal(), 1);
    assert_eq!(p.time().as_hms_nano(), (1, 1, 2, 1));
    let p = primitive_date_time_from_seed(300_000, 370, 0, 0, 0, 0);
    assert_eq!(p.date().year(), -100_000 + (300_000 % 200_001));
    assert_eq!(p.time().as_hms_nano(), (0, 0, 0, 0));
}

#[test]
fn generated_offset_date_time_keeps_offset_and_instant() {
    // Away from the edges the drawn datetime is read as local to the
    // drawn offset, which is stored.
    let local = primitive_date_time_from_seed(150_000, 100, 12, 30, 30, 0);
    let offset = utc_offset_from_seed(25, 15, 45, false, false);
    let odt = offset_date_time_from_parts(local, offset);
    assert_eq!(odt.offset().as_hms(), offset.as_hms());
    let rendered = odt.checked_local_datetime().unwrap();
    assert_eq!(rendered, local);
}

#[test]
fn generated_offsets_at_the_edges_stay_valid() {
    let lo = primitive_date_time_from_seed(0, 0, 0, 0, 0, 0);
    assert_eq!(lo.date().year(), -100_000);
    assert_eq!(lo.date().ordinal(), 1);
    // Reading the very first representable datetime as local to an
    // eastern offset would leave the span, so it is re-derived as UTC.
    let east = UtcOffset::from_hms(23, 59, 59).unwrap();
    let odt = offset_date_time_from_parts(lo, east);
    assert_eq!(odt.offset().as_hms(), (0, 0, 0));
    assert_eq!(odt.utc_datetime, lo);
    let _ = odt.unix_timestamp();
}
