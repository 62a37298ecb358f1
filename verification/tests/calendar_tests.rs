use diskpulse::calendar::{civil_from_days, days_from_civil, format_datetime, parse_sqlite_datetime};

#[test]
fn date_round_trip_preserves_timestamp() {
    let ts = parse_sqlite_datetime("2026-05-07 12:34:56").expect("parse date");
    assert_eq!(format_datetime(ts), "2026-05-07 12:34:56");
}

#[test]
fn epoch_is_day_zero() {
    assert_eq!(days_from_civil(1970, 1, 1), Some(0));
    assert_eq!(civil_from_days(0), (1970, 1, 1));
    assert_eq!(parse_sqlite_datetime("1970-01-01 00:00:00"), Some(0));
    assert_eq!(format_datetime(0), "1970-01-01 00:00:00");
}

#[test]
fn known_dates_have_known_day_counts() {
    assert_eq!(days_from_civil(2000, 3, 1), Some(11017));
    assert_eq!(civil_from_days(11017), (2000, 3, 1));
    assert_eq!(days_from_civil(1969, 12, 31), Some(-1));
    assert_eq!(civil_from_days(-1), (1969, 12, 31));
    assert_eq!(civil_from_days(19850), (2024, 5, 7));
}

#[test]
fn out_of_range_month_or_day_is_rejected() {
    assert_eq!(days_from_civil(2024, 0, 1), None);
    assert_eq!(days_from_civil(2024, 13, 1), None);
    assert_eq!(days_from_civil(2024, 1, 0), None);
    assert_eq!(days_from_civil(2024, 1, 32), None);
    assert_eq!(parse_sqlite_datetime("2024-13-01 00:00:00"), None);
}

#[test]
fn timestamp_forms_the_database_writes() {
    assert_eq!(parse_sqlite_datetime("1970-01-02"), Some(86_400));
    assert_eq!(parse_sqlite_datetime("1970-01-01T01:02:03"), Some(3_723));
    assert_eq!(parse_sqlite_datetime("  1970-01-01   00:01  "), Some(60));
    assert_eq!(parse_sqlite_datetime(""), None);
    assert_eq!(parse_sqlite_datetime("1970-01"), None);
    assert_eq!(parse_sqlite_datetime("1970-01-01 12"), None);
    assert_eq!(parse_sqlite_datetime("abc-01-01"), None);
}

#[test]
fn negative_timestamps_format_before_the_epoch() {
    assert_eq!(format_datetime(-1), "1969-12-31 23:59:59");
    assert_eq!(format_datetime(-86_400), "1969-12-31 00:00:00");
}
