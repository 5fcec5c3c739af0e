use mochios_settings::datetime::{civil_date, format_utc_datetime};

#[test]
fn civil_date_handles_epoch_and_leap_day() {
    assert_eq!(civil_date(0), Some((1970, 1, 1)));
    assert_eq!(civil_date(19_782), Some((2024, 2, 29)));
}

#[test]
fn civil_date_before_the_epoch_and_at_century_years() {
    assert_eq!(civil_date(-1), Some((1969, 12, 31)));
    assert_eq!(civil_date(-719_468), Some((0, 3, 1)));
    assert_eq!(civil_date(11_016), Some((2000, 2, 29)));
    assert_eq!(civil_date(-25_508), Some((1900, 3, 1)));
    assert_eq!(civil_date(10_957), Some((2000, 1, 1)));
}

#[test]
fn civil_date_refuses_overflow() {
    assert_eq!(civil_date(i64::MAX), None);
    assert!(civil_date(i64::MAX - 719_468).is_some());
}

#[test]
fn datetime_is_formatted_in_utc() {
    assert_eq!(format_utc_datetime(0), "1970-01-01 00:00 UTC");
    assert_eq!(format_utc_datetime(1_709_210_096), "2024-02-29 12:34 UTC");
    assert_eq!(format_utc_datetime(u64::MAX), "Unavailable");
}

#[test]
fn consecutive_days_are_consecutive_dates() {
    assert_eq!(civil_date(-1), Some((1969, 12, 31)));
    assert_eq!(civil_date(0), Some((1970, 1, 1)));
    assert_eq!(civil_date(58), Some((1970, 2, 28)));
    assert_eq!(civil_date(59), Some((1970, 3, 1)));
    assert_eq!(civil_date(19_781), Some((2024, 2, 28)));
    assert_eq!(civil_date(19_783), Some((2024, 3, 1)));
}
