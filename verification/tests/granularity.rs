//! The sampling-interval choice for a lookback window.

use chrono::Duration;
use chrono::NaiveTime;
use chrono::Utc;

use ticker_stats::granularity::Granularity;

#[test]
fn test_granularity_minute() {
    let now = Utc::now();
    let today = now.date_naive().and_time(NaiveTime::MIN).and_utc();
    assert_eq!(
        Granularity::get_minimum(today.timestamp(), now.timestamp()),
        Granularity::Minute
    );
}

#[test]
fn test_granularity_minute_latest() {
    let now = Utc::now();
    let last_week = now - Duration::days(6);
    assert_eq!(
        Granularity::get_minimum(last_week.timestamp(), now.timestamp()),
        Granularity::Minute
    );
}

#[test]
fn test_granularity_days() {
    let now = Utc::now();
    let last_week = now.date_naive().and_time(NaiveTime::MIN).and_utc() - Duration::days(8);
    assert_eq!(
        Granularity::get_minimum(last_week.timestamp(), now.timestamp()),
        Granularity::Day
    );
}

#[test]
fn test_string_day() {
    let granularity = Granularity::Day;
    assert_eq!(Granularity::to_string(&granularity), "1d");
}

#[test]
fn test_string_minute() {
    let granularity = Granularity::Minute;
    assert_eq!(Granularity::to_string(&granularity), "1m");
}

#[test]
fn test_granularity_exact_week_boundary() {
    // exactly seven whole days is no longer "under a week"
    assert_eq!(Granularity::get_minimum(0, 7 * 86400), Granularity::Day);
    assert_eq!(Granularity::get_minimum(0, 7 * 86400 - 1), Granularity::Minute);
}
