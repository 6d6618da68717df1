//! Tests of the chart-range resolver, fetch day-count, date validation
//! and label formatting.

use cryptoprice::chart::{
    ChartRange, MAX_CHART_FETCH_DAYS, compute_chart_fetch_days, format_chart_range_label,
    validate_chart_dates,
};
use cryptoprice::dates::{Date, day_end_timestamp, day_start_timestamp};
use cryptoprice::errors::Error;

fn d(y: i32, m: u8, day: u8) -> Date {
    Date::new(y, m, day).unwrap()
}

#[test]
fn ytd_resolves_to_january_first() {
    let end = d(2026, 2, 20);
    assert_eq!(ChartRange::Ytd.start_date(end), Some(d(2026, 1, 1)));
}

#[test]
fn one_month_resolves_to_calendar_month_back() {
    let end = d(2026, 2, 20);
    assert_eq!(ChartRange::OneMonth.start_date(end), Some(d(2026, 1, 20)));
}

#[test]
fn all_resolves_to_no_lower_bound() {
    let end = d(2026, 2, 20);
    assert_eq!(ChartRange::All.start_date(end), None);
}

#[test]
fn month_subtraction_clamps_the_day() {
    // One month before March 31st is the last day of February.
    let end = d(2026, 3, 31);
    assert_eq!(ChartRange::OneMonth.start_date(end), Some(d(2026, 2, 28)));
    // 2024 is a leap year.
    let end = d(2024, 3, 31);
    assert_eq!(ChartRange::OneMonth.start_date(end), Some(d(2024, 2, 29)));
}

#[test]
fn day_presets_subtract_fixed_days() {
    let end = d(2026, 2, 20);
    assert_eq!(ChartRange::OneDay.start_date(end), Some(d(2026, 2, 19)));
    assert_eq!(ChartRange::FiveDays.start_date(end), Some(d(2026, 2, 15)));
}

#[test]
fn year_presets_subtract_calendar_months() {
    let end = d(2026, 2, 20);
    assert_eq!(ChartRange::SixMonths.start_date(end), Some(d(2025, 8, 20)));
    assert_eq!(ChartRange::OneYear.start_date(end), Some(d(2025, 2, 20)));
    assert_eq!(ChartRange::FiveYears.start_date(end), Some(d(2021, 2, 20)));
}

#[test]
fn labels_match_presets() {
    assert_eq!(ChartRange::OneDay.label(), "1D");
    assert_eq!(ChartRange::FiveDays.label(), "5D");
    assert_eq!(ChartRange::OneMonth.label(), "1M");
    assert_eq!(ChartRange::SixMonths.label(), "6M");
    assert_eq!(ChartRange::Ytd.label(), "YTD");
    assert_eq!(ChartRange::OneYear.label(), "1Y");
    assert_eq!(ChartRange::FiveYears.label(), "5Y");
    assert_eq!(ChartRange::All.label(), "ALL");
}

#[test]
fn fetch_days_is_clamped_difference() {
    let today = d(2026, 2, 20);
    assert_eq!(compute_chart_fetch_days(Some(d(2026, 1, 1)), today), 50);
    assert_eq!(compute_chart_fetch_days(Some(today), today), 1);
    assert_eq!(compute_chart_fetch_days(Some(d(1800, 1, 1)), today), MAX_CHART_FETCH_DAYS);
    assert_eq!(compute_chart_fetch_days(None, today), MAX_CHART_FETCH_DAYS);
}

#[test]
fn end_date_in_future_is_config_error() {
    let today = d(2026, 2, 20);
    let r = validate_chart_dates(None, d(2026, 2, 21), today);
    match r {
        Err(Error::Config(m)) => assert_eq!(m, "chart end date cannot be in the future"),
        _ => panic!("expected a Config error"),
    }
}

#[test]
fn start_after_end_is_config_error() {
    let today = d(2026, 2, 20);
    let r = validate_chart_dates(Some(d(2026, 2, 10)), d(2026, 2, 1), today);
    match r {
        Err(Error::Config(m)) => assert_eq!(m, "chart start date cannot be after chart end date"),
        _ => panic!("expected a Config error"),
    }
    assert!(validate_chart_dates(Some(d(2026, 2, 1)), d(2026, 2, 10), today).is_ok());
}

#[test]
fn range_label_formats_window_or_preset() {
    let label = format_chart_range_label(Some(d(2026, 1, 20)), d(2026, 2, 20), ChartRange::OneMonth);
    assert_eq!(label, "2026-01-20..2026-02-20");
    let label = format_chart_range_label(Some(d(99, 7, 4)), d(2026, 2, 20), ChartRange::OneMonth);
    assert_eq!(label, "0099-07-04..2026-02-20");
    let label = format_chart_range_label(None, d(2026, 2, 20), ChartRange::All);
    assert_eq!(label, "ALL");
}

#[test]
fn day_timestamps_bracket_the_day() {
    let date = d(2026, 2, 20);
    assert_eq!(day_start_timestamp(&date), 1_771_545_600);
    assert_eq!(day_end_timestamp(&date), 1_771_631_999);
}

#[test]
fn date_new_rejects_invalid_triples() {
    assert!(Date::new(2026, 2, 29).is_none());
    assert!(Date::new(2024, 2, 29).is_some());
    assert!(Date::new(2026, 13, 1).is_none());
    assert!(Date::new(2026, 0, 1).is_none());
    assert!(Date::new(2026, 4, 31).is_none());
}
