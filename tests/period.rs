use knaaktomatisering::args::WeekelijksePlezierArgs;
use knaaktomatisering::period::{
    export_window, last_monday, last_monday_at, pretix_export_period, LocalTimestamp, WindowError,
};
use knaaktomatisering::weekly::WeekelijksePlezier;

const DAY: i64 = 86_400;

#[test]
fn window_one_week_back_in_summer_time() {
    // Wednesday 2024-10-16 12:00 UTC, read at UTC+2.
    let (start, end) = export_window(1_729_080_000, 2, 1).unwrap();
    // Monday 2024-10-07 00:00+02:00 to Sunday 2024-10-13 00:00+02:00.
    assert_eq!(start.unix_seconds, 1_728_252_000);
    assert_eq!(end.unix_seconds, 1_728_770_400);
    assert_eq!(start.utc_offset_seconds, 7200);
    assert_eq!(end.utc_offset_seconds, 7200);
    assert_eq!(end.unix_seconds - start.unix_seconds, 6 * DAY);
}

#[test]
fn window_uses_the_local_date() {
    // Monday 2024-10-14 00:30 UTC is still Sunday at UTC-5.
    let (start, end) = export_window(1_728_865_800, -5, 1).unwrap();
    assert_eq!(start.unix_seconds, 1_727_672_400);
    assert_eq!(end.unix_seconds, 1_728_190_800);
    // Sunday 2024-10-13 23:30 UTC is already Monday at UTC+2.
    let (start, _) = export_window(1_728_862_200, 2, 1).unwrap();
    assert_eq!(start.unix_seconds, 1_728_252_000);
}

#[test]
fn window_several_weeks_back() {
    let (start, end) = export_window(1_729_080_000, 2, 3).unwrap();
    assert_eq!(start.unix_seconds, 1_728_252_000 - 14 * DAY);
    assert_eq!(end.unix_seconds, start.unix_seconds + 6 * DAY);
}

#[test]
fn window_zero_periods_ago_fails() {
    assert!(matches!(export_window(1_729_080_000, 2, 0), Err(WindowError::ZeroPeriodsAgo)));
}

#[test]
fn window_with_offset_beyond_range_fails() {
    assert!(matches!(export_window(1_729_080_000, 26, 1), Err(WindowError::InvalidOffset)));
    assert!(matches!(export_window(1_729_080_000, -26, 1), Err(WindowError::InvalidOffset)));
    assert!(export_window(1_729_080_000, 25, 1).is_ok());
    assert!(export_window(1_729_080_000, -25, 1).is_ok());
    assert!(matches!(export_window(1_729_080_000, 1_000_000, 1), Err(WindowError::InvalidOffset)));
}

#[test]
fn window_out_of_range_fails() {
    assert!(matches!(export_window(i64::MAX, 0, 1), Err(WindowError::OutOfRange)));
    assert!(matches!(export_window(0, 0, u32::MAX), Err(WindowError::OutOfRange)));
}

#[test]
fn monday_before_epoch() {
    // 1970-01-01 was a Thursday; the Monday before it is 1969-12-29.
    let m = last_monday_at(0, 0);
    assert_eq!(m.unix_seconds, -259_200);
    // Midnight of a Monday is its own last Monday.
    let m = last_monday_at(1_728_856_800, 7200);
    assert_eq!(m.unix_seconds, 1_728_856_800);
}

#[test]
fn export_period_rejects_other_weekdays() {
    let wednesday = LocalTimestamp { unix_seconds: 1_729_036_800, utc_offset_seconds: 0 };
    let err = pretix_export_period(wednesday, 0).unwrap_err();
    assert_eq!(err.weekday, 2);
    let monday = LocalTimestamp { unix_seconds: 1_728_252_000, utc_offset_seconds: 7200 };
    let (start, end) = pretix_export_period(monday, 3600).unwrap();
    // The date of the Monday at midnight in the second offset.
    assert_eq!(start.unix_seconds, 1_728_255_600);
    assert_eq!(end.unix_seconds, 1_728_255_600 + 6 * DAY);
}

#[test]
fn current_window_starts_on_a_monday() {
    let args = WeekelijksePlezierArgs { transaction_id: 1, periods_ago: 1, utc_offset_hours: 1 };
    let (start, end) = WeekelijksePlezier::reporting_window(&args).unwrap();
    // Local day number of the start; day 0 (1970-01-01) was a Thursday.
    let day = (start.unix_seconds + 3600).div_euclid(DAY);
    assert_eq!((start.unix_seconds + 3600).rem_euclid(DAY), 0);
    assert_eq!((day + 3).rem_euclid(7), 0);
    assert_eq!(end.unix_seconds - start.unix_seconds, 6 * DAY);
    let this_monday = last_monday(3600);
    assert_eq!(this_monday.unix_seconds - start.unix_seconds, 7 * DAY);
    let zero = WeekelijksePlezierArgs { transaction_id: 1, periods_ago: 0, utc_offset_hours: 1 };
    assert!(matches!(WeekelijksePlezier::reporting_window(&zero), Err(WindowError::ZeroPeriodsAgo)));
}
