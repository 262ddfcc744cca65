use lucid_auth::service::dash_analytics::{
    add_period, checked_add_period, count_active_users, count_last_active, graph_windows, has_time_in_window,
    retention_cohort, retention_horizons, retention_period_start, stats_windows, DashPeriod, DAY_MS, WEEK_MS,
};

const NOON_2024_01_10: i64 = 1_704_888_000_000;
const MIDNIGHT_2024_01_10: i64 = 1_704_844_800_000;
const MONDAY_2024_01_08: i64 = 1_704_672_000_000;
const FIRST_2024_01: i64 = 1_704_067_200_000;
const LAST_2024_01: i64 = 1_706_659_200_000;
const LEAP_DAY_2024: i64 = 1_709_164_800_000;
const LAST_2024_03: i64 = 1_711_843_200_000;

#[test]
fn retention_periods_start_at_midnight_monday_and_the_first() {
    assert_eq!(retention_period_start(NOON_2024_01_10, DashPeriod::Daily), MIDNIGHT_2024_01_10);
    assert_eq!(retention_period_start(NOON_2024_01_10, DashPeriod::Weekly), MONDAY_2024_01_08);
    assert_eq!(retention_period_start(NOON_2024_01_10, DashPeriod::Monthly), FIRST_2024_01);
    assert_eq!(retention_period_start(MONDAY_2024_01_08, DashPeriod::Weekly), MONDAY_2024_01_08);
}

#[test]
fn periods_shift_by_days_weeks_and_calendar_months() {
    assert_eq!(add_period(MIDNIGHT_2024_01_10, DashPeriod::Daily, -2), MONDAY_2024_01_08);
    assert_eq!(add_period(MONDAY_2024_01_08, DashPeriod::Weekly, 1), MONDAY_2024_01_08 + WEEK_MS);
    assert_eq!(add_period(LAST_2024_01, DashPeriod::Monthly, 1), LEAP_DAY_2024);
    assert_eq!(add_period(LAST_2024_03, DashPeriod::Monthly, -1), LEAP_DAY_2024);
    assert_eq!(checked_add_period(8_210_266_876_799_999, DashPeriod::Daily, 1), None);
}

#[test]
fn retention_cohorts_and_horizons() {
    assert_eq!(retention_horizons(DashPeriod::Daily), (7, "D"));
    assert_eq!(retention_horizons(DashPeriod::Weekly), (8, "W"));
    assert_eq!(retention_horizons(DashPeriod::Monthly), (6, "M"));
    assert_eq!(
        retention_cohort(MIDNIGHT_2024_01_10, DashPeriod::Daily, 2),
        Some((MONDAY_2024_01_08, MONDAY_2024_01_08 + DAY_MS))
    );
    assert_eq!(retention_cohort(LEAP_DAY_2024, DashPeriod::Monthly, 1), Some((LAST_2024_01 - 2 * DAY_MS, LEAP_DAY_2024)));
}

#[test]
fn users_count_as_active_with_a_session_or_activity_in_the_window() {
    assert!(has_time_in_window(&vec![5, 15], 10, Some(20)));
    assert!(!has_time_in_window(&vec![5, 20], 10, Some(20)));
    assert!(has_time_in_window(&vec![25], 10, None));
    let users = vec![vec![1, 12], vec![30], vec![], vec![10]];
    assert_eq!(count_active_users(&users, 10, Some(20)), 2);
    assert_eq!(count_active_users(&users, 10, None), 3);
    assert_eq!(count_last_active(&vec![Some(10), None, Some(19), Some(20)], 10, Some(20)), 2);
}

#[test]
fn statistics_and_graph_windows_end_at_now() {
    let windows = stats_windows(NOON_2024_01_10);
    assert_eq!(windows[0], (NOON_2024_01_10 - DAY_MS, None));
    assert_eq!(windows[1], (NOON_2024_01_10 - 2 * DAY_MS, Some(NOON_2024_01_10 - DAY_MS)));
    assert_eq!(windows[5].1, Some(NOON_2024_01_10 - 30 * DAY_MS));
    let graph = graph_windows(NOON_2024_01_10, DashPeriod::Daily);
    assert_eq!(graph.len(), 7);
    assert_eq!(graph[6], (NOON_2024_01_10 - DAY_MS, NOON_2024_01_10));
    assert_eq!(graph[0], (NOON_2024_01_10 - 7 * DAY_MS, NOON_2024_01_10 - 6 * DAY_MS));
    assert_eq!(graph_windows(NOON_2024_01_10, DashPeriod::Weekly).len(), 8);
    assert_eq!(graph_windows(NOON_2024_01_10, DashPeriod::Monthly).len(), 6);
}
