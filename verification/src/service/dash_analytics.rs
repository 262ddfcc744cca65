//! The calendar and counting rules of the dashboard's user statistics:
//! reporting windows, retention cohorts and horizons, and who counts as
//! active in a window.

use crate::clock::{EARLIEST_TIME_MS, LATEST_TIME_MS};
use chrono::{DateTime, Datelike, Months, NaiveDate, Utc};
use vstd::prelude::*;

verus! {

/// Milliseconds in a day.
pub const DAY_MS: i64 = 86400000;

/// Milliseconds in a week.
pub const WEEK_MS: i64 = 604800000;

/// Milliseconds in the thirty days that stand for a month in windows.
pub const MONTH_WINDOW_MS: i64 = 2592000000;

/// The granularity of a dashboard report.
#[derive(Clone, Copy, Debug, PartialEq, Eq, Structural)]
pub enum DashPeriod {
    Daily,
    Weekly,
    Monthly,
}

/// `value` shifted by `months` calendar months forward, as chrono's
/// `DateTime::checked_add_months` computes it; none where out of range.
pub uninterp spec fn months_added(value: i64, months: u32) -> Option<i64>;

/// `value` shifted by `months` calendar months back, as chrono's
/// `DateTime::checked_sub_months` computes it; none where out of range.
pub uninterp spec fn months_subtracted(value: i64, months: u32) -> Option<i64>;

/// The UTC calendar year and month of `value`, as chrono's `Datelike`
/// gives them for the UTC date of `value`.
pub uninterp spec fn utc_month_of(value: i64) -> (i32, u32);

/// Midnight UTC at the start of the date `year`-`month`-`day`, as chrono's
/// `NaiveDate::from_ymd_opt` gives it; none where that is no date chrono
/// represents.
pub uninterp spec fn utc_midnight_of(year: i32, month: u32, day: u32) -> Option<i64>;

/// `DateTime::checked_add_months` on the UTC time `value` milliseconds
/// after the epoch. Its result is named, not spelled out: chrono clamps to
/// the last day of the resulting month and refuses results out of range.
#[verifier::external_body]
fn add_months(value: i64, months: u32) -> (r: Option<i64>)
    requires
        EARLIEST_TIME_MS <= value <= LATEST_TIME_MS,
    ensures
        r == months_added(value, months),
        r matches Some(t) ==> EARLIEST_TIME_MS <= t <= LATEST_TIME_MS,
{
    let time = DateTime::<Utc>::from_timestamp_millis(value)?;
    time.checked_add_months(Months::new(months)).map(|t| t.timestamp_millis())
}

/// `DateTime::checked_sub_months` on the UTC time `value` milliseconds
/// after the epoch; its result is named as for [`add_months`].
#[verifier::external_body]
fn sub_months(value: i64, months: u32) -> (r: Option<i64>)
    requires
        EARLIEST_TIME_MS <= value <= LATEST_TIME_MS,
    ensures
        r == months_subtracted(value, months),
        r matches Some(t) ==> EARLIEST_TIME_MS <= t <= LATEST_TIME_MS,
{
    let time = DateTime::<Utc>::from_timestamp_millis(value)?;
    time.checked_sub_months(Months::new(months)).map(|t| t.timestamp_millis())
}

/// The UTC year and month of `value` through chrono's `Datelike`. Besides
/// naming them, this states that the month is one of the twelve and that the
/// first of that month, at midnight, is a date chrono represents, not after
/// `value`.
#[verifier::external_body]
fn utc_year_month(value: i64) -> (r: (i32, u32))
    requires
        EARLIEST_TIME_MS <= value <= LATEST_TIME_MS,
    ensures
        r == utc_month_of(value),
        1 <= r.1 <= 12,
        utc_midnight_of(r.0, r.1, 1) is Some,
        EARLIEST_TIME_MS <= utc_midnight_of(r.0, r.1, 1)->0 <= value,
{
    let day = DateTime::<Utc>::from_timestamp_millis(value).expect("in range").date_naive();
    (day.year(), day.month())
}

/// Midnight UTC of a date through `NaiveDate::from_ymd_opt`; none where
/// chrono has no such date. A date it has lies within its range of times.
#[verifier::external_body]
fn utc_midnight(year: i32, month: u32, day: u32) -> (r: Option<i64>)
    ensures
        r == utc_midnight_of(year, month, day),
        r matches Some(t) ==> EARLIEST_TIME_MS <= t <= LATEST_TIME_MS,
{
    Some(NaiveDate::from_ymd_opt(year, month, day)?.and_hms_opt(0, 0, 0)?.and_utc().timestamp_millis())
}

/// Midnight of the first day of the UTC calendar month of `value`.
pub open spec fn month_start(value: i64) -> i64 {
    utc_midnight_of(utc_month_of(value).0, utc_month_of(value).1, 1)->0
}

/// Midnight of the first day of the UTC calendar month of `value`.
fn first_of_month(value: i64) -> (r: i64)
    requires
        EARLIEST_TIME_MS <= value <= LATEST_TIME_MS,
    ensures
        r == month_start(value),
        EARLIEST_TIME_MS <= r <= value,
{
    let (year, month) = utc_year_month(value);
    utc_midnight(year, month, 1).unwrap()
}

/// The time `amount` periods after `value`: whole days or weeks, or
/// calendar months.
pub open spec fn period_shift(value: i64, period: DashPeriod, amount: i32) -> Option<int> {
    match period {
        DashPeriod::Daily => Some(value + amount * DAY_MS),
        DashPeriod::Weekly => Some(value + amount * WEEK_MS),
        DashPeriod::Monthly => if amount >= 0 {
            match months_added(value, amount as u32) {
                Some(t) => Some(t as int),
                None => None,
            }
        } else {
            match months_subtracted(value, (-amount) as u32) {
                Some(t) => Some(t as int),
                None => None,
            }
        },
    }
}

/// Whether shifting `value` by `amount` periods stays in chrono's range.
pub open spec fn shift_representable(value: i64, period: DashPeriod, amount: i32) -> bool {
    match period_shift(value, period, amount) {
        Some(t) => EARLIEST_TIME_MS <= t <= LATEST_TIME_MS,
        None => false,
    }
}

/// The time `amount` periods after `value`, where it is representable.
pub fn checked_add_period(value: i64, period: DashPeriod, amount: i32) -> (r: Option<i64>)
    requires
        EARLIEST_TIME_MS <= value <= LATEST_TIME_MS,
    ensures
        shift_representable(value, period, amount) ==> (r matches Some(t) && t == period_shift(
            value,
            period,
            amount,
        )->0),
        !shift_representable(value, period, amount) ==> r is None,
{
    match period {
        DashPeriod::Daily => {
            let shifted = (value as i128) + (amount as i128) * 86400000i128;
            if -8334601315200000i128 <= shifted && shifted <= 8210266876799999i128 {
                Some(shifted as i64)
            } else {
                None
            }
        },
        DashPeriod::Weekly => {
            let shifted = (value as i128) + (amount as i128) * 604800000i128;
            if -8334601315200000i128 <= shifted && shifted <= 8210266876799999i128 {
                Some(shifted as i64)
            } else {
                None
            }
        },
        DashPeriod::Monthly => {
            if amount >= 0 {
                add_months(value, amount as u32)
            } else {
                let back: u32 = if amount == i32::MIN {
                    2147483648u32
                } else {
                    (-amount) as u32
                };
                sub_months(value, back)
            }
        },
    }
}

/// The time `amount` periods after `value`.
pub fn add_period(value: i64, period: DashPeriod, amount: i32) -> (r: i64)
    requires
        EARLIEST_TIME_MS <= value <= LATEST_TIME_MS,
        shift_representable(value, period, amount),
    ensures
        r == period_shift(value, period, amount)->0,
        EARLIEST_TIME_MS <= r <= LATEST_TIME_MS,
{
    checked_add_period(value, period, amount).unwrap()
}

/// How many past periods a retention report covers, and the prefix of
/// their labels.
pub fn retention_horizons(period: DashPeriod) -> (r: (usize, &'static str))
    ensures
        r.0 == match period {
            DashPeriod::Daily => 7usize,
            DashPeriod::Weekly => 8usize,
            DashPeriod::Monthly => 6usize,
        },
        r.1@ == match period {
            DashPeriod::Daily => "D"@,
            DashPeriod::Weekly => "W"@,
            DashPeriod::Monthly => "M"@,
        },
{
    match period {
        DashPeriod::Daily => (7, "D"),
        DashPeriod::Weekly => (8, "W"),
        DashPeriod::Monthly => (6, "M"),
    }
}

/// Midnight (UTC) of the day of `value`.
pub open spec fn day_start(value: int) -> int {
    value - value % (DAY_MS as int)
}

/// Days since the Monday of the week of `value`: the epoch fell on a
/// Thursday.
pub open spec fn days_into_week(value: int) -> int {
    (value / (DAY_MS as int) + 3) % 7
}

/// When the current period of a retention report starts at `now`: midnight
/// today, midnight of this week's Monday, or midnight of the first of this
/// month.
pub open spec fn active_period_start(now: i64, period: DashPeriod) -> int {
    match period {
        DashPeriod::Daily => day_start(now as int),
        DashPeriod::Weekly => day_start(now as int) - days_into_week(now as int) * DAY_MS,
        DashPeriod::Monthly => month_start(now) as int,
    }
}

/// When the current period of a retention report starts at `now`.
pub fn retention_period_start(now: i64, period: DashPeriod) -> (r: i64)
    requires
        EARLIEST_TIME_MS + 7 * DAY_MS <= now <= LATEST_TIME_MS,
    ensures
        r == active_period_start(now, period),
        EARLIEST_TIME_MS <= r <= now,
{
    let (days, rest) = floor_div_mod(now, 86400000);
    let day = now - rest;
    match period {
        DashPeriod::Daily => day,
        DashPeriod::Weekly => {
            let (_, weekday) = floor_div_mod(days + 3, 7);
            proof {
                assert(days == (now as int) / (DAY_MS as int));
            }
            day - weekday * 86400000
        },
        DashPeriod::Monthly => first_of_month(now),
    }
}

/// Floor division and its non-negative remainder.
fn floor_div_mod(v: i64, d: i64) -> (r: (i64, i64))
    requires
        d > 0,
        v >= i64::MIN + d,
    ensures
        r.0 == (v as int) / (d as int),
        r.1 == (v as int) % (d as int),
        0 <= r.1 < d,
        r.0 * d + r.1 == v,
{
    let q: i64 = if v >= 0 {
        ((v as u64) / (d as u64)) as i64
    } else {
        let u: u64 = (-(v + 1)) as u64;
        let p: u64 = u / (d as u64);
        -(p as i64) - 1
    };
    proof {
        if v >= 0 {
            assert(q * d <= v) by (nonlinear_arith)
                requires q == (v as int) / (d as int), v >= 0, d > 0;
            assert(v < q * d + d) by (nonlinear_arith)
                requires q == (v as int) / (d as int), v >= 0, d > 0;
        } else {
            let u = -(v + 1);
            let p = u / (d as int);
            assert(p * d <= u && u < p * d + d) by (nonlinear_arith)
                requires p == u / (d as int), u >= 0, d > 0;
            assert(q * d == -(p * d) - d) by (nonlinear_arith)
                requires q == -p - 1;
        }
    }
    let r = v - q * d;
    proof {
        vstd::arithmetic::div_mod::lemma_fundamental_div_mod_converse(v as int, d as int, q as int, r as int);
    }
    (q, r)
}

/// Whether time `t` lies in the window from `from` up to, not including,
/// `to` (open-ended where there is no `to`).
pub open spec fn in_window(t: i64, from: i64, to: Option<i64>) -> bool {
    from <= t && match to {
        Some(end) => t < end,
        None => true,
    }
}

/// Whether some of the times lies in the window.
pub open spec fn any_in_window(times: Seq<i64>, from: i64, to: Option<i64>) -> bool {
    exists|i: int| 0 <= i < times.len() && in_window(#[trigger] times[i], from, to)
}

/// How many of the users, given by the update times of their sessions, have
/// a session updated in the window.
pub open spec fn users_active(users: Seq<Seq<i64>>, from: i64, to: Option<i64>) -> nat
    decreases users.len(),
{
    if users.len() == 0 {
        0
    } else {
        users_active(users.drop_last(), from, to) + if any_in_window(users.last(), from, to) {
            1nat
        } else {
            0nat
        }
    }
}

/// How many of the users, given by their last activity, were last active in
/// the window.
pub open spec fn last_active_in(users: Seq<Option<i64>>, from: i64, to: Option<i64>) -> nat
    decreases users.len(),
{
    if users.len() == 0 {
        0
    } else {
        last_active_in(users.drop_last(), from, to) + match users.last() {
            Some(t) => if in_window(t, from, to) {
                1nat
            } else {
                0nat
            },
            None => 0nat,
        }
    }
}

/// Whether `t` lies at or after `from` and, where there is an end, before it.
pub open spec fn between(t: i64, from: i64, to: Option<i64>) -> bool {
    &&& from <= t
    &&& (to matches Some(end) ==> t < end)
}

/// The active users of a window are those with some session updated in it,
/// and the users last active in a window are those whose last activity lies
/// in it; users without a recorded activity are not counted.
pub proof fn law_active_users_are_those_in_the_window(
    sessions: Seq<Seq<i64>>,
    last: Seq<Option<i64>>,
    from: i64,
    to: Option<i64>,
)
    ensures
        users_active(sessions, from, to) == sessions.filter(
            |u: Seq<i64>| exists|k: int| 0 <= k < u.len() && between(#[trigger] u[k], from, to),
        ).len(),
        last_active_in(last, from, to) == last.filter(|a: Option<i64>| a matches Some(t) && between(t, from, to)).len(),
    decreases sessions.len() + last.len(),
{
    reveal(Seq::filter);
    if sessions.len() > 0 {
        law_active_users_are_those_in_the_window(sessions.drop_last(), last, from, to);
        let u = sessions.last();
        if any_in_window(u, from, to) {
            let k = choose|k: int| 0 <= k < u.len() && in_window(#[trigger] u[k], from, to);
            assert(between(u[k], from, to));
        }
        if exists|k: int| 0 <= k < u.len() && between(#[trigger] u[k], from, to) {
            let k = choose|k: int| 0 <= k < u.len() && between(#[trigger] u[k], from, to);
            assert(in_window(u[k], from, to));
        }
    }
    if last.len() > 0 {
        law_active_users_are_those_in_the_window(sessions, last.drop_last(), from, to);
    }
}

proof fn lemma_users_active_bound(users: Seq<Seq<i64>>, from: i64, to: Option<i64>)
    ensures
        users_active(users, from, to) <= users.len(),
    decreases users.len(),
{
    if users.len() > 0 {
        lemma_users_active_bound(users.drop_last(), from, to);
    }
}

proof fn lemma_last_active_bound(users: Seq<Option<i64>>, from: i64, to: Option<i64>)
    ensures
        last_active_in(users, from, to) <= users.len(),
    decreases users.len(),
{
    if users.len() > 0 {
        lemma_last_active_bound(users.drop_last(), from, to);
    }
}

/// Whether some of the times lies in the window.
pub fn has_time_in_window(times: &Vec<i64>, from: i64, to: Option<i64>) -> (r: bool)
    ensures
        r == any_in_window(times@, from, to),
{
    let mut i: usize = 0;
    while i < times.len()
        invariant
            i <= times@.len(),
            forall|k: int| 0 <= k < i ==> !in_window(#[trigger] times@[k], from, to),
        decreases times@.len() - i,
    {
        let t = times[i];
        let inside = from <= t && match to {
            Some(end) => t < end,
            None => true,
        };
        if inside {
            return true;
        }
        i = i + 1;
    }
    false
}

/// How many users have a session updated in the window, each user given by
/// the update times of its sessions.
pub fn count_active_users(users: &Vec<Vec<i64>>, from: i64, to: Option<i64>) -> (r: usize)
    ensures
        r == users_active(users.deep_view(), from, to),
{
    let ghost u = users.deep_view();
    let mut count: usize = 0;
    let mut i: usize = 0;
    while i < users.len()
        invariant
            u == users.deep_view(),
            i <= u.len(),
            count == users_active(u.take(i as int), from, to),
            count <= i,
        decreases u.len() - i,
    {
        assert(u.take(i + 1).drop_last() =~= u.take(i as int));
        assert(u[i as int] == users@[i as int]@);
        proof {
            lemma_users_active_bound(u.take(i as int), from, to);
        }
        if has_time_in_window(&users[i], from, to) {
            count = count + 1;
        }
        i = i + 1;
    }
    assert(u.take(i as int) =~= u);
    count
}

/// How many users were last active in the window.
pub fn count_last_active(users: &Vec<Option<i64>>, from: i64, to: Option<i64>) -> (r: usize)
    ensures
        r == last_active_in(users@, from, to),
{
    let ghost u = users@;
    let mut count: usize = 0;
    let mut i: usize = 0;
    while i < users.len()
        invariant
            u == users@,
            i <= u.len(),
            count == last_active_in(u.take(i as int), from, to),
            count <= i,
        decreases u.len() - i,
    {
        assert(u.take(i + 1).drop_last() =~= u.take(i as int));
        proof {
            lemma_last_active_bound(u.take(i as int), from, to);
        }
        match users[i] {
            Some(t) => {
                if from <= t && match to {
                    Some(end) => t < end,
                    None => true,
                } {
                    count = count + 1;
                }
            },
            None => {},
        }
        i = i + 1;
    }
    assert(u.take(i as int) =~= u);
    count
}

/// The cohort of retention horizon `n`: the period that starts `n` periods
/// before the current one.
pub fn retention_cohort(active_start: i64, period: DashPeriod, n: i32) -> (r: Option<(i64, i64)>)
    requires
        EARLIEST_TIME_MS <= active_start <= LATEST_TIME_MS,
        n > i32::MIN,
    ensures
        match checked_shift(active_start, period, (-n) as i32) {
            None => r is None,
            Some(start) => match checked_shift(start, period, 1) {
                None => r is None,
                Some(end) => r == Some((start, end)),
            },
        },
{
    match checked_add_period(active_start, period, -n) {
        None => None,
        Some(start) => match checked_add_period(start, period, 1) {
            None => None,
            Some(end) => Some((start, end)),
        },
    }
}

/// The time `amount` periods after `value` where it is representable.
pub open spec fn checked_shift(value: i64, period: DashPeriod, amount: i32) -> Option<i64> {
    if shift_representable(value, period, amount) {
        Some(period_shift(value, period, amount)->0 as i64)
    } else {
        None
    }
}

/// The windows of the signup and activity statistics at `now`: the last
/// day, the day before it, the last week, the week before it, the last
/// thirty days and the thirty before them.
pub open spec fn stats_window_spec(now: i64) -> Seq<(i64, Option<i64>)> {
    seq![
        ((now - DAY_MS) as i64, None),
        ((now - 2 * DAY_MS) as i64, Some((now - DAY_MS) as i64)),
        ((now - WEEK_MS) as i64, None),
        ((now - 2 * WEEK_MS) as i64, Some((now - WEEK_MS) as i64)),
        ((now - MONTH_WINDOW_MS) as i64, None),
        ((now - 2 * MONTH_WINDOW_MS) as i64, Some((now - MONTH_WINDOW_MS) as i64)),
    ]
}

/// The windows of the signup and activity statistics at `now`.
pub fn stats_windows(now: i64) -> (r: Vec<(i64, Option<i64>)>)
    requires
        EARLIEST_TIME_MS + 2 * MONTH_WINDOW_MS <= now <= LATEST_TIME_MS,
    ensures
        r@ == stats_window_spec(now),
{
    let r = vec![
        (now - 86400000, None),
        (now - 2 * 86400000, Some(now - 86400000)),
        (now - 604800000, None),
        (now - 2 * 604800000, Some(now - 604800000)),
        (now - 2592000000, None),
        (now - 2 * 2592000000, Some(now - 2592000000)),
    ];
    assert(r@ =~= stats_window_spec(now));
    r
}

/// How many points a user graph has, and how long each of their intervals
/// is: seven days, eight weeks, or six thirty-day months.
pub open spec fn graph_shape(period: DashPeriod) -> (nat, i64) {
    match period {
        DashPeriod::Daily => (7, DAY_MS),
        DashPeriod::Weekly => (8, WEEK_MS),
        DashPeriod::Monthly => (6, MONTH_WINDOW_MS),
    }
}

/// The intervals of a user graph at `now`, oldest first: each ends a whole
/// number of intervals before `now`, the last one at `now`.
pub open spec fn graph_window_spec(now: i64, period: DashPeriod) -> Seq<(i64, i64)> {
    let (count, length) = graph_shape(period);
    Seq::new(
        count,
        |k: int| {
            let end = now - (count - 1 - k) * length;
            ((end - length) as i64, end as i64)
        },
    )
}

/// The intervals of a user graph at `now`, oldest first.
pub fn graph_windows(now: i64, period: DashPeriod) -> (r: Vec<(i64, i64)>)
    requires
        EARLIEST_TIME_MS + 8 * MONTH_WINDOW_MS <= now <= LATEST_TIME_MS,
    ensures
        r@ == graph_window_spec(now, period),
{
    let (count, length): (usize, i64) = match period {
        DashPeriod::Daily => (7, 86400000),
        DashPeriod::Weekly => (8, 604800000),
        DashPeriod::Monthly => (6, 2592000000),
    };
    let mut r: Vec<(i64, i64)> = Vec::new();
    let mut k: usize = 0;
    while k < count
        invariant
            (count as nat, length) == graph_shape(period),
            EARLIEST_TIME_MS + 8 * MONTH_WINDOW_MS <= now <= LATEST_TIME_MS,
            k <= count,
            r@ == graph_window_spec(now, period).take(k as int),
        decreases count - k,
    {
        let back = (count - 1 - k) as i64;
        assert(back * length <= 7 * MONTH_WINDOW_MS) by (nonlinear_arith)
            requires back <= 7, 0 <= back, length <= MONTH_WINDOW_MS, 0 < length;
        assert(0 <= back * length) by (nonlinear_arith)
            requires 0 <= back, 0 < length;
        let end = now - back * length;
        r.push((end - length, end));
        assert(r@ =~= graph_window_spec(now, period).take(k + 1));
        k = k + 1;
    }
    assert(graph_window_spec(now, period).take(count as int) =~= graph_window_spec(now, period));
    r
}

} // verus!
