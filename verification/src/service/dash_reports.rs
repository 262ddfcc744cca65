//! What the dashboard's reports are made of: the user-details plan, the
//! statistics body, the retention report's entries and retained counts, and
//! the configuration insights.

use crate::clock::{EARLIEST_TIME_MS, LATEST_TIME_MS};
use crate::service::dash_analytics::{
    any_in_window, in_window, checked_add_period, checked_shift, has_time_in_window, last_active_in, period_shift,
    retention_horizons, shift_representable, users_active, DashPeriod,
};
use crate::exact_clone::ExactClone;
use crate::keyed::Keyed;
use crate::text::{concat, decimal, decimal_string, owned, str_eq};
use vstd::prelude::*;

verus! {

/// What a user-details response holds.
#[derive(Clone, Copy, Debug, PartialEq, Eq)]
pub struct DetailsPlan {
    /// The user's linked accounts are listed.
    pub accounts: bool,
    /// The user's sessions are listed, without their tokens.
    pub sessions: bool,
    /// The two-factor status is reported, and a missing last activity may be
    /// filled in from the sessions.
    pub full: bool,
}

/// The plan of a user-details response: `sessionOnly` and `accountOnly`
/// exclude each other; accounts are listed unless only sessions or a minimal
/// response are asked for, and sessions unless only accounts or a minimal
/// response are.
pub fn details_plan(session_only: bool, account_only: bool, minimal: bool) -> (r: Result<DetailsPlan, String>)
    ensures
        (session_only && account_only) <==> r is Err,
        r matches Err(m) ==> m@ == "Cannot use sessionOnly and accountOnly together"@,
        r matches Ok(p) ==> {
            &&& p.accounts == !(session_only || minimal)
            &&& p.sessions == !(account_only || minimal)
            &&& p.full == (!session_only && !account_only)
        },
{
    if session_only && account_only {
        return Err(owned("Cannot use sessionOnly and accountOnly together"));
    }
    Ok(DetailsPlan { accounts: !(session_only || minimal), sessions: !(account_only || minimal), full: !session_only && !account_only })
}

/// The fields of a record without those named `name`.
pub open spec fn without_field<A>(fields: Seq<(Seq<char>, A)>, name: Seq<char>) -> Seq<(Seq<char>, A)> {
    fields.filter(|f: (Seq<char>, A)| f.0 != name)
}

/// Drops the fields named `name` from a record, keeping the rest in order.
pub fn drop_field<V: DeepView>(fields: Vec<Keyed<V>>, name: &str) -> (r: Vec<Keyed<V>>)
    ensures
        r.deep_view() == without_field(fields.deep_view(), name@),
{
    let ghost all = fields.deep_view();
    let ghost pred = |f: (Seq<char>, V::V)| f.0 != name@;
    let mut kept: Vec<Keyed<V>> = Vec::new();
    let mut rest = fields;
    proof {
        reveal(Seq::filter);
        assert(all.take(0) =~= Seq::<(Seq<char>, V::V)>::empty());
        assert(all.skip(0) =~= all);
    }
    let n = rest.len();
    let mut i: usize = 0;
    while i < n
        invariant
            n == all.len(),
            i <= n,
            rest.deep_view() == all.skip(i as int),
            kept.deep_view() == all.take(i as int).filter(pred),
            pred == (|f: (Seq<char>, V::V)| f.0 != name@),
        decreases n - i,
    {
        proof {
            reveal(Seq::filter);
        }
        let ghost before = rest@;
        assert(rest.deep_view().len() == rest@.len());
        let f = rest.remove(0);
        proof {
            assert(all.skip(i as int)[0] == before[0].deep_view());
            assert(all.take(i + 1).drop_last() =~= all.take(i as int));
            assert(all.take(i + 1).last() == all[i as int]);
            assert forall|m: int| 0 <= m < rest@.len() implies rest.deep_view()[m] == all.skip(i + 1)[m] by {
                assert(rest@[m] == before[m + 1]);
                assert(all.skip(i as int)[m + 1] == before[m + 1].deep_view());
            }
            assert(rest.deep_view() =~= all.skip(i + 1));
        }
        if !str_eq(f.key.as_str(), name) {
            let ghost k0 = kept.deep_view();
            kept.push(f);
            proof {
                assert(kept.deep_view() =~= k0.push(all[i as int]));
            }
        }
        i = i + 1;
    }
    proof {
        assert(all.take(n as int) =~= all);
    }
    kept
}

/// Why a user-details request is refused once its options are accepted.
#[derive(Clone, Copy, Debug, PartialEq, Eq, Structural)]
pub enum DetailsRefusal {
    /// No user has the id.
    UserNotFound,
}

/// A user-details response: the user's record, its linked accounts and
/// its sessions.
pub struct DetailsBody<V> {
    pub user: Vec<Keyed<V>>,
    pub accounts: Vec<Vec<Keyed<V>>>,
    pub sessions: Vec<Vec<Keyed<V>>>,
}

/// The user-details response under `plan`: refused where the user is not
/// found; else the user's record, its accounts where the plan lists them
/// (else none), and its sessions, each without its `token`, where the plan
/// lists them (else none).
pub fn user_details<V: DeepView>(
    plan: DetailsPlan,
    user: Option<Vec<Keyed<V>>>,
    accounts: Vec<Vec<Keyed<V>>>,
    sessions: Vec<Vec<Keyed<V>>>,
) -> (r: Result<DetailsBody<V>, DetailsRefusal>)
    ensures
        user is None <==> r == Err::<DetailsBody<V>, DetailsRefusal>(DetailsRefusal::UserNotFound),
        r matches Ok(b) ==> {
            &&& b.user.deep_view() == user->0.deep_view()
            &&& b.accounts.deep_view() == if plan.accounts {
                accounts.deep_view()
            } else {
                Seq::empty()
            }
            &&& b.sessions.deep_view().len() == if plan.sessions {
                sessions@.len()
            } else {
                0
            }
            &&& forall|i: int|
                0 <= i < b.sessions.deep_view().len() ==> #[trigger] b.sessions.deep_view()[i] == without_field(
                    sessions.deep_view()[i],
                    "token"@,
                )
        },
{
    let user = match user {
        Some(u) => u,
        None => return Err(DetailsRefusal::UserNotFound),
    };
    let accounts = if plan.accounts {
        accounts
    } else {
        Vec::new()
    };
    let mut listed: Vec<Vec<Keyed<V>>> = Vec::new();
    if plan.sessions {
        let ghost all = sessions.deep_view();
        let mut rest = sessions;
        let n = rest.len();
        let mut i: usize = 0;
        assert(all.skip(0) =~= all);
        while i < n
            invariant
                n == all.len(),
                i <= n,
                rest.deep_view() == all.skip(i as int),
                listed.deep_view().len() == i,
                forall|k: int| 0 <= k < i ==> #[trigger] listed.deep_view()[k] == without_field(all[k], "token"@),
            decreases n - i,
        {
            let ghost before = rest@;
            assert(rest.deep_view().len() == rest@.len());
            let s = rest.remove(0);
            proof {
                assert(all.skip(i as int)[0] == before[0].deep_view());
                assert forall|m: int| 0 <= m < rest@.len() implies rest.deep_view()[m] == all.skip(i + 1)[m] by {
                    assert(rest@[m] == before[m + 1]);
                    assert(all.skip(i as int)[m + 1] == before[m + 1].deep_view());
                }
                assert(rest.deep_view() =~= all.skip(i + 1));
            }
            let stripped = drop_field(s, "token");
            let ghost l0 = listed.deep_view();
            listed.push(stripped);
            proof {
                assert(listed.deep_view() =~= l0.push(without_field(all[i as int], "token"@)));
            }
            i = i + 1;
        }
    }
    Ok(DetailsBody { user, accounts, sessions: listed })
}

/// Whether `m` is the latest of the times.
pub open spec fn is_latest(times: Seq<i64>, m: i64) -> bool {
    &&& exists|i: int| 0 <= i < times.len() && times[i] == m
    &&& forall|i: int| 0 <= i < times.len() ==> times[i] <= m
}

/// The last activity filled into a details response: with activity tracking
/// on, a full non-minimal response whose user has no stored last activity
/// takes the latest session update, where there is a session.
pub fn filled_last_active(
    plan: DetailsPlan,
    minimal: bool,
    tracking_enabled: bool,
    stored_missing: bool,
    session_updates: &Vec<i64>,
) -> (r: Option<i64>)
    ensures
        (plan.full && !minimal && tracking_enabled && stored_missing && session_updates@.len() > 0) <==> r is Some,
        r matches Some(m) ==> is_latest(session_updates@, m),
{
    if !(plan.full && !minimal && tracking_enabled && stored_missing) || session_updates.len() == 0 {
        return None;
    }
    let mut latest = session_updates[0];
    let mut i: usize = 1;
    while i < session_updates.len()
        invariant
            1 <= i <= session_updates@.len(),
            exists|k: int| 0 <= k < i && session_updates@[k] == latest,
            forall|k: int| 0 <= k < i ==> session_updates@[k] <= latest,
        decreases session_updates@.len() - i,
    {
        if session_updates[i] > latest {
            latest = session_updates[i];
        }
        i = i + 1;
    }
    Some(latest)
}

/// A count and the count of the period before it, each missing where its
/// query failed.
#[derive(Clone, Copy, Debug, PartialEq, Eq)]
pub struct PeriodCounts {
    pub current: Option<i64>,
    pub previous: Option<i64>,
}

/// The body of the user statistics.
#[derive(Clone, Copy, Debug, PartialEq, Eq)]
pub struct DashStats {
    pub daily: PeriodCounts,
    pub weekly: PeriodCounts,
    pub monthly: PeriodCounts,
    pub total: Option<i64>,
    pub active_daily: PeriodCounts,
    pub active_weekly: PeriodCounts,
    pub active_monthly: PeriodCounts,
    /// Some query failed.
    pub degraded: bool,
}

/// The statistics from the thirteen counts, in the order the queries are
/// made: sign-ups in the last day, the day before, the last week, the week
/// before, the last thirty days and the thirty before; the total; then the
/// same six windows of active users.
pub fn stats_body(counts: &Vec<Option<i64>>) -> (r: DashStats)
    requires
        counts@.len() == 13,
    ensures
        r.degraded == exists|i: int| 0 <= i < 13 && counts@[i] is None,
        r.daily == (PeriodCounts { current: counts@[0], previous: counts@[1] }),
        r.weekly == (PeriodCounts { current: counts@[2], previous: counts@[3] }),
        r.monthly == (PeriodCounts { current: counts@[4], previous: counts@[5] }),
        r.total == counts@[6],
        r.active_daily == (PeriodCounts { current: counts@[7], previous: counts@[8] }),
        r.active_weekly == (PeriodCounts { current: counts@[9], previous: counts@[10] }),
        r.active_monthly == (PeriodCounts { current: counts@[11], previous: counts@[12] }),
{
    let mut degraded = false;
    let mut i: usize = 0;
    while i < 13
        invariant
            counts@.len() == 13,
            i <= 13,
            degraded == exists|k: int| 0 <= k < i && counts@[k] is None,
        decreases 13 - i,
    {
        if counts[i].is_none() {
            degraded = true;
        }
        i = i + 1;
    }
    DashStats {
        daily: PeriodCounts { current: counts[0], previous: counts[1] },
        weekly: PeriodCounts { current: counts[2], previous: counts[3] },
        monthly: PeriodCounts { current: counts[4], previous: counts[5] },
        total: counts[6],
        active_daily: PeriodCounts { current: counts[7], previous: counts[8] },
        active_weekly: PeriodCounts { current: counts[9], previous: counts[10] },
        active_monthly: PeriodCounts { current: counts[11], previous: counts[12] },
        degraded,
    }
}

/// One horizon of a retention report.
#[derive(Clone, Debug)]
pub struct RetentionEntry {
    pub n: usize,
    pub label: String,
    pub cohort_start: i64,
    pub cohort_end: i64,
    pub active_start: i64,
    pub active_end: i64,
}

/// The label of horizon `n`: the period's prefix and the number.
pub open spec fn horizon_label(period: DashPeriod, n: nat) -> Seq<char> {
    (match period {
        DashPeriod::Daily => "D"@,
        DashPeriod::Weekly => "W"@,
        DashPeriod::Monthly => "M"@,
    }) + decimal(n)
}

/// How many horizons a retention report has.
pub open spec fn horizon_count(period: DashPeriod) -> nat {
    match period {
        DashPeriod::Daily => 7,
        DashPeriod::Weekly => 8,
        DashPeriod::Monthly => 6,
    }
}

/// Whether `e` is horizon `n` of the report whose current period starts at
/// `active_start`: its cohort starts `n` periods earlier and lasts one
/// period; the active window is the current period.
pub open spec fn is_horizon(e: RetentionEntry, period: DashPeriod, active_start: i64, n: nat) -> bool {
    &&& e.n == n
    &&& e.label@ == horizon_label(period, n)
    &&& e.active_start == active_start
    &&& checked_shift(active_start, period, 1) == Some(e.active_end)
    &&& checked_shift(active_start, period, -(n as int) as i32) == Some(e.cohort_start)
    &&& checked_shift(e.cohort_start, period, 1) == Some(e.cohort_end)
}

/// Whether the cohort of horizon `n` lies in the range of times.
pub open spec fn horizon_fits(active_start: i64, period: DashPeriod, n: int) -> bool {
    match checked_shift(active_start, period, -n as i32) {
        Some(start) => checked_shift(start, period, 1) is Some,
        None => false,
    }
}

/// The entries of a retention report whose current period starts at
/// `active_start`, horizons 1 to 7, 8 or 6; none where a period falls out
/// of the range of times.
pub fn retention_entries(period: DashPeriod, active_start: i64) -> (r: Option<Vec<RetentionEntry>>)
    requires
        EARLIEST_TIME_MS <= active_start <= LATEST_TIME_MS,
    ensures
        r matches Some(v) ==> v@.len() == horizon_count(period) && forall|k: int|
            0 <= k < v@.len() ==> is_horizon(#[trigger] v@[k], period, active_start, (k + 1) as nat),
        r is None ==> checked_shift(active_start, period, 1) is None || exists|n: int|
            1 <= n <= horizon_count(period) && !#[trigger] horizon_fits(active_start, period, n),
{
    let (count, prefix) = retention_horizons(period);
    let active_end = match checked_add_period(active_start, period, 1) {
        Some(t) => t,
        None => return None,
    };
    let mut entries: Vec<RetentionEntry> = Vec::new();
    let mut n: usize = 1;
    while n <= count
        invariant
            count == horizon_count(period),
            1 <= n <= count + 1,
            prefix@ == (match period {
                DashPeriod::Daily => "D"@,
                DashPeriod::Weekly => "W"@,
                DashPeriod::Monthly => "M"@,
            }),
            EARLIEST_TIME_MS <= active_start <= LATEST_TIME_MS,
            checked_shift(active_start, period, 1) == Some(active_end),
            entries@.len() == n - 1,
            forall|k: int| 0 <= k < entries@.len() ==> is_horizon(#[trigger] entries@[k], period, active_start, (k + 1) as nat),
        decreases count + 1 - n,
    {
        let back: i32 = -(n as i32);
        let cohort_start = match checked_add_period(active_start, period, back) {
            Some(t) => t,
            None => {
                assert(!horizon_fits(active_start, period, n as int));
                return None;
            },
        };
        let cohort_end = match checked_add_period(cohort_start, period, 1) {
            Some(t) => t,
            None => {
                assert(!horizon_fits(active_start, period, n as int));
                return None;
            },
        };
        let label = concat(prefix, decimal_string(n as u64).as_str());
        let entry = RetentionEntry { n, label, cohort_start, cohort_end, active_start, active_end };
        assert(is_horizon(entry, period, active_start, n as nat));
        entries.push(entry);
        n = n + 1;
    }
    Some(entries)
}

/// What the retention report knows of a cohort member: its last recorded
/// activity and the update times of its sessions.
#[derive(Clone, Debug)]
pub struct CohortMember {
    pub last_active: Option<i64>,
    pub session_updates: Vec<i64>,
}

/// How many members were active in the window: by their last recorded
/// activity where activity tracking is on, else by any session update.
pub open spec fn retained_spec(tracking: bool, members: Seq<CohortMember>, start: i64, end: i64) -> nat
    decreases members.len(),
{
    if members.len() == 0 {
        0
    } else {
        let m = members.last();
        let active = if tracking {
            m.last_active matches Some(t) && start <= t < end
        } else {
            any_in_window(m.session_updates@, start, Some(end))
        };
        retained_spec(tracking, members.drop_last(), start, end) + if active { 1nat } else { 0nat }
    }
}

proof fn lemma_retained_bound(tracking: bool, members: Seq<CohortMember>, start: i64, end: i64)
    ensures
        retained_spec(tracking, members, start, end) <= members.len(),
    decreases members.len(),
{
    if members.len() > 0 {
        lemma_retained_bound(tracking, members.drop_last(), start, end);
    }
}

/// How many members of a cohort were active in `[start, end)`; never more
/// than the cohort.
pub fn retained_count(tracking: bool, members: &Vec<CohortMember>, start: i64, end: i64) -> (r: usize)
    ensures
        r == retained_spec(tracking, members@, start, end),
        r <= members@.len(),
{
    let mut count: usize = 0;
    let mut i: usize = 0;
    while i < members.len()
        invariant
            i <= members@.len(),
            count == retained_spec(tracking, members@.take(i as int), start, end),
            count <= i,
        decreases members@.len() - i,
    {
        assert(members@.take(i + 1).drop_last() =~= members@.take(i as int));
        proof {
            lemma_retained_bound(tracking, members@.take(i as int), start, end);
        }
        let m = &members[i];
        let active = if tracking {
            match m.last_active {
                Some(t) => start <= t && t < end,
                None => false,
            }
        } else {
            has_time_in_window(&m.session_updates, start, Some(end))
        };
        if active {
            count = count + 1;
        }
        i = i + 1;
    }
    assert(members@.take(i as int) =~= members@);
    count
}

/// Whether the member's last recorded activity lies in `[start, end)`.
pub open spec fn last_active_within(m: CohortMember, start: i64, end: i64) -> bool {
    m.last_active matches Some(t) && start <= t && t < end
}

/// Whether some session of the member was updated in `[start, end)`.
pub open spec fn session_within(m: CohortMember, start: i64, end: i64) -> bool {
    exists|k: int| 0 <= k < m.session_updates@.len() && start <= #[trigger] m.session_updates@[k] && m.session_updates@[k] < end
}

/// With activity tracking on, the retained members are exactly those whose
/// last recorded activity lies in the window, whatever their sessions; with
/// it off, exactly those with a session updated in the window, whatever
/// their recorded activity.
pub proof fn law_retained_follows_the_activity_rule(members: Seq<CohortMember>, start: i64, end: i64)
    ensures
        retained_spec(true, members, start, end) == members.filter(
            |m: CohortMember| last_active_within(m, start, end),
        ).len(),
        retained_spec(false, members, start, end) == members.filter(
            |m: CohortMember| session_within(m, start, end),
        ).len(),
    decreases members.len(),
{
    reveal(Seq::filter);
    if members.len() > 0 {
        law_retained_follows_the_activity_rule(members.drop_last(), start, end);
        let m = members.last();
        if m.last_active matches Some(t) && start <= t < end {
            assert(last_active_within(m, start, end));
        }
        if any_in_window(m.session_updates@, start, Some(end)) {
            let k = choose|k: int| 0 <= k < m.session_updates@.len() && in_window(#[trigger] m.session_updates@[k], start, Some(end));
            assert(start <= m.session_updates@[k] && m.session_updates@[k] < end);
            assert(session_within(m, start, end));
        }
        if session_within(m, start, end) {
            let k = choose|k: int| 0 <= k < m.session_updates@.len() && start <= #[trigger] m.session_updates@[k] && m.session_updates@[k] < end;
            assert(in_window(m.session_updates@[k], start, Some(end)));
        }
    }
}

/// The secret that stands in when none is configured.
pub const DEFAULT_SECRET: &'static str = "better-auth-secret-12345678901234567890";

/// Where OAuth state is kept.
#[derive(Clone, Copy, Debug, PartialEq, Eq)]
pub enum StateStrategy {
    Database,
    Cookie,
}

/// How cached session cookies are encoded.
#[derive(Clone, Copy, Debug, PartialEq, Eq)]
pub enum CookieCacheStrategy {
    Compact,
    Jwt,
    Jwe,
}

/// The settings that the dashboard's insights read.
#[derive(Clone, Debug)]
pub struct DashInsightSettings {
    pub secret: Vec<u8>,
    pub ip_address_headers: Vec<String>,
    pub disable_ip_tracking: bool,
    pub account_linking_enabled: bool,
    pub allow_different_emails: bool,
    pub skip_state_cookie_check: bool,
    pub store_state_strategy: StateStrategy,
    pub cookie_cache_enabled: bool,
    pub cookie_cache_strategy: CookieCacheStrategy,
    pub cookie_cache_refresh_disabled: bool,
    pub session_fresh_age_seconds: i64,
    pub disable_verification_cleanup: bool,
    pub email_and_password_enabled: bool,
    pub min_password_length: usize,
    pub max_password_length: usize,
    pub rate_limit_enabled: bool,
    pub store_session_in_database: bool,
    pub preserve_session_in_database: bool,
    pub use_secure_cookies: Option<bool>,
    pub cross_subdomain_cookies_enabled: bool,
    pub cross_subdomain_cookies_domain: Option<String>,
}

/// The dashboard's insights into the configuration; the secret's entropy is
/// estimated where `secret_entropy_applies`, and is 0 otherwise.
#[derive(Clone, Debug)]
pub struct DashInsights {
    pub secret_entropy_applies: bool,
    pub has_ip_address_headers: bool,
    pub ip_address_headers: Option<Vec<String>>,
    pub disable_ip_tracking: bool,
    pub allow_different_emails: bool,
    pub skip_state_cookie_check: bool,
    pub store_state_cookie_strategy: &'static str,
    pub cookie_cache_enabled: bool,
    pub cookie_cache_strategy: Option<&'static str>,
    pub cookie_cache_refresh: Option<bool>,
    pub session_fresh_age_seconds: i64,
    pub disable_verification_cleanup: bool,
    pub min_password_length: Option<usize>,
    pub max_password_length: Option<usize>,
    pub has_rate_limit_disabled: bool,
    pub store_session_in_database: bool,
    pub preserve_session_in_database: bool,
    pub use_secure_cookies: Option<bool>,
    pub cross_subdomain_cookies_enabled: bool,
    pub cross_subdomain_cookies_domain: Option<String>,
    /// The service always has a database.
    pub has_database: bool,
    pub disable_csrf_check: bool,
    pub disable_origin_check: bool,
    pub identity_strategy: &'static str,
    pub has_joins_enabled: bool,
    pub has_error_url_configured: bool,
}

/// Whether `bytes` spell out `text`, one byte for each character.
pub open spec fn spells(bytes: Seq<u8>, text: Seq<char>) -> bool {
    &&& bytes.len() == text.len()
    &&& forall|k: int| 0 <= k < bytes.len() ==> bytes[k] as u32 == text[k] as u32
}

fn bytes_equal_text(bytes: &Vec<u8>, text: &str) -> (r: bool)
    ensures
        r == spells(bytes@, text@),
{
    let chars = crate::text::to_chars(text);
    if bytes.len() != chars.len() {
        return false;
    }
    let mut i: usize = 0;
    while i < bytes.len()
        invariant
            chars@ == text@,
            bytes@.len() == chars@.len(),
            i <= bytes@.len(),
            forall|k: int| 0 <= k < i ==> bytes@[k] as u32 == chars@[k] as u32,
        decreases bytes@.len() - i,
    {
        if (bytes[i] as u32) != (chars[i] as u32) {
            return false;
        }
        i = i + 1;
    }
    true
}

/// The name under which a state strategy is reported.
pub open spec fn state_strategy_name(st: StateStrategy) -> Seq<char> {
    match st {
        StateStrategy::Database => "database"@,
        StateStrategy::Cookie => "cookie"@,
    }
}

/// The name under which a cookie-cache strategy is reported.
pub open spec fn cache_strategy_name(st: CookieCacheStrategy) -> Seq<char> {
    match st {
        CookieCacheStrategy::Compact => "compact"@,
        CookieCacheStrategy::Jwt => "jwt"@,
        CookieCacheStrategy::Jwe => "jwe"@,
    }
}

/// Whether `r` holds the dashboard's insights into `s`.
pub open spec fn insights_of(r: DashInsights, s: DashInsightSettings) -> bool {
    &&& r.secret_entropy_applies == !(spells(s.secret@, DEFAULT_SECRET@) || s.secret@.len() < 32)
    &&& r.has_ip_address_headers == (s.ip_address_headers@.len() > 0)
    &&& (r.ip_address_headers matches Some(h) ==> h@ == s.ip_address_headers@)
    &&& r.ip_address_headers is Some == (s.ip_address_headers@.len() > 0)
    &&& r.disable_ip_tracking == s.disable_ip_tracking
    &&& r.allow_different_emails == (s.account_linking_enabled && s.allow_different_emails)
    &&& r.skip_state_cookie_check == s.skip_state_cookie_check
    &&& r.store_state_cookie_strategy@ == state_strategy_name(s.store_state_strategy)
    &&& r.cookie_cache_enabled == s.cookie_cache_enabled
    &&& (s.cookie_cache_enabled ==> (r.cookie_cache_strategy matches Some(n) && n@ == cache_strategy_name(
        s.cookie_cache_strategy,
    )))
    &&& (!s.cookie_cache_enabled ==> r.cookie_cache_strategy is None)
    &&& r.cookie_cache_refresh == (if s.cookie_cache_enabled {
        Some(!s.cookie_cache_refresh_disabled)
    } else {
        None
    })
    &&& r.session_fresh_age_seconds == s.session_fresh_age_seconds
    &&& r.disable_verification_cleanup == s.disable_verification_cleanup
    &&& r.min_password_length == (if s.email_and_password_enabled {
        Some(s.min_password_length)
    } else {
        None
    })
    &&& r.max_password_length == (if s.email_and_password_enabled {
        Some(s.max_password_length)
    } else {
        None
    })
    &&& r.has_rate_limit_disabled == !s.rate_limit_enabled
    &&& r.store_session_in_database == s.store_session_in_database
    &&& r.preserve_session_in_database == s.preserve_session_in_database
    &&& r.use_secure_cookies == s.use_secure_cookies
    &&& r.cross_subdomain_cookies_enabled == s.cross_subdomain_cookies_enabled
    &&& r.cross_subdomain_cookies_domain.deep_view() == s.cross_subdomain_cookies_domain.deep_view()
    &&& r.has_database
    &&& !r.disable_csrf_check
    &&& !r.disable_origin_check
    &&& r.identity_strategy@ == "issuer"@
    &&& !r.has_joins_enabled
    &&& !r.has_error_url_configured
}

/// The dashboard's insights into `s`.
pub fn dash_insights(s: &DashInsightSettings) -> (r: DashInsights)
    ensures
        insights_of(r, *s),
{
    let is_default = bytes_equal_text(&s.secret, DEFAULT_SECRET);
    let has_headers = s.ip_address_headers.len() > 0;
    DashInsights {
        secret_entropy_applies: !(is_default || s.secret.len() < 32),
        has_ip_address_headers: has_headers,
        ip_address_headers: if has_headers {
            Some(s.ip_address_headers.clone())
        } else {
            None
        },
        disable_ip_tracking: s.disable_ip_tracking,
        allow_different_emails: s.account_linking_enabled && s.allow_different_emails,
        skip_state_cookie_check: s.skip_state_cookie_check,
        store_state_cookie_strategy: match s.store_state_strategy {
            StateStrategy::Database => "database",
            StateStrategy::Cookie => "cookie",
        },
        cookie_cache_enabled: s.cookie_cache_enabled,
        cookie_cache_strategy: if s.cookie_cache_enabled {
            Some(
                match s.cookie_cache_strategy {
                    CookieCacheStrategy::Compact => "compact",
                    CookieCacheStrategy::Jwt => "jwt",
                    CookieCacheStrategy::Jwe => "jwe",
                },
            )
        } else {
            None
        },
        cookie_cache_refresh: if s.cookie_cache_enabled {
            Some(!s.cookie_cache_refresh_disabled)
        } else {
            None
        },
        session_fresh_age_seconds: s.session_fresh_age_seconds,
        disable_verification_cleanup: s.disable_verification_cleanup,
        min_password_length: if s.email_and_password_enabled {
            Some(s.min_password_length)
        } else {
            None
        },
        max_password_length: if s.email_and_password_enabled {
            Some(s.max_password_length)
        } else {
            None
        },
        has_rate_limit_disabled: !s.rate_limit_enabled,
        store_session_in_database: s.store_session_in_database,
        preserve_session_in_database: s.preserve_session_in_database,
        use_secure_cookies: s.use_secure_cookies,
        cross_subdomain_cookies_enabled: s.cross_subdomain_cookies_enabled,
        cross_subdomain_cookies_domain: s.cross_subdomain_cookies_domain.exact_clone(),
        has_database: true,
        disable_csrf_check: false,
        disable_origin_check: false,
        identity_strategy: "issuer",
        has_joins_enabled: false,
        has_error_url_configured: false,
    }
}

/// The type of an additional user field.
#[derive(Clone, Copy, Debug, PartialEq, Eq, Structural)]
pub enum AdditionalFieldType {
    String,
    StringLiteral,
    Number,
    Boolean,
    Date,
    Json,
    StringArray,
    NumberArray,
}

/// The name under which a field type is reported.
pub open spec fn field_type_name(t: AdditionalFieldType) -> Seq<char> {
    match t {
        AdditionalFieldType::String | AdditionalFieldType::StringLiteral => "string"@,
        AdditionalFieldType::Number => "number"@,
        AdditionalFieldType::Boolean => "boolean"@,
        AdditionalFieldType::Date => "date"@,
        AdditionalFieldType::Json => "json"@,
        AdditionalFieldType::StringArray => "string[]"@,
        AdditionalFieldType::NumberArray => "number[]"@,
    }
}

/// An additional user field as configured.
#[derive(Clone, Debug)]
pub struct AdditionalFieldSettings {
    pub name: String,
    pub field_type: AdditionalFieldType,
    pub required: bool,
    pub input: bool,
    pub unique: bool,
    pub has_default_value: bool,
    /// The model and field that the field references.
    pub references: Option<(String, String)>,
    pub returned: bool,
    pub bigint: bool,
}

/// An additional user field as the dashboard describes it.
#[derive(Clone, Debug)]
pub struct DashField {
    pub name: String,
    pub field_type: &'static str,
    pub required: bool,
    pub input: bool,
    pub unique: bool,
    pub has_default_value: bool,
    pub references: Option<(String, String)>,
    pub returned: bool,
    pub big_int: bool,
}

/// Whether `d` describes the configured field `f`.
pub open spec fn describes(d: DashField, f: AdditionalFieldSettings) -> bool {
    &&& d.name@ == f.name@
    &&& d.field_type@ == field_type_name(f.field_type)
    &&& d.required == f.required
    &&& d.input == f.input
    &&& d.unique == f.unique
    &&& d.has_default_value == f.has_default_value
    &&& d.references == f.references
    &&& d.returned == f.returned
    &&& d.big_int == f.bigint
}

/// The dashboard's description of an additional user field.
pub fn dash_field(f: AdditionalFieldSettings) -> (d: DashField)
    ensures
        describes(d, f),
{
    let field_type = match f.field_type {
        AdditionalFieldType::String | AdditionalFieldType::StringLiteral => "string",
        AdditionalFieldType::Number => "number",
        AdditionalFieldType::Boolean => "boolean",
        AdditionalFieldType::Date => "date",
        AdditionalFieldType::Json => "json",
        AdditionalFieldType::StringArray => "string[]",
        AdditionalFieldType::NumberArray => "number[]",
    };
    proof {
        reveal_strlit("string");
        reveal_strlit("number");
        reveal_strlit("boolean");
        reveal_strlit("date");
        reveal_strlit("json");
        reveal_strlit("string[]");
        reveal_strlit("number[]");
    }
    DashField {
        name: f.name,
        field_type,
        required: f.required,
        input: f.input,
        unique: f.unique,
        has_default_value: f.has_default_value,
        references: f.references,
        returned: f.returned,
        big_int: f.bigint,
    }
}

/// A plugin as the dashboard lists it.
#[derive(Clone, Debug)]
pub struct DashPluginDescriptor {
    pub id: String,
    pub version: String,
}

/// The configuration that the dashboard's snapshot reads.
pub struct DashConfigSettings {
    /// The protocol version the service is compatible with.
    pub version: String,
    pub social_provider_ids: Vec<String>,
    pub email_and_password_enabled: bool,
    pub disable_sign_up: bool,
    pub auto_sign_in: bool,
    pub require_email_verification: bool,
    pub min_password_length: usize,
    pub max_password_length: usize,
    pub plugins: Vec<DashPluginDescriptor>,
    pub additional_fields: Vec<AdditionalFieldSettings>,
    pub delete_user_enabled: bool,
    pub user_model_name: String,
    pub base_url: Option<String>,
    pub base_path: String,
    pub send_verification_email_enabled: bool,
    pub insights: DashInsightSettings,
}

/// The dashboard's snapshot of the configuration.
pub struct DashConfigSnapshot {
    pub version: String,
    pub social_providers: Vec<String>,
    pub email_and_password_enabled: bool,
    pub disable_sign_up: bool,
    pub auto_sign_in: bool,
    pub require_email_verification: bool,
    pub min_password_length: usize,
    pub max_password_length: usize,
    pub plugins: Vec<DashPluginDescriptor>,
    pub send_invitation_email_enabled: bool,
    pub user_additional_fields: Vec<DashField>,
    pub delete_user_enabled: bool,
    pub user_model_name: String,
    pub base_url: Option<String>,
    pub base_path: String,
    pub send_verification_email_enabled: bool,
    pub insights: DashInsights,
}

/// The dashboard's snapshot of the configuration `s`: its settings as they
/// are, each additional user field described, invitation emails off, and
/// the insights of [`dash_insights`].
pub fn dash_config_snapshot(s: DashConfigSettings) -> (r: DashConfigSnapshot)
    ensures
        r.version == s.version,
        r.social_providers == s.social_provider_ids,
        r.email_and_password_enabled == s.email_and_password_enabled,
        r.disable_sign_up == s.disable_sign_up,
        r.auto_sign_in == s.auto_sign_in,
        r.require_email_verification == s.require_email_verification,
        r.min_password_length == s.min_password_length,
        r.max_password_length == s.max_password_length,
        r.plugins == s.plugins,
        !r.send_invitation_email_enabled,
        r.user_additional_fields@.len() == s.additional_fields@.len(),
        forall|i: int|
            0 <= i < s.additional_fields@.len() ==> describes(
                #[trigger] r.user_additional_fields@[i],
                s.additional_fields@[i],
            ),
        r.delete_user_enabled == s.delete_user_enabled,
        r.user_model_name == s.user_model_name,
        r.base_url == s.base_url,
        r.base_path == s.base_path,
        r.send_verification_email_enabled == s.send_verification_email_enabled,
        insights_of(r.insights, s.insights),
{
    let insights = dash_insights(&s.insights);
    let ghost fields = s.additional_fields@;
    let mut described: Vec<DashField> = Vec::new();
    let mut rest = s.additional_fields;
    let n = rest.len();
    let mut i: usize = 0;
    assert(fields.skip(0) =~= fields);
    while i < n
        invariant
            n == fields.len(),
            i <= n,
            rest@ == fields.skip(i as int),
            described@.len() == i,
            forall|k: int| 0 <= k < i ==> describes(#[trigger] described@[k], fields[k]),
        decreases n - i,
    {
        let f = rest.remove(0);
        assert(rest@ =~= fields.skip(i + 1));
        described.push(dash_field(f));
        i = i + 1;
    }
    DashConfigSnapshot {
        version: s.version,
        social_providers: s.social_provider_ids,
        email_and_password_enabled: s.email_and_password_enabled,
        disable_sign_up: s.disable_sign_up,
        auto_sign_in: s.auto_sign_in,
        require_email_verification: s.require_email_verification,
        min_password_length: s.min_password_length,
        max_password_length: s.max_password_length,
        plugins: s.plugins,
        send_invitation_email_enabled: false,
        user_additional_fields: described,
        delete_user_enabled: s.delete_user_enabled,
        user_model_name: s.user_model_name,
        base_url: s.base_url,
        base_path: s.base_path,
        send_verification_email_enabled: s.send_verification_email_enabled,
        insights,
    }
}

} // verus!
