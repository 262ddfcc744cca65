use lucid_auth::keyed::Keyed;
use lucid_auth::service::dash_analytics::DashPeriod;
use lucid_auth::service::dash_query::{
    adapter_plan, adapter_source, find_one_result, skip_take, AdapterPlan, AdapterReply, AdapterRequestKind,
    AdapterSource, DashAdapterCondition, DashAdapterOperator,
};
use lucid_auth::service::dash_reports::{
    dash_insights, details_plan, filled_last_active, retained_count, retention_entries, stats_body, CohortMember,
    CookieCacheStrategy, DashInsightSettings, DetailsPlan, PeriodCounts, StateStrategy, DEFAULT_SECRET,
};
use lucid_auth::service::dash_reports::{
    dash_config_snapshot, dash_field, AdditionalFieldSettings, AdditionalFieldType, DashConfigSettings,
    DashPluginDescriptor,
};

const MIDNIGHT_2024_01_10: i64 = 1_704_844_800_000;
const DAY: i64 = 86_400_000;

fn condition(field: &str, operator: DashAdapterOperator, value: Option<&str>) -> DashAdapterCondition {
    DashAdapterCondition { field: field.into(), operator, string_value: value.map(String::from) }
}

fn settings(secret: &[u8]) -> DashInsightSettings {
    DashInsightSettings {
        secret: secret.to_vec(),
        ip_address_headers: vec![],
        disable_ip_tracking: false,
        account_linking_enabled: true,
        allow_different_emails: true,
        skip_state_cookie_check: false,
        store_state_strategy: StateStrategy::Cookie,
        cookie_cache_enabled: true,
        cookie_cache_strategy: CookieCacheStrategy::Jwe,
        cookie_cache_refresh_disabled: true,
        session_fresh_age_seconds: 86_400,
        disable_verification_cleanup: false,
        email_and_password_enabled: true,
        min_password_length: 8,
        max_password_length: 128,
        rate_limit_enabled: true,
        store_session_in_database: false,
        preserve_session_in_database: false,
        use_secure_cookies: None,
        cross_subdomain_cookies_enabled: false,
        cross_subdomain_cookies_domain: None,
    }
}

#[test]
fn details_refuse_session_only_with_account_only() {
    assert_eq!(details_plan(true, true, false).unwrap_err(), "Cannot use sessionOnly and accountOnly together");
    assert_eq!(details_plan(true, false, false).unwrap(), DetailsPlan { accounts: false, sessions: true, full: false });
    assert_eq!(details_plan(false, true, false).unwrap(), DetailsPlan { accounts: true, sessions: false, full: false });
    assert_eq!(details_plan(false, false, true).unwrap(), DetailsPlan { accounts: false, sessions: false, full: true });
    assert_eq!(details_plan(false, false, false).unwrap(), DetailsPlan { accounts: true, sessions: true, full: true });
}

#[test]
fn details_fill_a_missing_last_activity_from_the_latest_session() {
    let plan = details_plan(false, false, false).unwrap();
    assert_eq!(filled_last_active(plan, false, true, true, &vec![5, 9, 7]), Some(9));
    assert_eq!(filled_last_active(plan, false, true, false, &vec![5, 9, 7]), None);
    assert_eq!(filled_last_active(plan, false, false, true, &vec![5, 9, 7]), None);
    assert_eq!(filled_last_active(plan, false, true, true, &vec![]), None);
}

#[test]
fn stats_are_degraded_when_any_count_is_missing() {
    let counts: Vec<Option<i64>> = (0..13).map(Some).collect();
    let stats = stats_body(&counts);
    assert!(!stats.degraded);
    assert_eq!(stats.daily, PeriodCounts { current: Some(0), previous: Some(1) });
    assert_eq!(stats.monthly, PeriodCounts { current: Some(4), previous: Some(5) });
    assert_eq!(stats.total, Some(6));
    assert_eq!(stats.active_monthly, PeriodCounts { current: Some(11), previous: Some(12) });
    let mut broken = counts.clone();
    broken[8] = None;
    let stats = stats_body(&broken);
    assert!(stats.degraded);
    assert_eq!(stats.active_daily, PeriodCounts { current: Some(7), previous: None });
}

#[test]
fn retention_reports_seven_daily_horizons() {
    let entries = retention_entries(DashPeriod::Daily, MIDNIGHT_2024_01_10).unwrap();
    assert_eq!(entries.len(), 7);
    for (i, e) in entries.iter().enumerate() {
        let n = i + 1;
        assert_eq!(e.n, n);
        assert_eq!(e.label, format!("D{n}"));
        assert_eq!(e.active_start, MIDNIGHT_2024_01_10);
        assert_eq!(e.active_end, MIDNIGHT_2024_01_10 + DAY);
        assert_eq!(e.cohort_start, MIDNIGHT_2024_01_10 - n as i64 * DAY);
        assert_eq!(e.cohort_end, e.cohort_start + DAY);
    }
    assert_eq!(retention_entries(DashPeriod::Weekly, MIDNIGHT_2024_01_10).unwrap().len(), 8);
    let monthly = retention_entries(DashPeriod::Monthly, 1_704_067_200_000).unwrap();
    assert_eq!(monthly.len(), 6);
    assert_eq!(monthly[0].label, "M1");
    // 2023-12-01 and 2024-02-01
    assert_eq!(monthly[0].cohort_start, 1_701_388_800_000);
    assert_eq!(monthly[0].active_end, 1_706_745_600_000);
}

#[test]
fn retained_members_follow_the_activity_rule() {
    let members = vec![
        CohortMember { last_active: Some(15), session_updates: vec![1] },
        CohortMember { last_active: Some(5), session_updates: vec![12] },
        CohortMember { last_active: None, session_updates: vec![] },
    ];
    assert_eq!(retained_count(true, &members, 10, 20), 1);
    assert_eq!(retained_count(false, &members, 10, 20), 1);
    assert_eq!(retained_count(false, &members, 0, 20), 2);
    assert!(retained_count(true, &members, 0, 100) <= members.len());
}

#[test]
fn insights_skip_the_entropy_of_the_default_or_a_short_secret() {
    assert!(!dash_insights(&settings(DEFAULT_SECRET.as_bytes())).secret_entropy_applies);
    assert!(!dash_insights(&settings(b"short")).secret_entropy_applies);
    let long = dash_insights(&settings(&[b'x'; 40]));
    assert!(long.secret_entropy_applies);
    assert_eq!(long.store_state_cookie_strategy, "cookie");
    assert_eq!(long.cookie_cache_strategy, Some("jwe"));
    assert_eq!(long.cookie_cache_refresh, Some(false));
    assert!(long.allow_different_emails);
    assert!(!long.has_ip_address_headers);
    assert_eq!(long.ip_address_headers, None);
    assert_eq!(long.min_password_length, Some(8));
    let mut off = settings(&[b'x'; 40]);
    off.cookie_cache_enabled = false;
    off.email_and_password_enabled = false;
    off.ip_address_headers = vec!["x-forwarded-for".into()];
    let insights = dash_insights(&off);
    assert_eq!(insights.cookie_cache_strategy, None);
    assert_eq!(insights.cookie_cache_refresh, None);
    assert_eq!(insights.max_password_length, None);
    assert_eq!(insights.ip_address_headers, Some(vec!["x-forwarded-for".to_string()]));
}

#[test]
fn adapter_models_route_to_their_store_reads() {
    let by_user = vec![condition("userId", DashAdapterOperator::Eq, Some("u1"))];
    assert!(matches!(adapter_source("user", &vec![]), Ok(AdapterSource::Users)));
    assert!(matches!(adapter_source("account", &by_user), Ok(AdapterSource::Accounts(id)) if id == "u1"));
    assert!(matches!(adapter_source("session", &by_user), Ok(AdapterSource::Sessions(id)) if id == "u1"));
    assert_eq!(
        adapter_source("session", &vec![condition("userId", DashAdapterOperator::Ne, Some("u1"))]).unwrap_err(),
        "the configured adapter requires an equality filter for 'userId'"
    );
    assert_eq!(adapter_source("team", &by_user).unwrap_err(), "the configured adapter does not expose model 'team'");
}

#[test]
fn adapter_pages_skip_then_take() {
    assert_eq!(skip_take(vec![1, 2, 3, 4, 5], 1, Some(2)), vec![2, 3]);
    assert_eq!(skip_take(vec![1, 2, 3, 4, 5], 3, None), vec![4, 5]);
    assert_eq!(skip_take(vec![1, 2, 3], 5, Some(1)), Vec::<i32>::new());
    assert_eq!(skip_take(vec![1, 2, 3], 0, Some(0)), Vec::<i32>::new());
    assert_eq!(skip_take(vec![1, 2, 3], 0, Some(10)), vec![1, 2, 3]);
}

#[test]
fn adapter_requests_plan_their_answers() {
    assert!(matches!(
        adapter_plan(AdapterRequestKind::FindOne, "user", &vec![]),
        Ok(AdapterPlan::Query { limit: Some(1), offset: 0, reply: AdapterReply::One })
    ));
    assert!(matches!(
        adapter_plan(AdapterRequestKind::FindMany { limit: Some(3), offset: 2 }, "session", &vec![]),
        Ok(AdapterPlan::Query { limit: Some(3), offset: 2, reply: AdapterReply::Many })
    ));
    assert!(matches!(
        adapter_plan(AdapterRequestKind::Count, "account", &vec![]),
        Ok(AdapterPlan::Query { limit: None, offset: 0, reply: AdapterReply::Count })
    ));
    assert!(matches!(adapter_plan(AdapterRequestKind::Create, "user", &vec![]), Ok(AdapterPlan::CreateUser)));
    assert_eq!(
        adapter_plan(AdapterRequestKind::Create, "session", &vec![]).unwrap_err(),
        "the configured adapter does not expose this model mutation"
    );
    let by_id = vec![condition("id", DashAdapterOperator::Eq, Some("u7"))];
    assert!(matches!(adapter_plan(AdapterRequestKind::Update, "user", &by_id), Ok(AdapterPlan::UpdateUser(id)) if id == "u7"));
    assert_eq!(
        adapter_plan(AdapterRequestKind::Update, "user", &vec![]).unwrap_err(),
        "the configured adapter requires an equality filter for 'id'"
    );
}

#[test]
fn a_single_find_answers_with_the_last_record_projected() {
    let record = |id: &str| vec![Keyed { key: "email".into(), value: 1 }, Keyed { key: "id".into(), value: id.len() }];
    assert!(find_one_result::<usize>(vec![], None).is_none());
    let select = vec!["id".to_string()];
    let one = find_one_result(vec![record("a"), record("bbb")], Some(&select)).unwrap();
    assert_eq!(one.len(), 1);
    assert_eq!(one[0].key, "id");
    assert_eq!(one[0].value, 3);
}

fn additional(name: &str, field_type: AdditionalFieldType) -> AdditionalFieldSettings {
    AdditionalFieldSettings {
        name: name.into(),
        field_type,
        required: true,
        input: false,
        unique: true,
        has_default_value: false,
        references: Some(("team".into(), "id".into())),
        returned: true,
        bigint: false,
    }
}

#[test]
fn config_snapshots_describe_fields_and_carry_constant_insights() {
    let literal = dash_field(additional("kind", AdditionalFieldType::StringLiteral));
    assert_eq!(literal.field_type, "string");
    assert_eq!(dash_field(additional("tags", AdditionalFieldType::NumberArray)).field_type, "number[]");
    let snapshot = dash_config_snapshot(DashConfigSettings {
        version: "1.3.0".into(),
        social_provider_ids: vec!["github".into()],
        email_and_password_enabled: true,
        disable_sign_up: false,
        auto_sign_in: true,
        require_email_verification: false,
        min_password_length: 8,
        max_password_length: 128,
        plugins: vec![DashPluginDescriptor { id: "dash".into(), version: "1".into() }],
        additional_fields: vec![additional("kind", AdditionalFieldType::String), additional("age", AdditionalFieldType::Number)],
        delete_user_enabled: true,
        user_model_name: "user".into(),
        base_url: Some("https://example.com".into()),
        base_path: "/api/auth".into(),
        send_verification_email_enabled: false,
        insights: settings(&[b'x'; 40]),
    });
    assert_eq!(snapshot.social_providers, vec!["github".to_string()]);
    assert!(!snapshot.send_invitation_email_enabled);
    assert_eq!(snapshot.user_additional_fields.len(), 2);
    assert_eq!(snapshot.user_additional_fields[1].name, "age");
    assert_eq!(snapshot.user_additional_fields[1].field_type, "number");
    assert_eq!(snapshot.user_additional_fields[1].references, Some(("team".into(), "id".into())));
    assert!(snapshot.insights.has_database);
    assert_eq!(snapshot.insights.identity_strategy, "issuer");
    assert!(!snapshot.insights.disable_csrf_check && !snapshot.insights.has_joins_enabled);
    assert!(snapshot.insights.secret_entropy_applies);
}
