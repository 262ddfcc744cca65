use lucid_auth::keyed::Keyed;
use lucid_auth::scim::error::{retry_mutation, ScimError, MUTATION_ATTEMPTS};
use lucid_auth::scim::projection::{membership_source, MembershipGroup, ScimAuthorizationSource};
use lucid_auth::service::dash_match::{matching_records, DashMatchCondition, DashValue};
use lucid_auth::service::dash_query::DashAdapterOperator;
use lucid_auth::service::dash_reports::{details_plan, drop_field, user_details, DetailsRefusal};
use lucid_auth::text::trimmed;

fn field(key: &str, value: DashValue) -> Keyed<DashValue> {
    Keyed { key: key.into(), value }
}

fn text(s: &str) -> DashValue {
    DashValue::Text(s.into())
}

fn session(token: &str, user_agent: &str) -> Vec<Keyed<DashValue>> {
    vec![field("token", text(token)), field("userAgent", text(user_agent)), field("userId", text("u1"))]
}

fn when(field: &str, operator: DashAdapterOperator, value: DashValue) -> DashMatchCondition {
    DashMatchCondition { field: field.into(), operator, value, items: None }
}

fn agents(records: &[Vec<Keyed<DashValue>>]) -> Vec<String> {
    records
        .iter()
        .map(|r| match &r.iter().find(|f| f.key == "userAgent").unwrap().value {
            DashValue::Text(s) => s.clone(),
            _ => String::new(),
        })
        .collect()
}

#[test]
fn where_clauses_keep_the_matching_records_in_order() {
    let records = vec![session("t1", "firefox/1"), session("t2", "chrome/2"), session("t3", "firefox/3")];
    let starts = vec![when("userAgent", DashAdapterOperator::StartsWith, text("firefox"))];
    assert_eq!(agents(&matching_records(records.clone(), &starts)), vec!["firefox/1", "firefox/3"]);
    let contains = vec![when("userAgent", DashAdapterOperator::Contains, text("/2"))];
    assert_eq!(agents(&matching_records(records.clone(), &contains)), vec!["chrome/2"]);
    let ends_and_ne = vec![
        when("userAgent", DashAdapterOperator::EndsWith, text("3")),
        when("token", DashAdapterOperator::Ne, text("t3")),
    ];
    assert!(matching_records(records.clone(), &ends_and_ne).is_empty());
    let among = vec![DashMatchCondition {
        field: "token".into(),
        operator: DashAdapterOperator::In,
        value: DashValue::Json("[\"t1\",\"t2\"]".into()),
        items: Some(vec![text("t1"), text("t2")]),
    }];
    assert_eq!(agents(&matching_records(records.clone(), &among)), vec!["firefox/1", "chrome/2"]);
    let missing_is_null = vec![when("ipAddress", DashAdapterOperator::Eq, DashValue::Json("null".into()))];
    assert_eq!(matching_records(records.clone(), &missing_is_null).len(), 3);
    let later = vec![when("userAgent", DashAdapterOperator::Gt, text("d"))];
    assert_eq!(agents(&matching_records(records.clone(), &later)), vec!["firefox/1", "firefox/3"]);
    let text_against_number = vec![when("userAgent", DashAdapterOperator::Lt, DashValue::Integer(3))];
    assert!(matching_records(records.clone(), &text_against_number).is_empty());
    let number_is_not_text = vec![when("token", DashAdapterOperator::Eq, DashValue::Integer(1))];
    assert!(matching_records(records, &number_is_not_text).is_empty());
}

#[test]
fn user_details_refuse_an_unknown_user_and_strip_session_tokens() {
    let plan = details_plan(false, false, false).unwrap();
    let user = vec![field("id", text("u1"))];
    let refused = user_details::<DashValue>(plan, None, vec![], vec![session("t1", "a")]);
    assert!(matches!(refused, Err(DetailsRefusal::UserNotFound)));
    let body = user_details(plan, Some(user.clone()), vec![vec![field("providerId", text("github"))]], vec![
        session("t1", "a"),
        session("t2", "b"),
    ])
    .ok()
    .unwrap();
    assert_eq!(body.accounts.len(), 1);
    assert_eq!(body.sessions.len(), 2);
    assert!(body.sessions.iter().all(|s| s.iter().all(|f| f.key != "token")));
    assert_eq!(body.sessions[1].len(), 2);
    let minimal = details_plan(false, false, true).unwrap();
    let body = user_details(minimal, Some(user), vec![vec![]], vec![session("t1", "a")]).ok().unwrap();
    assert!(body.accounts.is_empty() && body.sessions.is_empty());
    let kept = drop_field(vec![field("a", text("1")), field("token", text("x")), field("b", text("2"))], "token");
    assert_eq!(kept.iter().map(|f| f.key.as_str()).collect::<Vec<_>>(), vec!["a", "b"]);
}

fn group(connection: &str, domain: &str) -> MembershipGroup {
    MembershipGroup {
        connection_id: connection.into(),
        provisioning_domain_id: domain.into(),
        external_id: Some("ext".into()),
        display_name: "Admins".into(),
    }
}

#[test]
fn memberships_grant_only_through_groups_of_the_users_connection_and_domain() {
    match membership_source("g1".into(), Some(group("c1", "d1")), "c1", "d1") {
        Some(ScimAuthorizationSource::Group { id, external_id, display_name }) => {
            assert_eq!(id, "g1");
            assert_eq!(external_id.as_deref(), Some("ext"));
            assert_eq!(display_name, "Admins");
        },
        None => panic!("the group is in the user's connection and domain"),
    }
    assert!(membership_source("g1".into(), None, "c1", "d1").is_none());
    assert!(membership_source("g1".into(), Some(group("c2", "d1")), "c1", "d1").is_none());
    assert!(membership_source("g1".into(), Some(group("c1", "d2")), "c1", "d1").is_none());
}

#[test]
fn only_marked_concurrency_conflicts_are_retryable() {
    let detail = "The SCIM resource changed concurrently; retry the request";
    let retryable = ScimError::retryable_conflict(detail.to_string());
    assert!(retryable.retryable);
    assert!(!ScimError::new(409, detail.to_string()).retryable);
}

#[test]
fn mutations_retry_only_retryable_errors_up_to_three_attempts() {
    let conflict = ScimError::retryable_conflict("again".to_string());
    let plain = ScimError::new(409, "again".to_string());
    assert_eq!(MUTATION_ATTEMPTS, 3);
    assert!(retry_mutation(1, &conflict));
    assert!(retry_mutation(2, &conflict));
    assert!(!retry_mutation(3, &conflict));
    assert!(!retry_mutation(1, &plain));
}

#[test]
fn trimming_drops_every_unicode_white_space() {
    let padded = "\u{3000}\u{85}\u{a0}\t value \u{2028}\u{202f}\u{205f}\u{1680}\u{200a}";
    assert_eq!(trimmed(padded), padded.trim());
    assert_eq!(trimmed(padded), "value");
    assert_eq!(trimmed("\u{200b}x"), "\u{200b}x");
}
