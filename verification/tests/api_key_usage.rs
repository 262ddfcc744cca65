use lucid_auth::service::api_key::{ApiKey, ApiKeyConfiguration, ApiKeyError};
use lucid_auth::service::api_key_usage::evaluate;

const HOUR: i64 = 3_600_000;
const NOW: i64 = 1_787_832_000_000;

fn fixture(created_at: i64) -> ApiKey {
    ApiKey {
        id: "key-id".to_string(),
        config_id: "default".to_string(),
        name: None,
        start: None,
        prefix: None,
        key_hash: "hash".to_string(),
        reference_id: "user-id".to_string(),
        refill_interval: None,
        refill_amount: None,
        last_refill_at: None,
        enabled: true,
        rate_limit_enabled: true,
        rate_limit_time_window: Some(86_400_000),
        rate_limit_max: Some(10),
        request_count: 0,
        remaining: None,
        last_request: None,
        expires_at: None,
        permissions: None,
        metadata: None,
        created_at,
        updated_at: created_at,
    }
}

#[test]
fn applies_quota_refill_and_rate_window_rules() {
    let now = NOW;
    let mut api_key = fixture(now - 2 * HOUR);
    api_key.remaining = Some(1);
    api_key.refill_amount = Some(5);
    api_key.refill_interval = Some(3_600_000);
    let mutation = evaluate(&api_key, &ApiKeyConfiguration::default(), now).unwrap();
    mutation.apply(&mut api_key);
    assert_eq!(api_key.remaining, Some(4));
    assert_eq!(api_key.last_refill_at, Some(now));
    assert_eq!(api_key.request_count, 1);
    assert_eq!(api_key.last_request, Some(now));
}

#[test]
fn rejects_exhausted_quota_and_full_active_window() {
    let now = NOW;
    let mut exhausted = fixture(now);
    exhausted.remaining = Some(0);
    assert!(matches!(
        evaluate(&exhausted, &ApiKeyConfiguration::default(), now),
        Err(ApiKeyError::UsageExceeded)
    ));

    let mut limited = fixture(now);
    limited.last_request = Some(now - 1_000);
    limited.request_count = 10;
    assert!(matches!(
        evaluate(&limited, &ApiKeyConfiguration::default(), now),
        Err(ApiKeyError::RateLimited { .. })
    ));
}

#[test]
fn full_window_reports_the_time_left() {
    let mut limited = fixture(NOW);
    limited.last_request = Some(NOW - 1_000);
    limited.request_count = 10;
    match evaluate(&limited, &ApiKeyConfiguration::default(), NOW) {
        Err(ApiKeyError::RateLimited { retry_after_milliseconds }) => {
            assert_eq!(retry_after_milliseconds, 86_400_000 - 1_000)
        }
        _ => panic!("expected a rate limit"),
    }
}

#[test]
fn passed_window_starts_over() {
    let mut key = fixture(NOW);
    key.last_request = Some(NOW - 86_400_001);
    key.request_count = 10;
    let mutation = evaluate(&key, &ApiKeyConfiguration::default(), NOW).unwrap();
    assert_eq!(mutation.request_count, 1);
    assert_eq!(mutation.last_request, Some(NOW));
}

#[test]
fn quota_without_refill_counts_down_to_zero() {
    let mut key = fixture(NOW);
    key.remaining = Some(2);
    let first = evaluate(&key, &ApiKeyConfiguration::default(), NOW).unwrap();
    assert_eq!(first.remaining, Some(1));
    first.apply(&mut key);
    let second = evaluate(&key, &ApiKeyConfiguration::default(), NOW).unwrap();
    assert_eq!(second.remaining, Some(0));
    second.apply(&mut key);
    assert!(matches!(
        evaluate(&key, &ApiKeyConfiguration::default(), NOW),
        Err(ApiKeyError::UsageExceeded)
    ));
}

#[test]
fn refill_waits_for_the_interval() {
    let mut key = fixture(NOW - HOUR / 2);
    key.remaining = Some(0);
    key.refill_amount = Some(5);
    key.refill_interval = Some(HOUR);
    assert!(matches!(
        evaluate(&key, &ApiKeyConfiguration::default(), NOW),
        Err(ApiKeyError::UsageExceeded)
    ));
}

#[test]
fn disabled_rate_limit_only_records_the_time() {
    let mut key = fixture(NOW);
    key.rate_limit_enabled = false;
    key.request_count = 10;
    key.last_request = Some(NOW - 1);
    let mutation = evaluate(&key, &ApiKeyConfiguration::default(), NOW).unwrap();
    assert_eq!(mutation.last_request, Some(NOW));
    assert_eq!(mutation.request_count, 10);
}
