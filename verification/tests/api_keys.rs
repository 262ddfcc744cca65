use lucid_auth::service::api_key::{
    ApiKey, ApiKeyConfiguration, ApiKeyError, ApiKeyMetadata, ApiKeyPermission, ApiKeySortDirection,
    ApiKeyUseOutcome, MetadataKind,
};
use lucid_auth::service::api_key_issue::{generate_key, hash_key, issued_api_key, key_start, new_key_expires_at};
use lucid_auth::service::api_key_order::{canonicalize_actions, normalize_permissions, sort_api_keys};
use lucid_auth::service::api_key_policy::{
    apply_update, permits_all, update_is_empty, validate_create, validate_name, validate_prefix, validate_refill,
    validate_update, ApiKeyUpdate, ExpiryWindow, NewApiKey,
};
use lucid_auth::service::api_key_verification::{after_recorded_use, check_stored_key, VerificationStep};

fn key(id: &str, name: Option<&str>, created_at: i64) -> ApiKey {
    ApiKey {
        id: id.to_string(),
        config_id: "default".to_string(),
        name: name.map(str::to_string),
        start: None,
        prefix: None,
        key_hash: "hash".to_string(),
        reference_id: "user".to_string(),
        refill_interval: None,
        refill_amount: None,
        last_refill_at: None,
        enabled: true,
        rate_limit_enabled: true,
        rate_limit_time_window: None,
        rate_limit_max: None,
        request_count: 0,
        remaining: None,
        last_request: None,
        expires_at: None,
        permissions: None,
        metadata: None,
        created_at,
        updated_at: created_at,
    }
}

fn permission(resource: &str, actions: &[&str]) -> ApiKeyPermission {
    ApiKeyPermission { resource: resource.to_string(), actions: actions.iter().map(|a| a.to_string()).collect() }
}

fn ids(keys: &[ApiKey]) -> Vec<String> {
    keys.iter().map(|k| k.id.clone()).collect()
}

#[test]
fn keys_sort_stably_by_field_and_direction() {
    let mut keys = vec![key("a", Some("b"), 3), key("b", None, 1), key("c", Some("a"), 3), key("d", Some("b"), 2)];
    sort_api_keys(&mut keys, "createdAt", ApiKeySortDirection::Ascending);
    assert_eq!(ids(&keys), vec!["b", "d", "a", "c"]);
    sort_api_keys(&mut keys, "createdAt", ApiKeySortDirection::Descending);
    assert_eq!(ids(&keys), vec!["a", "c", "d", "b"]);
    sort_api_keys(&mut keys, "name", ApiKeySortDirection::Ascending);
    // Absent names first; equal names keep their order.
    assert_eq!(ids(&keys), vec!["b", "c", "a", "d"]);
    let before = ids(&keys);
    sort_api_keys(&mut keys, "unknown", ApiKeySortDirection::Descending);
    assert_eq!(ids(&keys), before);
}

#[test]
fn permission_actions_become_sorted_and_distinct() {
    let actions: Vec<String> = ["write", "read", "write", "admin", "read"].iter().map(|s| s.to_string()).collect();
    assert_eq!(canonicalize_actions(&actions), vec!["admin", "read", "write"]);
    let mut permissions = Some(vec![permission("files", &["b", "a", "b"]), permission("users", &[])]);
    normalize_permissions(&mut permissions);
    let p = permissions.unwrap();
    assert_eq!(p[0].resource, "files");
    assert_eq!(p[0].actions, vec!["a", "b"]);
    assert!(p[1].actions.is_empty());
    let mut none: Option<Vec<ApiKeyPermission>> = None;
    normalize_permissions(&mut none);
    assert!(none.is_none());
}

#[test]
fn permissions_are_checked_per_resource() {
    let mut k = key("a", None, 0);
    assert!(!k.permits("files", "read"));
    k.permissions = Some(vec![permission("files", &["read", "write"]), permission("users", &["read"])]);
    assert!(k.permits("files", "write"));
    assert!(!k.permits("users", "write"));
    assert!(permits_all(&k, &vec![permission("files", &["read"]), permission("users", &["read"])]));
    assert!(!permits_all(&k, &vec![permission("files", &["delete"])]));
    assert!(permits_all(&k, &Vec::new()));
}

#[test]
fn stored_keys_hash_to_url_safe_sha256() {
    assert_eq!(hash_key("abc"), "ungWv48Bz-pBQUDeXa4iI7ADYaOWF3qctBD_YfIAFa0");
    assert_eq!(hash_key(""), "47DEQpj8HBSa-_TImW-5JCeuQeRkm5NMpJWZG3hSuFU");
}

#[test]
fn generated_keys_are_prefixed_letters() {
    let k = generate_key(64, Some("pk_"));
    assert_eq!(k.len(), 67);
    assert!(k.starts_with("pk_"));
    assert!(k[3..].chars().all(|c| c.is_ascii_alphabetic()));
    let plain = generate_key(10, None);
    assert_eq!(plain.len(), 10);
    assert_ne!(generate_key(32, None), generate_key(32, None));
}

#[test]
fn new_keys_take_defaults_where_the_request_gives_none() {
    assert_eq!(new_key_expires_at(Some(5), Some(10), 100), Some(5));
    assert_eq!(new_key_expires_at(None, Some(10), 100), Some(10_100));
    assert_eq!(new_key_expires_at(None, None, 100), None);
    assert_eq!(key_start("abcdef", 3), "abc");
    assert_eq!(key_start("ab", 3), "ab");
    let input = NewApiKey {
        name: Some("ci".to_string()),
        prefix: None,
        expires_at: None,
        metadata: None,
        remaining: None,
        refill_amount: Some(7),
        refill_interval: Some(1_000),
        rate_limit_enabled: true,
        rate_limit_time_window: None,
        rate_limit_max: None,
        permissions: None,
    };
    let record = issued_api_key(
        "default",
        input,
        "pk_abcdef",
        "user-1",
        Some(5),
        &Some("pk_".to_string()),
        &Some(vec![permission("files", &["read"])]),
        Some(99),
        1_000,
    );
    assert_eq!(record.start.as_deref(), Some("pk_ab"));
    assert_eq!(record.prefix.as_deref(), Some("pk_"));
    assert_eq!(record.remaining, Some(7));
    assert_eq!(record.key_hash, hash_key("pk_abcdef"));
    assert_eq!(record.permissions.unwrap()[0].resource, "files");
    assert!(record.enabled);
    assert_eq!(record.request_count, 0);
    assert_eq!(record.created_at, 1_000);
    assert_eq!(record.expires_at, Some(99));
}

#[test]
fn creation_requests_are_validated_in_order() {
    let config = ApiKeyConfiguration::default();
    assert_eq!(validate_name(&config, Some("")), Ok(()));
    assert_eq!(validate_name(&config, Some(&"x".repeat(33))), Err(ApiKeyError::InvalidNameLength));
    let mut strict = ApiKeyConfiguration::default();
    strict.require_name = true;
    assert_eq!(validate_name(&strict, None), Err(ApiKeyError::NameRequired));
    assert_eq!(validate_prefix(&config, Some("")), Err(ApiKeyError::InvalidPrefixLength));
    assert_eq!(validate_refill(Some(1), None), Err(ApiKeyError::RefillAmountRequired));
    assert_eq!(validate_refill(None, Some(1)), Err(ApiKeyError::RefillIntervalRequired));
    let input = NewApiKey {
        name: None,
        prefix: None,
        expires_at: Some(10),
        metadata: Some(ApiKeyMetadata { json: "{}".to_string(), kind: MetadataKind::Object }),
        remaining: None,
        refill_amount: None,
        refill_interval: None,
        rate_limit_enabled: true,
        rate_limit_time_window: None,
        rate_limit_max: None,
        permissions: None,
    };
    assert_eq!(validate_create(&config, &input, ExpiryWindow::TooSoon), Err(ApiKeyError::ExpiresTooSmall));
    assert_eq!(validate_create(&config, &input, ExpiryWindow::Within), Err(ApiKeyError::MetadataDisabled));
}

fn empty_update() -> ApiKeyUpdate {
    ApiKeyUpdate {
        name: None,
        enabled: None,
        expires_at: None,
        metadata: None,
        remaining: None,
        refill_amount: None,
        refill_interval: None,
        rate_limit_enabled: None,
        rate_limit_time_window: None,
        rate_limit_max: None,
        permissions: None,
    }
}

#[test]
fn updates_change_only_what_they_set() {
    let config = ApiKeyConfiguration::default();
    assert!(update_is_empty(&empty_update()));
    assert_eq!(validate_update(&config, &empty_update(), ExpiryWindow::Within), Err(ApiKeyError::NoValuesToUpdate));
    let mut update = empty_update();
    update.enabled = Some(false);
    update.expires_at = Some(None);
    assert_eq!(validate_update(&config, &update, ExpiryWindow::Within), Ok(()));
    let mut k = key("a", Some("name"), 0);
    k.expires_at = Some(5);
    apply_update(&mut k, update);
    assert!(!k.enabled);
    assert_eq!(k.expires_at, None);
    assert_eq!(k.name.as_deref(), Some("name"));
}

#[test]
fn verification_checks_the_stored_key_in_order() {
    let mut k = key("a", None, 0);
    assert_eq!(check_stored_key(&k, 10, None), VerificationStep::RecordUse);
    k.expires_at = Some(9);
    assert_eq!(check_stored_key(&k, 10, None), VerificationStep::DeleteAndReject(ApiKeyError::Expired));
    assert_eq!(check_stored_key(&k, 1_000_000, None), VerificationStep::DeleteAndReject(ApiKeyError::Expired));
    assert_eq!(check_stored_key(&k, 8, None), VerificationStep::RecordUse);
    k.enabled = false;
    assert_eq!(check_stored_key(&k, 10, None), VerificationStep::Reject(ApiKeyError::Disabled));
    let mut used = key("b", None, 0);
    used.remaining = Some(0);
    assert_eq!(check_stored_key(&used, 10, None), VerificationStep::DeleteAndReject(ApiKeyError::UsageExceeded));
    used.refill_amount = Some(3);
    assert_eq!(check_stored_key(&used, 10, None), VerificationStep::RecordUse);
    let required = vec![permission("files", &["read"])];
    assert_eq!(
        check_stored_key(&used, 10, Some(&required)),
        VerificationStep::Reject(ApiKeyError::PermissionDenied)
    );
}

#[test]
fn use_outcomes_map_to_verification_answers() {
    let k = key("a", None, 0);
    assert_eq!(after_recorded_use(&ApiKeyUseOutcome::Allowed(key("a", None, 0)), &k), VerificationStep::Accept);
    assert_eq!(after_recorded_use(&ApiKeyUseOutcome::Invalid, &k), VerificationStep::Reject(ApiKeyError::Invalid));
    assert_eq!(
        after_recorded_use(&ApiKeyUseOutcome::UsageExceeded, &k),
        VerificationStep::DeleteAndReject(ApiKeyError::UsageExceeded)
    );
    let mut refilling = key("b", None, 0);
    refilling.refill_amount = Some(1);
    assert_eq!(
        after_recorded_use(&ApiKeyUseOutcome::UsageExceeded, &refilling),
        VerificationStep::Reject(ApiKeyError::UsageExceeded)
    );
    assert_eq!(
        after_recorded_use(&ApiKeyUseOutcome::RateLimited { retry_after_milliseconds: 5 }, &k),
        VerificationStep::Reject(ApiKeyError::RateLimited { retry_after_milliseconds: 5 })
    );
}
