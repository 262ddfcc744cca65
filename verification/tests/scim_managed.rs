use lucid_auth::scim::auth::{bearer_token, static_principal, ScimAuthStep, ScimBearerCredential, ScimConnection, ScimPrincipal, ScimVerifiedCredential};
use lucid_auth::scim::managed::{
    constant_time_equal, free_active_slot, observed_credentials, random_urlsafe, required_scope, slot_key_of,
    token_digest, validate_policy, validate_text, ScimManagedConnectionOptions, ScimManagedCredential, ScimScope,
};
use lucid_auth::scim::memory::MemoryScimStore;
use lucid_auth::scim::plugin::ScimPlugin;

#[test]
fn managed_token_digest_matches_the_hmac_sha256_base64url_vector() {
    assert_eq!(
        token_digest("key", "The quick brown fox jumps over the lazy dog").unwrap(),
        "97yD9DBThCSxMpjmqm-xQ-9NWaFJRhdZl0edvC0aPNg"
    );
}

#[test]
fn text_fields_must_be_trimmed_and_bounded() {
    assert!(validate_text("abc", 1, "actorId").is_ok());
    let untrimmed = validate_text(" abc", 1, "actorId").unwrap_err();
    assert_eq!(untrimmed.status, 400);
    assert_eq!(untrimmed.detail, "actorId must contain 1 through 255 trimmed characters");
    let short = validate_text("short", 16, "creationRequestId").unwrap_err();
    assert_eq!(short.detail, "creationRequestId must contain 16 through 255 trimmed characters");
    assert!(validate_text(&"x".repeat(255), 1, "f").is_ok());
    assert!(validate_text(&"x".repeat(256), 1, "f").is_err());
    assert!(validate_text("", 1, "f").is_err());
}

#[test]
fn credential_policy_needs_distinct_scopes_and_a_future_expiry() {
    let ok = validate_policy("domain", "admin", &vec![ScimScope::UsersRead, ScimScope::GroupsRead], 10, 5);
    assert!(ok.is_ok());
    let duplicate = validate_policy("domain", "admin", &vec![ScimScope::UsersRead, ScimScope::UsersRead], 10, 5);
    assert_eq!(duplicate.unwrap_err().detail, "Managed SCIM credential scopes must be non-empty and unique");
    let empty = validate_policy("domain", "admin", &Vec::new(), 10, 5);
    assert_eq!(empty.unwrap_err().detail, "Managed SCIM credential scopes must be non-empty and unique");
    let past = validate_policy("domain", "admin", &vec![ScimScope::UsersRead], 5, 5);
    assert_eq!(past.unwrap_err().detail, "Managed SCIM credential expiry must be in the future");
    let actor = validate_policy("domain", "", &vec![ScimScope::UsersRead], 10, 5);
    assert_eq!(actor.unwrap_err().detail, "actorId must contain 1 through 255 trimmed characters");
}

fn managed_credential(slot: &str, status: &str, expires_at: i64) -> ScimManagedCredential {
    ScimManagedCredential {
        id: "row".to_string(),
        connection_record_id: "r1".to_string(),
        credential_id: "k".to_string(),
        token_digest: "d".to_string(),
        hash_version: "v1".to_string(),
        active_slot_key: slot.to_string(),
        status: status.to_string(),
        scopes: vec![ScimScope::UsersRead],
        serialized_scopes: "[]".to_string(),
        expires_at,
        created_at: 0,
        created_by: "admin".to_string(),
        last_used_at: None,
        revoked_at: None,
        revoked_by: None,
        decommissioned_at: None,
    }
}

#[test]
fn rotation_takes_the_first_free_slot() {
    assert_eq!(slot_key_of("r1", 12), "r1:active:12");
    let credentials = vec![
        managed_credential("r1:active:0", "active", 100),
        managed_credential("r1:active:1", "active", 10),
        managed_credential("r1:active:2", "revoked", 100),
    ];
    // Slot 1 expired by 50, so it is free again.
    assert_eq!(free_active_slot(&credentials, "r1", 50, 3), 1);
    assert_eq!(free_active_slot(&credentials, "r1", 5, 3), 2);
    assert_eq!(free_active_slot(&credentials, "r1", 5, 2), 2);
}

#[test]
fn expired_credentials_read_as_expired() {
    let observed = observed_credentials(
        vec![managed_credential("s", "active", 10), managed_credential("s", "active", 11), managed_credential("s", "revoked", 1)],
        10,
    );
    assert_eq!(observed[0].status, "expired");
    assert_eq!(observed[1].status, "active");
    assert_eq!(observed[2].status, "revoked");
}

#[test]
fn byte_comparison_is_exact() {
    assert!(constant_time_equal(b"abc", b"abc"));
    assert!(!constant_time_equal(b"abc", b"abd"));
    assert!(!constant_time_equal(b"abc", b"abcd"));
    assert!(constant_time_equal(b"", b""));
}

#[test]
fn requests_need_the_matching_scope() {
    assert_eq!(required_scope("/scim/v2/Groups/1", "GET"), ScimScope::GroupsRead);
    assert_eq!(required_scope("/scim/v2/Groups", "POST"), ScimScope::GroupsWrite);
    assert_eq!(required_scope("/scim/v2/Users", "HEAD"), ScimScope::UsersRead);
    assert_eq!(required_scope("/scim/v2/Users/2", "PATCH"), ScimScope::UsersWrite);
}

#[test]
fn random_strings_use_the_url_safe_alphabet() {
    for length in [0usize, 1, 32, 43, 48, 100] {
        let s = random_urlsafe(length);
        assert_eq!(s.len(), length);
        assert!(s.chars().all(|c| c.is_ascii_alphanumeric() || c == '-' || c == '_'));
    }
    assert_ne!(random_urlsafe(32), random_urlsafe(32));
}

#[test]
fn bearer_tokens_are_read_from_the_header() {
    assert_eq!(bearer_token(Some("Bearer abc")).as_deref(), Some("abc"));
    assert_eq!(bearer_token(Some("bEaReR   abc  ")).as_deref(), Some("abc"));
    assert_eq!(bearer_token(Some("Basic abc")), None);
    assert_eq!(bearer_token(Some("Bearer")), None);
    assert_eq!(bearer_token(Some("Bearer    ")), None);
    assert_eq!(bearer_token(None), None);
}

fn configured() -> Vec<ScimConnection> {
    vec![ScimConnection {
        id: "c1".to_string(),
        provisioning_domain_id: "domain".to_string(),
        credentials: vec![
            ScimBearerCredential { id: "old".to_string(), token: "t0".to_string(), expires_at: Some(10), scopes: vec![] },
            ScimBearerCredential {
                id: "k1".to_string(),
                token: "t1".to_string(),
                expires_at: None,
                scopes: vec![ScimScope::UsersRead],
            },
        ],
    }]
}

#[test]
fn configured_credentials_authenticate_until_they_expire() {
    let connections = configured();
    let p = static_principal(&connections, "t1", 100).unwrap();
    assert_eq!(p.connection_id, "c1");
    assert_eq!(p.credential_id, "k1");
    assert_eq!(p.scopes, vec![ScimScope::UsersRead]);
    assert_eq!(static_principal(&connections, "t0", 9).unwrap().credential_id, "old");
    assert!(static_principal(&connections, "t0", 10).is_none());
    assert!(static_principal(&connections, "nope", 0).is_none());
}

fn plugin() -> ScimPlugin {
    ScimPlugin {
        connections: configured(),
        managed_connections: Some(ScimManagedConnectionOptions {
            credential_hash_secret: "secret".to_string(),
            max_active_credentials: 2,
            last_used_write_interval_seconds: 60,
        }),
        store: MemoryScimStore::new(),
    }
}

#[test]
fn principals_need_the_scope_and_bind_the_connection() {
    let mut p = plugin();
    let principal: ScimPrincipal = p.resolve_principal("t1", 100).unwrap().unwrap();
    assert_eq!(p.authorize_principal(&principal, "/scim/v2/Users", "GET").unwrap(), Ok(()));
    assert_eq!(
        p.authorize_principal(&principal, "/scim/v2/Groups", "GET").unwrap(),
        Err(ScimScope::GroupsRead)
    );
    assert_eq!(p.store.bindings.len(), 1);
    assert!(p.resolve_principal("unknown", 100).unwrap().is_none());
}

#[test]
fn managed_connections_issue_rotate_revoke_and_decommission() {
    let mut p = plugin();
    let far = 32_503_680_000_000;
    let (connection, credential, token) = p
        .create_managed_connection("request-0000000001", "domain", "admin", vec![ScimScope::UsersRead], "[\"users\"]".to_string(), far)
        .unwrap();
    assert_eq!(connection.status, "active");
    assert_eq!(connection.revision, 2);
    assert!(connection.connection_id.starts_with("ba_scim_connection_"));
    assert!(token.starts_with(&format!("{}.", credential.credential_id)));
    assert_eq!(credential.token_digest, token_digest("secret", &token).unwrap());
    assert_eq!(credential.active_slot_key, format!("{}:active:0", connection.id));
    let conflict = p
        .create_managed_connection("request-0000000001", "domain", "admin", vec![ScimScope::UsersRead], "[]".to_string(), far)
        .unwrap_err();
    assert_eq!(conflict.status, 409);
    assert_eq!(conflict.detail, "SCIM_MANAGED_CREATION_REQUEST_ID_CONFLICT");

    let principal = p.resolve_principal(&token, 1_000).unwrap().unwrap();
    assert_eq!(principal.connection_id, connection.connection_id);
    assert!(p.resolve_principal(&format!("{}x", token), 1_000).unwrap().is_none());

    let (rotated, second, _) = p
        .rotate_managed_credential(&connection.connection_id, "domain", "admin", vec![ScimScope::UsersWrite], "[]".to_string(), far)
        .unwrap();
    assert_eq!(rotated.revision, 3);
    assert_eq!(second.active_slot_key, format!("{}:active:1", connection.id));
    let limited = p
        .rotate_managed_credential(&connection.connection_id, "domain", "admin", vec![ScimScope::UsersWrite], "[]".to_string(), far)
        .unwrap_err();
    assert_eq!(limited.detail, "Maximum active SCIM credentials reached");

    let (_, credentials) = p
        .revoke_managed_credential(&connection.connection_id, "domain", &second.credential_id, "admin")
        .unwrap();
    assert_eq!(credentials.iter().filter(|c| c.status == "revoked").count(), 1);

    let events = p.list_managed_connection_events(&connection.connection_id, "domain").unwrap();
    assert_eq!(events[0].kind, "credential.revoked");

    let (done, credentials) = p.decommission_managed_connection(&connection.connection_id, "domain", "admin").unwrap();
    assert_eq!(done.status, "decommissioned");
    assert!(credentials.iter().all(|c| c.status != "active"));
    assert!(p.resolve_principal(&token, 1_000).unwrap().is_none());
    let (again, _) = p.decommission_managed_connection(&connection.connection_id, "domain", "admin").unwrap();
    assert_eq!(again.status, "decommissioned");
    assert_eq!(again.revision, done.revision);
    let missing = p.get_managed_connection("nope", "domain").unwrap_err();
    assert_eq!(missing.status, 404);
    assert_eq!(p.list_managed_connections("domain").unwrap().len(), 1);
}

#[test]
fn managed_operations_need_configuration() {
    let mut p = plugin();
    p.managed_connections = None;
    let e = p.list_managed_connections("domain").unwrap_err();
    assert_eq!(e.status, 400);
    assert_eq!(e.detail, "SCIM managed connections are not configured");
    assert!(p
        .create_managed_connection("request-0000000001", "domain", "admin", vec![ScimScope::UsersRead], "[]".to_string(), 10)
        .is_err());
}

#[test]
fn requests_authenticate_through_header_token_scope_and_verifier() {
    let mut p = plugin();
    let missing = p.authenticate(None, "GET", "/scim/v2/Users", 100, false).unwrap_err();
    assert_eq!(missing.status, 401);
    assert_eq!(missing.detail, "SCIM bearer token is required");
    match p.authenticate(Some("Bearer t1"), "GET", "/scim/v2/Users", 100, false).unwrap() {
        ScimAuthStep::Admitted(principal) => assert_eq!(principal.credential_id, "k1"),
        _ => panic!("the configured credential is admitted"),
    }
    assert!(matches!(
        p.authenticate(Some("Bearer t1"), "POST", "/scim/v2/Groups", 100, false).unwrap(),
        ScimAuthStep::MissingScope(ScimScope::GroupsWrite)
    ));
    let invalid = p.authenticate(Some("Bearer other"), "GET", "/scim/v2/Users", 100, false).unwrap_err();
    assert_eq!(invalid.detail, "Invalid SCIM bearer token");
    match p.authenticate(Some("Bearer other"), "GET", "/scim/v2/Users", 100, true).unwrap() {
        ScimAuthStep::Verify(token) => assert_eq!(token, "other"),
        _ => panic!("unknown tokens go to the verifier"),
    }
    assert!(p
        .authenticate(Some("Bearer ba_scim_credential_x.y"), "GET", "/scim/v2/Users", 100, true)
        .is_err());
}

#[test]
fn verified_credentials_are_admitted_until_they_expire() {
    let mut p = plugin();
    let verified = |expires_at| ScimVerifiedCredential {
        connection_id: "c9".to_string(),
        provisioning_domain_id: "domain".to_string(),
        credential_id: "v1".to_string(),
        scopes: vec![ScimScope::UsersRead],
        expires_at,
    };
    assert!(matches!(
        p.admit_verified(Some(verified(Some(200))), "GET", "/scim/v2/Users", 100).unwrap(),
        ScimAuthStep::Admitted(_)
    ));
    assert_eq!(p.admit_verified(Some(verified(Some(100))), "GET", "/scim/v2/Users", 100).unwrap_err().status, 401);
    assert_eq!(p.admit_verified(None, "GET", "/scim/v2/Users", 100).unwrap_err().status, 401);
}

#[test]
fn managed_flows_at_given_times_decide_from_those_times() {
    let mut p = plugin();
    let past = p.create_managed_connection_at(
        "request-0000000009",
        "domain",
        "admin",
        vec![ScimScope::UsersRead],
        "[]".to_string(),
        100,
        100,
        50,
        "conn".to_string(),
        "cred".to_string(),
    );
    assert_eq!(past.unwrap_err().detail, "Managed SCIM credential expiry must be in the future");
    let (connection, credential, token) = p
        .create_managed_connection_at(
            "request-0000000009",
            "domain",
            "admin",
            vec![ScimScope::UsersRead],
            "[]".to_string(),
            1_000,
            99,
            50,
            "conn".to_string(),
            "cred".to_string(),
        )
        .unwrap();
    assert_eq!(connection.connection_id, "ba_scim_connection_conn");
    assert_eq!(connection.created_at, 50);
    assert_eq!(credential.credential_id, "ba_scim_credential_cred");
    assert!(token.starts_with("ba_scim_credential_cred."));
    let (rotated, second, _) = p
        .rotate_managed_credential_at(
            "ba_scim_connection_conn",
            "domain",
            "admin",
            vec![ScimScope::UsersWrite],
            "[]".to_string(),
            2_000,
            60,
            60,
            "second".to_string(),
        )
        .unwrap();
    assert_eq!(rotated.revision, 3);
    assert_eq!(second.credential_id, "ba_scim_credential_second");
    assert_eq!(second.active_slot_key, format!("{}:active:1", connection.id));
    assert_eq!(second.created_at, 60);
    let events = p.list_managed_connection_events("ba_scim_connection_conn", "domain").unwrap();
    assert_eq!(events[0].kind, "credential.rotated");
    assert_eq!(events[0].sequence, 3);
    // At time 1_500 the first credential has expired, so its slot is free again.
    let (_, third, _) = p
        .rotate_managed_credential_at(
            "ba_scim_connection_conn",
            "domain",
            "admin",
            vec![ScimScope::UsersWrite],
            "[]".to_string(),
            3_000,
            1_500,
            1_500,
            "third".to_string(),
        )
        .unwrap();
    assert_eq!(third.active_slot_key, format!("{}:active:0", connection.id));
    let full = p
        .rotate_managed_credential_at(
            "ba_scim_connection_conn",
            "domain",
            "admin",
            vec![ScimScope::UsersWrite],
            "[]".to_string(),
            3_000,
            1_600,
            1_600,
            "fourth".to_string(),
        )
        .unwrap_err();
    assert_eq!(full.detail, "Maximum active SCIM credentials reached");
    let missing = p
        .rotate_managed_credential_at("nope", "domain", "admin", vec![ScimScope::UsersWrite], "[]".to_string(), 3_000, 1_600, 1_600, "x".to_string())
        .unwrap_err();
    assert_eq!(missing.status, 404);
}
