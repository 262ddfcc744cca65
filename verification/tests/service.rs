use lucid_auth::service::account_types::{preserve_oauth_tokens, OAuthTokens};
use lucid_auth::service::context_id::{ContextIdFallback, DatabaseIdGenerationResult, DatabaseIdGenerationSize};
use lucid_auth::service::cookie_signing::{decode_cookie_component, encode_cookie_component};
use lucid_auth::service::scopes::{merge_scopes, parse_scopes, split_on_commas};
use lucid_auth::service::{AuthService, AuthSettings};

fn service(secret: &[u8], secure: Option<bool>, scheme: Option<&str>) -> AuthService {
    AuthService::new(AuthSettings {
        secret: secret.to_vec(),
        use_secure_cookies: secure,
        base_url_scheme: scheme.map(str::to_string),
        session_ttl_seconds: 604_800,
    })
}

#[test]
fn signed_cookies_carry_the_token_and_its_hmac() {
    let s = service(b"secret", None, None);
    let signed = s.signed_cookie_value("session-token");
    assert_eq!(signed, "session-token.bY4fuRqWgCjdw1pl69S5msjneQ1JyMGwTZeRDWhDKC4%3D");
    assert_eq!(s.verify_cookie_value(&signed).as_deref(), Some("session-token"));
}

#[test]
fn tampered_or_foreign_cookies_are_refused() {
    let s = service(b"secret", None, None);
    let other = service(b"other", None, None);
    let signed = s.signed_cookie_value("tok");
    assert_eq!(other.verify_cookie_value(&signed), None);
    assert_eq!(s.verify_cookie_value("tok"), None);
    assert_eq!(s.verify_cookie_value("tok.not-base64!"), None);
    let tampered = signed.replacen("tok", "tik", 1);
    assert_eq!(s.verify_cookie_value(&tampered), None);
}

#[test]
fn signing_round_trips_tokens_with_dots_and_unicode() {
    let s = service(b"k", None, None);
    for token in ["a.b.c", "", "ünïcödé", "with space", "100%"] {
        assert_eq!(s.verify_cookie_value(&s.signed_cookie_value(token)).as_deref(), Some(token));
    }
}

#[test]
fn cookie_components_percent_encode_reserved_bytes() {
    assert_eq!(encode_cookie_component("a b+c=é"), "a%20b%2Bc%3D%C3%A9");
    assert_eq!(encode_cookie_component("-_.!~*'()"), "-_.!~*'()");
    assert_eq!(decode_cookie_component("a%20b%2bc"), "a b+c");
    // Malformed escapes and invalid UTF-8 leave the text as it is.
    assert_eq!(decode_cookie_component("bad%zz"), "bad%zz");
    assert_eq!(decode_cookie_component("%FF"), "%FF");
}

#[test]
fn cookies_are_secure_as_configured_or_for_https() {
    assert!(service(b"k", Some(true), Some("http")).cookie_secure());
    assert!(!service(b"k", Some(false), Some("https")).cookie_secure());
    assert!(service(b"k", None, Some("https")).cookie_secure());
    assert!(!service(b"k", None, Some("http")).cookie_secure());
    assert!(!service(b"k", None, None).cookie_secure());
    assert_eq!(service(b"k", None, None).session_ttl(), 604_800);
}

#[test]
fn scopes_are_split_trimmed_and_merged_without_repeats() {
    assert_eq!(split_on_commas("a,,b,"), vec!["a", "", "b", ""]);
    assert_eq!(split_on_commas(""), vec![""]);
    assert_eq!(parse_scopes(Some(" openid , email,,profile ")), vec!["openid", "email", "profile"]);
    assert!(parse_scopes(None).is_empty());
    assert!(parse_scopes(Some(" , ")).is_empty());
    assert_eq!(merge_scopes(Some("openid,email"), Some("email, profile")).as_deref(), Some("openid,email,profile"));
    assert_eq!(merge_scopes(None, Some("a,a")).as_deref(), Some("a"));
    assert_eq!(merge_scopes(Some(" "), None), None);
    assert_eq!(merge_scopes(None, None), None);
}

#[test]
fn relinking_keeps_previous_tokens_and_merges_scopes() {
    let previous = OAuthTokens {
        access_token: Some("old-access".to_string()),
        refresh_token: Some("old-refresh".to_string()),
        id_token: None,
        access_token_expires_at: Some(1_000),
        refresh_token_expires_at: Some(2_000),
        scope: Some("openid, email".to_string()),
    };
    let mut account = OAuthTokens {
        access_token: Some("new-access".to_string()),
        refresh_token: None,
        id_token: Some("new-id".to_string()),
        access_token_expires_at: None,
        refresh_token_expires_at: Some(3_000),
        scope: Some("email,profile".to_string()),
    };
    preserve_oauth_tokens(&mut account, &previous);
    assert_eq!(account.access_token.as_deref(), Some("new-access"));
    assert_eq!(account.refresh_token.as_deref(), Some("old-refresh"));
    assert_eq!(account.id_token.as_deref(), Some("new-id"));
    assert_eq!(account.access_token_expires_at, Some(1_000));
    assert_eq!(account.refresh_token_expires_at, Some(3_000));
    assert_eq!(account.scope.as_deref(), Some("openid,email,profile"));
}

fn assert_base62(value: &str, length: usize) {
    assert_eq!(value.len(), length);
    assert!(value.bytes().all(|byte| byte.is_ascii_alphanumeric()));
}

#[test]
fn special_ids_tell_an_empty_id_from_a_deferral() {
    let s = service(b"secret", None, None);
    let kept = s.special_database_id_from(DatabaseIdGenerationResult::Id(String::new()), ContextIdFallback::DeferOnly, 32);
    assert_eq!(kept, "");
    let replaced = s.special_database_id_from(DatabaseIdGenerationResult::Id(String::new()), ContextIdFallback::Falsey, 32);
    assert_base62(&replaced, 32);
    let deferred = s.special_database_id_from(DatabaseIdGenerationResult::Defer, ContextIdFallback::DeferOnly, 32);
    assert_base62(&deferred, 32);
    let given = s.special_database_id_from(DatabaseIdGenerationResult::Id("custom".to_string()), ContextIdFallback::Falsey, 32);
    assert_eq!(given, "custom");
}

#[test]
fn relinking_twice_over_one_link_changes_nothing() {
    let previous = OAuthTokens {
        access_token: Some("a".to_string()),
        refresh_token: None,
        id_token: Some("i".to_string()),
        access_token_expires_at: None,
        refresh_token_expires_at: Some(9),
        scope: Some(" read ,write,read".to_string()),
    };
    let mut once = OAuthTokens {
        access_token: None,
        refresh_token: Some("r".to_string()),
        id_token: None,
        access_token_expires_at: Some(5),
        refresh_token_expires_at: None,
        scope: Some("write, admin".to_string()),
    };
    preserve_oauth_tokens(&mut once, &previous);
    let mut twice = once.clone();
    preserve_oauth_tokens(&mut twice, &previous);
    assert_eq!(once.scope.as_deref(), Some("read,write,admin"));
    assert_eq!(twice.scope, once.scope);
    assert_eq!(twice.access_token, once.access_token);
    assert_eq!(twice.refresh_token, once.refresh_token);
    assert_eq!(twice.id_token, once.id_token);
    assert_eq!(twice.access_token_expires_at, once.access_token_expires_at);
    assert_eq!(twice.refresh_token_expires_at, once.refresh_token_expires_at);
    assert_eq!(parse_scopes(once.scope.as_deref()), vec!["read", "write", "admin"]);
}

/// A configured id generator that records the models it is asked about.
struct RecordingGenerator {
    result: DatabaseIdGenerationResult,
    calls: std::cell::RefCell<Vec<(String, DatabaseIdGenerationSize)>>,
}

impl RecordingGenerator {
    fn generate(&self, model: &str, size: DatabaseIdGenerationSize) -> DatabaseIdGenerationResult {
        self.calls.borrow_mut().push((model.to_string(), size));
        self.result.clone()
    }
}

#[test]
fn special_paths_distinguish_strict_false_from_javascript_falsey() {
    let s = service(&[b'C'; 32], None, None);
    let callback = RecordingGenerator {
        result: DatabaseIdGenerationResult::Id(String::new()),
        calls: std::cell::RefCell::new(Vec::new()),
    };
    let generate = |model: &str, size: DatabaseIdGenerationSize| callback.generate(model, size);
    assert_eq!(s.generate_special_database_id(&generate, "session", ContextIdFallback::DeferOnly, 32), "");
    let fallback = s.generate_special_database_id(&generate, "user", ContextIdFallback::Falsey, 32);
    assert_base62(&fallback, 32);
    assert_eq!(
        *callback.calls.borrow(),
        vec![
            ("session".to_string(), DatabaseIdGenerationSize::Undefined),
            ("user".to_string(), DatabaseIdGenerationSize::Undefined),
        ]
    );
}

#[test]
fn strict_false_uses_the_requested_direct_fallback() {
    let s = service(&[b'C'; 32], None, None);
    let callback = RecordingGenerator {
        result: DatabaseIdGenerationResult::Defer,
        calls: std::cell::RefCell::new(Vec::new()),
    };
    let generate = |model: &str, size: DatabaseIdGenerationSize| callback.generate(model, size);
    let id = s.generate_special_database_id(&generate, "session", ContextIdFallback::DeferOnly, 32);
    assert_base62(&id, 32);
    assert_eq!(callback.calls.borrow().len(), 1);
}

#[test]
fn encoded_cookie_components_use_a_small_alphabet() {
    let value = "tök=n; path=/ \u{1F600}\"x\"";
    let encoded = encode_cookie_component(value);
    assert!(encoded.chars().all(|c| c.is_ascii_alphanumeric() || "-_.!~*'()%".contains(c)));
    let bytes = encoded.as_bytes();
    for (i, b) in bytes.iter().enumerate() {
        if *b == b'%' {
            assert!(bytes[i + 1].is_ascii_digit() || (b'A'..=b'F').contains(&bytes[i + 1]));
            assert!(bytes[i + 2].is_ascii_digit() || (b'A'..=b'F').contains(&bytes[i + 2]));
        }
    }
    assert_eq!(decode_cookie_component(&encoded), value);
}

#[test]
fn a_trailing_percent_is_left_as_it_is() {
    assert_eq!(decode_cookie_component("abc%"), "abc%");
    assert_eq!(decode_cookie_component("%"), "%");
    assert_eq!(decode_cookie_component("a%4%"), "a%4%");
}
