//! The authentication service: the settings its verified logic reads, and
//! the rules it applies.

pub mod account_types;
pub mod anonymous;
pub mod admin_update;
pub mod api_key;
pub mod api_key_issue;
pub mod api_key_order;
pub mod api_key_policy;
pub mod api_key_usage;
pub mod api_key_verification;
pub mod context_id;
pub mod cookie_signing;
pub mod dash_analytics;
pub mod dash_match;
pub mod dash_query;
pub mod dash_reports;
pub mod entropy;
pub mod scopes;
pub mod two_factor;

use vstd::prelude::*;

verus! {

/// The settings of an authentication service that its cookie, session and
/// URL logic reads.
pub struct AuthSettings {
    /// Secret key for cookie signatures.
    pub secret: Vec<u8>,
    /// Explicit choice of secure cookies, if any.
    pub use_secure_cookies: Option<bool>,
    /// Scheme of the configured base URL, if one is configured.
    pub base_url_scheme: Option<String>,
    /// Lifetime of a session, in seconds.
    pub session_ttl_seconds: i64,
}

/// An authentication service configured by [`AuthSettings`].
pub struct AuthService {
    pub secret: Vec<u8>,
    pub use_secure_cookies: Option<bool>,
    pub base_url_scheme: Option<String>,
    pub session_ttl_seconds: i64,
}

impl AuthService {
    pub fn new(settings: AuthSettings) -> (s: AuthService)
        ensures
            s.secret@ == settings.secret@,
            s.use_secure_cookies == settings.use_secure_cookies,
            s.base_url_scheme == settings.base_url_scheme,
            s.session_ttl_seconds == settings.session_ttl_seconds,
    {
        AuthService {
            secret: settings.secret,
            use_secure_cookies: settings.use_secure_cookies,
            base_url_scheme: settings.base_url_scheme,
            session_ttl_seconds: settings.session_ttl_seconds,
        }
    }

    /// The lifetime of a session, in seconds.
    pub fn session_ttl(&self) -> (r: i64)
        ensures
            r == self.session_ttl_seconds,
    {
        self.session_ttl_seconds
    }

    /// Whether cookies are marked secure: as configured, else exactly when
    /// the base URL uses `https`.
    pub fn cookie_secure(&self) -> (r: bool)
        ensures
            r == match self.use_secure_cookies {
                Some(b) => b,
                None => match self.base_url_scheme {
                    Some(s) => s@ == "https"@,
                    None => false,
                },
            },
    {
        match self.use_secure_cookies {
            Some(b) => b,
            None => match &self.base_url_scheme {
                Some(s) => crate::text::str_eq(s.as_str(), "https"),
                None => false,
            },
        }
    }
}

} // verus!
