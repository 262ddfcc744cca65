//! API keys: the stored record, its configuration, and the errors of the
//! API-key rules. Times are milliseconds since the Unix epoch.

use crate::exact_clone::ExactClone;
use vstd::prelude::*;

verus! {

/// One resource of an API key's permission set and the actions allowed on it.
pub struct ApiKeyPermission {
    pub resource: String,
    pub actions: Vec<String>,
}

/// The JSON kind of an API key's metadata value.
#[derive(Clone, Copy, PartialEq, Eq, Debug, Structural)]
pub enum MetadataKind {
    Object,
    Array,
    Null,
    Other,
}

/// Metadata of an API key: its JSON text and the kind of value it holds.
pub struct ApiKeyMetadata {
    pub json: String,
    pub kind: MetadataKind,
}

/// A stored API key.
pub struct ApiKey {
    pub id: String,
    pub config_id: String,
    pub name: Option<String>,
    pub start: Option<String>,
    pub prefix: Option<String>,
    pub key_hash: String,
    pub reference_id: String,
    pub refill_interval: Option<i64>,
    pub refill_amount: Option<i64>,
    pub last_refill_at: Option<i64>,
    pub enabled: bool,
    pub rate_limit_enabled: bool,
    pub rate_limit_time_window: Option<i64>,
    pub rate_limit_max: Option<i64>,
    pub request_count: i64,
    pub remaining: Option<i64>,
    pub last_request: Option<i64>,
    pub expires_at: Option<i64>,
    pub permissions: Option<Vec<ApiKeyPermission>>,
    pub metadata: Option<ApiKeyMetadata>,
    pub created_at: i64,
    pub updated_at: i64,
}

/// Whether API keys reference users or organizations.
#[derive(Clone, Copy, PartialEq, Eq, Debug, Structural)]
pub enum ApiKeyReference {
    User,
    Organization,
}

/// Where API keys are stored.
#[derive(Clone, Copy, PartialEq, Eq, Debug, Structural)]
pub enum ApiKeyStorage {
    Database,
    SecondaryStorage,
}

/// The rules of one API-key configuration.
pub struct ApiKeyConfiguration {
    pub config_id: String,
    pub reference: ApiKeyReference,
    pub storage: ApiKeyStorage,
    pub fallback_to_database: bool,
    pub defer_updates: bool,
    pub require_name: bool,
    pub minimum_name_length: usize,
    pub maximum_name_length: usize,
    pub minimum_prefix_length: usize,
    pub maximum_prefix_length: usize,
    pub disable_custom_expires: bool,
    pub enable_metadata: bool,
    pub rate_limit_enabled: bool,
    pub default_key_length: usize,
}

impl Default for ApiKeyConfiguration {
    /// The default configuration: `default` id, user references, database
    /// storage, names of 1 to 32 bytes (not required), prefixes of 1 to 32
    /// bytes, custom expiry allowed, metadata disabled, rate limiting on,
    /// 64-character keys.
    fn default() -> (c: ApiKeyConfiguration)
        ensures
            c.config_id@ == "default"@,
            c.reference == ApiKeyReference::User,
            c.storage == ApiKeyStorage::Database,
            !c.fallback_to_database,
            !c.defer_updates,
            !c.require_name,
            c.minimum_name_length == 1,
            c.maximum_name_length == 32,
            c.minimum_prefix_length == 1,
            c.maximum_prefix_length == 32,
            !c.disable_custom_expires,
            !c.enable_metadata,
            c.rate_limit_enabled,
            c.default_key_length == 64,
    {
        ApiKeyConfiguration {
            config_id: "default".to_owned(),
            reference: ApiKeyReference::User,
            storage: ApiKeyStorage::Database,
            fallback_to_database: false,
            defer_updates: false,
            require_name: false,
            minimum_name_length: 1,
            maximum_name_length: 32,
            minimum_prefix_length: 1,
            maximum_prefix_length: 32,
            disable_custom_expires: false,
            enable_metadata: false,
            rate_limit_enabled: true,
            default_key_length: 64,
        }
    }
}

/// The errors of the API-key rules.
#[derive(Clone, Copy, PartialEq, Eq, Debug, Structural)]
pub enum ApiKeyError {
    NoValuesToUpdate,
    NameRequired,
    InvalidNameLength,
    InvalidPrefixLength,
    ExpirationDisabled,
    ExpiresTooSmall,
    ExpiresTooLarge,
    MetadataDisabled,
    InvalidMetadata,
    RefillAmountRequired,
    RefillIntervalRequired,
    UsageExceeded,
    RateLimited { retry_after_milliseconds: i64 },
    Invalid,
    Disabled,
    Expired,
    PermissionDenied,
    NotFound,
    NoDefaultConfiguration,
}

/// The outcome of recording one use of an API key.
pub enum ApiKeyUseOutcome {
    Allowed(ApiKey),
    Invalid,
    UsageExceeded,
    RateLimited { retry_after_milliseconds: i64 },
}

impl DeepView for ApiKeyPermission {
    type V = (Seq<char>, Seq<Seq<char>>);

    open spec fn deep_view(&self) -> (Seq<char>, Seq<Seq<char>>) {
        (self.resource@, self.actions.deep_view())
    }
}

impl ExactClone for ApiKeyPermission {
    fn exact_clone(&self) -> (r: ApiKeyPermission) {
        ApiKeyPermission { resource: self.resource.exact_clone(), actions: self.actions.exact_clone() }
    }
}

impl DeepView for ApiKeyMetadata {
    type V = (Seq<char>, MetadataKind);

    open spec fn deep_view(&self) -> (Seq<char>, MetadataKind) {
        (self.json@, self.kind)
    }
}

impl ExactClone for ApiKeyMetadata {
    fn exact_clone(&self) -> (r: ApiKeyMetadata) {
        ApiKeyMetadata { json: self.json.exact_clone(), kind: self.kind }
    }
}

/// The value of an API key.
pub struct ApiKeyView {
    pub id: Seq<char>,
    pub config_id: Seq<char>,
    pub name: Option<Seq<char>>,
    pub start: Option<Seq<char>>,
    pub prefix: Option<Seq<char>>,
    pub key_hash: Seq<char>,
    pub reference_id: Seq<char>,
    pub refill_interval: Option<i64>,
    pub refill_amount: Option<i64>,
    pub last_refill_at: Option<i64>,
    pub enabled: bool,
    pub rate_limit_enabled: bool,
    pub rate_limit_time_window: Option<i64>,
    pub rate_limit_max: Option<i64>,
    pub request_count: i64,
    pub remaining: Option<i64>,
    pub last_request: Option<i64>,
    pub expires_at: Option<i64>,
    pub permissions: Option<Seq<(Seq<char>, Seq<Seq<char>>)>>,
    pub metadata: Option<(Seq<char>, MetadataKind)>,
    pub created_at: i64,
    pub updated_at: i64,
}

impl DeepView for ApiKey {
    type V = ApiKeyView;

    open spec fn deep_view(&self) -> ApiKeyView {
        ApiKeyView {
            id: self.id@,
            config_id: self.config_id@,
            name: self.name.deep_view(),
            start: self.start.deep_view(),
            prefix: self.prefix.deep_view(),
            key_hash: self.key_hash@,
            reference_id: self.reference_id@,
            refill_interval: self.refill_interval,
            refill_amount: self.refill_amount,
            last_refill_at: self.last_refill_at,
            enabled: self.enabled,
            rate_limit_enabled: self.rate_limit_enabled,
            rate_limit_time_window: self.rate_limit_time_window,
            rate_limit_max: self.rate_limit_max,
            request_count: self.request_count,
            remaining: self.remaining,
            last_request: self.last_request,
            expires_at: self.expires_at,
            permissions: self.permissions.deep_view(),
            metadata: self.metadata.deep_view(),
            created_at: self.created_at,
            updated_at: self.updated_at,
        }
    }
}

impl ExactClone for ApiKey {
    fn exact_clone(&self) -> (r: ApiKey) {
        ApiKey {
            id: self.id.exact_clone(),
            config_id: self.config_id.exact_clone(),
            name: self.name.exact_clone(),
            start: self.start.exact_clone(),
            prefix: self.prefix.exact_clone(),
            key_hash: self.key_hash.exact_clone(),
            reference_id: self.reference_id.exact_clone(),
            refill_interval: self.refill_interval,
            refill_amount: self.refill_amount,
            last_refill_at: self.last_refill_at,
            enabled: self.enabled,
            rate_limit_enabled: self.rate_limit_enabled,
            rate_limit_time_window: self.rate_limit_time_window,
            rate_limit_max: self.rate_limit_max,
            request_count: self.request_count,
            remaining: self.remaining,
            last_request: self.last_request,
            expires_at: self.expires_at,
            permissions: self.permissions.exact_clone(),
            metadata: self.metadata.exact_clone(),
            created_at: self.created_at,
            updated_at: self.updated_at,
        }
    }
}

/// The direction in which API keys are listed.
#[derive(Clone, Copy, PartialEq, Eq, Debug, Structural)]
pub enum ApiKeySortDirection {
    Ascending,
    Descending,
}

} // verus!
