//! Validation of new and updated API keys, and permission checks.

use crate::service::api_key::{
    ApiKey, ApiKeyConfiguration, ApiKeyError, ApiKeyMetadata, ApiKeyPermission, MetadataKind,
};
use crate::text::{str_eq, string_views};
use vstd::prelude::*;
use vstd::utf8::encode_utf8;

verus! {

/// Where a requested expiry falls against the configured minimum and maximum
/// number of days, measured from now.
#[derive(Clone, Copy, PartialEq, Eq, Debug, Structural)]
pub enum ExpiryWindow {
    Within,
    TooSoon,
    TooLate,
}

/// A request to issue an API key.
pub struct NewApiKey {
    pub name: Option<String>,
    pub prefix: Option<String>,
    pub expires_at: Option<i64>,
    pub metadata: Option<ApiKeyMetadata>,
    pub remaining: Option<i64>,
    pub refill_amount: Option<i64>,
    pub refill_interval: Option<i64>,
    pub rate_limit_enabled: bool,
    pub rate_limit_time_window: Option<i64>,
    pub rate_limit_max: Option<i64>,
    pub permissions: Option<Vec<ApiKeyPermission>>,
}

/// A partial update of an API key: each present field replaces the stored
/// one.
pub struct ApiKeyUpdate {
    pub name: Option<String>,
    pub enabled: Option<bool>,
    pub expires_at: Option<Option<i64>>,
    pub metadata: Option<Option<ApiKeyMetadata>>,
    pub remaining: Option<i64>,
    pub refill_amount: Option<i64>,
    pub refill_interval: Option<i64>,
    pub rate_limit_enabled: Option<bool>,
    pub rate_limit_time_window: Option<i64>,
    pub rate_limit_max: Option<i64>,
    pub permissions: Option<Option<Vec<ApiKeyPermission>>>,
}

/// The byte length of a string, as `str::len` counts it.
pub open spec fn byte_len(s: Seq<char>) -> int {
    encode_utf8(s).len() as usize as int
}

/// The name rule: an empty name is refused only when a name is required; a
/// non-empty name must have between the minimum and maximum number of bytes;
/// a missing name is refused when a name is required.
pub open spec fn name_check(config: &ApiKeyConfiguration, name: Option<Seq<char>>) -> Result<
    (),
    ApiKeyError,
> {
    match name {
        Some(n) => if n.len() == 0 {
            if config.require_name {
                Err(ApiKeyError::NameRequired)
            } else {
                Ok(())
            }
        } else if !(config.minimum_name_length <= byte_len(n) <= config.maximum_name_length) {
            Err(ApiKeyError::InvalidNameLength)
        } else {
            Ok(())
        },
        None => if config.require_name {
            Err(ApiKeyError::NameRequired)
        } else {
            Ok(())
        },
    }
}

/// The prefix rule: a prefix must have between the minimum and maximum
/// number of bytes.
pub open spec fn prefix_check(config: &ApiKeyConfiguration, prefix: Option<Seq<char>>) -> Result<
    (),
    ApiKeyError,
> {
    match prefix {
        Some(p) => if !(config.minimum_prefix_length <= byte_len(p)
            <= config.maximum_prefix_length) {
            Err(ApiKeyError::InvalidPrefixLength)
        } else {
            Ok(())
        },
        None => Ok(()),
    }
}

/// The expiry rule: a custom expiry is refused when custom expiry is
/// disabled, and must fall within the configured window of days.
pub open spec fn expiry_check(
    config: &ApiKeyConfiguration,
    expires_at: Option<i64>,
    window: ExpiryWindow,
) -> Result<(), ApiKeyError> {
    if expires_at is None {
        Ok(())
    } else if config.disable_custom_expires {
        Err(ApiKeyError::ExpirationDisabled)
    } else if window == ExpiryWindow::TooSoon {
        Err(ApiKeyError::ExpiresTooSmall)
    } else if window == ExpiryWindow::TooLate {
        Err(ApiKeyError::ExpiresTooLarge)
    } else {
        Ok(())
    }
}

/// The metadata rule: metadata is refused when disabled, and must be a JSON
/// object, array or null.
pub open spec fn metadata_check(config: &ApiKeyConfiguration, kind: Option<MetadataKind>) -> Result<
    (),
    ApiKeyError,
> {
    if kind is Some && !config.enable_metadata {
        Err(ApiKeyError::MetadataDisabled)
    } else if kind == Some(MetadataKind::Other) {
        Err(ApiKeyError::InvalidMetadata)
    } else {
        Ok(())
    }
}

/// The refill rule: a refill amount and a refill interval come together.
pub open spec fn refill_check(amount: Option<i64>, interval: Option<i64>) -> Result<
    (),
    ApiKeyError,
> {
    if amount is Some && interval is None {
        Err(ApiKeyError::RefillAmountRequired)
    } else if amount is None && interval is Some {
        Err(ApiKeyError::RefillIntervalRequired)
    } else {
        Ok(())
    }
}

pub open spec fn opt_view(s: Option<String>) -> Option<Seq<char>> {
    match s {
        Some(v) => Some(v@),
        None => None,
    }
}

pub open spec fn metadata_kind(m: Option<ApiKeyMetadata>) -> Option<MetadataKind> {
    match m {
        Some(v) => Some(v.kind),
        None => None,
    }
}

/// The first refusal among the name, prefix, expiry, metadata and refill
/// rules, in that order.
pub open spec fn create_check(config: &ApiKeyConfiguration, input: &NewApiKey, window: ExpiryWindow) -> Result<
    (),
    ApiKeyError,
> {
    if name_check(config, opt_view(input.name)) is Err {
        name_check(config, opt_view(input.name))
    } else if prefix_check(config, opt_view(input.prefix)) is Err {
        prefix_check(config, opt_view(input.prefix))
    } else if expiry_check(config, input.expires_at, window) is Err {
        expiry_check(config, input.expires_at, window)
    } else if metadata_check(config, metadata_kind(input.metadata)) is Err {
        metadata_check(config, metadata_kind(input.metadata))
    } else {
        refill_check(input.refill_amount, input.refill_interval)
    }
}

/// An update that changes nothing.
pub open spec fn update_is_empty_spec(u: &ApiKeyUpdate) -> bool {
    u.name is None && u.enabled is None && u.expires_at is None && u.metadata is None
        && u.remaining is None && u.refill_amount is None && u.refill_interval is None
        && u.rate_limit_enabled is None && u.rate_limit_time_window is None
        && u.rate_limit_max is None && u.permissions is None
}

/// The first refusal of an update: an empty update, then the rules of the
/// fields it sets (name, expiry, metadata), then the refill rule.
pub open spec fn update_check(config: &ApiKeyConfiguration, u: &ApiKeyUpdate, window: ExpiryWindow) -> Result<
    (),
    ApiKeyError,
> {
    let new_expiry = match u.expires_at {
        Some(e) => e,
        None => None,
    };
    let new_metadata = match u.metadata {
        Some(Some(m)) => Some(m.kind),
        _ => None,
    };
    if update_is_empty_spec(u) {
        Err(ApiKeyError::NoValuesToUpdate)
    } else if u.name is Some && name_check(config, opt_view(u.name)) is Err {
        name_check(config, opt_view(u.name))
    } else if expiry_check(config, new_expiry, window) is Err {
        expiry_check(config, new_expiry, window)
    } else if metadata_check(config, new_metadata) is Err {
        metadata_check(config, new_metadata)
    } else {
        refill_check(u.refill_amount, u.refill_interval)
    }
}

pub fn validate_name(config: &ApiKeyConfiguration, name: Option<&str>) -> (r: Result<(), ApiKeyError>)
    ensures
        r == name_check(
            config,
            match name {
                Some(n) => Some(n@),
                None => None,
            },
        ),
{
    match name {
        Some(n) => {
            if n.is_empty() {
                if config.require_name {
                    Err(ApiKeyError::NameRequired)
                } else {
                    Ok(())
                }
            } else if !(config.minimum_name_length <= n.len() && n.len()
                <= config.maximum_name_length) {
                Err(ApiKeyError::InvalidNameLength)
            } else {
                Ok(())
            }
        },
        None => {
            if config.require_name {
                Err(ApiKeyError::NameRequired)
            } else {
                Ok(())
            }
        },
    }
}

pub fn validate_prefix(config: &ApiKeyConfiguration, prefix: Option<&str>) -> (r: Result<
    (),
    ApiKeyError,
>)
    ensures
        r == prefix_check(
            config,
            match prefix {
                Some(p) => Some(p@),
                None => None,
            },
        ),
{
    match prefix {
        Some(p) => {
            if !(config.minimum_prefix_length <= p.len() && p.len() <= config.maximum_prefix_length) {
                Err(ApiKeyError::InvalidPrefixLength)
            } else {
                Ok(())
            }
        },
        None => Ok(()),
    }
}

/// Checks a requested expiry; `window` places it against the configured
/// minimum and maximum number of days.
pub fn validate_expiry(config: &ApiKeyConfiguration, expires_at: Option<i64>, window: ExpiryWindow) -> (r: Result<
    (),
    ApiKeyError,
>)
    ensures
        r == expiry_check(config, expires_at, window),
{
    if expires_at.is_none() {
        return Ok(());
    }
    if config.disable_custom_expires {
        return Err(ApiKeyError::ExpirationDisabled);
    }
    match window {
        ExpiryWindow::TooSoon => Err(ApiKeyError::ExpiresTooSmall),
        ExpiryWindow::TooLate => Err(ApiKeyError::ExpiresTooLarge),
        ExpiryWindow::Within => Ok(()),
    }
}

pub fn validate_metadata(config: &ApiKeyConfiguration, kind: Option<MetadataKind>) -> (r: Result<
    (),
    ApiKeyError,
>)
    ensures
        r == metadata_check(config, kind),
{
    match kind {
        None => Ok(()),
        Some(k) => {
            if !config.enable_metadata {
                Err(ApiKeyError::MetadataDisabled)
            } else {
                match k {
                    MetadataKind::Other => Err(ApiKeyError::InvalidMetadata),
                    _ => Ok(()),
                }
            }
        },
    }
}

pub fn validate_refill(amount: Option<i64>, interval: Option<i64>) -> (r: Result<(), ApiKeyError>)
    ensures
        r == refill_check(amount, interval),
{
    match (amount, interval) {
        (Some(_), None) => Err(ApiKeyError::RefillAmountRequired),
        (None, Some(_)) => Err(ApiKeyError::RefillIntervalRequired),
        _ => Ok(()),
    }
}

fn metadata_kind_of(m: &Option<ApiKeyMetadata>) -> (k: Option<MetadataKind>)
    ensures
        k == metadata_kind(*m),
{
    match m {
        Some(v) => Some(v.kind),
        None => None,
    }
}

fn opt_str(s: &Option<String>) -> (r: Option<&str>)
    ensures
        match r {
            Some(v) => s matches Some(w) && v@ == w@,
            None => s is None,
        },
{
    match s {
        Some(v) => Some(v.as_str()),
        None => None,
    }
}

/// Validates a request to issue an API key; `window` places its expiry, if
/// any, against the configured window of days.
pub fn validate_create(config: &ApiKeyConfiguration, input: &NewApiKey, window: ExpiryWindow) -> (r: Result<
    (),
    ApiKeyError,
>)
    ensures
        r == create_check(config, input, window),
{
    let name = opt_str(&input.name);
    let r = validate_name(config, name);
    if r.is_err() {
        return r;
    }
    let prefix = opt_str(&input.prefix);
    let r = validate_prefix(config, prefix);
    if r.is_err() {
        return r;
    }
    let r = validate_expiry(config, input.expires_at, window);
    if r.is_err() {
        return r;
    }
    let r = validate_metadata(config, metadata_kind_of(&input.metadata));
    if r.is_err() {
        return r;
    }
    validate_refill(input.refill_amount, input.refill_interval)
}

/// Whether an update changes nothing.
pub fn update_is_empty(u: &ApiKeyUpdate) -> (r: bool)
    ensures
        r == update_is_empty_spec(u),
{
    u.name.is_none() && u.enabled.is_none() && u.expires_at.is_none() && u.metadata.is_none()
        && u.remaining.is_none() && u.refill_amount.is_none() && u.refill_interval.is_none()
        && u.rate_limit_enabled.is_none() && u.rate_limit_time_window.is_none()
        && u.rate_limit_max.is_none() && u.permissions.is_none()
}

/// Validates an update of an API key; `window` places its new expiry, if any,
/// against the configured window of days.
pub fn validate_update(config: &ApiKeyConfiguration, u: &ApiKeyUpdate, window: ExpiryWindow) -> (r: Result<
    (),
    ApiKeyError,
>)
    ensures
        r == update_check(config, u, window),
{
    if update_is_empty(u) {
        return Err(ApiKeyError::NoValuesToUpdate);
    }
    if u.name.is_some() {
        let r = validate_name(config, opt_str(&u.name));
        if r.is_err() {
            return r;
        }
    }
    let new_expiry = match u.expires_at {
        Some(e) => e,
        None => None,
    };
    let r = validate_expiry(config, new_expiry, window);
    if r.is_err() {
        return r;
    }
    let new_metadata = match &u.metadata {
        Some(Some(m)) => Some(m.kind),
        _ => None,
    };
    let r = validate_metadata(config, new_metadata);
    if r.is_err() {
        return r;
    }
    validate_refill(u.refill_amount, u.refill_interval)
}

/// Writes every field that `update` sets into `api_key`.
#[verifier::rlimit(60)]
pub fn apply_update(api_key: &mut ApiKey, update: ApiKeyUpdate)
    ensures
        final(api_key).name == (match update.name {
            Some(n) => Some(n),
            None => old(api_key).name,
        }),
        final(api_key).enabled == (match update.enabled {
            Some(e) => e,
            None => old(api_key).enabled,
        }),
        final(api_key).expires_at == (match update.expires_at {
            Some(e) => e,
            None => old(api_key).expires_at,
        }),
        final(api_key).metadata == (match update.metadata {
            Some(m) => m,
            None => old(api_key).metadata,
        }),
        final(api_key).remaining == (match update.remaining {
            Some(r) => Some(r),
            None => old(api_key).remaining,
        }),
        final(api_key).refill_amount == (match update.refill_amount {
            Some(a) => Some(a),
            None => old(api_key).refill_amount,
        }),
        final(api_key).refill_interval == (match update.refill_interval {
            Some(i) => Some(i),
            None => old(api_key).refill_interval,
        }),
        final(api_key).rate_limit_enabled == (match update.rate_limit_enabled {
            Some(e) => e,
            None => old(api_key).rate_limit_enabled,
        }),
        final(api_key).rate_limit_time_window == (match update.rate_limit_time_window {
            Some(w) => Some(w),
            None => old(api_key).rate_limit_time_window,
        }),
        final(api_key).rate_limit_max == (match update.rate_limit_max {
            Some(m) => Some(m),
            None => old(api_key).rate_limit_max,
        }),
        final(api_key).permissions == (match update.permissions {
            Some(p) => p,
            None => old(api_key).permissions,
        }),
        final(api_key).id == old(api_key).id,
        final(api_key).config_id == old(api_key).config_id,
        final(api_key).start == old(api_key).start,
        final(api_key).prefix == old(api_key).prefix,
        final(api_key).key_hash == old(api_key).key_hash,
        final(api_key).reference_id == old(api_key).reference_id,
        final(api_key).last_refill_at == old(api_key).last_refill_at,
        final(api_key).request_count == old(api_key).request_count,
        final(api_key).last_request == old(api_key).last_request,
        final(api_key).created_at == old(api_key).created_at,
        final(api_key).updated_at == old(api_key).updated_at,
{
    let ApiKeyUpdate {
        name,
        enabled,
        expires_at,
        metadata,
        remaining,
        refill_amount,
        refill_interval,
        rate_limit_enabled,
        rate_limit_time_window,
        rate_limit_max,
        permissions,
    } = update;
    if let Some(name) = name {
        api_key.name = Some(name);
    }
    if let Some(enabled) = enabled {
        api_key.enabled = enabled;
    }
    if let Some(expires_at) = expires_at {
        api_key.expires_at = expires_at;
    }
    if let Some(metadata) = metadata {
        api_key.metadata = metadata;
    }
    if let Some(remaining) = remaining {
        api_key.remaining = Some(remaining);
    }
    if let Some(amount) = refill_amount {
        api_key.refill_amount = Some(amount);
    }
    if let Some(interval) = refill_interval {
        api_key.refill_interval = Some(interval);
    }
    if let Some(enabled) = rate_limit_enabled {
        api_key.rate_limit_enabled = enabled;
    }
    if let Some(window) = rate_limit_time_window {
        api_key.rate_limit_time_window = Some(window);
    }
    if let Some(max) = rate_limit_max {
        api_key.rate_limit_max = Some(max);
    }
    if let Some(permissions) = permissions {
        api_key.permissions = permissions;
    }
}

/// The actions that a permission set lists for `resource`: those of its first
/// entry for that resource.
pub open spec fn actions_for(permissions: Seq<ApiKeyPermission>, resource: Seq<char>) -> Option<
    Seq<Seq<char>>,
>
    decreases permissions.len(),
{
    if permissions.len() == 0 {
        None
    } else if permissions[0].resource@ == resource {
        Some(string_views(permissions[0].actions@))
    } else {
        actions_for(permissions.drop_first(), resource)
    }
}

/// Whether a key's permission set allows `action` on `resource`.
pub open spec fn permits_spec(k: &ApiKey, resource: Seq<char>, action: Seq<char>) -> bool {
    match k.permissions {
        Some(p) => match actions_for(p@, resource) {
            Some(actions) => actions.contains(action),
            None => false,
        },
        None => false,
    }
}

/// Whether a key's permission set allows every action that `required` lists.
pub open spec fn permits_all_spec(k: &ApiKey, required: Seq<ApiKeyPermission>) -> bool {
    forall|i: int, j: int|
        0 <= i < required.len() && 0 <= j < required[i].actions@.len() ==> permits_spec(
            k,
            required[i].resource@,
            #[trigger] required[i].actions@[j]@,
        )
}

fn contains_str(values: &Vec<String>, value: &str) -> (r: bool)
    ensures
        r == string_views(values@).contains(value@),
{
    let mut i: usize = 0;
    while i < values.len()
        invariant
            i <= values@.len(),
            forall|k: int| 0 <= k < i ==> values@[k]@ != value@,
        decreases values@.len() - i,
    {
        if str_eq(values[i].as_str(), value) {
            assert(string_views(values@)[i as int] == value@);
            return true;
        }
        i = i + 1;
    }
    proof {
        if string_views(values@).contains(value@) {
            let k = choose|k: int|
                0 <= k < values@.len() && #[trigger] string_views(values@)[k]
                    == value@;
            assert(values@[k]@ == value@);
        }
    }
    false
}

impl ApiKey {
    /// Whether this key's permission set allows `action` on `resource`.
    pub fn permits(&self, resource: &str, action: &str) -> (r: bool)
        ensures
            r == permits_spec(self, resource@, action@),
    {
        let permissions = match &self.permissions {
            Some(p) => p,
            None => {
                return false;
            },
        };
        let mut i: usize = 0;
        assert(permissions@.skip(0) =~= permissions@);
        while i < permissions.len()
            invariant
                self.permissions == Some(*permissions),
                i <= permissions@.len(),
                actions_for(permissions@, resource@) == actions_for(
                    permissions@.skip(i as int),
                    resource@,
                ),
            decreases permissions@.len() - i,
        {
            assert(permissions@.skip(i as int).drop_first() =~= permissions@.skip(i + 1));
            if str_eq(permissions[i].resource.as_str(), resource) {
                return contains_str(&permissions[i].actions, action);
            }
            i = i + 1;
        }
        false
    }
}

/// Whether `api_key` allows every action that `required` lists.
pub fn permits_all(api_key: &ApiKey, required: &Vec<ApiKeyPermission>) -> (r: bool)
    ensures
        r == permits_all_spec(api_key, required@),
{
    let mut i: usize = 0;
    while i < required.len()
        invariant
            i <= required@.len(),
            forall|a: int, b: int|
                0 <= a < i && 0 <= b < required@[a].actions@.len() ==> permits_spec(
                    api_key,
                    required@[a].resource@,
                    #[trigger] required@[a].actions@[b]@,
                ),
        decreases required@.len() - i,
    {
        let entry = &required[i];
        let mut j: usize = 0;
        while j < entry.actions.len()
            invariant
                i < required@.len(),
                *entry == required@[i as int],
                j <= entry.actions@.len(),
                forall|b: int|
                    0 <= b < j ==> permits_spec(
                        api_key,
                        entry.resource@,
                        #[trigger] entry.actions@[b]@,
                    ),
            decreases entry.actions@.len() - j,
        {
            if !api_key.permits(entry.resource.as_str(), entry.actions[j].as_str()) {
                return false;
            }
            j = j + 1;
        }
        i = i + 1;
    }
    true
}

} // verus!
