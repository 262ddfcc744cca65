//! Issuing API keys: the random key, the digest under which it is stored,
//! and the stored record.

use crate::codec::{base64_url_no_pad, encode_base64_url_no_pad, sha256, sha256_digest};
use crate::exact_clone::ExactClone;
use crate::service::api_key::{ApiKey, ApiKeyPermission};
use crate::service::api_key_policy::NewApiKey;
use crate::random::random_below;
use crate::text::{owned, string_from_chars, to_chars};
use vstd::prelude::*;
use vstd::utf8::encode_utf8;

verus! {

/// The letters that generated keys are made of.
pub open spec fn key_letter(c: char) -> bool {
    ('a' <= c && c <= 'z') || ('A' <= c && c <= 'Z')
}

/// The digest under which a key is stored: the URL-safe base64 of the
/// SHA-256 of its UTF-8 bytes.
pub open spec fn key_hash_spec(key: Seq<char>) -> Seq<char> {
    base64_url_no_pad(sha256(encode_utf8(key)))
}

/// The digest under which a key is stored.
pub fn hash_key(key: &str) -> (r: String)
    ensures
        r@ == key_hash_spec(key@),
{
    let digest = sha256_digest(key.as_bytes());
    encode_base64_url_no_pad(digest.as_slice())
}

fn letter_at(i: usize) -> (c: char)
    requires
        i < 52,
    ensures
        key_letter(c),
{
    if i < 26 {
        ((i as u8) + 97) as char
    } else {
        ((i as u8) - 26 + 65) as char
    }
}

/// A fresh key: the prefix followed by `length` random letters.
pub fn generate_key(length: usize, prefix: Option<&str>) -> (r: String)
    ensures
        ({
            let p = match prefix {
                Some(x) => x@,
                None => Seq::<char>::empty(),
            };
            &&& r@.len() == p.len() + length
            &&& r@.subrange(0, p.len() as int) == p
            &&& forall|i: int| p.len() <= i < r@.len() ==> key_letter(#[trigger] r@[i])
        }),
{
    let mut chars: Vec<char> = match prefix {
        Some(x) => to_chars(x),
        None => Vec::new(),
    };
    let ghost p = chars@;
    let mut n: usize = 0;
    while n < length
        invariant
            n <= length,
            chars@.len() == p.len() + n,
            chars@.subrange(0, p.len() as int) == p,
            forall|i: int| p.len() <= i < chars@.len() ==> key_letter(#[trigger] chars@[i]),
        decreases length - n,
    {
        let c = letter_at(random_below(52));
        let ghost before = chars@;
        chars.push(c);
        assert(chars@.subrange(0, p.len() as int) =~= before.subrange(0, p.len() as int));
        n = n + 1;
    }
    string_from_chars(&chars)
}

/// The prefix of a new key: the requested one, else the configured default,
/// else none.
pub open spec fn new_key_prefix(requested: Option<Seq<char>>, default_prefix: Option<Seq<char>>) -> Seq<char> {
    match requested {
        Some(p) => p,
        None => match default_prefix {
            Some(p) => p,
            None => Seq::empty(),
        },
    }
}

/// A new key as issuing makes it where no key generator is configured: the
/// requested prefix, else the configured default, followed by
/// `key_length` random letters.
pub fn new_key_for(requested_prefix: Option<&str>, default_prefix: Option<&str>, key_length: usize) -> (r: String)
    ensures
        ({
            let p = new_key_prefix(
                match requested_prefix {
                    Some(x) => Some(x@),
                    None => None,
                },
                match default_prefix {
                    Some(x) => Some(x@),
                    None => None,
                },
            );
            &&& r@.len() == p.len() + key_length
            &&& r@.subrange(0, p.len() as int) == p
            &&& forall|i: int| p.len() <= i < r@.len() ==> key_letter(#[trigger] r@[i])
        }),
{
    let prefix = match requested_prefix {
        Some(p) => Some(p),
        None => default_prefix,
    };
    generate_key(key_length, prefix)
}

/// The expiry of a new key: the requested one, else `default_seconds`
/// after `now` where the configuration sets a default.
pub open spec fn new_key_expiry(requested: Option<i64>, default_seconds: Option<i64>, now: i64) -> Option<i64> {
    match requested {
        Some(t) => Some(t),
        None => match default_seconds {
            Some(s) => Some((now + s * 1000) as i64),
            None => None,
        },
    }
}

/// The expiry of a new key.
pub fn new_key_expires_at(requested: Option<i64>, default_seconds: Option<i64>, now: i64) -> (r: Option<i64>)
    requires
        requested is None ==> match default_seconds {
            Some(s) => -(i64::MAX / 1000) <= s <= i64::MAX / 1000 && i64::MIN <= now + s * 1000 <= i64::MAX,
            None => true,
        },
    ensures
        r == new_key_expiry(requested, default_seconds, now),
{
    match requested {
        Some(t) => Some(t),
        None => match default_seconds {
            Some(s) => Some(now + s * 1000),
            None => None,
        },
    }
}

/// The first `n` characters of a key.
pub fn key_start(key: &str, n: usize) -> (r: String)
    ensures
        r@ == key@.take(if n <= key@.len() { n as int } else { key@.len() as int }),
{
    let chars = to_chars(key);
    let mut out: Vec<char> = Vec::new();
    let mut i: usize = 0;
    while i < n && i < chars.len()
        invariant
            chars@ == key@,
            i <= chars@.len(),
            i <= n,
            out@ == key@.take(i as int),
        decreases chars@.len() - i,
    {
        out.push(chars[i]);
        assert(out@ =~= key@.take(i + 1));
        i = i + 1;
    }
    string_from_chars(&out)
}

/// The record of a newly issued key: the request's values, the stored
/// start of the key where `start_length` asks for one, the configured
/// prefix and permissions where the request gives none, the remaining
/// count defaulting to the refill amount, no use yet, and `now` as creation
/// and update time. Its id is assigned when it is stored.
pub fn issued_api_key(
    config_id: &str,
    input: NewApiKey,
    key: &str,
    reference_id: &str,
    start_length: Option<usize>,
    default_prefix: &Option<String>,
    default_permissions: &Option<Vec<ApiKeyPermission>>,
    expires_at: Option<i64>,
    now: i64,
) -> (r: ApiKey)
    ensures
        r.id@ == Seq::<char>::empty(),
        r.config_id@ == config_id@,
        r.name.deep_view() == input.name.deep_view(),
        r.start.deep_view() == match start_length {
            Some(n) => Some(key@.take(if n <= key@.len() { n as int } else { key@.len() as int })),
            None => None,
        },
        r.prefix.deep_view() == match input.prefix {
            Some(p) => Some(p@),
            None => default_prefix.deep_view(),
        },
        r.key_hash@ == key_hash_spec(key@),
        r.reference_id@ == reference_id@,
        r.refill_interval == input.refill_interval,
        r.refill_amount == input.refill_amount,
        r.last_refill_at is None,
        r.enabled,
        r.rate_limit_enabled == input.rate_limit_enabled,
        r.rate_limit_time_window == input.rate_limit_time_window,
        r.rate_limit_max == input.rate_limit_max,
        r.request_count == 0,
        r.remaining == match input.remaining {
            Some(x) => Some(x),
            None => input.refill_amount,
        },
        r.last_request is None,
        r.expires_at == expires_at,
        r.permissions.deep_view() == match input.permissions {
            Some(p) => Some(p.deep_view()),
            None => default_permissions.deep_view(),
        },
        r.metadata.deep_view() == input.metadata.deep_view(),
        r.created_at == now,
        r.updated_at == now,
{
    let start = match start_length {
        Some(n) => Some(key_start(key, n)),
        None => None,
    };
    let prefix = match input.prefix {
        Some(p) => Some(p),
        None => default_prefix.exact_clone(),
    };
    let permissions = match input.permissions {
        Some(p) => Some(p),
        None => default_permissions.exact_clone(),
    };
    let remaining = match input.remaining {
        Some(x) => Some(x),
        None => input.refill_amount,
    };
    let id = String::new();
    ApiKey {
        id,
        config_id: owned(config_id),
        name: input.name,
        start,
        prefix,
        key_hash: hash_key(key),
        reference_id: owned(reference_id),
        refill_interval: input.refill_interval,
        refill_amount: input.refill_amount,
        last_refill_at: None,
        enabled: true,
        rate_limit_enabled: input.rate_limit_enabled,
        rate_limit_time_window: input.rate_limit_time_window,
        rate_limit_max: input.rate_limit_max,
        request_count: 0,
        remaining,
        last_request: None,
        expires_at,
        permissions,
        metadata: input.metadata,
        created_at: now,
        updated_at: now,
    }
}

} // verus!
