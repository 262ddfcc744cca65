//! Cryptographic digests and base64 encodings, called through the `hmac`,
//! `sha2` and `base64` crates.

use base64::engine::general_purpose::{STANDARD, URL_SAFE_NO_PAD};
use base64::Engine;
use hmac::{Hmac, Mac};
use sha2::{Digest, Sha256};
use vstd::prelude::*;

verus! {

/// HMAC-SHA256 of `message` under `key`.
pub uninterp spec fn hmac_sha256(key: Seq<u8>, message: Seq<u8>) -> Seq<u8>;

/// SHA-256 digest of `data`.
pub uninterp spec fn sha256(data: Seq<u8>) -> Seq<u8>;

/// Base64 encoding of `data` with the standard alphabet and padding.
pub uninterp spec fn base64_standard(data: Seq<u8>) -> Seq<char>;

/// Base64 encoding of `data` with the URL-safe alphabet and no padding.
pub uninterp spec fn base64_url_no_pad(data: Seq<u8>) -> Seq<char>;

/// The characters that the standard base64 alphabet and its padding use.
pub open spec fn standard_base64_char(c: char) -> bool {
    ('A' <= c && c <= 'Z') || ('a' <= c && c <= 'z') || ('0' <= c && c <= '9') || c == '+' || c
        == '/' || c == '='
}

/// The characters that the URL-safe base64 alphabet uses.
pub open spec fn url_safe_base64_char(c: char) -> bool {
    ('A' <= c && c <= 'Z') || ('a' <= c && c <= 'z') || ('0' <= c && c <= '9') || c == '-' || c
        == '_'
}

/// `Hmac::<Sha256>::new_from_slice`, `update` and `finalize`: the 32-byte
/// HMAC-SHA256 tag of `message` under `key`. The crate accepts keys of any
/// length (`new_from_slice` always returns `Ok` for HMAC), so the wrapper
/// always returns a tag; the tag's value is named, not spelled out.
#[verifier::external_body]
pub(crate) fn hmac_sha256_tag(key: &[u8], message: &[u8]) -> (tag: Option<Vec<u8>>)
    ensures
        tag is Some,
        tag->0@ == hmac_sha256(key@, message@),
        tag->0@.len() == 32,
{
    match <Hmac<Sha256> as Mac>::new_from_slice(key) {
        Ok(mut mac) => {
            mac.update(message);
            Some(mac.finalize().into_bytes().to_vec())
        },
        Err(_) => None,
    }
}

/// `Mac::verify_slice` on an HMAC-SHA256 of `message` under `key`: accepts
/// exactly when `tag` equals the full HMAC-SHA256 tag (a tag of another
/// length is refused).
#[verifier::external_body]
pub(crate) fn hmac_sha256_verify(key: &[u8], message: &[u8], tag: &[u8]) -> (ok: bool)
    ensures
        ok == (tag@ == hmac_sha256(key@, message@)),
{
    match <Hmac<Sha256> as Mac>::new_from_slice(key) {
        Ok(mut mac) => {
            mac.update(message);
            mac.verify_slice(tag).is_ok()
        },
        Err(_) => false,
    }
}

/// `Sha256::digest`: the 32-byte SHA-256 digest of `data`, named, not spelled
/// out.
#[verifier::external_body]
pub(crate) fn sha256_digest(data: &[u8]) -> (d: Vec<u8>)
    ensures
        d@ == sha256(data@),
        d@.len() == 32,
{
    Sha256::digest(data).to_vec()
}

/// `STANDARD.encode`: base64 with the standard alphabet and padding. Every
/// output character belongs to that alphabet or is the padding `=`.
#[verifier::external_body]
pub(crate) fn encode_base64_standard(data: &[u8]) -> (s: String)
    ensures
        s@ == base64_standard(data@),
        forall|i: int| 0 <= i < s@.len() ==> standard_base64_char(#[trigger] s@[i]),
{
    STANDARD.encode(data)
}

/// `STANDARD.decode`: the engine requires canonical padding and refuses
/// trailing bits, so it succeeds exactly on canonical encodings and then gives
/// back the encoded bytes; in particular decoding the encoding of `d` gives `d`.
#[verifier::external_body]
pub(crate) fn decode_base64_standard(s: &str) -> (r: Option<Vec<u8>>)
    ensures
        r is Some ==> base64_standard(r->0@) == s@,
        forall|d: Seq<u8>| base64_standard(d) == s@ ==> (r is Some && r->0@ == d),
{
    STANDARD.decode(s).ok()
}

/// `URL_SAFE_NO_PAD.encode`: base64 with the URL-safe alphabet and no padding.
/// Every output character belongs to that alphabet, and there are four for
/// every three bytes, with two or three more for a final one or two bytes
/// (`encoded_len`). The length computation panics on overflow, which inputs
/// below half the address space cannot reach.
#[verifier::external_body]
pub(crate) fn encode_base64_url_no_pad(data: &[u8]) -> (s: String)
    requires
        data@.len() < usize::MAX / 2,
    ensures
        s@ == base64_url_no_pad(data@),
        forall|i: int| 0 <= i < s@.len() ==> url_safe_base64_char(#[trigger] s@[i]),
        s@.len() == 4 * (data@.len() / 3) + (if data@.len() % 3 == 0 {
            0
        } else {
            data@.len() % 3 + 1
        }),
{
    URL_SAFE_NO_PAD.encode(data)
}

} // verus!
