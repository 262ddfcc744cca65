//! Signed cookie values: `token.signature`, where the signature is the
//! standard-base64 HMAC-SHA256 of the token under the service secret, with the
//! whole value percent-encoded as a cookie component.

use crate::codec::{
    base64_standard, decode_base64_standard, encode_base64_standard, hmac_sha256,
    hmac_sha256_tag, hmac_sha256_verify, standard_base64_char,
};
use crate::service::AuthService;
use crate::text::{push_char, string_from_range, to_chars};
use vstd::prelude::*;
use vstd::utf8::*;

verus! {

/// Bytes that a cookie component keeps as they are: ASCII letters and digits
/// and `- _ . ! ~ * ' ( )`.
pub open spec fn cookie_safe_byte(b: u8) -> bool {
    (48 <= b && b <= 57) || (65 <= b && b <= 90) || (97 <= b && b <= 122) || b == 45 || b == 95
        || b == 46 || b == 33 || b == 126 || b == 42 || b == 39 || b == 40 || b == 41
}

/// Upper-case hexadecimal digit of a nibble.
pub open spec fn hex_digit(n: u8) -> char {
    if n < 10 {
        ((48 + n) as u8) as char
    } else {
        ((55 + n) as u8) as char
    }
}

/// Encoding of one byte: itself when safe, else `%XX` in upper-case hex.
pub open spec fn percent_piece(b: u8) -> Seq<char> {
    if cookie_safe_byte(b) {
        seq![b as char]
    } else {
        seq!['%', hex_digit(b / 16), hex_digit(b % 16)]
    }
}

/// Percent-encoding of a byte string, byte by byte.
pub open spec fn percent_encode(bytes: Seq<u8>) -> Seq<char>
    decreases bytes.len(),
{
    if bytes.len() == 0 {
        seq![]
    } else {
        percent_piece(bytes[0]) + percent_encode(bytes.drop_first())
    }
}

/// Value of a hexadecimal digit byte, either case.
pub open spec fn hex_value(b: u8) -> Option<u8> {
    if 48 <= b && b <= 57 {
        Some((b - 48) as u8)
    } else if 97 <= b && b <= 102 {
        Some((b - 87) as u8)
    } else if 65 <= b && b <= 70 {
        Some((b - 55) as u8)
    } else {
        None
    }
}

/// Percent-decoding of a byte string; `None` when a `%` is not followed by
/// two hexadecimal digits.
pub open spec fn percent_decode(bytes: Seq<u8>) -> Option<Seq<u8>>
    decreases bytes.len(),
{
    if bytes.len() == 0 {
        Some(seq![])
    } else if bytes[0] == 37 {
        if bytes.len() >= 3 && hex_value(bytes[1]) is Some && hex_value(bytes[2]) is Some {
            match percent_decode(bytes.skip(3)) {
                Some(rest) => Some(
                    seq![(hex_value(bytes[1])->0 * 16 + hex_value(bytes[2])->0) as u8] + rest,
                ),
                None => None,
            }
        } else {
            None
        }
    } else {
        match percent_decode(bytes.skip(1)) {
            Some(rest) => Some(seq![bytes[0]] + rest),
            None => None,
        }
    }
}

/// Decoded cookie component: the percent-decoded bytes read as UTF-8, or the
/// input unchanged when it is not well formed.
pub open spec fn decode_component(value: Seq<char>) -> Seq<char> {
    match percent_decode(encode_utf8(value)) {
        Some(d) => if valid_utf8(d) {
            decode_utf8(d)
        } else {
            value
        },
        None => value,
    }
}

/// Index of the last occurrence of `c` in `s`.
pub open spec fn last_index_of(s: Seq<char>, c: char) -> Option<int>
    decreases s.len(),
{
    if s.len() == 0 {
        None
    } else if s.last() == c {
        Some(s.len() - 1)
    } else {
        last_index_of(s.drop_last(), c)
    }
}

/// The signature that a signed cookie carries for `token`.
pub open spec fn cookie_signature(secret: Seq<u8>, token: Seq<char>) -> Seq<char> {
    base64_standard(hmac_sha256(secret, encode_utf8(token)))
}

/// The signed cookie value for `token`.
pub open spec fn signed_value(secret: Seq<u8>, token: Seq<char>) -> Seq<char> {
    percent_encode(encode_utf8(token + seq!['.'] + cookie_signature(secret, token)))
}

/// The token that a cookie value carries, when its signature checks out: the
/// decoded value is split at its last `.`, and the part after it must be the
/// signature of the part before it.
pub open spec fn verified_token(secret: Seq<u8>, value: Seq<char>) -> Option<Seq<char>> {
    let decoded = decode_component(value);
    match last_index_of(decoded, '.') {
        Some(k) => {
            let token = decoded.take(k);
            if decoded.skip(k + 1) == cookie_signature(secret, token) {
                Some(token)
            } else {
                None
            }
        },
        None => None,
    }
}

/// `String::from_utf8`: succeeds exactly on valid UTF-8 and then holds the
/// decoded characters.
#[verifier::external_body]
pub(crate) fn string_from_utf8(bytes: Vec<u8>) -> (r: Option<String>)
    ensures
        r is Some <==> valid_utf8(bytes@),
        r matches Some(s) ==> s@ == decode_utf8(bytes@),
{
    String::from_utf8(bytes).ok()
}

proof fn lemma_percent_encode_append(a: Seq<u8>, b: Seq<u8>)
    ensures
        percent_encode(a + b) == percent_encode(a) + percent_encode(b),
    decreases a.len(),
{
    if a.len() == 0 {
        assert(a + b =~= b);
    } else {
        lemma_percent_encode_append(a.drop_first(), b);
        assert((a + b).drop_first() =~= a.drop_first() + b);
        assert(percent_encode(a + b) =~= percent_encode(a) + percent_encode(b));
    }
}

proof fn lemma_hex_digit_bound(n: u8)
    requires
        n < 16,
    ensures
        (hex_digit(n) as u32) < 128,
        hex_digit(n) != '%',
        hex_value(hex_digit(n) as u8) == Some(n),
{
}

proof fn lemma_piece_ascii(b: u8)
    ensures
        is_ascii_chars(percent_piece(b)),
{
    if !cookie_safe_byte(b) {
        lemma_hex_digit_bound(b / 16);
        lemma_hex_digit_bound(b % 16);
    }
}

proof fn lemma_percent_encode_ascii(bytes: Seq<u8>)
    ensures
        is_ascii_chars(percent_encode(bytes)),
    decreases bytes.len(),
{
    if bytes.len() > 0 {
        lemma_piece_ascii(bytes[0]);
        lemma_percent_encode_ascii(bytes.drop_first());
        let p = percent_piece(bytes[0]);
        let r = percent_encode(bytes.drop_first());
        assert forall|i: int| 0 <= i < (p + r).len() implies '\0' <= #[trigger] (p + r)[i]
            <= '\u{7f}' by {
            if i < p.len() {
                assert((p + r)[i] == p[i]);
            } else {
                assert((p + r)[i] == r[i - p.len()]);
            }
        }
    }
}

/// The bytes of an ASCII character string.
pub open spec fn ascii_bytes(s: Seq<char>) -> Seq<u8> {
    s.map_values(|c: char| c as u8)
}

proof fn lemma_ascii_encode_utf8(s: Seq<char>)
    requires
        is_ascii_chars(s),
    ensures
        encode_utf8(s) == ascii_bytes(s),
{
    is_ascii_chars_encode_utf8(s);
    assert(encode_utf8(s) =~= ascii_bytes(s));
}

proof fn lemma_percent_decode_encoded(bytes: Seq<u8>)
    ensures
        percent_decode(ascii_bytes(percent_encode(bytes))) == Some(bytes),
    decreases bytes.len(),
{
    if bytes.len() == 0 {
        assert(ascii_bytes(percent_encode(bytes)) =~= Seq::<u8>::empty());
    } else {
        let b = bytes[0];
        let p = percent_piece(b);
        let rest = percent_encode(bytes.drop_first());
        lemma_percent_decode_encoded(bytes.drop_first());
        let all = ascii_bytes(p + rest);
        assert(percent_encode(bytes) == p + rest);
        if cookie_safe_byte(b) {
            assert(all =~= seq![b] + ascii_bytes(rest));
            assert(all.skip(1) =~= ascii_bytes(rest));
            assert(all[0] == b);
            assert(seq![b] + bytes.drop_first() =~= bytes);
        } else {
            lemma_hex_digit_bound(b / 16);
            lemma_hex_digit_bound(b % 16);
            assert(all =~= seq![37u8, hex_digit(b / 16) as u8, hex_digit(b % 16) as u8]
                + ascii_bytes(rest));
            assert(all.skip(3) =~= ascii_bytes(rest));
            assert(((b / 16) * 16 + b % 16) as u8 == b);
            assert(seq![b] + bytes.drop_first() =~= bytes);
        }
    }
}

/// Decoding an encoded cookie component gives back the value, whatever it
/// holds.
pub proof fn law_decode_after_encode(value: Seq<char>)
    ensures
        decode_component(percent_encode(encode_utf8(value))) == value,
{
    let bytes = encode_utf8(value);
    let e = percent_encode(bytes);
    lemma_percent_encode_ascii(bytes);
    lemma_ascii_encode_utf8(e);
    lemma_percent_decode_encoded(bytes);
    encode_utf8_valid_utf8(value);
    encode_utf8_decode_utf8(value);
}

/// The characters an encoded cookie component is made of: the bytes it
/// keeps, `%`, and the upper-case hexadecimal digits.
pub open spec fn component_char(c: char) -> bool {
    &&& (c as u32) < 128
    &&& (cookie_safe_byte(c as u8) || c == '%' || ('A' <= c && c <= 'F'))
}

proof fn lemma_piece_alphabet(b: u8)
    ensures
        forall|i: int| 0 <= i < percent_piece(b).len() ==> component_char(#[trigger] percent_piece(b)[i]),
{
    if !cookie_safe_byte(b) {
        lemma_hex_digit_bound(b / 16);
        lemma_hex_digit_bound(b % 16);
    }
}

proof fn lemma_encode_alphabet(bytes: Seq<u8>)
    ensures
        forall|i: int| 0 <= i < percent_encode(bytes).len() ==> component_char(#[trigger] percent_encode(bytes)[i]),
    decreases bytes.len(),
{
    if bytes.len() > 0 {
        lemma_piece_alphabet(bytes[0]);
        lemma_encode_alphabet(bytes.drop_first());
        let p = percent_piece(bytes[0]);
        let r = percent_encode(bytes.drop_first());
        assert forall|i: int| 0 <= i < (p + r).len() implies component_char(#[trigger] (p + r)[i]) by {
            if i < p.len() {
                assert((p + r)[i] == p[i]);
            } else {
                assert((p + r)[i] == r[i - p.len()]);
            }
        }
    }
}

/// An encoded cookie component holds only the bytes that it keeps as they
/// are, `%`, and upper-case hexadecimal digits.
pub proof fn law_encoded_component_alphabet(value: Seq<char>)
    ensures
        forall|i: int|
            0 <= i < percent_encode(encode_utf8(value)).len() ==> component_char(
                #[trigger] percent_encode(encode_utf8(value))[i],
            ),
{
    lemma_encode_alphabet(encode_utf8(value));
}

/// Whether the `%` at `i` is not followed by two hexadecimal digits.
pub open spec fn malformed_escape_at(bytes: Seq<u8>, i: int) -> bool {
    &&& 0 <= i < bytes.len()
    &&& bytes[i] == 37
    &&& !(i + 2 < bytes.len() && hex_value(bytes[i + 1]) is Some && hex_value(bytes[i + 2]) is Some)
}

proof fn lemma_malformed_escape(bytes: Seq<u8>, i: int)
    requires
        malformed_escape_at(bytes, i),
    ensures
        percent_decode(bytes) is None,
    decreases bytes.len(),
{
    if bytes[0] == 37 {
        if i > 0 && bytes.len() >= 3 && hex_value(bytes[1]) is Some && hex_value(bytes[2]) is Some {
            assert(i >= 3);
            assert(bytes.skip(3)[i - 3] == bytes[i]);
            if i + 2 < bytes.len() {
                assert(bytes.skip(3)[i - 2] == bytes[i + 1]);
                assert(bytes.skip(3)[i - 1] == bytes[i + 2]);
            }
            lemma_malformed_escape(bytes.skip(3), i - 3);
        }
    } else {
        assert(bytes.skip(1)[i - 1] == bytes[i]);
        if i + 2 < bytes.len() {
            assert(bytes.skip(1)[i] == bytes[i + 1]);
            assert(bytes.skip(1)[i + 1] == bytes[i + 2]);
        }
        lemma_malformed_escape(bytes.skip(1), i - 1);
    }
}

/// An ASCII cookie component with a `%` that two hexadecimal digits do not
/// follow holds a malformed escape, and decodes to itself.
pub proof fn law_malformed_escape_decodes_to_itself(value: Seq<char>, i: int)
    requires
        is_ascii_chars(value),
        malformed_escape_at(ascii_bytes(value), i),
    ensures
        decode_component(value) == value,
{
    lemma_ascii_encode_utf8(value);
    lemma_malformed_escape(ascii_bytes(value), i);
}

proof fn lemma_last_index_of_found(s: Seq<char>, c: char)
    ensures
        last_index_of(s, c) matches Some(k) ==> 0 <= k < s.len() && s[k] == c,
    decreases s.len(),
{
    if s.len() > 0 && s.last() != c {
        lemma_last_index_of_found(s.drop_last(), c);
    }
}

/// A cookie value is accepted only as the signed form of the token it
/// yields: its decoded text is that token, a `.`, and the token's
/// signature under the secret.
pub proof fn law_only_signed_values_verify(secret: Seq<u8>, value: Seq<char>)
    ensures
        verified_token(secret, value) matches Some(t) ==> decode_component(value) == t + seq!['.']
            + cookie_signature(secret, t),
{
    let d = decode_component(value);
    lemma_last_index_of_found(d, '.');
    if let Some(k) = last_index_of(d, '.') {
        assert(d =~= d.take(k) + seq!['.'] + d.skip(k + 1));
    }
}

/// Percent-encodes `value` as a cookie component, byte by byte.
pub fn encode_cookie_component(value: &str) -> (r: String)
    ensures
        r@ == percent_encode(encode_utf8(value@)),
{
    let bytes = value.as_bytes();
    let mut encoded = String::new();
    let mut i: usize = 0;
    while i < bytes.len()
        invariant
            bytes@ == encode_utf8(value@),
            i <= bytes@.len(),
            encoded@ == percent_encode(bytes@.take(i as int)),
        decreases bytes@.len() - i,
    {
        let b = bytes[i];
        let ghost before = encoded@;
        if (48 <= b && b <= 57) || (65 <= b && b <= 90) || (97 <= b && b <= 122) || b == 45 || b
            == 95 || b == 46 || b == 33 || b == 126 || b == 42 || b == 39 || b == 40 || b == 41 {
            push_char(&mut encoded, b as char);
        } else {
            push_char(&mut encoded, '%');
            push_char(&mut encoded, hex_upper(b / 16));
            push_char(&mut encoded, hex_upper(b % 16));
        }
        proof {
            assert(encoded@ =~= before + percent_piece(b));
            assert(seq![b].drop_first() =~= Seq::<u8>::empty());
            assert(percent_encode(seq![b]) =~= percent_piece(b) + percent_encode(
                Seq::<u8>::empty(),
            ));
            assert(percent_encode(seq![b]) =~= percent_piece(b));
            lemma_percent_encode_append(bytes@.take(i as int), seq![b]);
            assert(bytes@.take(i as int) + seq![b] =~= bytes@.take(i + 1));
        }
        i = i + 1;
    }
    assert(bytes@.take(bytes@.len() as int) =~= bytes@);
    encoded
}

fn hex_upper(n: u8) -> (c: char)
    requires
        n < 16,
    ensures
        c == hex_digit(n),
{
    if n < 10 {
        (48 + n) as char
    } else {
        (55 + n) as char
    }
}

fn decode_hex(b: u8) -> (r: Option<u8>)
    ensures
        r == hex_value(b),
{
    if 48 <= b && b <= 57 {
        Some(b - 48)
    } else if 97 <= b && b <= 102 {
        Some(b - 87)
    } else if 65 <= b && b <= 70 {
        Some(b - 55)
    } else {
        None
    }
}

/// `prefix` followed by a decoding result.
pub open spec fn prefixed(prefix: Seq<u8>, rest: Option<Seq<u8>>) -> Option<Seq<u8>> {
    match rest {
        Some(r) => Some(prefix + r),
        None => None,
    }
}

fn percent_decode_bytes(bytes: &[u8]) -> (r: Option<Vec<u8>>)
    ensures
        match percent_decode(bytes@) {
            Some(d) => r matches Some(v) && v@ == d,
            None => r is None,
        },
{
    let mut decoded: Vec<u8> = Vec::new();
    let mut i: usize = 0;
    proof {
        assert(bytes@.skip(0) =~= bytes@);
        match percent_decode(bytes@) {
            Some(d) => {
                assert(Seq::<u8>::empty() + d =~= d);
            },
            None => {},
        }
    }
    while i < bytes.len()
        invariant
            i <= bytes@.len(),
            percent_decode(bytes@) == prefixed(decoded@, percent_decode(bytes@.skip(i as int))),
        decreases bytes@.len() - i,
    {
        let ghost rest = bytes@.skip(i as int);
        if bytes[i] == 37 {
            if bytes.len() - i < 3 {
                assert(rest.len() < 3);
                return None;
            }
            let high = decode_hex(bytes[i + 1]);
            let low = decode_hex(bytes[i + 2]);
            match (high, low) {
                (Some(h), Some(l)) => {
                    assert(rest.skip(3) =~= bytes@.skip(i + 3));
                    decoded.push(h * 16 + l);
                    proof {
                        let tail = percent_decode(bytes@.skip(i + 3));
                        match tail {
                            Some(t) => {
                                assert(decoded@ + t =~= decoded@.drop_last() + (seq![
                                    decoded@.last(),
                                ] + t));
                            },
                            None => {},
                        }
                    }
                    i = i + 3;
                },
                _ => {
                    return None;
                },
            }
        } else {
            assert(rest.skip(1) =~= bytes@.skip(i + 1));
            decoded.push(bytes[i]);
            proof {
                let tail = percent_decode(bytes@.skip(i + 1));
                match tail {
                    Some(t) => {
                        assert(decoded@ + t =~= decoded@.drop_last() + (seq![decoded@.last()]
                            + t));
                    },
                    None => {},
                }
            }
            i = i + 1;
        }
    }
    assert(bytes@.skip(i as int) =~= Seq::<u8>::empty());
    assert(decoded@ + Seq::<u8>::empty() =~= decoded@);
    Some(decoded)
}

/// Percent-decodes a cookie component; a malformed escape or a result that is
/// not UTF-8 leaves the value as it was.
pub fn decode_cookie_component(value: &str) -> (r: String)
    ensures
        r@ == decode_component(value@),
{
    let bytes = value.as_bytes();
    match percent_decode_bytes(bytes) {
        Some(decoded) => match string_from_utf8(decoded) {
            Some(s) => s,
            None => value.to_owned(),
        },
        None => value.to_owned(),
    }
}

/// Position of the last `c` in `v`.
pub fn rfind_char(v: &Vec<char>, c: char) -> (r: Option<usize>)
    ensures
        last_index_of(v@, c) is None <==> r is None,
        r matches Some(k) ==> k < v@.len() && last_index_of(v@, c) == Some(k as int),
{
    let mut j: usize = v.len();
    assert(v@.take(v@.len() as int) =~= v@);
    while j > 0
        invariant
            j <= v@.len(),
            last_index_of(v@, c) == last_index_of(v@.take(j as int), c),
        decreases j,
    {
        assert(v@.take(j as int).drop_last() =~= v@.take(j - 1));
        if v[j - 1] == c {
            return Some(j - 1);
        }
        j = j - 1;
    }
    assert(v@.take(j as int).len() == 0);
    None
}

proof fn lemma_last_index_of_append(a: Seq<char>, b: Seq<char>, c: char)
    requires
        forall|i: int| 0 <= i < b.len() ==> #[trigger] b[i] != c,
    ensures
        last_index_of(a + b, c) == last_index_of(a, c),
    decreases b.len(),
{
    if b.len() > 0 {
        assert((a + b).drop_last() =~= a + b.drop_last());
        assert((a + b).last() == b.last());
        lemma_last_index_of_append(a, b.drop_last(), c);
    } else {
        assert(a + b =~= a);
    }
}

/// A cookie whose signature part is not the token's signature under the
/// secret verifies to nothing, whatever else it carries: altering the
/// signature of a signed cookie makes it worthless.
pub proof fn law_altered_signature_refused(secret: Seq<u8>, token: Seq<char>, signature: Seq<char>)
    requires
        signature != cookie_signature(secret, token),
        forall|k: int| 0 <= k < signature.len() ==> #[trigger] signature[k] != '.',
    ensures
        verified_token(secret, percent_encode(encode_utf8(token + seq!['.'] + signature))) is None,
{
    let d = token + seq!['.'] + signature;
    law_decode_after_encode(d);
    assert((token + seq!['.']).last() == '.');
    lemma_last_index_of_append(token + seq!['.'], signature, '.');
    assert(last_index_of(d, '.') == Some(token.len() as int));
    assert(d.take(token.len() as int) =~= token);
    assert(d.skip(token.len() as int + 1) =~= signature);
}

impl AuthService {
    /// The signed cookie value for `token`; it verifies back to `token`
    /// under the same secret.
    pub fn signed_cookie_value(&self, token: &str) -> (r: String)
        ensures
            r@ == signed_value(self.secret@, token@),
            verified_token(self.secret@, r@) == Some(token@),
    {
        let tag = hmac_sha256_tag(self.secret.as_slice(), token.as_bytes()).unwrap();
        let signature = encode_base64_standard(tag.as_slice());
        let mut joined = token.to_owned();
        push_char(&mut joined, '.');
        let sv = to_chars(signature.as_str());
        let mut i: usize = 0;
        while i < sv.len()
            invariant
                sv@ == signature@,
                i <= sv@.len(),
                joined@ == token@ + seq!['.'] + signature@.take(i as int),
            decreases sv@.len() - i,
        {
            push_char(&mut joined, sv[i]);
            i = i + 1;
            assert(joined@ =~= token@ + seq!['.'] + signature@.take(i as int));
        }
        assert(signature@.take(sv@.len() as int) =~= signature@);
        let r = encode_cookie_component(joined.as_str());
        proof {
            let sig = signature@;
            assert(sig == cookie_signature(self.secret@, token@));
            law_decode_after_encode(joined@);
            assert forall|k: int| 0 <= k < sig.len() implies #[trigger] sig[k] != '.' by {
                assert(standard_base64_char(sig[k]));
            }
            assert((token@ + seq!['.']).last() == '.');
            lemma_last_index_of_append(token@ + seq!['.'], sig, '.');
            let d = joined@;
            assert(last_index_of(d, '.') == Some(token@.len() as int));
            assert(d.take(token@.len() as int) =~= token@);
            assert(d.skip(token@.len() as int + 1) =~= sig);
        }
        r
    }

    /// The token that `value` carries when its signature is the HMAC of that
    /// token under the service secret; `None` otherwise.
    pub fn verify_cookie_value(&self, value: &str) -> (r: Option<String>)
        ensures
            match verified_token(self.secret@, value@) {
                Some(t) => r matches Some(s) && s@ == t,
                None => r is None,
            },
    {
        let decoded = decode_cookie_component(value);
        let chars = to_chars(decoded.as_str());
        let k = match rfind_char(&chars, '.') {
            Some(k) => k,
            None => return None,
        };
        assert(k < chars.len());
        let token = string_from_range(&chars, 0, k);
        let signature = string_from_range(&chars, k + 1, chars.len());
        assert(token@ =~= decoded@.take(k as int));
        assert(signature@ =~= decoded@.skip(k + 1));
        let decoded_tag = decode_base64_standard(signature.as_str());
        proof {
            let expected = hmac_sha256(self.secret@, encode_utf8(token@));
            if base64_standard(expected) == signature@ {
                assert(decoded_tag is Some);
            }
        }
        let tag = match decoded_tag {
            Some(tag) => tag,
            None => return None,
        };
        if !hmac_sha256_verify(self.secret.as_slice(), token.as_str().as_bytes(), tag.as_slice()) {
            return None;
        }
        assert(tag@ == hmac_sha256(self.secret@, encode_utf8(token@)));
        assert(base64_standard(tag@) == signature@);
        assert(decode_component(value@) == decoded@);
        assert(last_index_of(decoded@, '.') == Some(k as int));
        Some(token)
    }
}

} // verus!
