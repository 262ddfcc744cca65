//! Backup codes for two-factor authentication.

use crate::random::random_below;
use crate::text::string_from_chars;
use vstd::prelude::*;

verus! {

/// The characters that random codes are drawn from: ASCII letters and
/// digits.
pub open spec fn alphanumeric(c: char) -> bool {
    ('a' <= c && c <= 'z') || ('A' <= c && c <= 'Z') || ('0' <= c && c <= '9')
}

/// Where the hyphen of a backup code of `length` random characters stands.
pub open spec fn hyphen_position(length: nat) -> nat {
    if length < 5 { length } else { 5 }
}

/// A well-formed backup code: `length` alphanumeric characters with a hyphen
/// inserted after the first five (or after all of them, when there are
/// fewer).
pub open spec fn is_backup_code(code: Seq<char>, length: nat) -> bool {
    &&& code.len() == length + 1
    &&& code[hyphen_position(length) as int] == '-'
    &&& forall|i: int| 0 <= i < code.len() && i != hyphen_position(length) ==> alphanumeric(#[trigger] code[i])
}

/// The `i`-th character of the alphabet, lower-case letters first, then
/// upper-case letters, then digits.
fn alphabet_at(i: usize) -> (c: char)
    requires
        i < 62,
    ensures
        alphanumeric(c),
{
    if i < 26 {
        ((i as u8) + 97) as char
    } else if i < 52 {
        ((i as u8) - 26 + 65) as char
    } else {
        ((i as u8) - 52 + 48) as char
    }
}

/// `length` characters drawn uniformly from the alphanumeric alphabet.
pub fn random_alphanumeric(length: usize) -> (r: Vec<char>)
    ensures
        r@.len() == length,
        forall|i: int| 0 <= i < r@.len() ==> alphanumeric(#[trigger] r@[i]),
{
    let mut chars: Vec<char> = Vec::new();
    let mut n: usize = 0;
    while n < length
        invariant
            n <= length,
            chars@.len() == n,
            forall|i: int| 0 <= i < chars@.len() ==> alphanumeric(#[trigger] chars@[i]),
        decreases length - n,
    {
        let c = alphabet_at(random_below(62));
        chars.push(c);
        n = n + 1;
    }
    chars
}

/// `amount` fresh backup codes of `length` random characters each, every
/// one written with a hyphen after its first five characters.
pub fn backup_codes(amount: usize, length: usize) -> (r: Vec<String>)
    requires
        length < usize::MAX,
    ensures
        r@.len() == amount,
        forall|k: int| 0 <= k < r@.len() ==> is_backup_code(#[trigger] r@[k]@, length as nat),
{
    let mut codes: Vec<String> = Vec::new();
    let mut k: usize = 0;
    while k < amount
        invariant
            k <= amount,
            length < usize::MAX,
            codes@.len() == k,
            forall|j: int| 0 <= j < codes@.len() ==> is_backup_code(#[trigger] codes@[j]@, length as nat),
        decreases amount - k,
    {
        let raw = random_alphanumeric(length);
        let split: usize = if length < 5 { length } else { 5 };
        let mut code: Vec<char> = Vec::new();
        let mut i: usize = 0;
        while i < length
            invariant
                raw@.len() == length,
                forall|j: int| 0 <= j < raw@.len() ==> alphanumeric(#[trigger] raw@[j]),
                split == hyphen_position(length as nat),
                i <= length,
                code@.len() == if i <= split { i as int } else { i + 1 },
                i > split ==> code@[split as int] == '-',
                forall|j: int| 0 <= j < code@.len() && (i <= split || j != split) ==> alphanumeric(#[trigger] code@[j]),
            decreases length - i,
        {
            if i == split {
                code.push('-');
            }
            code.push(raw[i]);
            i = i + 1;
        }
        if split == length {
            code.push('-');
        }
        let s = string_from_chars(&code);
        codes.push(s);
        k = k + 1;
    }
    codes
}

} // verus!
