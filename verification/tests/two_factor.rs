use lucid_auth::service::entropy::distinct_bytes;
use lucid_auth::service::two_factor::{backup_codes, random_alphanumeric};

fn is_alnum(c: char) -> bool {
    c.is_ascii_lowercase() || c.is_ascii_uppercase() || c.is_ascii_digit()
}

#[test]
fn backup_codes_have_a_hyphen_after_five_characters() {
    let codes = backup_codes(10, 10);
    assert_eq!(codes.len(), 10);
    for code in &codes {
        let chars: Vec<char> = code.chars().collect();
        assert_eq!(chars.len(), 11);
        assert_eq!(chars[5], '-');
        for (i, c) in chars.iter().enumerate() {
            if i != 5 {
                assert!(is_alnum(*c));
            }
        }
    }
}

#[test]
fn short_backup_codes_end_with_the_hyphen() {
    let codes = backup_codes(3, 3);
    assert_eq!(codes.len(), 3);
    for code in &codes {
        assert_eq!(code.len(), 4);
        assert!(code.ends_with('-'));
    }
    assert!(backup_codes(0, 8).is_empty());
    assert_eq!(backup_codes(1, 0), vec!["-".to_string()]);
}

#[test]
fn random_alphanumeric_draws_from_letters_and_digits() {
    let raw = random_alphanumeric(64);
    assert_eq!(raw.len(), 64);
    assert!(raw.iter().all(|c| is_alnum(*c)));
}

#[test]
fn distinct_bytes_counts_each_byte_value_once() {
    assert_eq!(distinct_bytes(b""), 0);
    assert_eq!(distinct_bytes(b"aaaa"), 1);
    assert_eq!(distinct_bytes(b"abcabc"), 3);
    assert_eq!(distinct_bytes(&[0u8, 255, 0, 128]), 3);
}
