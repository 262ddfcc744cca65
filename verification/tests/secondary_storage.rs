use lucid_auth::secondary_storage::{parse_u64, MemorySecondaryStorage, StorageError};

#[test]
fn values_read_back_until_they_expire() {
    let mut s = MemorySecondaryStorage::new();
    s.set("k", "v".to_string(), Some(10), 1_000).unwrap();
    assert_eq!(s.get("k", 10_999).as_deref(), Some("v"));
    assert_eq!(s.get("k", 11_000), None);
    // The expired entry was dropped.
    assert!(s.entries.is_empty());
    s.set("p", "forever".to_string(), None, 0).unwrap();
    assert_eq!(s.get("p", i64::MAX / 2).as_deref(), Some("forever"));
}

#[test]
fn get_and_delete_takes_the_value_once() {
    let mut s = MemorySecondaryStorage::new();
    s.set("k", "v".to_string(), None, 0).unwrap();
    assert_eq!(s.get_and_delete("k", 0).as_deref(), Some("v"));
    assert_eq!(s.get_and_delete("k", 0), None);
    s.set("e", "x".to_string(), Some(1), 0).unwrap();
    assert_eq!(s.get_and_delete("e", 1_000), None);
    assert!(s.entries.is_empty());
}

#[test]
fn deleted_keys_read_as_absent() {
    let mut s = MemorySecondaryStorage::new();
    s.set("k", "v".to_string(), None, 0).unwrap();
    s.delete("k");
    assert_eq!(s.get("k", 0), None);
    s.delete("missing");
}

#[test]
fn counters_count_and_keep_their_first_expiry() {
    let mut s = MemorySecondaryStorage::new();
    assert_eq!(s.increment("n", Some(60), 0).unwrap(), 1);
    assert_eq!(s.increment("n", Some(5), 1_000).unwrap(), 2);
    assert_eq!(s.entries[0].value.expires_at, Some(60_000));
    assert_eq!(s.get("n", 2_000).as_deref(), Some("2"));
    // Once expired, the count starts over with the new time to live.
    assert_eq!(s.increment("n", Some(5), 60_000).unwrap(), 1);
    assert_eq!(s.entries[0].value.expires_at, Some(65_000));
}

#[test]
fn counters_start_over_on_unreadable_values_and_saturate() {
    let mut s = MemorySecondaryStorage::new();
    s.set("n", "not a number".to_string(), None, 0).unwrap();
    assert_eq!(s.increment("n", None, 0).unwrap(), 1);
    s.set("m", u64::MAX.to_string(), None, 0).unwrap();
    assert_eq!(s.increment("m", None, 0).unwrap(), u64::MAX);
    s.set("p", "+41".to_string(), None, 0).unwrap();
    assert_eq!(s.increment("p", None, 0).unwrap(), 42);
}

#[test]
fn oversized_time_to_live_is_refused() {
    let mut s = MemorySecondaryStorage::new();
    let e = s.set("k", "v".to_string(), Some(u64::MAX), 0).unwrap_err();
    assert_eq!(e, StorageError::TtlTooLarge);
    assert_eq!(e.message(), "secondary-storage TTL is too large");
    assert!(s.entries.is_empty());
    assert_eq!(s.increment("c", Some(u64::MAX), 0).unwrap_err(), StorageError::TtlTooLarge);
}

#[test]
fn numbers_parse_as_rust_reads_them() {
    assert_eq!(parse_u64("0"), Some(0));
    assert_eq!(parse_u64("0042"), Some(42));
    assert_eq!(parse_u64("+7"), Some(7));
    assert_eq!(parse_u64("18446744073709551615"), Some(u64::MAX));
    assert_eq!(parse_u64("18446744073709551616"), None);
    assert_eq!(parse_u64(""), None);
    assert_eq!(parse_u64("+"), None);
    assert_eq!(parse_u64("-1"), None);
    assert_eq!(parse_u64("1 "), None);
    for n in [0u64, 9, 10, 12345, u64::MAX] {
        assert_eq!(parse_u64(&n.to_string()), Some(n));
        assert_eq!(parse_u64(&n.to_string()), n.to_string().parse::<u64>().ok());
    }
}

#[test]
fn counting_in_a_row_gives_one_to_k() {
    let mut s = MemorySecondaryStorage::new();
    for k in 1..=5u64 {
        assert_eq!(s.increment("row", Some(30), 1_000).unwrap(), k);
    }
    assert_eq!(s.get("row", 1_000).as_deref(), Some("5"));
}
