use mirror_hash::Mirror256;

#[test]
fn test_empty_message_digest_is_all_zero() {
    let hasher = Mirror256::new(Some(""), None, None, true);
    assert_eq!(hasher.digest(), vec![0u8; 32]);
    assert_eq!(
        hasher.hexdigest(),
        "0x0000000000000000000000000000000000000000000000000000000000000000"
    );
}

#[test]
fn test_no_message_matches_empty_message() {
    let fresh = Mirror256::new(None, None, None, true);
    let empty = Mirror256::new(Some(""), None, None, true);
    assert_eq!(fresh.hexdigest(), empty.hexdigest());
}

#[test]
fn test_padding_matches_explicit_pad_bytes() {
    // One byte padded with 31 bytes of 'A' (0x41) finalizes exactly like
    // the explicit 32-byte message, though only the latter rotates the
    // key window.
    let padded = Mirror256::new(Some("X"), None, None, true);
    let explicit = Mirror256::new(Some("XAAAAAAAAAAAAAAAAAAAAAAAAAAAAAAA"), None, None, true);
    assert_eq!(padded.hexdigest(), explicit.hexdigest());
}

#[test]
fn test_single_block_message_changes_digest() {
    // A 32-byte message finalizes over the unpadded block itself, so the
    // digest moves away from the all-zero initial state.
    let hasher = Mirror256::new(Some("0123456789abcdef0123456789abcdef"), None, None, true);
    assert_ne!(hasher.digest(), vec![0u8; 32]);
}

#[test]
fn test_output_size_tracks_state_width() {
    let narrow = Mirror256::new(Some("size check"), None, Some(128), true);
    assert_eq!(narrow.digest().len(), 16);
    let default_width = Mirror256::new(Some("size check"), None, None, true);
    assert_eq!(default_width.digest().len(), 32);
    let mut long = Mirror256::new(None, None, None, true);
    for _ in 0..10 {
        long.update("a long stretch of input, well past one chunk");
    }
    assert_eq!(long.digest().len(), 32);
}

#[test]
fn test_random_mode_is_reproducible() {
    let first = Mirror256::new(Some("seeded draw"), None, None, false);
    let second = Mirror256::new(Some("seeded draw"), None, None, false);
    assert_eq!(first.hexdigest(), second.hexdigest());
    assert_ne!(first.digest(), vec![0u8; 32]);
}

#[test]
fn test_hexdigest_matches_digest_bytes() {
    let hasher = Mirror256::new(Some("hex rendering"), None, None, true);
    let mut expected = String::from("0x");
    for b in hasher.digest() {
        expected.push_str(&format!("{:02x}", b));
    }
    assert_eq!(hasher.hexdigest(), expected);
}

#[test]
fn test_free_constructor_uses_defaults() {
    let free = mirror_hash::new(Some("defaults"));
    let explicit = Mirror256::new(Some("defaults"), Some(128), Some(256), true);
    assert_eq!(free.hexdigest(), explicit.hexdigest());
}

#[test]
fn test_sensitivity_at_equal_length() {
    let m1 = Mirror256::new(Some("sensitivity-a"), None, None, true);
    let m2 = Mirror256::new(Some("sensitivity-b"), None, None, true);
    assert_ne!(m1.hexdigest(), m2.hexdigest());
}
