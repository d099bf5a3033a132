use mirror_hash::Mirror256;

#[test]
fn lib_test_empty_string() {
    let hasher = Mirror256::new(Some(""), None, None, true);
    let digest = hasher.hexdigest();
    assert!(!digest.is_empty());
}

#[test]
fn test_canary_string() {
    let hasher = Mirror256::new(Some("This is the canary."), None, None, true);
    let digest = hasher.hexdigest();
    assert!(!digest.is_empty());
}

#[test]
fn lib_test_consistency() {
    let hasher1 = Mirror256::new(Some("test"), None, None, true);
    let hasher2 = Mirror256::new(Some("test"), None, None, true);
    assert_eq!(hasher1.hexdigest(), hasher2.hexdigest());
}

#[test]
fn lib_test_different_inputs() {
    let hasher1 = Mirror256::new(Some("test1"), None, None, true);
    let hasher2 = Mirror256::new(Some("test2"), None, None, true);
    assert_ne!(hasher1.hexdigest(), hasher2.hexdigest());
}

#[test]
fn mirror256_tests_test_empty_string() {
    let hasher = Mirror256::new(Some(""), None, None, true);
    let digest = hasher.hexdigest();
    println!("Empty string hash: {}", digest);
    assert!(!digest.is_empty());
}

#[test]
fn mirror256_tests_test_consistency() {
    let hasher1 = Mirror256::new(Some("Test message for consistency"), None, None, true);
    let hasher2 = Mirror256::new(Some("Test message for consistency"), None, None, true);
    assert_eq!(hasher1.hexdigest(), hasher2.hexdigest());
}

#[test]
fn mirror256_tests_test_different_inputs() {
    let hasher1 = Mirror256::new(Some("First message"), None, None, true);
    let hasher2 = Mirror256::new(Some("Second message"), None, None, true);
    assert_ne!(hasher1.hexdigest(), hasher2.hexdigest());
}

#[test]
fn test_incremental_updates() {
    let single = Mirror256::new(Some("Hello, world!"), None, None, true);
    let mut incremental = Mirror256::new(None, None, None, true);
    incremental.update("Hello, ");
    incremental.update("world!");
    let single_digest = single.hexdigest();
    let incremental_digest = incremental.hexdigest();
    println!("Single update digest: {}", single_digest);
    println!("Incremental update digest: {}", incremental_digest);
    assert_eq!(single_digest.len(), incremental_digest.len());
    // The API does not promise that incremental calls agree with a
    // single call; for this input, where no chunk boundary is crossed
    // between the calls, they happen to coincide.
    assert_eq!(single_digest, incremental_digest);
}

#[test]
fn test_long_input() {
    let mut hasher = Mirror256::new(None, None, None, true);
    for i in 0..100 {
        hasher.update(&format!("Chunk#{} ", i));
    }
    let digest = hasher.hexdigest();
    assert_eq!(digest.len(), 66);
}

#[test]
fn test_standard_vs_random_state() {
    let standard = Mirror256::new(Some("Test message for state comparison"), None, None, true);
    let random = Mirror256::new(Some("Test message for state comparison"), None, None, false);
    let standard_digest = standard.hexdigest();
    let random_digest = random.hexdigest();
    println!("Standard and random state produced same digest: {}", standard_digest == random_digest);
    assert_ne!(standard_digest, random_digest);
}

#[test]
fn test_canary() {
    let hasher = Mirror256::new(Some("This is the canary."), None, None, true);
    let digest = hasher.hexdigest();
    println!("Canary message hash: {}", digest);
    assert_eq!(
        digest,
        "0x343274d232c35209626a4eaccd90264d3c43bb2077a9d6ca6b5f36943641815f"
    );
}

#[test]
fn test_depth_parameter() {
    let shallow = Mirror256::new(Some("Test message for depth parameter"), Some(16), None, true);
    let deep = Mirror256::new(Some("Test message for depth parameter"), Some(128), None, true);
    let shallow_digest = shallow.hexdigest();
    let deep_digest = deep.hexdigest();
    println!("Depth 16 digest: {}", shallow_digest);
    println!("Depth 128 digest: {}", deep_digest);
    assert_eq!(shallow_digest.len(), deep_digest.len());
    assert_ne!(shallow_digest, deep_digest);
}

#[test]
fn test_special_characters() {
    let message = "!@#$%^&*()_+-=[]{}|;':\",./<>?";
    let hasher1 = Mirror256::new(Some(message), None, None, true);
    let hasher2 = Mirror256::new(Some(message), None, None, true);
    assert_eq!(hasher1.hexdigest(), hasher2.hexdigest());
}

#[test]
fn test_unicode_characters() {
    let ascii = Mirror256::new(
        Some("Hello World! This is a test with ASCII characters."),
        None,
        None,
        true,
    );
    let ascii_digest = ascii.hexdigest();
    println!("ASCII test hash: {}", ascii_digest);
    assert_eq!(ascii_digest.len(), 66);
    let unicode = Mirror256::new(Some("こんにちは"), None, None, true);
    let unicode_digest = unicode.hexdigest();
    println!("Unicode test hash: {}", unicode_digest);
    assert_eq!(unicode_digest.len(), 66);
}
