use crablet::cache::{cache_key, ResponseCache};
use sha2::{Digest, Sha256};

#[test]
fn key_is_hex_sha256_of_json_then_model() {
    assert_eq!(cache_key(b"", ""), "e3b0c44298fc1c149afbf4c8996fb92427ae41e4649b934ca495991b7852b855");
    let json = br#"[{"role":"user","content":"hi"}]"#;
    let mut h = Sha256::new();
    h.update(json);
    h.update(b"gpt-4");
    let expected: String = h.finalize().iter().map(|b| format!("{:02x}", b)).collect();
    assert_eq!(cache_key(json, "gpt-4"), expected);
    assert_ne!(cache_key(json, "gpt-4"), cache_key(json, "qwen"));
}

#[test]
fn stored_responses_are_found() {
    let mut cache = ResponseCache::new(2);
    assert_eq!(cache.lookup("k1"), None);
    cache.store("k1".to_string(), "r1".to_string());
    assert_eq!(cache.lookup("k1").as_deref(), Some("r1"));
    cache.store("k1".to_string(), "r1b".to_string());
    assert_eq!(cache.lookup("k1").as_deref(), Some("r1b"));
}

#[test]
fn least_recently_used_is_dropped() {
    let mut cache = ResponseCache::new(2);
    cache.store("a".to_string(), "1".to_string());
    cache.store("b".to_string(), "2".to_string());
    // Reading "a" makes "b" the least recently used.
    assert_eq!(cache.lookup("a").as_deref(), Some("1"));
    cache.store("c".to_string(), "3".to_string());
    assert_eq!(cache.lookup("b"), None);
    assert_eq!(cache.lookup("a").as_deref(), Some("1"));
    assert_eq!(cache.lookup("c").as_deref(), Some("3"));
}

#[test]
fn zero_capacity_means_one_hundred() {
    let mut cache = ResponseCache::new(0);
    for i in 0..100 {
        cache.store(format!("k{}", i), format!("v{}", i));
    }
    assert_eq!(cache.lookup("k0").as_deref(), Some("v0"));
    cache.store("k100".to_string(), "v100".to_string());
    // "k0" was just read, so "k1" is the oldest and goes.
    assert_eq!(cache.lookup("k1"), None);
    assert_eq!(cache.lookup("k0").as_deref(), Some("v0"));
}
