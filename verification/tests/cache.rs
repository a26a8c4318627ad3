use treeupdt::cache::{Cache, CacheEntry};

#[test]
fn cache_key_is_the_sha256_of_the_joined_parts() {
    let cache = Cache::new("/tmp/cache".to_string());
    // sha256("github:NixOS/nixpkgs:latest_version")
    let key = cache.cache_key("github", "NixOS/nixpkgs", "latest_version");
    assert_eq!(key.len(), 64);
    assert!(key.chars().all(|c| c.is_ascii_hexdigit() && !c.is_ascii_uppercase()));
    assert_eq!(key, cache.cache_key("github", "NixOS/nixpkgs", "latest_version"));
    assert_ne!(key, cache.cache_key("github", "NixOS/nixpkgs", "versions"));
    // sha256("a:b:c")
    assert_eq!(
        cache.cache_key("a", "b", "c"),
        "b0ee04f880c4ff4261479e2e7822b7410aee4c7159f4185ad5b0d88a312b495e"
    );
}

#[test]
fn cache_path_is_directory_key_and_extension() {
    let cache = Cache::new("/var/cache/treeupdt".to_string());
    assert_eq!(cache.cache_path("abc"), "/var/cache/treeupdt/abc.json");
}

#[test]
fn cache_ttl_defaults_to_an_hour_and_can_be_set() {
    let cache = Cache::new("d".to_string());
    assert_eq!(cache.ttl, 3600);
    let short = cache.with_ttl(300);
    assert_eq!(short.ttl, 300);
    assert_eq!(short.cache_dir, "d");
}

#[test]
fn entry_expires_after_its_time_to_live() {
    let second: u128 = 1_000_000_000;
    let entry = CacheEntry::new("data".to_string(), 100 * second);
    assert_eq!(entry.data, "data");
    assert_eq!(entry.timestamp, 100 * second);
    assert!(!entry.is_expired(100 * second, 10));
    assert!(!entry.is_expired(110 * second, 10));
    assert!(entry.is_expired(110 * second + 1, 10));
    assert!(entry.is_expired(200 * second, 10));
    // an entry from the future is expired
    assert!(entry.is_expired(99 * second, 10));
    assert!(!entry.is_expired(100 * second, 0));
    assert!(entry.is_expired(100 * second + 1, 0));
}
