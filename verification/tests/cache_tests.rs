use hn_core::cache::Cache;

#[test]
fn test_cache_insert_and_get() {
    let mut cache = Cache::new(300); // 5 minutes
    cache.insert("key1".to_string(), "value1".to_string());

    assert_eq!(cache.get("key1"), Some("value1".to_string()));
    assert_eq!(cache.get("key2"), None);
}

#[test]
fn test_cache_expiration() {
    let mut cache = Cache::new(1); // 1 second TTL
    cache.insert_at("key1".to_string(), "value1".to_string(), 0);

    // Should exist immediately
    assert_eq!(cache.get_at("key1", 0), Some("value1".to_string()));

    // Two seconds later it should be expired
    assert_eq!(cache.get_at("key1", 2000), None);
}

#[test]
fn test_cache_cleanup() {
    let mut cache = Cache::new(1); // 1 second TTL
    cache.insert_at("key1".to_string(), "value1".to_string(), 0);
    cache.insert_at("key2".to_string(), "value2".to_string(), 0);

    assert_eq!(cache.len(), 2);

    // Cleanup expired entries two seconds later
    cache.cleanup_at(2000);

    assert_eq!(cache.len(), 0);
}

#[test]
fn test_cache_clear() {
    let mut cache = Cache::new(300);
    cache.insert("key1".to_string(), "value1".to_string());
    cache.insert("key2".to_string(), "value2".to_string());

    assert_eq!(cache.len(), 2);

    cache.clear();

    assert_eq!(cache.len(), 0);
}

#[test]
fn cache_entry_expires_exactly_at_its_ttl() {
    let mut cache: Cache<u32> = Cache::new(300);
    cache.insert_at("k".to_string(), 7, 1_000);
    assert_eq!(cache.get_at("k", 1_000), Some(7));
    assert_eq!(cache.get_at("k", 300_999), Some(7));
    assert_eq!(cache.get_at("k", 301_000), None);
    assert_eq!(cache.get_at("k", u64::MAX), None);
}

#[test]
fn cache_read_before_the_time_of_the_insert_is_fresh() {
    let mut cache: Cache<u32> = Cache::new(1);
    cache.insert_at("k".to_string(), 7, 5_000);
    assert_eq!(cache.get_at("k", 0), Some(7));
}

#[test]
fn cache_stale_read_survives_expiry_until_cleanup() {
    let mut cache: Cache<u32> = Cache::new(1);
    cache.insert_at("k".to_string(), 7, 0);
    assert_eq!(cache.get_at("k", 1_000), None);
    assert_eq!(cache.get_stale("k"), Some(7));
    assert_eq!(cache.len(), 1);
    cache.cleanup_at(999);
    assert_eq!(cache.get_stale("k"), Some(7));
    cache.cleanup_at(1_000);
    assert_eq!(cache.get_stale("k"), None);
    assert!(cache.is_empty());
}

#[test]
fn cache_stale_read_ends_with_clear() {
    let mut cache: Cache<u32> = Cache::new(1);
    cache.insert_at("k".to_string(), 7, 0);
    cache.clear();
    assert_eq!(cache.get_stale("k"), None);
}

#[test]
fn cache_insert_overwrites_and_renews() {
    let mut cache: Cache<u32> = Cache::new(10);
    cache.insert_at("k".to_string(), 1, 0);
    cache.insert_at("k".to_string(), 2, 5_000);
    assert_eq!(cache.len(), 1);
    assert_eq!(cache.get_at("k", 10_000), Some(2));
    assert_eq!(cache.get_at("k", 14_999), Some(2));
    assert_eq!(cache.get_at("k", 15_000), None);
}

#[test]
fn cache_cleanup_keeps_fresh_entries() {
    let mut cache: Cache<u32> = Cache::new(10);
    cache.insert_at("old".to_string(), 1, 0);
    cache.insert_at("new".to_string(), 2, 8_000);
    cache.insert_at("other".to_string(), 3, 9_000);
    cache.cleanup_at(10_000);
    assert_eq!(cache.len(), 2);
    assert_eq!(cache.get_stale("old"), None);
    assert_eq!(cache.get_at("new", 10_000), Some(2));
    assert_eq!(cache.get_at("other", 10_000), Some(3));
}

#[test]
fn cache_with_the_longest_ttl_never_overflows() {
    let mut cache: Cache<u32> = Cache::new(u64::MAX);
    cache.insert_at("k".to_string(), 7, u64::MAX);
    assert_eq!(cache.get_at("k", u64::MAX), Some(7));
}

#[test]
fn cache_with_zero_ttl_is_never_fresh() {
    let mut cache: Cache<u32> = Cache::new(0);
    cache.insert_at("k".to_string(), 7, 5);
    assert_eq!(cache.get_at("k", 5), None);
    assert_eq!(cache.get_stale("k"), Some(7));
    assert!(!cache.is_empty());
}

#[test]
fn cache_new_is_empty() {
    let cache: Cache<u32> = Cache::new(300);
    assert!(cache.is_empty());
    assert_eq!(cache.len(), 0);
    assert_eq!(cache.get("k"), None);
}
