use glycerin::adblock::AdBlockFilter;
use glycerin::cache::{CachePriority, CacheRead, MultiLayerCache};
use glycerin::encoding::base64_encode;
use glycerin::engine::ProxyRotation;

#[test]
fn test_proxy_rotation() {
    let mut rotation = ProxyRotation::new();
    let p1 = rotation.get_next_proxy();
    let p2 = rotation.get_next_proxy();
    assert_ne!(p1, p2);
}

#[test]
fn test_cache_system() {
    let mut cache = MultiLayerCache::new("./test_cache", 10).unwrap();

    // Test set and get
    cache.set(
        "test_key".to_string(),
        b"test_data".to_vec(),
        CachePriority::Normal,
        Some(3600),
    );

    let retrieved = match cache.get("test_key") {
        CacheRead::Hit(data) => Some(data),
        CacheRead::ReadDisk(_) => None,
    };
    assert!(retrieved.is_some());
    assert_eq!(retrieved.unwrap(), b"test_data");

    // Cleanup
    cache.clear();
}

#[test]
fn test_adblocker() {
    let mut filter = AdBlockFilter::new();

    // Test known ad domain
    assert!(filter.should_block("https://doubleclick.net/ads"));
    assert!(filter.should_block("https://analytics.google.com/track"));

    // Test clean URL
    assert!(!filter.should_block("https://example.com/page"));

    let stats = filter.get_stats();
    assert!(stats.ads_blocked >= 2);
}

#[test]
fn test_base64_encode() {
    assert_eq!(base64_encode(b"Hello"), "SGVsbG8=");
    assert_eq!(base64_encode(b""), "");
}
