use glycerin::cache::{CachePriority, CacheRead, MultiLayerCache};

#[test]
fn data_read_from_disk_is_promoted_to_memory() {
    let mut cache = MultiLayerCache::new("./unused_cache", 1).unwrap();
    let name = match cache.get_at("page", 100) {
        CacheRead::ReadDisk(name) => name,
        CacheRead::Hit(_) => panic!("nothing is in memory yet"),
    };
    assert_eq!(name, MultiLayerCache::l2_file_name("page"));
    assert_eq!(cache.record_disk_read_at("page", Some(b"<html>".to_vec()), 100), Some(b"<html>".to_vec()));
    assert_eq!(cache.hit_count(), 1);
    match cache.get_at("page", 5_000_000) {
        CacheRead::Hit(data) => assert_eq!(data, b"<html>"),
        CacheRead::ReadDisk(_) => panic!("the disk data was promoted"),
    }
    assert_eq!(cache.hit_count(), 2);
}

#[test]
fn a_missing_disk_file_counts_a_miss_and_promotes_nothing() {
    let mut cache = MultiLayerCache::new("./unused_cache", 1).unwrap();
    assert_eq!(cache.record_disk_read_at("gone", None, 7), None);
    assert_eq!(cache.miss_count(), 1);
    assert!(matches!(cache.get_at("gone", 7), CacheRead::ReadDisk(_)));
    cache.set_at("kept".to_string(), b"x".to_vec(), CachePriority::Low, Some(1), 10);
    assert!(matches!(cache.get_at("kept", 12), CacheRead::ReadDisk(_)));
}
