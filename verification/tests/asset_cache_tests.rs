use std::time::Duration;
use slv_rust::asset_cache::AssetCache;
use slv_rust::assets::AssetType;

fn id(n: u8) -> [u8; 16] {
    [n; 16]
}

#[test]
fn put_then_get_and_counters() {
    let mut c = AssetCache::new(1);
    assert_eq!(c.get(&id(1)), None);
    c.put(id(1), AssetType::Texture, vec![1, 2, 3]);
    assert!(c.contains(&id(1)));
    assert_eq!(c.get(&id(1)), Some(vec![1, 2, 3]));
    c.put(id(1), AssetType::Texture, vec![9]);
    assert_eq!(c.get(&id(1)), Some(vec![1, 2, 3]));
    let s = c.stats();
    assert_eq!((s.total_requests, s.hits, s.misses, s.cache_entries), (3, 2, 1, 1));
    assert_eq!(s.total_bytes_cached, 3);
    assert_eq!(c.current_size(), 3);
}

#[test]
fn least_recently_used_assets_are_evicted_first() {
    let mut c = AssetCache::new(1);
    let mb = 1024 * 1024;
    c.put(id(1), AssetType::Texture, vec![0; mb / 2]);
    c.put(id(2), AssetType::Texture, vec![0; mb / 4]);
    assert!(c.get(&id(1)).is_some());
    c.put(id(3), AssetType::Texture, vec![0; mb / 2]);
    assert!(c.contains(&id(1)));
    assert!(!c.contains(&id(2)));
    assert!(c.contains(&id(3)));
    assert!(c.current_size() <= mb);
    assert_eq!(c.stats().evictions, 1);
}

#[test]
fn oversized_asset_clears_cache() {
    let mut c = AssetCache::new(1);
    c.put(id(1), AssetType::Sound, vec![0; 10]);
    c.put(id(2), AssetType::Sound, vec![0; 2 * 1024 * 1024]);
    assert!(!c.contains(&id(1)));
    assert!(c.contains(&id(2)));
}

#[test]
fn remove_clear_and_maintenance() {
    let mut c = AssetCache::new(1);
    c.put(id(1), AssetType::Mesh, vec![5; 4]);
    c.put(id(2), AssetType::Mesh, vec![6; 4]);
    assert!(c.remove(&id(1)));
    assert!(!c.remove(&id(1)));
    assert_eq!(c.current_size(), 4);
    c.maintenance(&Duration::from_secs(3600));
    assert!(c.contains(&id(2)));
    let start = std::time::Instant::now();
    while start.elapsed() < Duration::from_millis(2) {}
    c.maintenance(&Duration::from_nanos(1));
    assert!(!c.contains(&id(2)));
    c.put(id(3), AssetType::Mesh, vec![1]);
    c.clear();
    assert_eq!(c.current_size(), 0);
    assert!(!c.contains(&id(3)));
}

#[test]
fn eviction_stops_once_there_is_room() {
    let mut c = AssetCache::new(1);
    let q = 256 * 1024;
    for n in 1..=4u8 {
        c.put(id(n), AssetType::Texture, vec![0; q]);
    }
    c.put(id(5), AssetType::Texture, vec![0; q]);
    assert!(!c.contains(&id(1)));
    for n in 2..=5u8 {
        assert!(c.contains(&id(n)));
    }
    let s = c.stats();
    assert_eq!(s.evictions, 1);
    assert_eq!(s.cache_entries, 4);
    assert_eq!(s.total_bytes_cached, 5 * q as u64);
}
