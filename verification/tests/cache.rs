use sandwich_core::{ImageCache, MemBackend};

#[test]
fn test_cache_creation() {
    let cache = ImageCache::new(100);
    let stats = cache.stats();
    assert_eq!(stats.memory_capacity, 100);
    assert_eq!(stats.memory_entries, 0);
}

#[test]
fn test_cache_zero_capacity_falls_back() {
    let cache = ImageCache::new(0);
    assert_eq!(cache.stats().memory_capacity, 1000);
}

#[test]
fn test_cache_put_get() {
    let mut backend = MemBackend::new();
    let mut cache = ImageCache::new(100);

    let data = b"test data".to_vec();
    cache.put(&mut backend, &"test-key".to_string(), &data).unwrap();

    let result = cache.get(&mut backend, &"test-key".to_string()).unwrap();
    assert_eq!(result, Some(data));
}

#[test]
fn test_memory_hit_skips_backend() {
    let mut backend = MemBackend::new();
    let mut cache = ImageCache::new(10);

    let data = vec![1u8, 2, 3];
    cache.put(&mut backend, &"k".to_string(), &data).unwrap();
    assert_eq!(backend.save_calls, 1);

    let before = backend.fetch_cached_calls;
    let got = cache.get(&mut backend, &"k".to_string()).unwrap();
    assert_eq!(got, Some(data));
    assert_eq!(backend.fetch_cached_calls, before);
}

#[test]
fn test_backend_hit_fills_memory() {
    let mut backend = MemBackend::new();
    backend.insert_cached("warm", vec![7u8, 8, 9]);
    let mut cache = ImageCache::new(10);

    let got = cache.get(&mut backend, &"warm".to_string()).unwrap();
    assert_eq!(got, Some(vec![7u8, 8, 9]));
    assert_eq!(backend.fetch_cached_calls, 1);
    assert_eq!(cache.stats().memory_entries, 1);

    let got_again = cache.get(&mut backend, &"warm".to_string()).unwrap();
    assert_eq!(got_again, Some(vec![7u8, 8, 9]));
    assert_eq!(backend.fetch_cached_calls, 1);
}

#[test]
fn test_cache_miss_is_none() {
    let mut backend = MemBackend::new();
    let mut cache = ImageCache::new(10);
    assert_eq!(cache.get(&mut backend, &"absent".to_string()).unwrap(), None);
}

#[test]
fn test_eviction_removes_least_recently_used() {
    let mut backend = MemBackend::new();
    let mut cache = ImageCache::new(2);

    cache.put(&mut backend, &"k1".to_string(), &vec![1u8]).unwrap();
    cache.put(&mut backend, &"k2".to_string(), &vec![2u8]).unwrap();
    cache.put(&mut backend, &"k3".to_string(), &vec![3u8]).unwrap();
    assert_eq!(cache.stats().memory_entries, 2);

    let mut empty = MemBackend::new();
    assert_eq!(cache.get(&mut empty, &"k1".to_string()).unwrap(), None);
    assert_eq!(cache.get(&mut empty, &"k2".to_string()).unwrap(), Some(vec![2u8]));
    assert_eq!(cache.get(&mut empty, &"k3".to_string()).unwrap(), Some(vec![3u8]));
}

#[test]
fn test_get_refreshes_recency() {
    let mut backend = MemBackend::new();
    let mut cache = ImageCache::new(2);

    cache.put(&mut backend, &"k1".to_string(), &vec![1u8]).unwrap();
    cache.put(&mut backend, &"k2".to_string(), &vec![2u8]).unwrap();

    let mut empty = MemBackend::new();
    assert_eq!(cache.get(&mut empty, &"k1".to_string()).unwrap(), Some(vec![1u8]));
    cache.put(&mut empty, &"k3".to_string(), &vec![3u8]).unwrap();

    assert_eq!(cache.get(&mut empty, &"k2".to_string()).unwrap(), None);
    assert_eq!(cache.get(&mut empty, &"k1".to_string()).unwrap(), Some(vec![1u8]));
    assert_eq!(cache.get(&mut empty, &"k3".to_string()).unwrap(), Some(vec![3u8]));
}

#[test]
fn test_clear_memory() {
    let mut backend = MemBackend::new();
    let mut cache = ImageCache::new(5);
    cache.put(&mut backend, &"k".to_string(), &vec![1u8]).unwrap();
    assert_eq!(cache.stats().memory_entries, 1);
    cache.clear_memory();
    assert_eq!(cache.stats().memory_entries, 0);
    assert_eq!(cache.stats().memory_capacity, 5);
}
