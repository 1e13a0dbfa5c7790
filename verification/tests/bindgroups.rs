use render_wgpu::bindgroups::{BgCache, BgKey};

#[test]
fn cache_counts_and_len_behave() {
    let layout = 0x1000u64;
    let mut cache: BgCache<u32> = BgCache::with_capacity(8);

    let key_a = BgKey::new(layout, &[0xa0]);
    let key_b = BgKey::new(layout, &[0xb0]);

    let _a0 = cache.get_or_create(key_a.clone(), || 1);
    assert_eq!(cache.len(), 1);
    assert_eq!(cache.misses, 1);
    assert_eq!(cache.hits, 0);

    // Hit on A again
    let _a1 = cache.get_or_create(key_a.clone(), || unreachable!("should hit"));
    assert_eq!(cache.len(), 1);
    assert_eq!(cache.misses, 1);
    assert_eq!(cache.hits, 1);

    // Miss on B
    let _b0 = cache.get_or_create(key_b.clone(), || 2);
    assert_eq!(cache.len(), 2);
    assert_eq!(cache.misses, 2);
    assert_eq!(cache.hits, 1);

    // Hit on B
    let _b1 = cache.get_or_create(key_b.clone(), || unreachable!("should hit"));
    assert_eq!(cache.len(), 2);
    assert_eq!(cache.misses, 2);
    assert_eq!(cache.hits, 2);
    assert_eq!(cache.evictions, 0);
}

#[test]
fn cache_evicts_oldest_when_at_capacity() {
    let layout = 0x2000u64;
    let mut cache: BgCache<u32> = BgCache::with_capacity(2);

    let key_a = BgKey::new(layout, &[1]);
    let key_b = BgKey::new(layout, &[2]);
    let key_c = BgKey::new(layout, &[3]);

    let _ = cache.get_or_create(key_a.clone(), || 10);
    let _ = cache.get_or_create(key_b.clone(), || 20);
    // Refresh A so B becomes the oldest
    let _ = cache.get_or_create(key_a.clone(), || unreachable!());

    // Insert C, should evict B
    let _ = cache.get_or_create(key_c.clone(), || 30);
    assert_eq!(cache.len(), 2);
    assert_eq!(cache.evictions, 1);
}

#[test]
fn cache_returns_stored_values_and_evicts_lru() {
    let mut cache: BgCache<u32> = BgCache::with_capacity(2);
    let k = |id: u64| BgKey::new(7, &[id, id + 1]);
    assert_eq!(cache.get_or_create(k(1), || 100), 100);
    assert_eq!(cache.get_or_create(k(2), || 200), 200);
    assert_eq!(cache.get_or_create(k(1), || 999), 100);
    assert_eq!(cache.get_or_create(k(3), || 300), 300);
    // k(2) was least recently used and is gone; recreating it evicts k(1).
    assert_eq!(cache.get_or_create(k(2), || 201), 201);
    assert_eq!(cache.get_or_create(k(3), || 999), 300);
    assert_eq!((cache.hits, cache.misses, cache.evictions), (2, 4, 2));
    assert_eq!(cache.len(), 2);
}

#[test]
fn keys_differ_by_layout_and_ids() {
    let mut cache: BgCache<u32> = BgCache::with_capacity(4);
    let _ = cache.get_or_create(BgKey::new(1, &[5]), || 1);
    assert_eq!(cache.get_or_create(BgKey::new(2, &[5]), || 2), 2);
    assert_eq!(cache.get_or_create(BgKey::new(1, &[5, 6]), || 3), 3);
    assert_eq!(cache.get_or_create(BgKey::new(1, &[5]), || 9), 1);
    assert_eq!(cache.misses, 3);
}

#[test]
fn zero_capacity_keeps_one_entry() {
    let mut cache: BgCache<u32> = BgCache::with_capacity(0);
    let _ = cache.get_or_create(BgKey::new(0, &[]), || 1);
    assert_eq!(cache.len(), 1);
    assert_eq!(cache.evictions, 0);
    let _ = cache.get_or_create(BgKey::new(0, &[1]), || 2);
    assert_eq!(cache.len(), 1);
    assert_eq!(cache.evictions, 1);
}

#[test]
fn counters_account_for_every_lookup() {
    let mut cache: BgCache<u32> = BgCache::with_capacity(3);
    let ids: [u64; 10] = [1, 2, 1, 3, 4, 2, 5, 1, 1, 6];
    for (n, id) in ids.iter().enumerate() {
        let _ = cache.get_or_create(BgKey::new(0, &[*id]), || *id as u32);
        let (hits, misses, evictions) = cache.stats();
        assert_eq!(hits + misses, n as u64 + 1);
        assert_eq!(cache.len() as u64, misses - evictions);
        assert!(cache.len() <= 3);
    }
    assert_eq!(cache.stats(), (cache.hits, cache.misses, cache.evictions));
}
