use std::time::Duration;
use vm_cross_arch::cache_optimizer::{CacheConfig, CacheOptimizer, CachePolicy};

#[test]
fn test_cache_optimizer() {
    let config = CacheConfig::default();
    let mut optimizer = CacheOptimizer::new(config);

    let code = vec![0x90, 0xC3];
    optimizer.insert(0x1000, code.clone(), Duration::from_millis(1));

    assert!(optimizer.get(0x1000).is_some());
    assert!(optimizer.get(0x2000).is_none());
}

#[test]
fn get_returns_the_inserted_code_and_counts() {
    let mut optimizer = CacheOptimizer::new(CacheConfig::default());
    optimizer.insert(0x1000, vec![1, 2, 3], Duration::from_millis(1));
    assert_eq!(optimizer.get(0x1000), Some(vec![1, 2, 3]));
    assert_eq!(optimizer.get(0x3000), None);
    assert_eq!(optimizer.stats().hits, 1);
    assert_eq!(optimizer.stats().misses, 1);
}

#[test]
fn lru_budget_evicts_the_oldest_cold_entry() {
    let config = CacheConfig {
        max_size: 8,
        policy: CachePolicy::LRU,
        enable_prefetch: false,
        prefetch_threshold: 10,
        enable_tiered_cache: false,
    };
    let mut optimizer = CacheOptimizer::new(config);
    optimizer.insert(0x1000, vec![0; 4], Duration::from_millis(1));
    optimizer.insert(0x2000, vec![0; 4], Duration::from_millis(1));
    // A hit on a cold entry does not refresh its place in the queue.
    assert!(optimizer.get(0x1000).is_some());
    optimizer.insert(0x3000, vec![0; 4], Duration::from_millis(1));
    assert!(optimizer.get(0x1000).is_none());
    assert!(optimizer.get(0x2000).is_some());
    assert!(optimizer.get(0x3000).is_some());
    assert_eq!(optimizer.stats().evictions, 1);
}

#[test]
fn clear_forgets_everything() {
    let mut optimizer = CacheOptimizer::new(CacheConfig::default());
    optimizer.insert(0x1000, vec![0x90], Duration::from_millis(1));
    optimizer.clear();
    assert!(optimizer.get(0x1000).is_none());
}

#[test]
fn lfu_and_fifo_make_room_by_evicting() {
    for policy in [CachePolicy::LFU, CachePolicy::FIFO] {
        let config = CacheConfig { max_size: 4, policy, ..CacheConfig::default() };
        let mut optimizer = CacheOptimizer::new(config);
        optimizer.insert(1, vec![1, 2, 3], Duration::ZERO);
        optimizer.insert(2, vec![4, 5], Duration::ZERO);
        assert_eq!(optimizer.get(2), Some(vec![4, 5]));
        assert_eq!(optimizer.get(1), None);
        assert_eq!(optimizer.stats().evictions, 1);
    }
}
