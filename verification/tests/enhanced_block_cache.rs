use vm_cross_arch::block_cache::{SourceBlockKey, TranslatedBlock};
use vm_cross_arch::enhanced_block_cache::{EnhancedBlockCache, EnhancedCacheStats};
use vm_cross_arch::ir::{IRBlock, Terminator};
use vm_cross_arch::translator::{SourceArch, TargetArch, TranslationStats};

fn empty_key(pc: u64) -> SourceBlockKey {
    SourceBlockKey::new(SourceArch::X86_64, TargetArch::ARM64, pc, &IRBlock { start_pc: pc, ops: vec![], term: Terminator::Ret })
}

fn empty_block() -> TranslatedBlock {
    TranslatedBlock::new(vec![], TranslationStats { translated_blocks: 0, translated_instructions: 0 })
}

fn hit_rate(stats: &EnhancedCacheStats) -> f64 {
    let accesses = stats.hits + stats.misses;
    if accesses == 0 {
        0.0
    } else {
        stats.hits as f64 / accesses as f64
    }
}

#[test]
fn test_enhanced_cache_creation() {
    let cache = EnhancedBlockCache::with_default_config();
    let stats = cache.get_enhanced_stats();

    assert_eq!(stats.total_queries, 0);
    assert_eq!(stats.hits, 0);
    assert_eq!(stats.misses, 0);
}

#[test]
fn test_enhanced_cache_lookup_miss() {
    let mut cache = EnhancedBlockCache::with_default_config();
    let key = empty_key(0x1000);

    let result = cache.lookup(&key);
    assert!(result.is_none());

    let stats = cache.get_enhanced_stats();
    assert_eq!(stats.total_queries, 1);
    assert_eq!(stats.misses, 1);
    assert_eq!(hit_rate(&stats), 0.0);
}

#[test]
fn test_hot_block_detection() {
    let mut cache = EnhancedBlockCache::with_default_config(); // hot_threshold = 100
    let key = empty_key(0x1000);

    cache.insert(key.clone(), empty_block());

    for _ in 0..150 {
        cache.lookup(&key);
    }

    let hot_blocks = cache.get_hot_blocks();
    assert!(hot_blocks.contains(&0x1000));
}

#[test]
fn test_clear() {
    let mut cache = EnhancedBlockCache::with_default_config();
    let key = empty_key(0x1000);

    cache.insert(key.clone(), empty_block());
    cache.lookup(&key);

    assert_eq!(cache.size(), 1);
    assert_eq!(cache.get_enhanced_stats().total_queries, 1);

    cache.clear();

    assert_eq!(cache.size(), 0);
    assert_eq!(cache.get_enhanced_stats().total_queries, 0);
}

#[test]
fn enhanced_hit_returns_the_block_and_counts_the_insert_as_a_miss() {
    let mut cache = EnhancedBlockCache::new(4, 2);
    let key = empty_key(0x2000);
    cache.insert(key, empty_block());
    let found = cache.lookup(&key).expect("inserted block is found");
    assert_eq!(found.access_count, 1);
    let stats = cache.get_enhanced_stats();
    assert_eq!((stats.total_queries, stats.hits, stats.misses), (1, 1, 1));
    assert_eq!(hit_rate(&stats), 0.5);
    assert!(cache.get_hot_blocks().is_empty());
    cache.lookup(&key);
    assert_eq!(cache.get_hot_blocks(), vec![0x2000]);
    assert_eq!(cache.get_base_stats().hits, 2);
}

#[test]
fn warm_up_and_shrinking_keep_most_recent() {
    let mut cache = EnhancedBlockCache::new(8, 1);
    let keys: Vec<SourceBlockKey> = (0..4u64).map(|i| empty_key(0x1000 * (i + 1))).collect();
    cache.warm_up(keys.iter().map(|k| (*k, empty_block())).collect());
    assert_eq!(cache.size(), 4);
    assert_eq!(cache.get_enhanced_stats().total_queries, 0);
    cache.set_max_size(2);
    assert_eq!(cache.size(), 2);
    assert!(cache.lookup(&keys[0]).is_none());
    assert!(cache.lookup(&keys[3]).is_some());
    assert_eq!(cache.get_base_stats().evictions, 2);
}

#[test]
fn test_enhanced_cache_hit() {
    let mut cache = EnhancedBlockCache::with_default_config();
    let key = empty_key(0x1000);

    let block = empty_block();

    cache.insert(key.clone(), block);

    let result = cache.lookup(&key);
    assert!(result.is_some());

    let stats = cache.get_enhanced_stats();
    assert_eq!(stats.hits, 1);
    assert_eq!(hit_rate(&stats), 0.5); // one hit, one miss
}
