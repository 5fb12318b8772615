use vm_cross_arch::block_cache::{CacheReplacementPolicy, CacheStats, CrossArchBlockCache, SourceBlockKey, TranslatedBlock};
use vm_cross_arch::encoding::Architecture;
use vm_cross_arch::ir::{IRBlock, IROp, Terminator};
use vm_cross_arch::translator::{SourceArch, TargetArch, TranslationStats};

fn block(start_pc: u64, op: IROp) -> IRBlock {
    IRBlock { start_pc, ops: vec![op], term: Terminator::Ret }
}

fn empty_translation() -> TranslatedBlock {
    TranslatedBlock::new(vec![], TranslationStats { translated_blocks: 0, translated_instructions: 0 })
}

fn hit_rate(stats: &CacheStats) -> f64 {
    let total = stats.hits + stats.misses;
    if total == 0 {
        0.0
    } else {
        stats.hits as f64 / total as f64
    }
}

#[test]
fn test_cache_key_creation() {
    let block = block(0x1000, IROp::Add { dst: 0, src1: 1, src2: 2 });

    let key1 = SourceBlockKey::new(SourceArch::X86_64, TargetArch::ARM64, 0x1000, &block);
    let key2 = SourceBlockKey::new(SourceArch::X86_64, TargetArch::ARM64, 0x1000, &block);
    let key3 = SourceBlockKey::new(SourceArch::X86_64, TargetArch::RISCV64, 0x1000, &block);

    assert_eq!(key1, key2);
    assert_ne!(key1, key3);
}

#[test]
fn test_cache_lru_policy() {
    let mut cache = CrossArchBlockCache::new(2, CacheReplacementPolicy::Lru);

    let block1 = block(0x1000, IROp::Add { dst: 0, src1: 1, src2: 2 });
    let block2 = block(0x2000, IROp::Sub { dst: 0, src1: 1, src2: 2 });
    let block3 = block(0x3000, IROp::Mul { dst: 0, src1: 1, src2: 2 });

    let key1 = SourceBlockKey::new(SourceArch::X86_64, TargetArch::ARM64, 0x1000, &block1);
    let key2 = SourceBlockKey::new(SourceArch::X86_64, TargetArch::ARM64, 0x2000, &block2);

    cache.insert(key1.clone(), empty_translation());
    cache.insert(key2.clone(), empty_translation());

    cache.lookup(&key1);

    let key3 = SourceBlockKey::new(SourceArch::X86_64, TargetArch::ARM64, 0x3000, &block3);
    cache.insert(key3, empty_translation());

    assert!(cache.lookup(&key1).is_some());
    assert!(cache.lookup(&key2).is_none());
    assert!(cache.lookup(&key3).is_some());
}

#[test]
fn test_cache_stats() {
    let mut cache = CrossArchBlockCache::new(10, CacheReplacementPolicy::Lru);

    assert_eq!(cache.stats().hits, 0);
    assert_eq!(cache.stats().misses, 0);
    assert_eq!(hit_rate(cache.stats()), 0.0);

    let block = block(0x1000, IROp::Add { dst: 0, src1: 1, src2: 2 });
    let key = SourceBlockKey::new(SourceArch::X86_64, TargetArch::ARM64, 0x1000, &block);

    assert!(cache.lookup(&key).is_none());
    assert_eq!(cache.stats().misses, 1);

    cache.insert(key.clone(), empty_translation());

    assert!(cache.lookup(&key).is_some());
    assert_eq!(cache.stats().hits, 1);

    assert_eq!(hit_rate(cache.stats()), 0.5);
}

#[test]
fn key_hash_depends_on_block_contents() {
    let a = block(0x1000, IROp::Add { dst: 0, src1: 1, src2: 2 });
    let b = block(0x1000, IROp::Sub { dst: 0, src1: 1, src2: 2 });
    let ka = SourceBlockKey::new(Architecture::X86_64, Architecture::ARM64, 0x1000, &a);
    let kb = SourceBlockKey::new(Architecture::X86_64, Architecture::ARM64, 0x1000, &b);
    assert_ne!(ka.block_hash, kb.block_hash);
    assert_eq!(ka.start_pc, 0x1000);
}

#[test]
fn fifo_cache_evicts_first_inserted() {
    let mut cache = CrossArchBlockCache::new(2, CacheReplacementPolicy::Fifo);
    let k1 = SourceBlockKey::with_hash(Architecture::X86_64, Architecture::ARM64, 0x1000, 1);
    let k2 = SourceBlockKey::with_hash(Architecture::X86_64, Architecture::ARM64, 0x2000, 2);
    let k3 = SourceBlockKey::with_hash(Architecture::X86_64, Architecture::ARM64, 0x3000, 3);
    cache.insert(k1, empty_translation());
    cache.insert(k2, empty_translation());
    assert!(cache.lookup(&k1).is_some());
    cache.insert(k3, empty_translation());
    assert!(cache.lookup(&k1).is_none());
    assert!(cache.lookup(&k2).is_some());
    assert!(cache.lookup(&k3).is_some());
    assert_eq!(cache.stats().evictions, 1);
}

#[test]
fn random_cache_never_exceeds_its_limit() {
    let mut cache = CrossArchBlockCache::new(3, CacheReplacementPolicy::Random);
    for i in 0..20u64 {
        let k = SourceBlockKey::with_hash(Architecture::X86_64, Architecture::RISCV64, 0x1000 * (i + 1), i);
        cache.insert(k, empty_translation());
        assert!(cache.stats().current_size <= 3);
    }
    assert_eq!(cache.stats().evictions, 17);
}

#[test]
fn clear_empties_the_cache() {
    let mut cache = CrossArchBlockCache::new(4, CacheReplacementPolicy::Lru);
    let k = SourceBlockKey::with_hash(Architecture::ARM64, Architecture::X86_64, 0x4000, 9);
    cache.insert(k, empty_translation());
    cache.clear();
    assert!(cache.lookup(&k).is_none());
    assert_eq!(cache.stats().current_size, 0);
}
