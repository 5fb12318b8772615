use vm_cross_arch::encoding::{Architecture, TargetInstruction};
use vm_cross_arch::fast_path::{
    CachePolicy, CachedTargetInsn, FastPathTranslator, SourceInsnKey, TranslatorWithFastPath,
};
use vm_cross_arch::translator::ArchTranslator;

fn nop() -> TargetInstruction {
    TargetInstruction {
        bytes: vec![0x90],
        length: 1,
        mnemonic: "nop".to_string(),
        is_control_flow: false,
        is_memory_op: false,
    }
}

fn hit_rate(hits: u64, misses: u64) -> f64 {
    let total = hits + misses;
    if total == 0 {
        0.0
    } else {
        hits as f64 / total as f64
    }
}

#[test]
fn test_fast_path_creation() {
    let fast_path = FastPathTranslator::with_default_config();
    let stats = fast_path.get_stats();

    assert_eq!(stats.cache_size, 0);
    assert_eq!(stats.hits, 0);
    assert_eq!(stats.misses, 0);
    assert_eq!(hit_rate(stats.hits, stats.misses), 0.0);
}

#[test]
fn test_fast_path_hit_miss() {
    let mut fast_path = FastPathTranslator::with_default_config();
    let key = SourceInsnKey::from_opcode(1, 2, 0x12345678);

    assert!(fast_path.translate_fast(&key).is_none());
    assert_eq!(fast_path.get_stats().misses, 1);

    fast_path.insert_fast(key, nop());

    let result = fast_path.translate_fast(&key);
    assert!(result.is_some());
    assert_eq!(fast_path.get_stats().hits, 1);
    let stats = fast_path.get_stats();
    assert_eq!(hit_rate(stats.hits, stats.misses), 0.5);
}

#[test]
fn test_fast_path_hit_rate() {
    let mut fast_path = FastPathTranslator::with_default_config();

    let key1 = SourceInsnKey::from_opcode(1, 2, 0x11111111);
    assert!(fast_path.translate_fast(&key1).is_none());

    fast_path.insert_fast(key1.clone(), nop());
    assert!(fast_path.translate_fast(&key1).is_some());

    let key2 = SourceInsnKey::from_opcode(1, 2, 0x22222222);
    assert!(fast_path.translate_fast(&key2).is_none());

    let stats = fast_path.get_stats();
    assert_eq!(stats.hits, 1);
    assert_eq!(stats.misses, 2);
    assert!((hit_rate(stats.hits, stats.misses) - 0.333).abs() < 0.01);
}

#[test]
fn test_fast_path_clear() {
    let mut fast_path = FastPathTranslator::with_default_config();
    let key = SourceInsnKey::from_opcode(1, 2, 0x12345678);

    fast_path.insert_fast(key.clone(), nop());

    assert_eq!(fast_path.get_stats().cache_size, 1);

    fast_path.clear();

    assert_eq!(fast_path.get_stats().cache_size, 0);
    assert_eq!(fast_path.get_stats().hits, 0);
    assert_eq!(fast_path.get_stats().misses, 0);
}

#[test]
fn test_source_insn_key_from_bytes() {
    let bytes = vec![0x12, 0x34, 0x56, 0x78];
    let key1 = SourceInsnKey::from_bytes(1, 2, &bytes);
    let key2 = SourceInsnKey::from_bytes(1, 2, &bytes);

    assert_eq!(key1, key2);
    assert_eq!(key1.insn_len, 4);
}

#[test]
fn test_source_insn_key_from_opcode() {
    let key1 = SourceInsnKey::from_opcode(1, 2, 0x12345678);
    let key2 = SourceInsnKey::from_opcode(1, 2, 0x12345678);

    assert_eq!(key1, key2);
    assert_eq!(key1.insn_len, 4);
}

#[test]
fn key_from_bytes_depends_on_bytes_and_pair() {
    let a = SourceInsnKey::from_bytes(1, 2, &[0x90]);
    let b = SourceInsnKey::from_bytes(1, 2, &[0x91]);
    let c = SourceInsnKey::from_bytes(1, 3, &[0x90]);
    assert_ne!(a.insn_hash, b.insn_hash);
    assert_eq!(a.insn_len, 1);
    assert_ne!(a, c);
    let long = vec![0u8; 300];
    assert_eq!(SourceInsnKey::from_bytes(0, 0, &long).insn_len, 44);
}

#[test]
fn insert_then_lookup_returns_the_translation() {
    let mut fast_path = FastPathTranslator::new(2, CachePolicy::Lfu);
    let key = SourceInsnKey::from_opcode(0, 1, 7);
    fast_path.insert_fast(key, nop());
    let cached = fast_path.translate_fast(&key).expect("hit");
    assert_eq!(cached.bytes, vec![0x90]);
    assert_eq!(cached.length, 1);
    assert_eq!(cached.mnemonic, "nop");
    assert_eq!(cached.hit_count, 0);
}

#[test]
fn lru_cache_drops_oldest_when_full() {
    let mut fast_path = FastPathTranslator::new(2, CachePolicy::Lru);
    let k1 = SourceInsnKey::from_opcode(0, 1, 1);
    let k2 = SourceInsnKey::from_opcode(0, 1, 2);
    let k3 = SourceInsnKey::from_opcode(0, 1, 3);
    fast_path.insert_fast(k1, nop());
    fast_path.insert_fast(k2, nop());
    fast_path.insert_fast(k3, nop());
    assert_eq!(fast_path.get_stats().cache_size, 2);
    assert!(fast_path.translate_fast(&k1).is_none());
    assert!(fast_path.translate_fast(&k2).is_some());
    assert!(fast_path.translate_fast(&k3).is_some());
}

#[test]
fn fifo_and_lfu_caches_keep_their_limit() {
    for policy in [CachePolicy::Fifo, CachePolicy::Lfu] {
        let mut fast_path = FastPathTranslator::new(1, policy);
        let k1 = SourceInsnKey::from_opcode(0, 1, 1);
        let k2 = SourceInsnKey::from_opcode(0, 1, 2);
        fast_path.insert_fast(k1, nop());
        fast_path.insert_fast(k2, nop());
        assert_eq!(fast_path.get_stats().cache_size, 1);
        assert!(fast_path.translate_fast(&k1).is_none());
        assert!(fast_path.translate_fast(&k2).is_some());
    }
}

#[test]
fn reinsert_replaces_in_place() {
    let mut fast_path = FastPathTranslator::new(4, CachePolicy::Lru);
    let k = SourceInsnKey::from_opcode(0, 1, 9);
    fast_path.insert_fast(k, nop());
    let mut other = nop();
    other.mnemonic = "ret".to_string();
    other.bytes = vec![0xC3];
    fast_path.insert_fast(k, other);
    assert_eq!(fast_path.get_stats().cache_size, 1);
    assert_eq!(fast_path.translate_fast(&k).unwrap().mnemonic, "ret");
}

#[test]
fn set_max_size_keeps_newest_entries() {
    let mut fast_path = FastPathTranslator::new(10, CachePolicy::Lfu);
    let keys: Vec<SourceInsnKey> = (0..4).map(|i| SourceInsnKey::from_opcode(0, 1, i)).collect();
    for k in &keys {
        fast_path.insert_fast(*k, nop());
    }
    fast_path.set_max_size(1);
    let stats = fast_path.get_stats();
    assert_eq!(stats.cache_size, 1);
    assert_eq!(stats.max_cache_size, 1);
    assert!(fast_path.translate_fast(&keys[3]).is_some());
    assert!(fast_path.translate_fast(&keys[0]).is_none());
    // later insertions keep the new limit
    fast_path.insert_fast(keys[0], nop());
    assert_eq!(fast_path.get_stats().cache_size, 1);
}

#[test]
fn set_max_size_sets_the_limit() {
    let mut fast_path = FastPathTranslator::new(4096, CachePolicy::Lru);
    let keys: Vec<SourceInsnKey> = (0..3).map(|i| SourceInsnKey::from_opcode(0, 1, i)).collect();
    for k in &keys {
        fast_path.insert_fast(*k, nop());
    }
    fast_path.set_max_size(2);
    assert_eq!(fast_path.get_stats().max_cache_size, 2);
    assert_eq!(fast_path.get_stats().cache_size, 2);
    fast_path.insert_fast(SourceInsnKey::from_opcode(0, 1, 9), nop());
    assert_eq!(fast_path.get_stats().cache_size, 2);
}

#[test]
fn cached_entry_from_instruction() {
    let c = CachedTargetInsn::from(nop());
    assert_eq!(c.hit_count, 0);
    assert_eq!(c.length, 1);
}

#[test]
fn block_translation_from_cache_and_fallback() {
    let translator = ArchTranslator::new(Architecture::X86_64, Architecture::ARM64);
    let mut fast_path = FastPathTranslator::new(16, CachePolicy::Lfu);
    let block = [0x90u8, 0xC3];
    let k0 = SourceInsnKey::from_bytes(0, 1, &block[0..]);
    let k1 = SourceInsnKey::from_bytes(0, 1, &block[1..]);
    fast_path.insert_fast(k0, nop());
    let mut twf = TranslatorWithFastPath::new(translator, fast_path);
    // The second instruction is not cached yet.
    assert!(twf.translate_block_fast(&block, 0x1000).is_err());
    assert_eq!(twf.get_fast_path_stats().hits, 1);
    assert_eq!(twf.get_fast_path_stats().misses, 1);
    let mut ret = nop();
    ret.bytes = vec![0xC3];
    ret.mnemonic = "ret".to_string();
    twf.fast_path.insert_fast(k1, ret);
    let out = twf.translate_block_fast(&block, 0x1000).expect("all cached");
    assert_eq!(out.len(), 2);
    assert_eq!(out[0].mnemonic, "nop");
    assert_eq!(out[1].mnemonic, "ret");
    assert!(twf.get_base_stats().is_none());
}

#[test]
fn checked_block_translation_needs_positive_lengths() {
    let translator = ArchTranslator::new(Architecture::X86_64, Architecture::ARM64);
    let mut fast_path = FastPathTranslator::new(16, CachePolicy::Lru);
    let block = [0x90u8];
    let k0 = SourceInsnKey::from_bytes(0, 1, &block[0..]);
    fast_path.insert_fast(k0, nop());
    let mut twf = TranslatorWithFastPath::new(translator, fast_path);
    let out = twf.translate_block_fast_checked(&block, 0).expect("lengths are positive").unwrap();
    assert_eq!(out.len(), 1);

    let mut empty = nop();
    empty.length = 0;
    twf.fast_path.insert_fast(SourceInsnKey::from_opcode(0, 1, 5), empty);
    assert!(twf.translate_block_fast_checked(&block, 0).is_none());
    assert_eq!(twf.get_fast_path_stats().hits, 1);
}
