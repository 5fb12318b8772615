//! A per-instruction translation cache: translations of single source
//! instructions are kept under a key made of the architecture pair and a hash
//! of the instruction bytes, so that a block whose instructions were all seen
//! before is translated without the full pipeline.

use vstd::prelude::*;
use std::hash::{Hash, Hasher};
use crate::encoding::{InsnView, TargetInstruction, TranslationError};
use crate::text::text;
use crate::translator::{arch_code, arch_number, ArchTranslator, TranslationStats};

verus! {

/// The value of `DefaultHasher::finish` after `<[u8] as Hash>::hash` on these
/// bytes, starting from `DefaultHasher::new()`.
pub uninterp spec fn default_hash_of_bytes(bytes: Seq<u8>) -> u64;

/// The value of `DefaultHasher::finish` after `<u32 as Hash>::hash` on this
/// value, starting from `DefaultHasher::new()`.
pub uninterp spec fn default_hash_of_u32(value: u32) -> u64;

/// Hashes a byte slice with a fresh `std::collections::hash_map::DefaultHasher`
/// (`DefaultHasher::new`, `Hash::hash`, `Hasher::finish`). Every hasher made by
/// `DefaultHasher::new` starts from the same fixed keys, so the result is
/// claimed to depend on the bytes alone; nothing is claimed of its value.
#[verifier::external_body]
fn hash_bytes(bytes: &[u8]) -> (h: u64)
    ensures
        h == default_hash_of_bytes(bytes@),
{
    let mut hasher = std::collections::hash_map::DefaultHasher::new();
    bytes.hash(&mut hasher);
    hasher.finish()
}

/// Hashes a `u32` with a fresh `DefaultHasher`, as `hash_bytes` does a slice.
#[verifier::external_body]
fn hash_u32(value: u32) -> (h: u64)
    ensures
        h == default_hash_of_u32(value),
{
    let mut hasher = std::collections::hash_map::DefaultHasher::new();
    value.hash(&mut hasher);
    hasher.finish()
}

/// Key of one source instruction in the fast-path cache.
#[derive(Debug, Clone, Copy, PartialEq, Eq, Structural, Hash)]
pub struct SourceInsnKey {
    pub source_arch: u32,
    pub target_arch: u32,
    /// Hash of the instruction bytes (or opcode).
    pub insn_hash: u64,
    /// Instruction length in bytes (the low eight bits of it).
    pub insn_len: u8,
}

/// The key that `from_bytes` makes.
pub open spec fn key_of_bytes(source_arch: u32, target_arch: u32, bytes: Seq<u8>) -> SourceInsnKey {
    SourceInsnKey {
        source_arch,
        target_arch,
        insn_hash: default_hash_of_bytes(bytes),
        insn_len: bytes.len() as u8,
    }
}

/// The key that `from_opcode` makes.
pub open spec fn key_of_opcode(source_arch: u32, target_arch: u32, opcode: u32) -> SourceInsnKey {
    SourceInsnKey { source_arch, target_arch, insn_hash: default_hash_of_u32(opcode), insn_len: 4 }
}

impl SourceInsnKey {
    /// A key from its parts, the hash already computed.
    pub fn with_hash(source_arch: u32, target_arch: u32, insn_hash: u64, insn_len: u8) -> (k: Self)
        ensures
            k == (SourceInsnKey { source_arch, target_arch, insn_hash, insn_len }),
    {
        SourceInsnKey { source_arch, target_arch, insn_hash, insn_len }
    }

    /// The key of an instruction given by its bytes.
    pub fn from_bytes(source_arch: u32, target_arch: u32, bytes: &[u8]) -> (k: Self)
        ensures
            k == key_of_bytes(source_arch, target_arch, bytes@),
    {
        let h = hash_bytes(bytes);
        Self::with_hash(source_arch, target_arch, h, bytes.len() as u8)
    }

    /// The key of a fixed-width (four-byte) instruction given by its opcode.
    pub fn from_opcode(source_arch: u32, target_arch: u32, opcode: u32) -> (k: Self)
        ensures
            k == key_of_opcode(source_arch, target_arch, opcode),
    {
        let h = hash_u32(opcode);
        Self::with_hash(source_arch, target_arch, h, 4)
    }
}

/// A cached translation.
#[derive(Debug, Clone)]
pub struct CachedTargetInsn {
    pub bytes: Vec<u8>,
    pub length: usize,
    pub mnemonic: String,
    pub is_control_flow: bool,
    pub is_memory_op: bool,
    /// How often the entry was used.
    pub hit_count: u64,
}

pub struct CachedView {
    pub insn: InsnView,
    pub hit_count: u64,
}

impl View for CachedTargetInsn {
    type V = CachedView;

    open spec fn view(&self) -> CachedView {
        CachedView {
            insn: InsnView {
                bytes: self.bytes@,
                length: self.length,
                mnemonic: self.mnemonic@,
                is_control_flow: self.is_control_flow,
                is_memory_op: self.is_memory_op,
            },
            hit_count: self.hit_count,
        }
    }
}

/// A fresh cache entry for an instruction.
pub open spec fn cached_of(i: InsnView) -> CachedView {
    CachedView { insn: i, hit_count: 0 }
}

impl CachedTargetInsn {
    /// The cache entry of a translated instruction, never used yet.
    pub fn from_insn(insn: TargetInstruction) -> (c: Self)
        ensures
            c@ == cached_of(insn@),
    {
        CachedTargetInsn {
            bytes: insn.bytes,
            length: insn.length,
            mnemonic: insn.mnemonic,
            is_control_flow: insn.is_control_flow,
            is_memory_op: insn.is_memory_op,
            hit_count: 0,
        }
    }

    /// An equal copy of the entry.
    pub fn duplicate(&self) -> (c: Self)
        ensures
            c@ == self@,
    {
        let bytes = self.bytes.clone();
        assert(bytes@ =~= self.bytes@);
        CachedTargetInsn {
            bytes,
            length: self.length,
            mnemonic: self.mnemonic.clone(),
            is_control_flow: self.is_control_flow,
            is_memory_op: self.is_memory_op,
            hit_count: self.hit_count,
        }
    }

    /// The instruction this entry holds.
    pub fn to_insn(&self) -> (i: TargetInstruction)
        ensures
            i@ == self@.insn,
    {
        let bytes = self.bytes.clone();
        assert(bytes@ =~= self.bytes@);
        TargetInstruction {
            bytes,
            length: self.length,
            mnemonic: self.mnemonic.clone(),
            is_control_flow: self.is_control_flow,
            is_memory_op: self.is_memory_op,
        }
    }
}

impl From<TargetInstruction> for CachedTargetInsn {
    fn from(insn: TargetInstruction) -> (c: Self) {
        CachedTargetInsn {
            bytes: insn.bytes,
            length: insn.length,
            mnemonic: insn.mnemonic,
            is_control_flow: insn.is_control_flow,
            is_memory_op: insn.is_memory_op,
            hit_count: 0,
        }
    }
}

impl vstd::std_specs::convert::FromSpecImpl<TargetInstruction> for CachedTargetInsn {
    open spec fn obeys_from_spec() -> bool {
        true
    }

    open spec fn from_spec(v: TargetInstruction) -> Self {
        CachedTargetInsn {
            bytes: v.bytes,
            length: v.length,
            mnemonic: v.mnemonic,
            is_control_flow: v.is_control_flow,
            is_memory_op: v.is_memory_op,
            hit_count: 0,
        }
    }
}

/// Replacement policy of the fast-path cache: which entry a full cache
/// drops before an insertion.
#[derive(Debug, Clone, Copy, PartialEq, Eq, Structural)]
pub enum CachePolicy {
    /// Least recently used; lookups do not reorder entries, so this drops
    /// the entry inserted first.
    Lru,
    /// Least frequently used: the entry with the fewest hits, the earliest
    /// among equals.
    Lfu,
    /// First in, first out: the entry inserted first.
    Fifo,
}

/// The state of a fast-path cache: entries in insertion order, counters and
/// configuration.
pub struct FastPathView {
    pub entries: Seq<(SourceInsnKey, CachedView)>,
    pub hits: u64,
    pub misses: u64,
    pub max_cache_size: usize,
    pub policy: CachePolicy,
}

/// `k` is the key of some entry.
pub open spec fn has_key(e: Seq<(SourceInsnKey, CachedView)>, k: SourceInsnKey) -> bool {
    exists|i: int| 0 <= i < e.len() && (#[trigger] e[i]).0 == k
}

/// The position of `k` (meaningful when `has_key`).
pub open spec fn key_pos(e: Seq<(SourceInsnKey, CachedView)>, k: SourceInsnKey) -> int {
    choose|i: int| 0 <= i < e.len() && (#[trigger] e[i]).0 == k
}

/// No key occurs twice.
pub open spec fn keys_unique(e: Seq<(SourceInsnKey, CachedView)>) -> bool {
    forall|i: int, j: int| 0 <= i < e.len() && 0 <= j < e.len() && i != j ==> (#[trigger] e[i]).0 != (#[trigger] e[j]).0
}

/// The entry stored under `k`.
pub open spec fn lookup(e: Seq<(SourceInsnKey, CachedView)>, k: SourceInsnKey) -> Option<CachedView> {
    if has_key(e, k) {
        Some(e[key_pos(e, k)].1)
    } else {
        None
    }
}

/// The position of the first entry with the fewest hits (0 when there is
/// at most one entry).
pub open spec fn lfu_index(e: Seq<(SourceInsnKey, CachedView)>) -> int
    decreases e.len(),
{
    if e.len() <= 1 {
        0
    } else {
        let j = lfu_index(e.drop_last());
        if e.last().1.hit_count < e[j].1.hit_count {
            e.len() - 1
        } else {
            j
        }
    }
}

/// The position of the entry that `policy` drops from a full cache.
pub open spec fn victim_index(e: Seq<(SourceInsnKey, CachedView)>, policy: CachePolicy) -> int {
    match policy {
        CachePolicy::Lfu => lfu_index(e),
        _ => 0,
    }
}

/// The entries after the replacement step of an insertion: a cache holding
/// at least `max` entries drops the entry its policy picks.
pub open spec fn evicted(e: Seq<(SourceInsnKey, CachedView)>, max: usize, policy: CachePolicy) -> Seq<(SourceInsnKey, CachedView)> {
    if e.len() >= max && e.len() > 0 {
        e.remove(victim_index(e, policy))
    } else {
        e
    }
}

proof fn lemma_lfu_index_in_range(e: Seq<(SourceInsnKey, CachedView)>)
    requires
        e.len() > 0,
    ensures
        0 <= lfu_index(e) < e.len(),
    decreases e.len(),
{
    if e.len() > 1 {
        lemma_lfu_index_in_range(e.drop_last());
    }
}

/// `e` with `k` mapped to `c`: the entry of `k` replaced in place, or a new
/// entry at the end.
pub open spec fn put(e: Seq<(SourceInsnKey, CachedView)>, k: SourceInsnKey, c: CachedView) -> Seq<(SourceInsnKey, CachedView)> {
    if has_key(e, k) {
        e.update(key_pos(e, k), (k, c))
    } else {
        e.push((k, c))
    }
}

/// The state after `insert_fast(k, i)`.
pub open spec fn after_insert(s: FastPathView, k: SourceInsnKey, i: InsnView) -> FastPathView {
    FastPathView { entries: put(evicted(s.entries, s.max_cache_size, s.policy), k, cached_of(i)), ..s }
}

/// The state after a lookup of `k`: one more hit if `k` is cached, one more
/// miss otherwise (both counters wrap).
pub open spec fn after_lookup(s: FastPathView, k: SourceInsnKey) -> FastPathView {
    if has_key(s.entries, k) {
        FastPathView { hits: vstd::wrapping::u64_specs::wrapping_add(s.hits, 1), ..s }
    } else {
        FastPathView { misses: vstd::wrapping::u64_specs::wrapping_add(s.misses, 1), ..s }
    }
}

/// The entries after `set_max_size(n)`: the newest `n` remain.
pub open spec fn truncated(e: Seq<(SourceInsnKey, CachedView)>, n: usize) -> Seq<(SourceInsnKey, CachedView)> {
    if e.len() > n {
        e.subrange(e.len() - n, e.len() as int)
    } else {
        e
    }
}

/// Counters and sizes of a fast-path cache.
#[derive(Debug, Clone, Copy)]
pub struct FastPathStats {
    pub cache_size: usize,
    pub max_cache_size: usize,
    pub hits: u64,
    pub misses: u64,
}

/// Caches the translations of single instructions.
pub struct FastPathTranslator {
    cache: Vec<(SourceInsnKey, CachedTargetInsn)>,
    hits: u64,
    misses: u64,
    max_cache_size: usize,
    policy: CachePolicy,
}

impl View for FastPathTranslator {
    type V = FastPathView;

    closed spec fn view(&self) -> FastPathView {
        FastPathView {
            entries: self.cache@.map_values(|e: (SourceInsnKey, CachedTargetInsn)| (e.0, e.1@)),
            hits: self.hits,
            misses: self.misses,
            max_cache_size: self.max_cache_size,
            policy: self.policy,
        }
    }
}

impl FastPathTranslator {
    /// Keys are unique.
    pub open spec fn wf(&self) -> bool {
        keys_unique(self@.entries)
    }

    pub fn new(max_cache_size: usize, policy: CachePolicy) -> (t: Self)
        ensures
            t.wf(),
            t@.entries.len() == 0,
            t@.hits == 0,
            t@.misses == 0,
            t@.max_cache_size == max_cache_size,
            t@.policy == policy,
    {
        let t = FastPathTranslator { cache: Vec::new(), hits: 0, misses: 0, max_cache_size, policy };
        assert(t@.entries =~= Seq::<(SourceInsnKey, CachedView)>::empty());
        t
    }

    /// 4096 entries, LFU.
    pub fn with_default_config() -> (t: Self)
        ensures
            t.wf(),
            t@.entries.len() == 0,
            t@.hits == 0,
            t@.misses == 0,
            t@.max_cache_size == 4096,
            t@.policy == CachePolicy::Lfu,
    {
        Self::new(4096, CachePolicy::Lfu)
    }

    /// Position of `key` in the cache, if present.
    fn find(&self, key: &SourceInsnKey) -> (r: Option<usize>)
        requires
            self.wf(),
        ensures
            match r {
                Some(i) => i < self@.entries.len() && has_key(self@.entries, *key) && key_pos(self@.entries, *key) == i,
                None => !has_key(self@.entries, *key),
            },
    {
        let ghost e = self@.entries;
        let mut i: usize = 0;
        while i < self.cache.len()
            invariant
                e == self@.entries,
                keys_unique(e),
                e.len() == self.cache@.len(),
                i <= e.len(),
                forall|j: int| 0 <= j < i ==> (#[trigger] e[j]).0 != *key,
            decreases self.cache.len() - i,
        {
            assert(e[i as int].0 == self.cache@[i as int].0);
            if self.cache[i].0 == *key {
                assert(has_key(e, *key));
                let ghost p = key_pos(e, *key);
                assert(e[p].0 == *key);
                return Some(i);
            }
            i += 1;
        }
        None
    }

    /// Looks a key up: a hit returns a copy of the cached entry and counts a
    /// hit; a miss returns `None` and counts a miss.
    pub fn translate_fast(&mut self, key: &SourceInsnKey) -> (r: Option<CachedTargetInsn>)
        requires
            old(self).wf(),
        ensures
            final(self).wf(),
            final(self)@ == after_lookup(old(self)@, *key),
            match r {
                Some(c) => lookup(old(self)@.entries, *key) == Some(c@),
                None => lookup(old(self)@.entries, *key) is None,
            },
    {
        match self.find(key) {
            Some(i) => {
                let c = self.cache[i].1.duplicate();
                self.hits = self.hits.wrapping_add(1);
                Some(c)
            },
            None => {
                self.misses = self.misses.wrapping_add(1);
                None
            },
        }
    }

    /// Stores the translation of `key`. A cache that holds
    /// `max_cache_size` or more entries first drops the entry its policy
    /// picks (see `evicted`), so a cache within a positive limit stays
    /// within it.
    pub fn insert_fast(&mut self, key: SourceInsnKey, insn: TargetInstruction)
        requires
            old(self).wf(),
        ensures
            final(self).wf(),
            final(self)@ == after_insert(old(self)@, key, insn@),
            old(self)@.max_cache_size >= 1 && old(self)@.entries.len() <= old(self)@.max_cache_size
                ==> final(self)@.entries.len() <= old(self)@.max_cache_size,
    {
        proof {
            lemma_evicted_unique(self@.entries, self.max_cache_size, self.policy);
            lemma_put(evicted(self@.entries, self.max_cache_size, self.policy), key, cached_of(insn@));
        }
        let ghost iv = insn@;
        if self.cache.len() >= self.max_cache_size {
            self.evict_lru_entry();
        }
        let ghost e1 = self@.entries;
        let entry = CachedTargetInsn::from_insn(insn);
        match self.find(&key) {
            Some(i) => {
                let ghost old_cache = self.cache@;
                self.cache.set(i, (key, entry));
                assert(self@.entries =~= e1.update(i as int, (key, cached_of(iv))));
            },
            None => {
                self.cache.push((key, entry));
                assert(self@.entries =~= e1.push((key, cached_of(iv))));
            },
        }
        assert(keys_unique(self@.entries));
    }

    /// The replacement step of `insert_fast`: the entry the policy picks is
    /// dropped.
    fn evict_lru_entry(&mut self)
        requires
            old(self).wf(),
            old(self)@.entries.len() >= old(self)@.max_cache_size,
        ensures
            final(self).wf(),
            final(self)@ == (FastPathView {
                entries: evicted(old(self)@.entries, old(self)@.max_cache_size, old(self)@.policy),
                ..old(self)@
            }),
    {
        if self.cache.len() > 0 {
            let ghost e = self@.entries;
            let victim = match self.policy {
                CachePolicy::Lfu => self.lfu_victim(),
                _ => 0,
            };
            self.cache.remove(victim);
            assert(self@.entries =~= e.remove(victim as int));
        }
    }

    /// The position of the first entry with the fewest hits.
    fn lfu_victim(&self) -> (r: usize)
        requires
            self.cache@.len() > 0,
        ensures
            r == lfu_index(self@.entries),
            r < self.cache@.len(),
    {
        let ghost e = self@.entries;
        let mut best: usize = 0;
        let mut i: usize = 1;
        proof {
            assert(e.subrange(0, 1).len() == 1);
        }
        while i < self.cache.len()
            invariant
                e == self@.entries,
                e.len() == self.cache@.len(),
                1 <= i <= e.len(),
                best < i,
                best == lfu_index(e.subrange(0, i as int)),
            decreases self.cache.len() - i,
        {
            let ghost pre = e.subrange(0, i as int + 1);
            proof {
                assert(pre.drop_last() =~= e.subrange(0, i as int));
                assert(pre.last() == e[i as int]);
                assert(pre[best as int] == e[best as int]);
                assert(e[i as int].1.hit_count == self.cache@[i as int].1.hit_count);
                assert(e[best as int].1.hit_count == self.cache@[best as int].1.hit_count);
            }
            if self.cache[i].1.hit_count < self.cache[best].1.hit_count {
                best = i;
            }
            i += 1;
        }
        assert(e.subrange(0, e.len() as int) =~= e);
        best
    }

    /// Every cached translation is at least one byte long.
    pub fn lengths_positive(&self) -> (b: bool)
        ensures
            b == lengths_positive(self@.entries),
    {
        let mut i: usize = 0;
        while i < self.cache.len()
            invariant
                i <= self.cache@.len(),
                forall|j: int| 0 <= j < i ==> (#[trigger] self@.entries[j]).1.insn.length >= 1,
            decreases self.cache.len() - i,
        {
            assert(self@.entries[i as int].1.insn.length == self.cache@[i as int].1.length);
            if self.cache[i].1.length == 0 {
                return false;
            }
            i += 1;
        }
        true
    }

    pub fn get_stats(&self) -> (s: FastPathStats)
        ensures
            s.cache_size == self@.entries.len(),
            s.max_cache_size == self@.max_cache_size,
            s.hits == self@.hits,
            s.misses == self@.misses,
    {
        FastPathStats { cache_size: self.cache.len(), max_cache_size: self.max_cache_size, hits: self.hits, misses: self.misses }
    }

    /// Empties the cache and resets both counters.
    pub fn clear(&mut self)
        ensures
            final(self).wf(),
            final(self)@ == (FastPathView { entries: Seq::empty(), hits: 0, misses: 0, ..old(self)@ }),
    {
        self.cache.clear();
        self.hits = 0;
        self.misses = 0;
        assert(self@.entries =~= Seq::<(SourceInsnKey, CachedView)>::empty());
    }

    /// Sets the limit to `new_size` and drops the oldest entries until at
    /// most `new_size` remain.
    pub fn set_max_size(&mut self, new_size: usize)
        requires
            old(self).wf(),
        ensures
            final(self).wf(),
            final(self)@ == (FastPathView {
                entries: truncated(old(self)@.entries, new_size),
                max_cache_size: new_size,
                ..old(self)@
            }),
    {
        let ghost e0 = self@.entries;
        while self.cache.len() > new_size
            invariant
                keys_unique(e0),
                e0.len() >= self@.entries.len(),
                self@.entries == e0.subrange(e0.len() - self@.entries.len(), e0.len() as int),
                self@.entries.len() >= new_size || self@.entries == e0,
                self@.hits == old(self)@.hits,
                self@.misses == old(self)@.misses,
                self@.max_cache_size == old(self)@.max_cache_size,
                self@.policy == old(self)@.policy,
                e0 == old(self)@.entries,
            decreases self.cache.len(),
        {
            let ghost e = self@.entries;
            self.cache.remove(0);
            assert(self@.entries =~= e.subrange(1, e.len() as int));
            assert(self@.entries =~= e0.subrange(e0.len() - self@.entries.len(), e0.len() as int));
        }
        assert(self@.entries =~= truncated(e0, new_size));
        assert(keys_unique(self@.entries));
        self.max_cache_size = new_size;
    }
}

/// `h` advanced by `n`, wrapping around as the counters do.
pub open spec fn bump(h: u64, n: nat) -> u64
    decreases n,
{
    if n == 0 {
        h
    } else {
        vstd::wrapping::u64_specs::wrapping_add(bump(h, (n - 1) as nat), 1)
    }
}

/// Every cached translation is at least one byte long.
pub open spec fn lengths_positive(e: Seq<(SourceInsnKey, CachedView)>) -> bool {
    forall|i: int| 0 <= i < e.len() ==> (#[trigger] e[i]).1.insn.length >= 1
}

/// A cache whose translations are all at least one byte long lets every
/// walk move forward.
pub proof fn lemma_lengths_positive_advance(
    e: Seq<(SourceInsnKey, CachedView)>,
    sa: u32,
    ta: u32,
    block: Seq<u8>,
    offset: nat,
)
    requires
        lengths_positive(e),
    ensures
        walk_advances(e, sa, ta, block, offset),
    decreases block.len() - offset,
{
    if offset < block.len() {
        let k = key_of_bytes(sa, ta, block.subrange(offset as int, block.len() as int));
        if has_key(e, k) {
            let p = key_pos(e, k);
            assert(e[p].1.insn.length >= 1);
            let c = e[p].1;
            let next: nat = if offset + c.insn.length >= block.len() {
                block.len()
            } else {
                (offset + c.insn.length) as nat
            };
            lemma_lengths_positive_advance(e, sa, ta, block, next);
        }
    }
}

/// Every cached translation that the walk over `block` from `offset` hits
/// is at least one byte long, so the walk moves forward at each hit.
pub open spec fn walk_advances(e: Seq<(SourceInsnKey, CachedView)>, sa: u32, ta: u32, block: Seq<u8>, offset: nat) -> bool
    decreases block.len() - offset,
{
    if offset >= block.len() {
        true
    } else {
        match lookup(e, key_of_bytes(sa, ta, block.subrange(offset as int, block.len() as int))) {
            None => true,
            Some(c) => c.insn.length >= 1 && {
                let next: nat = if offset + c.insn.length >= block.len() {
                    block.len()
                } else {
                    (offset + c.insn.length) as nat
                };
                walk_advances(e, sa, ta, block, next)
            },
        }
    }
}

/// The fast-path walk over `block` from `offset`: at each position the key
/// of the remaining bytes is looked up; a hit contributes the cached
/// instruction and advances by its length, a miss ends the walk in failure.
/// Yields the instructions (or `None` on a miss) and the number of hits.
pub open spec fn fast_walk(
    e: Seq<(SourceInsnKey, CachedView)>,
    sa: u32,
    ta: u32,
    block: Seq<u8>,
    offset: nat,
) -> (Option<Seq<InsnView>>, nat)
    decreases block.len() - offset,
{
    if offset >= block.len() {
        (Some(Seq::empty()), 0)
    } else {
        match lookup(e, key_of_bytes(sa, ta, block.subrange(offset as int, block.len() as int))) {
            None => (None, 0),
            Some(c) => if c.insn.length == 0 {
                (None, 0)
            } else {
                let next: nat = if offset + c.insn.length >= block.len() {
                    block.len()
                } else {
                    (offset + c.insn.length) as nat
                };
                let rest = fast_walk(e, sa, ta, block, next);
                (
                    match rest.0 {
                        Some(s) => Some(seq![c.insn] + s),
                        None => None,
                    },
                    rest.1 + 1,
                )
            },
        }
    }
}

pub open spec fn prepend(r: Seq<InsnView>, o: Option<Seq<InsnView>>) -> Option<Seq<InsnView>> {
    match o {
        Some(s) => Some(r + s),
        None => None,
    }
}

/// A translator with a fast-path cache in front of it.
pub struct TranslatorWithFastPath {
    pub translator: ArchTranslator,
    pub fast_path: FastPathTranslator,
}

impl TranslatorWithFastPath {
    pub fn new(translator: ArchTranslator, fast_path: FastPathTranslator) -> (t: Self)
        ensures
            t.translator == translator,
            t.fast_path == fast_path,
    {
        TranslatorWithFastPath { translator, fast_path }
    }

    /// Translates a block instruction by instruction from the cache (see
    /// `fast_walk`). Any miss makes the whole call fail with "Fallback to
    /// full translation"; the counters of the cache record every lookup.
    pub fn translate_block_fast(&mut self, source_block: &[u8], _source_addr: u64) -> (r: Result<
        Vec<TargetInstruction>,
        TranslationError,
    >)
        requires
            old(self).fast_path.wf(),
            walk_advances(
                old(self).fast_path@.entries,
                arch_number(old(self).translator.source_arch),
                arch_number(old(self).translator.target_arch),
                source_block@,
                0,
            ),
        ensures
            ({
                let s0 = old(self).fast_path@;
                let w = fast_walk(
                    s0.entries,
                    arch_number(old(self).translator.source_arch),
                    arch_number(old(self).translator.target_arch),
                    source_block@,
                    0,
                );
                &&& final(self).translator == old(self).translator
                &&& final(self).fast_path.wf()
                &&& final(self).fast_path@ == (FastPathView {
                    hits: bump(s0.hits, w.1),
                    misses: if w.0 is None {
                        vstd::wrapping::u64_specs::wrapping_add(s0.misses, 1)
                    } else {
                        s0.misses
                    },
                    ..s0
                })
                &&& match w.0 {
                    Some(insns) => r is Ok && crate::encoding::insns_view(r->Ok_0@) == insns,
                    None => r matches Err(TranslationError::StringError(m)) && m@ == "Fallback to full translation"@,
                }
            }),
    {
        let ghost s0 = self.fast_path@;
        let sa = arch_code(self.translator.source_arch);
        let ta = arch_code(self.translator.target_arch);
        let ghost full = fast_walk(s0.entries, sa, ta, source_block@, 0);
        let mut result: Vec<TargetInstruction> = Vec::new();
        let mut offset: usize = 0;
        let ghost mut count: nat = 0;
        while offset < source_block.len()
            invariant
                self.fast_path.wf(),
                s0 == old(self).fast_path@,
                self.fast_path@.entries == s0.entries,
                self.fast_path@.max_cache_size == s0.max_cache_size,
                self.fast_path@.policy == s0.policy,
                self.fast_path@.misses == s0.misses,
                self.fast_path@.hits == bump(s0.hits, count),
                walk_advances(s0.entries, sa, ta, source_block@, offset as nat),
                offset <= source_block@.len(),
                full == fast_walk(s0.entries, sa, ta, source_block@, 0),
                full.1 == count + fast_walk(s0.entries, sa, ta, source_block@, offset as nat).1,
                full.0 == prepend(
                    crate::encoding::insns_view(result@),
                    fast_walk(s0.entries, sa, ta, source_block@, offset as nat).0,
                ),
                self.translator == old(self).translator,
                sa == arch_number(self.translator.source_arch),
                ta == arch_number(self.translator.target_arch),
            decreases source_block.len() - offset,
        {
            let rest = slice_from(source_block, offset);
            let key = SourceInsnKey::from_bytes(sa, ta, rest);
            let ghost off0 = offset as nat;
            match self.fast_path.translate_fast(&key) {
                Some(cached) => {
                    assert(cached@.insn.length >= 1);
                    let ghost before = crate::encoding::insns_view(result@);
                    let insn = cached.to_insn();
                    result.push(insn);
                    assert(crate::encoding::insns_view(result@) =~= before.push(cached@.insn));
                    if cached.length >= source_block.len() - offset {
                        offset = source_block.len();
                    } else {
                        offset = offset + cached.length;
                    }
                    proof {
                        count = count + 1;
                        assert(fast_walk(s0.entries, sa, ta, source_block@, off0) == (
                            prepend(seq![cached@.insn], fast_walk(s0.entries, sa, ta, source_block@, offset as nat).0),
                            fast_walk(s0.entries, sa, ta, source_block@, offset as nat).1 + 1,
                        ));
                        let w = fast_walk(s0.entries, sa, ta, source_block@, offset as nat);
                        match w.0 {
                            Some(t) => {
                                assert(before + (seq![cached@.insn] + t) =~= before.push(cached@.insn) + t);
                            },
                            None => {},
                        }
                    }
                },
                None => {
                    assert(fast_walk(s0.entries, sa, ta, source_block@, off0) == (None::<Seq<InsnView>>, 0nat));

                    return Err(TranslationError::StringError(text("Fallback to full translation")));
                },
            }
        }
        proof {
            assert(crate::encoding::insns_view(result@) + Seq::<InsnView>::empty() =~= crate::encoding::insns_view(result@));
        }
        Ok(result)
    }

    /// `translate_block_fast`, where every cached translation is at least
    /// one byte long; otherwise `None` and nothing changes.
    pub fn translate_block_fast_checked(&mut self, source_block: &[u8], source_addr: u64) -> (r: Option<
        Result<Vec<TargetInstruction>, TranslationError>,
    >)
        requires
            old(self).fast_path.wf(),
        ensures
            r is None <==> !lengths_positive(old(self).fast_path@.entries),
            r is None ==> *final(self) == *old(self),
            r matches Some(res) ==> ({
                let s0 = old(self).fast_path@;
                let w = fast_walk(
                    s0.entries,
                    arch_number(old(self).translator.source_arch),
                    arch_number(old(self).translator.target_arch),
                    source_block@,
                    0,
                );
                &&& final(self).translator == old(self).translator
                &&& final(self).fast_path.wf()
                &&& final(self).fast_path@ == (FastPathView {
                    hits: bump(s0.hits, w.1),
                    misses: if w.0 is None {
                        vstd::wrapping::u64_specs::wrapping_add(s0.misses, 1)
                    } else {
                        s0.misses
                    },
                    ..s0
                })
                &&& match w.0 {
                    Some(insns) => res is Ok && crate::encoding::insns_view(res->Ok_0@) == insns,
                    None => res matches Err(TranslationError::StringError(m)) && m@ == "Fallback to full translation"@,
                }
            }),
    {
        if !self.fast_path.lengths_positive() {
            return None;
        }
        proof {
            lemma_lengths_positive_advance(
                self.fast_path@.entries,
                arch_number(self.translator.source_arch),
                arch_number(self.translator.target_arch),
                source_block@,
                0,
            );
        }
        Some(self.translate_block_fast(source_block, source_addr))
    }

    pub fn get_fast_path_stats(&self) -> (s: FastPathStats)
        ensures
            s.cache_size == self.fast_path@.entries.len(),
            s.max_cache_size == self.fast_path@.max_cache_size,
            s.hits == self.fast_path@.hits,
            s.misses == self.fast_path@.misses,
    {
        self.fast_path.get_stats()
    }

    /// Counters of the underlying translator; none are kept.
    pub fn get_base_stats(&self) -> (s: Option<TranslationStats>)
        ensures
            s is None,
    {
        None
    }
}

/// The bytes of `s` from `start` on.
fn slice_from(s: &[u8], start: usize) -> (r: &[u8])
    requires
        start <= s@.len(),
    ensures
        r@ == s@.subrange(start as int, s@.len() as int),
{
    vstd::slice::slice_subrange(s, start, s.len())
}

/// Dropping the oldest entry keeps keys unique.
proof fn lemma_evicted_unique(e: Seq<(SourceInsnKey, CachedView)>, max: usize, policy: CachePolicy)
    requires
        keys_unique(e),
    ensures
        keys_unique(evicted(e, max, policy)),
        evicted(e, max, policy).len() <= e.len(),
        evicted(e, max, policy).len() >= e.len() - 1,
        e.len() >= max && e.len() > 0 ==> evicted(e, max, policy).len() == e.len() - 1,
{
    let v = evicted(e, max, policy);
    if e.len() >= max && e.len() > 0 {
        let x = victim_index(e, policy);
        if policy == CachePolicy::Lfu {
            lemma_lfu_index_in_range(e);
        }
        assert(0 <= x < e.len());
        assert forall|i: int, j: int| 0 <= i < v.len() && 0 <= j < v.len() && i != j implies (#[trigger] v[i]).0
            != (#[trigger] v[j]).0 by {
            let a = if i < x { i } else { i + 1 };
            let b = if j < x { j } else { j + 1 };
            assert(v[i] == e[a] && v[j] == e[b]);
        }
    }
}

/// Mapping a key keeps keys unique, and the key then maps to the new entry.
proof fn lemma_put(e: Seq<(SourceInsnKey, CachedView)>, k: SourceInsnKey, c: CachedView)
    requires
        keys_unique(e),
    ensures
        keys_unique(put(e, k, c)),
        lookup(put(e, k, c), k) == Some(c),
        forall|k2: SourceInsnKey| k2 != k ==> lookup(put(e, k, c), k2) == lookup(e, k2),
        put(e, k, c).len() == if has_key(e, k) { e.len() } else { e.len() + 1 },
{
    let p = put(e, k, c);
    if has_key(e, k) {
        let q = key_pos(e, k);
        assert(p[q].0 == k);
        assert forall|i: int, j: int| 0 <= i < p.len() && 0 <= j < p.len() && i != j implies (#[trigger] p[i]).0
            != (#[trigger] p[j]).0 by {
            if i == q {
                assert(e[j].0 != e[q].0);
            } else if j == q {
                assert(e[i].0 != e[q].0);
            } else {
                assert(e[i].0 != e[j].0);
            }
        }
        assert forall|k2: SourceInsnKey| k2 != k implies lookup(p, k2) == lookup(e, k2) by {
            if has_key(e, k2) {
                let r = key_pos(e, k2);
                assert(r != q);
                assert(p[r].0 == k2);
                assert(has_key(p, k2));
                let r2 = key_pos(p, k2);
                assert(r2 == r);
            } else {
                if has_key(p, k2) {
                    let r2 = key_pos(p, k2);
                    assert(r2 != q);
                    assert(e[r2].0 == k2);
                }
            }
        }
    } else {
        let n = e.len() as int;
        assert(p[n].0 == k);
        assert forall|i: int, j: int| 0 <= i < p.len() && 0 <= j < p.len() && i != j implies (#[trigger] p[i]).0
            != (#[trigger] p[j]).0 by {
            if i == n {
                assert(e[j].0 != k);
            } else if j == n {
                assert(e[i].0 != k);
            } else {
                assert(e[i].0 != e[j].0);
            }
        }
        assert forall|k2: SourceInsnKey| k2 != k implies lookup(p, k2) == lookup(e, k2) by {
            if has_key(e, k2) {
                let r = key_pos(e, k2);
                assert(p[r].0 == k2);
                assert(has_key(p, k2));
                let r2 = key_pos(p, k2);
                assert(r2 == r);
            } else {
                if has_key(p, k2) {
                    let r2 = key_pos(p, k2);
                    assert(r2 != n);
                    assert(e[r2].0 == k2);
                }
            }
        }
    }
}

/// What is inserted is found: right after `insert_fast(k, i)` a lookup of
/// `k` hits and returns `i` as a fresh entry, whatever the policy and limit.
pub proof fn lemma_insert_then_lookup(s: FastPathView, k: SourceInsnKey, i: InsnView)
    requires
        keys_unique(s.entries),
    ensures
        keys_unique(after_insert(s, k, i).entries),
        lookup(after_insert(s, k, i).entries, k) == Some(cached_of(i)),
        has_key(after_insert(s, k, i).entries, k),
{
    lemma_evicted_unique(s.entries, s.max_cache_size, s.policy);
    lemma_put(evicted(s.entries, s.max_cache_size, s.policy), k, cached_of(i));
}

/// An insertion touches no other key except through the replacement step:
/// other keys map as they did after eviction, and a cache below its limit
/// loses none.
pub proof fn lemma_insert_keeps_other_keys(s: FastPathView, k: SourceInsnKey, i: InsnView, k2: SourceInsnKey)
    requires
        keys_unique(s.entries),
        k2 != k,
    ensures
        lookup(after_insert(s, k, i).entries, k2) == lookup(evicted(s.entries, s.max_cache_size, s.policy), k2),
        s.entries.len() < s.max_cache_size ==> lookup(after_insert(s, k, i).entries, k2) == lookup(s.entries, k2),
{
    lemma_evicted_unique(s.entries, s.max_cache_size, s.policy);
    lemma_put(evicted(s.entries, s.max_cache_size, s.policy), k, cached_of(i));
}

/// Under every policy with a positive limit, a cache within its limit stays
/// within it after an insertion.
pub proof fn lemma_insert_respects_limit(s: FastPathView, k: SourceInsnKey, i: InsnView)
    requires
        keys_unique(s.entries),
        s.max_cache_size >= 1,
        s.entries.len() <= s.max_cache_size,
    ensures
        after_insert(s, k, i).entries.len() <= s.max_cache_size,
{
    lemma_evicted_unique(s.entries, s.max_cache_size, s.policy);
    lemma_put(evicted(s.entries, s.max_cache_size, s.policy), k, cached_of(i));
}

/// A call on a fast-path cache, as a law over sequences of calls sees it.
pub enum FastPathCall {
    Insert(SourceInsnKey, InsnView),
    Lookup(SourceInsnKey),
    Clear,
}

/// The state after one call (see `insert_fast`, `translate_fast`, `clear`).
pub open spec fn after_call(s: FastPathView, c: FastPathCall) -> FastPathView {
    match c {
        FastPathCall::Insert(k, i) => after_insert(s, k, i),
        FastPathCall::Lookup(k) => after_lookup(s, k),
        FastPathCall::Clear => FastPathView { entries: Seq::empty(), hits: 0, misses: 0, ..s },
    }
}

/// The state after the calls `cs`, one after the other.
pub open spec fn after_calls(s: FastPathView, cs: Seq<FastPathCall>) -> FastPathView
    decreases cs.len(),
{
    if cs.len() == 0 {
        s
    } else {
        after_call(after_calls(s, cs.drop_last()), cs.last())
    }
}

/// From a cache within a limit of at least one entry (such as a new one),
/// every sequence of insertions, lookups and clears keeps keys unique, the
/// limit and the cache within it; and right after an insertion of `i` under
/// `k`, a lookup of `k` finds `i`, never yet used.
pub proof fn lemma_calls_respect_limit(s: FastPathView, cs: Seq<FastPathCall>)
    requires
        keys_unique(s.entries),
        s.max_cache_size >= 1,
        s.entries.len() <= s.max_cache_size,
    ensures
        keys_unique(after_calls(s, cs).entries),
        after_calls(s, cs).max_cache_size == s.max_cache_size,
        after_calls(s, cs).entries.len() <= s.max_cache_size,
        cs.len() > 0 ==> (cs.last() matches FastPathCall::Insert(k, i) ==> lookup(after_calls(s, cs).entries, k)
            == Some(cached_of(i))),
    decreases cs.len(),
{
    if cs.len() > 0 {
        lemma_calls_respect_limit(s, cs.drop_last());
        let t = after_calls(s, cs.drop_last());
        match cs.last() {
            FastPathCall::Insert(k, i) => {
                lemma_insert_respects_limit(t, k, i);
                lemma_insert_then_lookup(t, k, i);
            },
            FastPathCall::Lookup(k) => {},
            FastPathCall::Clear => {
                assert(keys_unique(Seq::<(SourceInsnKey, CachedView)>::empty()));
            },
        }
    }
}

/// A lookup changes no entry and advances exactly one of the two counters
/// by one: hits when the key is cached, misses when it is not.
pub proof fn lemma_lookup_counts(s: FastPathView, k: SourceInsnKey)
    ensures
        after_lookup(s, k).entries == s.entries,
        has_key(s.entries, k) ==> after_lookup(s, k).hits == bump(s.hits, 1) && after_lookup(s, k).misses == s.misses,
        !has_key(s.entries, k) ==> after_lookup(s, k).misses == bump(s.misses, 1) && after_lookup(s, k).hits == s.hits,
{
    assert(bump(s.hits, 1) == vstd::wrapping::u64_specs::wrapping_add(bump(s.hits, 0), 1));
    assert(bump(s.misses, 1) == vstd::wrapping::u64_specs::wrapping_add(bump(s.misses, 0), 1));
}

} // verus!
