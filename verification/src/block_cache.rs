//! A cache of translated blocks keyed by architecture pair, start address
//! and a hash of the block, with a bounded number of entries and a
//! replacement policy.

use vstd::prelude::*;
use std::hash::{Hash, Hasher};
use crate::encoding::{copy_insns, insns_view, InsnView, TargetInstruction, TranslationError};
use crate::ir::{GuestAddr, IRBlock, IROp, Terminator};
use crate::keyed::{
    get, has_key, lemma_pos, lemma_push_contains, lemma_put, lemma_remove_key, lemma_without, pos, put,
    remove_key, unique, without,
};
use crate::translator::{ArchTranslator, SourceArch, TargetArch, TranslationResult, TranslationStats};
use crate::clock::now;

verus! {

/// A random position below `n`, from `fastrand::usize(..n)`, which draws
/// uniformly from the range and panics only on an empty range.
#[verifier::external_body]
fn random_index(n: usize) -> (i: usize)
    requires
        n > 0,
    ensures
        i < n,
{
    fastrand::usize(..n)
}

/// The value of `DefaultHasher::finish` after hashing, from
/// `DefaultHasher::new()`, a start address, a sequence of operations and a
/// terminator, in this order.
pub uninterp spec fn default_hash_of_block(start_pc: u64, ops: Seq<IROp>, term: Terminator) -> u64;

/// Hashes the start address, the operations (length first) and the
/// terminator of a block with a fresh `std::collections::hash_map::DefaultHasher`.
/// Every hasher made by `DefaultHasher::new` starts from the same fixed keys,
/// so the result is claimed to depend on these values alone; nothing is
/// claimed of its value.
#[verifier::external_body]
fn hash_block(start_pc: u64, block: &IRBlock) -> (h: u64)
    ensures
        h == default_hash_of_block(start_pc, block.ops@, block.term),
{
    let mut hasher = std::collections::hash_map::DefaultHasher::new();
    start_pc.hash(&mut hasher);
    block.ops.hash(&mut hasher);
    block.term.hash(&mut hasher);
    hasher.finish()
}

/// Key of a source block.
#[derive(Debug, Clone, Copy, PartialEq, Eq, Structural, Hash)]
pub struct SourceBlockKey {
    pub source_arch: SourceArch,
    pub target_arch: TargetArch,
    pub start_pc: GuestAddr,
    /// Hash of the block, so that changed code gets a new key.
    pub block_hash: u64,
}

impl SourceBlockKey {
    /// A key from its parts, the hash already computed.
    pub fn with_hash(source_arch: SourceArch, target_arch: TargetArch, start_pc: GuestAddr, block_hash: u64) -> (k: Self)
        ensures
            k == (SourceBlockKey { source_arch, target_arch, start_pc, block_hash }),
    {
        SourceBlockKey { source_arch, target_arch, start_pc, block_hash }
    }

    /// The key of `block` at `start_pc`.
    pub fn new(source_arch: SourceArch, target_arch: TargetArch, start_pc: GuestAddr, block: &IRBlock) -> (k: Self)
        ensures
            k == (SourceBlockKey {
                source_arch,
                target_arch,
                start_pc,
                block_hash: default_hash_of_block(start_pc, block.ops@, block.term),
            }),
    {
        let h = hash_block(start_pc, block);
        Self::with_hash(source_arch, target_arch, start_pc, h)
    }
}

/// Replacement policy of the block cache.
#[derive(Debug, Clone, Copy, PartialEq, Eq, Structural)]
pub enum CacheReplacementPolicy {
    /// The least recently inserted or found block leaves.
    Lru,
    /// The first inserted block leaves.
    Fifo,
    /// The block found least often leaves.
    Lfu,
    /// A randomly chosen block leaves.
    Random,
}

/// Counters of the block cache (hits, misses and evictions wrap).
#[derive(Debug, Clone, Copy)]
pub struct CacheStats {
    pub hits: u64,
    pub misses: u64,
    pub evictions: u64,
    pub current_size: usize,
    pub max_size: usize,
}

impl Default for CacheStats {
    fn default() -> (s: Self)
        ensures
            s == (CacheStats { hits: 0, misses: 0, evictions: 0, current_size: 0, max_size: 0 }),
    {
        CacheStats { hits: 0, misses: 0, evictions: 0, current_size: 0, max_size: 0 }
    }
}

pub open spec fn inc(x: u64) -> u64 {
    vstd::wrapping::u64_specs::wrapping_add(x, 1)
}

/// A cached translation.
#[derive(Debug, Clone)]
pub struct TranslatedBlock {
    pub instructions: Vec<TargetInstruction>,
    pub stats: TranslationStats,
    pub created_at: std::time::Instant,
    pub last_accessed: std::time::Instant,
    pub access_count: u64,
}

pub struct BlockView {
    pub instructions: Seq<InsnView>,
    pub stats: TranslationStats,
    pub access_count: u64,
}

impl View for TranslatedBlock {
    type V = BlockView;

    open spec fn view(&self) -> BlockView {
        BlockView { instructions: insns_view(self.instructions@), stats: self.stats, access_count: self.access_count }
    }
}

impl TranslatedBlock {
    /// A block created now, never accessed.
    pub fn new(instructions: Vec<TargetInstruction>, stats: TranslationStats) -> (b: Self)
        ensures
            b@ == (BlockView { instructions: insns_view(instructions@), stats, access_count: 0 }),
            b.created_at == b.last_accessed,
    {
        let t = now();
        TranslatedBlock { instructions, stats, created_at: t, last_accessed: t, access_count: 0 }
    }

    /// Records an access now: the access count goes up by one (wrapping),
    /// the creation time stays, and the last access time is read from the
    /// clock.
    pub fn mark_accessed(&mut self)
        ensures
            final(self)@ == (BlockView { access_count: inc(old(self)@.access_count), ..old(self)@ }),
            final(self).created_at == old(self).created_at,
    {
        self.last_accessed = now();
        self.access_count = self.access_count.wrapping_add(1);
    }
}

/// The block after `k` calls of `mark_accessed`.
pub open spec fn marked(b: BlockView, k: nat) -> BlockView
    decreases k,
{
    if k == 0 {
        b
    } else {
        let p = marked(b, (k - 1) as nat);
        BlockView { access_count: inc(p.access_count), ..p }
    }
}

/// A block created by `new` (access count zero) and then marked `k` times
/// (no more than `u64::MAX`) has access count `k`, and its instructions and
/// statistics are those it was created with.
pub proof fn lemma_marked_counts(b: BlockView, k: nat)
    requires
        b.access_count == 0,
        k <= u64::MAX,
    ensures
        marked(b, k).access_count == k,
        marked(b, k).instructions == b.instructions,
        marked(b, k).stats == b.stats,
    decreases k,
{
    if k > 0 {
        lemma_marked_counts(b, (k - 1) as nat);
        let p = marked(b, (k - 1) as nat);
        assert(p.access_count < u64::MAX);
        assert(inc(p.access_count) == p.access_count + 1) by {
            reveal(vstd::wrapping::u64_specs::wrapping_add);
        }
    }
}

/// The state of the block cache.
pub struct BlockCacheView {
    /// Entries in insertion order.
    pub entries: Seq<(SourceBlockKey, BlockView)>,
    /// Recency order under LRU, least recent first.
    pub lru: Seq<SourceBlockKey>,
    /// Insertion order under FIFO.
    pub fifo: Seq<SourceBlockKey>,
    /// Access counts under LFU.
    pub counts: Seq<(SourceBlockKey, u64)>,
    pub policy: CacheReplacementPolicy,
    pub max_size: usize,
    pub stats: CacheStats,
}

/// Keys are unique, the size counters match, and the bookkeeping of the
/// policy covers exactly the cached keys.
pub open spec fn cache_wf(s: BlockCacheView) -> bool {
    &&& unique(s.entries)
    &&& unique(s.counts)
    &&& s.stats.current_size == s.entries.len()
    &&& s.stats.max_size == s.max_size
    &&& s.policy == CacheReplacementPolicy::Lru ==> forall|k: SourceBlockKey| #[trigger] s.lru.contains(k) <==> has_key(s.entries, k)
    &&& s.policy == CacheReplacementPolicy::Fifo ==> forall|k: SourceBlockKey| #[trigger] s.fifo.contains(k) <==> has_key(s.entries, k)
    &&& s.policy == CacheReplacementPolicy::Lfu ==> forall|k: SourceBlockKey| #[trigger] has_key(s.counts, k) <==> has_key(s.entries, k)
}

/// The first position of `k` in `q`.
pub open spec fn first_pos(q: Seq<SourceBlockKey>, k: SourceBlockKey) -> int {
    choose|i: int| 0 <= i < q.len() && q[i] == k && forall|j: int| 0 <= j < i ==> q[j] != k
}

/// The bookkeeping of an access to cached key `k`: under LRU the first
/// occurrence of `k` moves to the most recent end; under LFU its count goes
/// up by one (from zero if it had none); the block records the access.
pub open spec fn touch(s: BlockCacheView, k: SourceBlockKey) -> BlockCacheView {
    BlockCacheView {
        lru: if s.policy == CacheReplacementPolicy::Lru && s.lru.contains(k) {
            s.lru.remove(first_pos(s.lru, k)).push(k)
        } else {
            s.lru
        },
        counts: if s.policy == CacheReplacementPolicy::Lfu {
            put(s.counts, k, inc(
                match get(s.counts, k) {
                    Some(c) => c,
                    None => 0,
                },
            ))
        } else {
            s.counts
        },
        entries: put(
            s.entries,
            k,
            BlockView { access_count: inc(get(s.entries, k)->Some_0.access_count), ..get(s.entries, k)->Some_0 },
        ),
        ..s
    }
}

/// The state after `lookup(k)`: a hit records the access and counts a hit;
/// a miss counts a miss.
pub open spec fn lookup_spec(s: BlockCacheView, k: SourceBlockKey) -> BlockCacheView {
    if has_key(s.entries, k) {
        let t = touch(s, k);
        BlockCacheView { stats: CacheStats { hits: inc(s.stats.hits), ..t.stats }, ..t }
    } else {
        BlockCacheView { stats: CacheStats { misses: inc(s.stats.misses), ..s.stats }, ..s }
    }
}

/// `i` is the first position of least count.
pub open spec fn is_min_first(c: Seq<(SourceBlockKey, u64)>, i: int) -> bool {
    &&& 0 <= i < c.len()
    &&& forall|j: int| 0 <= j < c.len() ==> (#[trigger] c[j]).1 >= c[i].1
    &&& forall|j: int| 0 <= j < i ==> (#[trigger] c[j]).1 > c[i].1
}

/// The block that leaves under LRU, FIFO and LFU.
pub open spec fn victim(s: BlockCacheView) -> Option<SourceBlockKey> {
    match s.policy {
        CacheReplacementPolicy::Lru => if s.lru.len() > 0 { Some(s.lru[0]) } else { None },
        CacheReplacementPolicy::Fifo => if s.fifo.len() > 0 { Some(s.fifo[0]) } else { None },
        CacheReplacementPolicy::Lfu => if exists|i: int| is_min_first(s.counts, i) {
            Some(s.counts[choose|i: int| is_min_first(s.counts, i)].0)
        } else {
            None
        },
        CacheReplacementPolicy::Random => None,
    }
}

/// The state after block `k` leaves.
pub open spec fn after_evict(s: BlockCacheView, k: SourceBlockKey) -> BlockCacheView {
    BlockCacheView {
        entries: remove_key(s.entries, k),
        lru: if s.policy == CacheReplacementPolicy::Lru { without(s.lru, k) } else { s.lru },
        fifo: if s.policy == CacheReplacementPolicy::Fifo { without(s.fifo, k) } else { s.fifo },
        counts: if s.policy == CacheReplacementPolicy::Lfu { remove_key(s.counts, k) } else { s.counts },
        stats: CacheStats {
            evictions: inc(s.stats.evictions),
            current_size: remove_key(s.entries, k).len() as usize,
            ..s.stats
        },
        ..s
    }
}

/// `s2` is a possible state after one replacement step from `s`: nothing
/// happens to an empty cache; under Random some cached block leaves; under
/// the other policies the `victim` leaves.
pub open spec fn evict_outcome(s: BlockCacheView, s2: BlockCacheView) -> bool {
    if s.entries.len() == 0 {
        s2 == s
    } else if s.policy == CacheReplacementPolicy::Random {
        exists|i: int| 0 <= i < s.entries.len() && s2 == after_evict(s, (#[trigger] s.entries[i]).0)
    } else {
        match victim(s) {
            Some(k) => s2 == after_evict(s, k),
            None => s2 == s,
        }
    }
}

/// The deterministic replacement step (all policies but Random).
pub open spec fn evict_step(s: BlockCacheView) -> BlockCacheView {
    if s.entries.len() == 0 {
        s
    } else {
        match victim(s) {
            Some(k) => after_evict(s, k),
            None => s,
        }
    }
}

pub open spec fn evict_steps(s: BlockCacheView, n: nat) -> BlockCacheView
    decreases n,
{
    if n == 0 {
        s
    } else {
        evict_step(evict_steps(s, (n - 1) as nat))
    }
}

/// Storing block `b` under `k` in `s` (after any replacement step): the
/// entry is added or replaced and the policy's bookkeeping starts afresh
/// for `k` (LRU and FIFO append it, LFU sets its count to one).
pub open spec fn put_phase(s: BlockCacheView, k: SourceBlockKey, b: BlockView) -> BlockCacheView {
    BlockCacheView {
        entries: put(s.entries, k, b),
        lru: if s.policy == CacheReplacementPolicy::Lru { s.lru.push(k) } else { s.lru },
        fifo: if s.policy == CacheReplacementPolicy::Fifo { s.fifo.push(k) } else { s.fifo },
        counts: if s.policy == CacheReplacementPolicy::Lfu { put(s.counts, k, 1) } else { s.counts },
        stats: CacheStats { current_size: put(s.entries, k, b).len() as usize, ..s.stats },
        ..s
    }
}

/// `s2` is a possible state after `insert(k, b)` from `s`: a full cache
/// (at least `max_size` entries) first takes one replacement step.
pub open spec fn insert_outcome(s: BlockCacheView, k: SourceBlockKey, b: BlockView, s2: BlockCacheView) -> bool {
    exists|mid: BlockCacheView|
        (if s.entries.len() >= s.max_size {
            evict_outcome(s, mid)
        } else {
            mid == s
        }) && s2 == #[trigger] put_phase(mid, k, b)
}

/// The translated-block cache.
pub struct CrossArchBlockCache {
    cache: Vec<(SourceBlockKey, TranslatedBlock)>,
    lru_order: Vec<SourceBlockKey>,
    fifo_queue: Vec<SourceBlockKey>,
    access_counts: Vec<(SourceBlockKey, u64)>,
    policy: CacheReplacementPolicy,
    max_size: usize,
    stats: CacheStats,
}

pub open spec fn blocks_view(t: Seq<(SourceBlockKey, TranslatedBlock)>) -> Seq<(SourceBlockKey, BlockView)> {
    t.map_values(|p: (SourceBlockKey, TranslatedBlock)| (p.0, p.1@))
}

impl View for CrossArchBlockCache {
    type V = BlockCacheView;

    closed spec fn view(&self) -> BlockCacheView {
        BlockCacheView {
            entries: blocks_view(self.cache@),
            lru: self.lru_order@,
            fifo: self.fifo_queue@,
            counts: self.access_counts@,
            policy: self.policy,
            max_size: self.max_size,
            stats: self.stats,
        }
    }
}

fn find_block(t: &Vec<(SourceBlockKey, TranslatedBlock)>, key: &SourceBlockKey) -> (r: Option<usize>)
    requires
        unique(blocks_view(t@)),
    ensures
        match r {
            Some(i) => i < t@.len() && has_key(blocks_view(t@), *key) && pos(blocks_view(t@), *key) == i,
            None => !has_key(blocks_view(t@), *key),
        },
{
    let ghost v = blocks_view(t@);
    let mut i: usize = 0;
    while i < t.len()
        invariant
            v == blocks_view(t@),
            unique(v),
            i <= t@.len(),
            forall|j: int| 0 <= j < i ==> (#[trigger] v[j]).0 != *key,
        decreases t.len() - i,
    {
        assert(v[i as int].0 == t@[i as int].0);
        if t[i].0 == *key {
            proof {
                lemma_pos(v, i as int);
            }
            return Some(i);
        }
        i += 1;
    }
    None
}

fn find_count(t: &Vec<(SourceBlockKey, u64)>, key: &SourceBlockKey) -> (r: Option<usize>)
    requires
        unique(t@),
    ensures
        match r {
            Some(i) => i < t@.len() && has_key(t@, *key) && pos(t@, *key) == i,
            None => !has_key(t@, *key),
        },
{
    let mut i: usize = 0;
    while i < t.len()
        invariant
            unique(t@),
            i <= t@.len(),
            forall|j: int| 0 <= j < i ==> (#[trigger] t@[j]).0 != *key,
        decreases t.len() - i,
    {
        if t[i].0 == *key {
            proof {
                lemma_pos(t@, i as int);
            }
            return Some(i);
        }
        i += 1;
    }
    None
}

/// `q` without any occurrence of `key`.
fn remove_all(q: &mut Vec<SourceBlockKey>, key: &SourceBlockKey)
    ensures
        final(q)@ == without(old(q)@, *key),
{
    let ghost q0 = q@;
    let mut out: Vec<SourceBlockKey> = Vec::new();
    let mut i: usize = 0;
    while i < q.len()
        invariant
            q0 == q@,
            i <= q0.len(),
            out@ == without(q0.subrange(0, i as int), *key),
        decreases q.len() - i,
    {
        let x = q[i];
        assert(q0.subrange(0, i + 1).drop_last() =~= q0.subrange(0, i as int));
        if x != *key {
            out.push(x);
        }
        i += 1;
    }
    assert(q0.subrange(0, q0.len() as int) =~= q0);
    *q = out;
}

impl CrossArchBlockCache {
    pub open spec fn wf(&self) -> bool {
        cache_wf(self@)
    }

    pub fn new(max_size: usize, policy: CacheReplacementPolicy) -> (c: Self)
        ensures
            c.wf(),
            c@ == (BlockCacheView {
                entries: Seq::empty(),
                lru: Seq::empty(),
                fifo: Seq::empty(),
                counts: Seq::empty(),
                policy,
                max_size,
                stats: CacheStats { hits: 0, misses: 0, evictions: 0, current_size: 0, max_size },
            }),
    {
        let c = CrossArchBlockCache {
            cache: Vec::new(),
            lru_order: Vec::new(),
            fifo_queue: Vec::new(),
            access_counts: Vec::new(),
            policy,
            max_size,
            stats: CacheStats { hits: 0, misses: 0, evictions: 0, current_size: 0, max_size },
        };
        assert(c@.entries =~= Seq::<(SourceBlockKey, BlockView)>::empty());
        c
    }

    /// Looks a block up (see `lookup_spec`); a hit returns the block with
    /// the access recorded.
    pub fn lookup(&mut self, key: &SourceBlockKey) -> (r: Option<&TranslatedBlock>)
        requires
            old(self).wf(),
        ensures
            final(self).wf(),
            final(self)@ == lookup_spec(old(self)@, *key),
            match r {
                Some(b) => has_key(old(self)@.entries, *key) && get(final(self)@.entries, *key) == Some(b@),
                None => !has_key(old(self)@.entries, *key),
            },
    {
        match find_block(&self.cache, key) {
            Some(i) => {
                self.update_access_info(key, i);
                self.stats.hits = self.stats.hits.wrapping_add(1);
                proof {
                    lemma_pos(self@.entries, i as int);
                }
                Some(&self.cache[i].1)
            },
            None => {
                self.stats.misses = self.stats.misses.wrapping_add(1);
                None
            },
        }
    }

    /// Adds a block; a cache holding `max_size` or more blocks first lets
    /// one go (see `insert_outcome`).
    pub fn insert(&mut self, key: SourceBlockKey, block: TranslatedBlock)
        requires
            old(self).wf(),
        ensures
            final(self).wf(),
            insert_outcome(old(self)@, key, block@, final(self)@),
    {
        let ghost s = self@;
        let ghost bv = block@;
        if self.cache.len() >= self.max_size {
            self.evict_block();
        }
        let ghost mid = self@;
        proof {
            lemma_put(mid.entries, key, bv);
        }
        match find_block(&self.cache, &key) {
            Some(i) => {
                self.cache.set(i, (key, block));
                assert(self@.entries =~= put(mid.entries, key, bv));
            },
            None => {
                self.cache.push((key, block));
                assert(self@.entries =~= put(mid.entries, key, bv));
            },
        }
        self.initialize_access_info(&key);
        self.stats.current_size = self.cache.len();
        assert(self@ == put_phase(mid, key, bv));
        proof {
            assert forall|k: SourceBlockKey| #[trigger] has_key(put(mid.entries, key, bv), k) <==> (has_key(mid.entries, k) || k == key) by {
                if k != key {
                    assert(get(put(mid.entries, key, bv), k) == get(mid.entries, k));
                }
            }
            if mid.policy == CacheReplacementPolicy::Lru {
                assert forall|k: SourceBlockKey| #[trigger] self@.lru.contains(k) <==> has_key(self@.entries, k) by {
                    lemma_push_contains(mid.lru, key, k);
                }
            }
            if mid.policy == CacheReplacementPolicy::Fifo {
                assert forall|k: SourceBlockKey| #[trigger] self@.fifo.contains(k) <==> has_key(self@.entries, k) by {
                    lemma_push_contains(mid.fifo, key, k);
                }
            }
            if mid.policy == CacheReplacementPolicy::Lfu {
                lemma_put(mid.counts, key, 1u64);
                assert forall|k: SourceBlockKey| #[trigger] has_key(self@.counts, k) <==> has_key(self@.entries, k) by {
                    if k != key {
                        assert(get(put(mid.counts, key, 1u64), k) == get(mid.counts, k));
                    }
                }
            }
        }
    }

    /// Looks the block up and, on a miss, translates it with `translate` and
    /// caches the result. A failed translation is returned and nothing is
    /// cached.
    pub fn get_or_translate<F: FnOnce(&IRBlock) -> Result<TranslationResult, TranslationError>>(
        &mut self,
        translator: &ArchTranslator,
        block: &IRBlock,
        translate: F,
    ) -> (r: Result<TranslationResult, TranslationError>)
        requires
            old(self).wf(),
            call_requires(translate, (block,)),
        ensures
            final(self).wf(),
            ({
                let key = SourceBlockKey {
                    source_arch: translator.source_arch,
                    target_arch: translator.target_arch,
                    start_pc: block.start_pc,
                    block_hash: default_hash_of_block(block.start_pc, block.ops@, block.term),
                };
                let s1 = lookup_spec(old(self)@, key);
                if has_key(old(self)@.entries, key) {
                    &&& final(self)@ == s1
                    &&& r is Ok
                    &&& insns_view(r->Ok_0.instructions@) == get(old(self)@.entries, key)->Some_0.instructions
                    &&& r->Ok_0.stats == get(old(self)@.entries, key)->Some_0.stats
                } else {
                    exists|t: Result<TranslationResult, TranslationError>|
                        #[trigger] call_ensures(translate, (block,), t) && match t {
                            Err(e) => r == Err::<TranslationResult, TranslationError>(e) && final(self)@ == s1,
                            Ok(res) => {
                                &&& r is Ok
                                &&& insns_view(r->Ok_0.instructions@) == insns_view(res.instructions@)
                                &&& r->Ok_0.stats == res.stats
                                &&& insert_outcome(
                                    s1,
                                    key,
                                    BlockView { instructions: insns_view(res.instructions@), stats: res.stats, access_count: 0 },
                                    final(self)@,
                                )
                            },
                        }
                }
            }),
    {
        let key = SourceBlockKey::new(translator.source_arch, translator.target_arch, block.start_pc, block);
        match self.lookup(&key) {
            Some(cached) => {
                return Ok(TranslationResult { instructions: copy_insns(&cached.instructions), stats: cached.stats });
            },
            None => {},
        }
        let t = translate(block);
        match t {
            Err(e) => Err(e),
            Ok(result) => {
                let translated = TranslatedBlock::new(copy_insns(&result.instructions), result.stats);
                self.insert(key, translated);
                Ok(result)
            },
        }
    }

    /// Empties the cache; the hit, miss and eviction counters stay.
    pub fn clear(&mut self)
        ensures
            final(self).wf() <== old(self).wf(),
            final(self)@ == (BlockCacheView {
                entries: Seq::empty(),
                lru: Seq::empty(),
                fifo: Seq::empty(),
                counts: Seq::empty(),
                stats: CacheStats { current_size: 0, ..old(self)@.stats },
                ..old(self)@
            }),
    {
        self.cache.clear();
        self.lru_order.clear();
        self.fifo_queue.clear();
        self.access_counts.clear();
        self.stats.current_size = 0;
        assert(self@.entries =~= Seq::<(SourceBlockKey, BlockView)>::empty());
    }

    pub fn stats(&self) -> (s: &CacheStats)
        ensures
            *s == self@.stats,
    {
        &self.stats
    }

    /// Sets the limit and lets blocks go until the cache is within it.
    pub fn set_max_size(&mut self, max_size: usize)
        requires
            old(self).wf(),
        ensures
            final(self).wf(),
            final(self)@.max_size == max_size,
            final(self)@.policy == old(self)@.policy,
            final(self)@.entries.len() == if old(self)@.entries.len() > max_size {
                max_size as int
            } else {
                old(self)@.entries.len() as int
            },
            forall|k: SourceBlockKey| #[trigger] has_key(final(self)@.entries, k) ==> get(final(self)@.entries, k) == get(old(self)@.entries, k),
            old(self)@.policy != CacheReplacementPolicy::Random ==> final(self)@ == evict_steps(
                BlockCacheView { max_size, stats: CacheStats { max_size, ..old(self)@.stats }, ..old(self)@ },
                (old(self)@.entries.len() - final(self)@.entries.len()) as nat,
            ),
    {
        self.max_size = max_size;
        self.stats.max_size = max_size;
        let ghost s1 = self@;
        let ghost mut n: nat = 0;
        while self.cache.len() > max_size
            invariant
                self.wf(),
                self@.max_size == max_size,
                self@.policy == s1.policy,
                s1.policy == old(self)@.policy,
                s1.entries == old(self)@.entries,
                self@.entries.len() + n == s1.entries.len(),
                forall|k: SourceBlockKey| #[trigger] has_key(self@.entries, k) ==> get(self@.entries, k) == get(s1.entries, k),
                s1.policy != CacheReplacementPolicy::Random ==> self@ == evict_steps(s1, n),
                s1.entries.len() > max_size ==> self@.entries.len() >= max_size,
                s1.entries.len() <= max_size ==> n == 0,
            decreases self.cache.len(),
        {
            let ghost before = self@;
            self.evict_block();
            proof {
                lemma_evict_removes_one(before, self@);
                n = n + 1;
            }
        }
    }

    /// One replacement step (see `evict_outcome`).
    fn evict_block(&mut self)
        requires
            old(self).wf(),
        ensures
            final(self).wf(),
            evict_outcome(old(self)@, final(self)@),
    {
        let ghost s = self@;
        if self.cache.len() == 0 {
            return;
        }
        let ghost mut idx: int = 0;
        let key_to_evict: Option<SourceBlockKey> = match self.policy {
            CacheReplacementPolicy::Lru => if self.lru_order.len() > 0 {
                Some(self.lru_order[0])
            } else {
                None
            },
            CacheReplacementPolicy::Fifo => if self.fifo_queue.len() > 0 {
                Some(self.fifo_queue[0])
            } else {
                None
            },
            CacheReplacementPolicy::Lfu => self.least_counted(),
            CacheReplacementPolicy::Random => {
                let index = random_index(self.cache.len());
                proof {
                    idx = index as int;
                    assert(s.entries[idx].0 == self.cache@[idx].0);
                }
                Some(self.cache[index].0)
            },
        };
        match key_to_evict {
            Some(key) => {
                match find_block(&self.cache, &key) {
                    Some(j) => {
                        self.cache.remove(j);
                        assert(self@.entries =~= remove_key(s.entries, key));
                    },
                    None => {
                        assert(self@.entries =~= remove_key(s.entries, key));
                    },
                }
                self.remove_access_info(&key);
                self.stats.evictions = self.stats.evictions.wrapping_add(1);
                self.stats.current_size = self.cache.len();
                proof {
                    lemma_after_evict_wf(s, key);
                    assert(self@ == after_evict(s, key));
                    if s.policy == CacheReplacementPolicy::Random {
                        assert(0 <= idx < s.entries.len() && s.entries[idx].0 == key);
                        assert(self@ == after_evict(s, s.entries[idx].0));
                    }
                }
            },
            None => {},
        }
    }

    /// The first key of least access count, under LFU.
    fn least_counted(&self) -> (r: Option<SourceBlockKey>)
        requires
            self@.policy == CacheReplacementPolicy::Lfu,
        ensures
            r == victim(self@),
    {
        let ghost c = self@.counts;
        if self.access_counts.len() == 0 {
            return None;
        }
        let mut best: usize = 0;
        let mut i: usize = 1;
        while i < self.access_counts.len()
            invariant
                c == self.access_counts@,
                1 <= i <= c.len(),
                best < i,
                forall|j: int| 0 <= j < i ==> (#[trigger] c[j]).1 >= c[best as int].1,
                forall|j: int| 0 <= j < best ==> (#[trigger] c[j]).1 > c[best as int].1,
            decreases self.access_counts.len() - i,
        {
            if self.access_counts[i].1 < self.access_counts[best].1 {
                best = i;
            }
            i += 1;
        }
        proof {
            assert(is_min_first(c, best as int));
            assert forall|i2: int| is_min_first(c, i2) implies i2 == best by {
                if i2 < best {
                    assert(c[i2].1 > c[best as int].1);
                } else if best < i2 {
                    assert(c[best as int].1 > c[i2].1);
                }
            }
            let ch = choose|i2: int| is_min_first(c, i2);
            assert(is_min_first(c, ch));
        }
        Some(self.access_counts[best].0)
    }

    /// Starts the bookkeeping of the policy for a newly stored key.
    fn initialize_access_info(&mut self, key: &SourceBlockKey)
        requires
            unique(old(self)@.counts),
        ensures
            final(self)@ == (BlockCacheView {
                lru: if old(self)@.policy == CacheReplacementPolicy::Lru { old(self)@.lru.push(*key) } else { old(self)@.lru },
                fifo: if old(self)@.policy == CacheReplacementPolicy::Fifo { old(self)@.fifo.push(*key) } else { old(self)@.fifo },
                counts: if old(self)@.policy == CacheReplacementPolicy::Lfu { put(old(self)@.counts, *key, 1) } else { old(self)@.counts },
                ..old(self)@
            }),
    {
        match self.policy {
            CacheReplacementPolicy::Lru => {
                self.lru_order.push(*key);
            },
            CacheReplacementPolicy::Fifo => {
                self.fifo_queue.push(*key);
            },
            CacheReplacementPolicy::Lfu => {
                let ghost c = self.access_counts@;
                match find_count(&self.access_counts, key) {
                    Some(i) => {
                        self.access_counts.set(i, (*key, 1));
                    },
                    None => {
                        self.access_counts.push((*key, 1));
                    },
                }
                assert(self.access_counts@ =~= put(c, *key, 1));
            },
            CacheReplacementPolicy::Random => {},
        }
    }

    /// Records an access to the cached key at position `i` (see `touch`).
    fn update_access_info(&mut self, key: &SourceBlockKey, i: usize)
        requires
            old(self).wf(),
            i < old(self)@.entries.len(),
            old(self)@.entries[i as int].0 == *key,
        ensures
            final(self).wf(),
            final(self)@ == touch(old(self)@, *key),
    {
        let ghost s = self@;
        proof {
            lemma_pos(s.entries, i as int);
        }
        match self.policy {
            CacheReplacementPolicy::Lru => {
                let mut p: usize = 0;
                while p < self.lru_order.len() && self.lru_order[p] != *key
                    invariant
                        self@ == s,
                        p <= s.lru.len(),
                        forall|j: int| 0 <= j < p ==> s.lru[j] != *key,
                    decreases self.lru_order.len() - p,
                {
                    p += 1;
                }
                if p < self.lru_order.len() {
                    proof {
                        assert(s.lru[p as int] == *key);
                        assert(s.lru.contains(*key));
                        let f = first_pos(s.lru, *key);
                        assert(0 <= f < s.lru.len() && s.lru[f] == *key && forall|j: int| 0 <= j < f ==> s.lru[j] != *key);
                        if f < p {
                            assert(s.lru[f] != *key);
                        }
                        if p < f {
                            assert(s.lru[p as int] != *key);
                        }
                    }
                    self.lru_order.remove(p);
                    self.lru_order.push(*key);
                } else {
                    proof {
                        if s.lru.contains(*key) {
                            let q = choose|q: int| 0 <= q < s.lru.len() && s.lru[q] == *key;
                            assert(s.lru[q] != *key);
                        }
                    }
                }
            },
            CacheReplacementPolicy::Lfu => {
                let ghost c = self.access_counts@;
                match find_count(&self.access_counts, key) {
                    Some(j) => {
                        let n = self.access_counts[j].1;
                        self.access_counts.set(j, (*key, n.wrapping_add(1)));
                    },
                    None => {
                        self.access_counts.push((*key, 1));
                    },
                }
                assert(self.access_counts@ =~= put(c, *key, inc(
                    match get(c, *key) {
                        Some(x) => x,
                        None => 0,
                    },
                )));
                proof {
                    lemma_put(c, *key, inc(
                        match get(c, *key) {
                            Some(x) => x,
                            None => 0,
                        },
                    ));
                    assert forall|k: SourceBlockKey| #[trigger] has_key(self@.counts, k) <==> has_key(s.entries, k) by {
                        if k != *key {
                            assert(get(self@.counts, k) == get(c, k));
                        }
                    }
                }
            },
            _ => {},
        }
        let ghost e = self@.entries;
        let (k, mut b) = self.cache.remove(i);
        b.mark_accessed();
        self.cache.insert(i, (k, b));
        assert(self@.entries =~= e.update(i as int, (*key, b@)));
        proof {
            lemma_put(s.entries, *key, b@);
            assert forall|k2: SourceBlockKey| #[trigger] has_key(self@.entries, k2) <==> has_key(s.entries, k2) by {
                if k2 != *key {
                    assert(get(self@.entries, k2) == get(s.entries, k2));
                }
            }
            if s.policy == CacheReplacementPolicy::Lru && s.lru.contains(*key) {
                let f = first_pos(s.lru, *key);
                assert forall|k2: SourceBlockKey| #[trigger] self@.lru.contains(k2) <==> s.lru.contains(k2) by {
                    lemma_push_contains(s.lru.remove(f), *key, k2);
                    if s.lru.contains(k2) && k2 != *key {
                        let q = choose|q: int| 0 <= q < s.lru.len() && s.lru[q] == k2;
                        if q < f {
                            assert(s.lru.remove(f)[q] == k2);
                        } else {
                            assert(q != f);
                            assert(s.lru.remove(f)[q - 1] == k2);
                        }
                    }
                    if s.lru.remove(f).contains(k2) {
                        let q = choose|q: int| 0 <= q < s.lru.remove(f).len() && s.lru.remove(f)[q] == k2;
                        if q < f {
                            assert(s.lru[q] == k2);
                        } else {
                            assert(s.lru[q + 1] == k2);
                        }
                    }
                }
            }
        }
    }

    /// Ends the bookkeeping of the policy for a key that left.
    fn remove_access_info(&mut self, key: &SourceBlockKey)
        requires
            unique(old(self)@.counts),
        ensures
            final(self)@ == (BlockCacheView {
                lru: if old(self)@.policy == CacheReplacementPolicy::Lru { without(old(self)@.lru, *key) } else { old(self)@.lru },
                fifo: if old(self)@.policy == CacheReplacementPolicy::Fifo { without(old(self)@.fifo, *key) } else { old(self)@.fifo },
                counts: if old(self)@.policy == CacheReplacementPolicy::Lfu { remove_key(old(self)@.counts, *key) } else { old(self)@.counts },
                ..old(self)@
            }),
    {
        match self.policy {
            CacheReplacementPolicy::Lru => {
                remove_all(&mut self.lru_order, key);
            },
            CacheReplacementPolicy::Fifo => {
                remove_all(&mut self.fifo_queue, key);
            },
            CacheReplacementPolicy::Lfu => {
                let ghost c = self.access_counts@;
                match find_count(&self.access_counts, key) {
                    Some(j) => {
                        self.access_counts.remove(j);
                        assert(self.access_counts@ =~= remove_key(c, *key));
                    },
                    None => {},
                }
            },
            CacheReplacementPolicy::Random => {},
        }
    }
}

/// A block leaving keeps the cache well formed.
proof fn lemma_after_evict_wf(s: BlockCacheView, k: SourceBlockKey)
    requires
        cache_wf(s),
    ensures
        cache_wf(after_evict(s, k)),
{
    let t = after_evict(s, k);
    lemma_remove_key(s.entries, k);
    lemma_remove_key(s.counts, k);
    lemma_without(s.lru, k);
    lemma_without(s.fifo, k);
    assert forall|k2: SourceBlockKey| #[trigger] has_key(t.entries, k2) <==> (has_key(s.entries, k2) && k2 != k) by {
        if k2 != k {
            assert(get(t.entries, k2) == get(s.entries, k2));
        }
    }
    if s.policy == CacheReplacementPolicy::Lfu {
        assert forall|k2: SourceBlockKey| #[trigger] has_key(t.counts, k2) <==> (has_key(s.counts, k2) && k2 != k) by {
            if k2 != k {
                assert(get(t.counts, k2) == get(s.counts, k2));
            }
        }
    }
}

/// In a well-formed non-empty cache a replacement step removes exactly one
/// block and leaves the others as they were.
proof fn lemma_evict_removes_one(s: BlockCacheView, s2: BlockCacheView)
    requires
        cache_wf(s),
        s.entries.len() > 0,
        evict_outcome(s, s2),
    ensures
        s2.entries.len() == s.entries.len() - 1,
        forall|k: SourceBlockKey| #[trigger] has_key(s2.entries, k) ==> get(s2.entries, k) == get(s.entries, k),
        s.policy != CacheReplacementPolicy::Random ==> s2 == evict_step(s),
        s2.policy == s.policy && s2.max_size == s.max_size,
{
    let k: SourceBlockKey = if s.policy == CacheReplacementPolicy::Random {
        let i = choose|i: int| 0 <= i < s.entries.len() && s2 == after_evict(s, (#[trigger] s.entries[i]).0);
        s.entries[i].0
    } else {
        victim_in_cache(s);
        victim(s)->Some_0
    };
    if s.policy == CacheReplacementPolicy::Random {
        let i = choose|i: int| 0 <= i < s.entries.len() && s2 == after_evict(s, (#[trigger] s.entries[i]).0);
        assert(has_key(s.entries, s.entries[i].0));
    }
    lemma_remove_key(s.entries, k);
    assert forall|k2: SourceBlockKey| #[trigger] has_key(s2.entries, k2) implies get(s2.entries, k2) == get(s.entries, k2) by {
        if k2 == k {
            assert(!has_key(s2.entries, k));
        }
    }
}

/// Under LRU, FIFO and LFU a non-empty well-formed cache has a victim, and
/// it is cached.
proof fn victim_in_cache(s: BlockCacheView)
    requires
        cache_wf(s),
        s.entries.len() > 0,
        s.policy != CacheReplacementPolicy::Random,
    ensures
        victim(s) is Some,
        has_key(s.entries, victim(s)->Some_0),
{
    let k0 = s.entries[0].0;
    assert(has_key(s.entries, k0));
    if s.policy == CacheReplacementPolicy::Lru {
        assert(s.lru.contains(k0));
        assert(s.lru.contains(s.lru[0]));
    } else if s.policy == CacheReplacementPolicy::Fifo {
        assert(s.fifo.contains(k0));
        assert(s.fifo.contains(s.fifo[0]));
    } else {
        assert(has_key(s.counts, k0));
        lemma_min_exists(s.counts);
        let i = choose|i: int| is_min_first(s.counts, i);
        assert(has_key(s.counts, s.counts[i].0));
    }
}

/// A non-empty sequence of counts has a first position of least count.
proof fn lemma_min_exists(c: Seq<(SourceBlockKey, u64)>)
    requires
        c.len() > 0,
    ensures
        exists|i: int| is_min_first(c, i),
    decreases c.len(),
{
    if c.len() == 1 {
        assert(is_min_first(c, 0));
    } else {
        let d = c.drop_last();
        lemma_min_exists(d);
        let i = choose|i: int| is_min_first(d, i);
        if c.last().1 < c[i].1 {
            let n = c.len() - 1;
            assert forall|j: int| 0 <= j < c.len() implies (#[trigger] c[j]).1 >= c[n].1 by {
                if j < n {
                    assert(d[j].1 >= d[i].1);
                }
            }
            assert forall|j: int| 0 <= j < n implies (#[trigger] c[j]).1 > c[n].1 by {
                assert(d[j].1 >= d[i].1);
            }
            assert(is_min_first(c, n));
        } else {
            assert forall|j: int| 0 <= j < c.len() implies (#[trigger] c[j]).1 >= c[i].1 by {
                if j < c.len() - 1 {
                    assert(d[j].1 >= d[i].1);
                }
            }
            assert forall|j: int| 0 <= j < i implies (#[trigger] c[j]).1 > c[i].1 by {
                assert(d[j].1 > d[i].1);
            }
            assert(is_min_first(c, i));
        }
    }
}

/// The state before the storing step of an insertion is well formed.
proof fn lemma_insert_mid(s: BlockCacheView, k: SourceBlockKey, b: BlockView, s2: BlockCacheView) -> (mid: BlockCacheView)
    requires
        cache_wf(s),
        insert_outcome(s, k, b, s2),
    ensures
        cache_wf(mid),
        s2 == put_phase(mid, k, b),
        mid.max_size == s.max_size,
        s.entries.len() >= s.max_size && s.entries.len() > 0 ==> mid.entries.len() == s.entries.len() - 1,
        !(s.entries.len() >= s.max_size && s.entries.len() > 0) ==> mid.entries.len() == s.entries.len(),
{
    let mid = choose|mid: BlockCacheView|
        (if s.entries.len() >= s.max_size {
            evict_outcome(s, mid)
        } else {
            mid == s
        }) && s2 == #[trigger] put_phase(mid, k, b);
    if s.entries.len() >= s.max_size && s.entries.len() > 0 {
        lemma_evict_removes_one(s, mid);
        if s.policy == CacheReplacementPolicy::Random {
            let i = choose|i: int| 0 <= i < s.entries.len() && mid == after_evict(s, (#[trigger] s.entries[i]).0);
            lemma_after_evict_wf(s, s.entries[i].0);
        } else {
            victim_in_cache(s);
            lemma_after_evict_wf(s, victim(s)->Some_0);
        }
    }
    mid
}

/// What is inserted is found: right after `insert(k, b)` the block is
/// cached under `k`, and `lookup(k)` hits and returns it with one more
/// access recorded, whatever the policy and the limit.
pub proof fn lemma_insert_then_lookup(s: BlockCacheView, k: SourceBlockKey, b: BlockView, s2: BlockCacheView)
    requires
        cache_wf(s),
        insert_outcome(s, k, b, s2),
    ensures
        get(s2.entries, k) == Some(b),
        get(lookup_spec(s2, k).entries, k) == Some(BlockView { access_count: inc(b.access_count), ..b }),
        lookup_spec(s2, k).stats.hits == inc(s2.stats.hits),
{
    let mid = lemma_insert_mid(s, k, b, s2);
    lemma_put(mid.entries, k, b);
    lemma_put(s2.entries, k, BlockView { access_count: inc(b.access_count), ..b });
}

/// With a limit of at least one, a cache within its limit stays within it
/// after an insertion.
pub proof fn lemma_insert_respects_limit(s: BlockCacheView, k: SourceBlockKey, b: BlockView, s2: BlockCacheView)
    requires
        cache_wf(s),
        s.max_size >= 1,
        s.entries.len() <= s.max_size,
        insert_outcome(s, k, b, s2),
    ensures
        s2.entries.len() <= s.max_size,
        s2.stats.current_size == s2.entries.len(),
{
    let mid = lemma_insert_mid(s, k, b, s2);
    lemma_put(mid.entries, k, b);
}

/// A lookup counts exactly one hit (the key is cached) or one miss (it is
/// not), and changes no block but the one found.
pub proof fn lemma_lookup_counts(s: BlockCacheView, k: SourceBlockKey)
    requires
        cache_wf(s),
    ensures
        has_key(s.entries, k) ==> lookup_spec(s, k).stats.hits == inc(s.stats.hits) && lookup_spec(s, k).stats.misses
            == s.stats.misses,
        !has_key(s.entries, k) ==> lookup_spec(s, k) == (BlockCacheView {
            stats: CacheStats { misses: inc(s.stats.misses), ..s.stats },
            ..s
        }),
        forall|k2: SourceBlockKey| k2 != k ==> #[trigger] get(lookup_spec(s, k).entries, k2) == get(s.entries, k2),
{
    if has_key(s.entries, k) {
        lemma_put(
            s.entries,
            k,
            BlockView { access_count: inc(get(s.entries, k)->Some_0.access_count), ..get(s.entries, k)->Some_0 },
        );
    }
}

} // verus!
