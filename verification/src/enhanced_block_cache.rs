//! A block cache with query statistics: an LRU `CrossArchBlockCache`, the
//! number of queries, hits and misses, and per start address the number of
//! hits, so that blocks found often enough are reported as hot.

use vstd::prelude::*;
use crate::block_cache::{
    blocks_view, cache_wf, evict_steps, insert_outcome, lookup_spec, BlockCacheView, BlockView, CacheReplacementPolicy,
    CacheStats, CrossArchBlockCache, SourceBlockKey, TranslatedBlock,
};
use crate::clock::{elapsed_nanos, now};
use crate::encoding::copy_insns;
use crate::keyed::{get, has_key, lemma_pos, lemma_put, pos, put, unique};

verus! {

/// Counters of the enhanced cache. The hit rate is `hits / total_queries`
/// and the mean access time `total_access_time_us / total_queries`.
#[derive(Debug, Clone, Copy, PartialEq, Eq, Structural)]
pub struct EnhancedCacheStats {
    pub total_queries: u64,
    pub hits: u64,
    pub misses: u64,
    /// Time spent in lookups, in whole microseconds (saturating).
    pub total_access_time_us: u64,
    pub hot_block_hits: u64,
    pub cold_block_hits: u64,
}

impl Default for EnhancedCacheStats {
    fn default() -> (s: Self)
        ensures
            s == zero_stats(),
    {
        EnhancedCacheStats {
            total_queries: 0,
            hits: 0,
            misses: 0,
            total_access_time_us: 0,
            hot_block_hits: 0,
            cold_block_hits: 0,
        }
    }
}

pub open spec fn zero_stats() -> EnhancedCacheStats {
    EnhancedCacheStats {
        total_queries: 0,
        hits: 0,
        misses: 0,
        total_access_time_us: 0,
        hot_block_hits: 0,
        cold_block_hits: 0,
    }
}

/// Hits of one start address.
#[derive(Debug)]
struct HotBlockInfo {
    address: u64,
    access_count: u64,
    last_access: std::time::Instant,
    total_access_time_us: u64,
}

/// The state of the enhanced cache.
pub struct EnhancedCacheView {
    pub inner: BlockCacheView,
    pub stats: EnhancedCacheStats,
    /// (start address, hits) in the order the addresses were first hit.
    pub hot: Seq<(u64, u64)>,
    pub hot_threshold: u64,
}

spec fn hot_view(v: Seq<HotBlockInfo>) -> Seq<(u64, u64)> {
    v.map_values(|h: HotBlockInfo| (h.address, h.access_count))
}

/// The addresses hit at least `threshold` times, in order.
pub open spec fn hot_addresses(hot: Seq<(u64, u64)>, threshold: u64) -> Seq<u64>
    decreases hot.len(),
{
    if hot.len() == 0 {
        Seq::empty()
    } else {
        let rest = hot_addresses(hot.drop_last(), threshold);
        if hot.last().1 >= threshold {
            rest.push(hot.last().0)
        } else {
            rest
        }
    }
}

/// One more hit of `address`.
pub open spec fn count_hit(hot: Seq<(u64, u64)>, address: u64) -> Seq<(u64, u64)> {
    put(
        hot,
        address,
        (match get(hot, address) {
            Some(c) => c,
            None => 0,
        } + 1) as u64,
    )
}

/// `x` raised by `n`, saturating at `u64::MAX`.
pub open spec fn add_saturating(x: u64, n: nat) -> u64 {
    if x + n <= u64::MAX {
        (x + n) as u64
    } else {
        u64::MAX
    }
}

/// The cache is LRU and well formed, no more lookups hit than were made,
/// and no address was hit more often than all lookups hit.
pub open spec fn enhanced_wf(s: EnhancedCacheView) -> bool {
    &&& cache_wf(s.inner)
    &&& s.inner.policy == CacheReplacementPolicy::Lru
    &&& unique(s.hot)
    &&& s.stats.hits <= s.stats.total_queries
    &&& forall|i: int| 0 <= i < s.hot.len() ==> (#[trigger] s.hot[i]).1 <= s.stats.hits
}

/// The view after `lookup(key)` (the time counter aside): the inner cache
/// looks the key up, the query counts as a hit or (saturating) a miss, and
/// a hit counts for the key's start address.
pub open spec fn lookup_result(s: EnhancedCacheView, key: SourceBlockKey, t: EnhancedCacheView) -> bool {
    let hit = has_key(s.inner.entries, key);
    &&& t.inner == lookup_spec(s.inner, key)
    &&& t.hot_threshold == s.hot_threshold
    &&& t.stats.total_queries == s.stats.total_queries + 1
    &&& t.stats.hits == if hit { s.stats.hits + 1 } else { s.stats.hits as int }
    &&& t.stats.misses == if hit { s.stats.misses } else { add_saturating(s.stats.misses, 1) }
    &&& t.stats.hot_block_hits == s.stats.hot_block_hits
    &&& t.stats.cold_block_hits == s.stats.cold_block_hits
    &&& t.stats.total_access_time_us >= s.stats.total_access_time_us
    &&& t.hot == if hit { count_hit(s.hot, key.start_pc) } else { s.hot }
}

/// An empty LRU block cache of `max_size` blocks.
pub open spec fn empty_lru(max_size: usize) -> BlockCacheView {
    BlockCacheView {
        entries: Seq::empty(),
        lru: Seq::empty(),
        fifo: Seq::empty(),
        counts: Seq::empty(),
        policy: CacheReplacementPolicy::Lru,
        max_size,
        stats: CacheStats { hits: 0, misses: 0, evictions: 0, current_size: 0, max_size },
    }
}

/// `states` runs through the insertions of `kvs`, one after the other.
pub open spec fn insert_chain(states: Seq<BlockCacheView>, kvs: Seq<(SourceBlockKey, BlockView)>) -> bool {
    &&& states.len() == kvs.len() + 1
    &&& forall|i: int| #![trigger kvs[i]] 0 <= i < kvs.len() ==> insert_outcome(states[i], kvs[i].0, kvs[i].1, states[i + 1])
}

/// The inner cache after inserting `kvs` one after the other.
pub open spec fn inserts_outcome(s: BlockCacheView, kvs: Seq<(SourceBlockKey, BlockView)>, t: BlockCacheView) -> bool {
    exists|states: Seq<BlockCacheView>| #[trigger] insert_chain(states, kvs) && states[0] == s && states.last() == t
}

/// A translated-block cache with statistics.
pub struct EnhancedBlockCache {
    inner: CrossArchBlockCache,
    stats: EnhancedCacheStats,
    hot_blocks: Vec<HotBlockInfo>,
    hot_threshold: u64,
}

impl View for EnhancedBlockCache {
    type V = EnhancedCacheView;

    closed spec fn view(&self) -> EnhancedCacheView {
        EnhancedCacheView {
            inner: self.inner@,
            stats: self.stats,
            hot: hot_view(self.hot_blocks@),
            hot_threshold: self.hot_threshold,
        }
    }
}

/// An equal copy of a cached block.
fn copy_block(b: &TranslatedBlock) -> (c: TranslatedBlock)
    ensures
        c@ == b@,
{
    TranslatedBlock {
        instructions: copy_insns(&b.instructions),
        stats: b.stats,
        created_at: b.created_at.clone(),
        last_accessed: b.last_accessed.clone(),
        access_count: b.access_count,
    }
}

impl EnhancedBlockCache {
    pub closed spec fn wf(&self) -> bool {
        enhanced_wf(self@)
    }

    /// An empty LRU cache of `max_size` blocks; an address is hot once it
    /// was hit `hot_threshold` times.
    pub fn new(max_size: usize, hot_threshold: u64) -> (c: Self)
        ensures
            c.wf(),
            c@.inner == empty_lru(max_size),
            c@.stats == zero_stats(),
            c@.hot == Seq::<(u64, u64)>::empty(),
            c@.hot_threshold == hot_threshold,
    {
        let c = EnhancedBlockCache {
            inner: CrossArchBlockCache::new(max_size, CacheReplacementPolicy::Lru),
            stats: EnhancedCacheStats::default(),
            hot_blocks: Vec::new(),
            hot_threshold,
        };
        assert(c@.hot =~= Seq::<(u64, u64)>::empty());
        c
    }

    /// 1024 blocks; hot at 100 hits.
    pub fn with_default_config() -> (c: Self)
        ensures
            c.wf(),
            c@.inner == empty_lru(1024),
            c@.stats == zero_stats(),
            c@.hot == Seq::<(u64, u64)>::empty(),
            c@.hot_threshold == 100,
    {
        Self::new(1024, 100)
    }

    /// Looks `key` up (see `lookup_result`); a hit returns a copy of the
    /// block, with the access recorded.
    pub fn lookup(&mut self, key: &SourceBlockKey) -> (r: Option<TranslatedBlock>)
        requires
            old(self).wf(),
            old(self)@.stats.total_queries < u64::MAX,
        ensures
            final(self).wf(),
            lookup_result(old(self)@, *key, final(self)@),
            match r {
                Some(b) => has_key(old(self)@.inner.entries, *key) && get(final(self)@.inner.entries, *key) == Some(b@),
                None => !has_key(old(self)@.inner.entries, *key),
            },
    {
        let ghost s = self@;
        let start = now();
        let result = match self.inner.lookup(key) {
            Some(b) => Some(copy_block(b)),
            None => None,
        };
        self.stats.total_queries = self.stats.total_queries + 1;
        match &result {
            Some(_) => {
                self.stats.hits = self.stats.hits + 1;
                let us = elapsed_nanos(&start) / 1000;
                self.update_hot_block_stats(key.start_pc, us as u64);
            },
            None => {
                self.stats.misses = self.stats.misses.saturating_add(1);
            },
        }
        let us = elapsed_nanos(&start) / 1000;
        self.stats.total_access_time_us = self.stats.total_access_time_us.saturating_add(us as u64);
        result
    }

    /// Counts a hit of `address` that took `access_time_us`.
    fn update_hot_block_stats(&mut self, address: u64, access_time_us: u64)
        requires
            unique(hot_view(old(self).hot_blocks@)),
            old(self)@.stats.hits >= 1,
            forall|i: int| 0 <= i < old(self)@.hot.len() ==> (#[trigger] old(self)@.hot[i]).1 < old(self)@.stats.hits,
        ensures
            final(self)@ == (EnhancedCacheView { hot: count_hit(old(self)@.hot, address), ..old(self)@ }),
            unique(final(self)@.hot),
            forall|i: int| 0 <= i < final(self)@.hot.len() ==> (#[trigger] final(self)@.hot[i]).1 <= final(self)@.stats.hits,
    {
        let ghost h = hot_view(self.hot_blocks@);
        let mut i: usize = 0;
        while i < self.hot_blocks.len() && self.hot_blocks[i].address != address
            invariant
                h == hot_view(self.hot_blocks@),
                i <= h.len(),
                forall|j: int| 0 <= j < i ==> (#[trigger] h[j]).0 != address,
            decreases self.hot_blocks.len() - i,
        {
            assert(h[i as int] == (self.hot_blocks@[i as int].address, self.hot_blocks@[i as int].access_count));
            i += 1;
        }
        if i < self.hot_blocks.len() {
            assert(h[i as int] == (self.hot_blocks@[i as int].address, self.hot_blocks@[i as int].access_count));
        }
        proof {
            lemma_put(h, address, (match get(h, address) {
                Some(c) => c,
                None => 0,
            } + 1) as u64);
        }
        if i < self.hot_blocks.len() {
            proof {
                assert(h[i as int].0 == address);
                lemma_pos(h, i as int);
                assert(h[i as int].1 < self.stats.hits);
            }
            let mut info = self.hot_blocks.remove(i);
            info.access_count = info.access_count + 1;
            info.last_access = now();
            info.total_access_time_us = info.total_access_time_us.saturating_add(access_time_us);
            self.hot_blocks.insert(i, info);
            assert(hot_view(self.hot_blocks@) =~= count_hit(h, address));
        } else {
            proof {
                assert(!has_key(h, address));
            }
            self.hot_blocks.push(
                HotBlockInfo { address, access_count: 1, last_access: now(), total_access_time_us: access_time_us },
            );
            assert(hot_view(self.hot_blocks@) =~= count_hit(h, address));
        }
        proof {
            let n = count_hit(h, address);
            assert forall|j: int| 0 <= j < n.len() implies (#[trigger] n[j]).1 <= self.stats.hits by {
                if n[j].0 != address {
                    lemma_pos(n, j);
                    assert(get(n, n[j].0) == get(h, n[j].0));
                    let q = pos(h, n[j].0);
                    assert(h[q].1 < self.stats.hits);
                }
                else {
                    lemma_pos(n, j);
                    if has_key(h, address) {
                        let q = pos(h, address);
                        assert(h[q].1 < self.stats.hits);
                    }
                }
            }
        }
    }

    /// Inserts a block into the inner cache (see `insert_outcome`). A block
    /// is inserted because the cache did not have it, so the insertion
    /// counts as a miss (saturating); it is no query.
    pub fn insert(&mut self, key: SourceBlockKey, block: TranslatedBlock)
        requires
            old(self).wf(),
        ensures
            final(self).wf(),
            insert_outcome(old(self)@.inner, key, block@, final(self)@.inner),
            final(self)@.stats == (EnhancedCacheStats {
                misses: add_saturating(old(self)@.stats.misses, 1),
                ..old(self)@.stats
            }),
            final(self)@.hot == old(self)@.hot,
            final(self)@.hot_threshold == old(self)@.hot_threshold,
    {
        let ghost s = self@;
        self.inner.insert(key, block);
        self.stats.misses = self.stats.misses.saturating_add(1);
        proof {
            lemma_insert_keeps_policy(s.inner, key, block@, self@.inner);
        }
    }

    /// The addresses hit at least the threshold number of times, in the
    /// order they were first hit.
    pub fn get_hot_blocks(&self) -> (r: Vec<u64>)
        ensures
            r@ == hot_addresses(self@.hot, self@.hot_threshold),
    {
        let ghost h = self@.hot;
        let mut r: Vec<u64> = Vec::new();
        let mut i: usize = 0;
        while i < self.hot_blocks.len()
            invariant
                h == hot_view(self.hot_blocks@),
                i <= h.len(),
                r@ == hot_addresses(h.subrange(0, i as int), self.hot_threshold),
            decreases self.hot_blocks.len() - i,
        {
            assert(h.subrange(0, i + 1).drop_last() =~= h.subrange(0, i as int));
            assert(h[i as int] == (self.hot_blocks@[i as int].address, self.hot_blocks@[i as int].access_count));
            if self.hot_blocks[i].access_count >= self.hot_threshold {
                r.push(self.hot_blocks[i].address);
            }
            i += 1;
        }
        assert(h.subrange(0, h.len() as int) =~= h);
        r
    }

    /// A copy of the counters.
    pub fn get_enhanced_stats(&self) -> (s: EnhancedCacheStats)
        ensures
            s == self@.stats,
    {
        self.stats
    }

    /// Empties the cache and resets the counters and the hits per address.
    pub fn clear(&mut self)
        requires
            old(self).wf(),
        ensures
            final(self).wf(),
            final(self)@.inner == (BlockCacheView {
                entries: Seq::empty(),
                lru: Seq::empty(),
                fifo: Seq::empty(),
                counts: Seq::empty(),
                stats: CacheStats { current_size: 0, ..old(self)@.inner.stats },
                ..old(self)@.inner
            }),
            final(self)@.stats == zero_stats(),
            final(self)@.hot == Seq::<(u64, u64)>::empty(),
            final(self)@.hot_threshold == old(self)@.hot_threshold,
    {
        self.inner.clear();
        self.stats = EnhancedCacheStats::default();
        self.hot_blocks.clear();
        assert(self@.hot =~= Seq::<(u64, u64)>::empty());
    }

    /// Inserts the blocks one after the other (each a miss, see `insert`).
    pub fn warm_up(&mut self, blocks: Vec<(SourceBlockKey, TranslatedBlock)>)
        requires
            old(self).wf(),
        ensures
            final(self).wf(),
            inserts_outcome(old(self)@.inner, blocks_view(blocks@), final(self)@.inner),
            final(self)@.stats == (EnhancedCacheStats {
                misses: add_saturating(old(self)@.stats.misses, blocks@.len()),
                ..old(self)@.stats
            }),
            final(self)@.hot == old(self)@.hot,
            final(self)@.hot_threshold == old(self)@.hot_threshold,
    {
        let ghost s = self@;
        let ghost all = blocks_view(blocks@);
        let mut rest = blocks;
        let ghost mut done: nat = 0;
        let ghost mut states: Seq<BlockCacheView> = seq![s.inner];
        while rest.len() > 0
            invariant
                self.wf(),
                done <= all.len(),
                blocks_view(rest@) == all.subrange(done as int, all.len() as int),
                insert_chain(states, all.subrange(0, done as int)),
                states[0] == s.inner,
                states.last() == self@.inner,
                self@.stats == (EnhancedCacheStats { misses: add_saturating(s.stats.misses, done), ..s.stats }),
                self@.hot == s.hot,
                self@.hot_threshold == s.hot_threshold,
            decreases rest.len(),
        {
            let ghost before = self@.inner;
            let ghost rv = blocks_view(rest@);
            assert(rv[0] == (rest@[0].0, rest@[0].1@));
            let (key, block) = rest.remove(0);
            assert(blocks_view(rest@) =~= rv.drop_first());
            self.insert(key, block);
            proof {
                let pre = all.subrange(0, done as int);
                let pre1 = all.subrange(0, done as int + 1);
                let states1 = states.push(self@.inner);
                assert(pre1[done as int] == rv[0]);
                assert forall|i: int| #![trigger pre1[i]] 0 <= i < pre1.len() implies insert_outcome(
                    states1[i],
                    pre1[i].0,
                    pre1[i].1,
                    states1[i + 1],
                ) by {
                    if i < done {
                        assert(pre1[i] == pre[i]);
                    }
                }
                states = states1;
                done = done + 1;
                assert(blocks_view(rest@) =~= all.subrange(done as int, all.len() as int));
            }
        }
        assert(all.subrange(0, all.len() as int) =~= all);
    }

    /// The number of cached blocks.
    pub fn size(&self) -> (n: usize)
        requires
            self.wf(),
        ensures
            n == self@.inner.entries.len(),
    {
        self.inner.stats().current_size
    }

    /// Sets the limit of the inner cache, which lets blocks go until it is
    /// within it, least recently used first.
    pub fn set_max_size(&mut self, size: usize)
        requires
            old(self).wf(),
        ensures
            final(self).wf(),
            final(self)@.inner.max_size == size,
            final(self)@.inner.entries.len() == if old(self)@.inner.entries.len() > size {
                size as int
            } else {
                old(self)@.inner.entries.len() as int
            },
            final(self)@.inner == evict_steps(
                BlockCacheView { max_size: size, stats: CacheStats { max_size: size, ..old(self)@.inner.stats }, ..old(self)@.inner },
                (old(self)@.inner.entries.len() - final(self)@.inner.entries.len()) as nat,
            ),
            final(self)@.stats == old(self)@.stats,
            final(self)@.hot == old(self)@.hot,
            final(self)@.hot_threshold == old(self)@.hot_threshold,
    {
        self.inner.set_max_size(size);
    }

    /// A copy of the inner cache's counters.
    pub fn get_base_stats(&self) -> (s: CacheStats)
        ensures
            s == self@.inner.stats,
    {
        *self.inner.stats()
    }
}

/// What is inserted is found: `insert(k, b)` counts the miss that the block
/// answers, and a following `lookup(k)` counts a query and a hit (no further
/// miss), counts a hit of `k`'s start address, and finds `b` with one more
/// access recorded.
pub proof fn lemma_insert_then_lookup(
    s: EnhancedCacheView,
    k: SourceBlockKey,
    b: BlockView,
    s2: EnhancedCacheView,
    s3: EnhancedCacheView,
)
    requires
        enhanced_wf(s),
        insert_outcome(s.inner, k, b, s2.inner),
        s2.stats == (EnhancedCacheStats { misses: add_saturating(s.stats.misses, 1), ..s.stats }),
        s2.hot == s.hot,
        lookup_result(s2, k, s3),
    ensures
        s3.stats.total_queries == s.stats.total_queries + 1,
        s3.stats.hits == s.stats.hits + 1,
        s3.stats.misses == add_saturating(s.stats.misses, 1),
        s3.hot == count_hit(s.hot, k.start_pc),
        get(s3.inner.entries, k) == Some(BlockView { access_count: crate::block_cache::inc(b.access_count), ..b }),
{
    crate::block_cache::lemma_insert_then_lookup(s.inner, k, b, s2.inner);
}

/// An insertion keeps the policy.
proof fn lemma_insert_keeps_policy(s: BlockCacheView, k: SourceBlockKey, b: BlockView, t: BlockCacheView)
    requires
        insert_outcome(s, k, b, t),
    ensures
        t.policy == s.policy,
{
    let mid = choose|mid: BlockCacheView|
        (if s.entries.len() >= s.max_size {
            crate::block_cache::evict_outcome(s, mid)
        } else {
            mid == s
        }) && t == #[trigger] crate::block_cache::put_phase(mid, k, b);
    if s.entries.len() >= s.max_size && s.entries.len() > 0 {
        if s.policy == CacheReplacementPolicy::Random {
            let i = choose|i: int| 0 <= i < s.entries.len() && mid == crate::block_cache::after_evict(s, (#[trigger] s.entries[i]).0);
        }
    }
}

} // verus!
