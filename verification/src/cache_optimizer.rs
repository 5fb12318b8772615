//! A two-tier code cache: new code enters one tier, code that is asked for
//! often enough moves to the hot tier, and a replacement policy decides what
//! leaves when the byte budget is exceeded.

use vstd::prelude::*;
use std::time::Duration;
use crate::keyed::{get, has_key, lemma_pos, lemma_put, lemma_remove_key, pos, put, remove_key, unique};

verus! {

/// One cached piece of compiled code.
#[derive(Debug, Clone)]
pub struct CacheEntry {
    pub code: Vec<u8>,
    /// Number of times the entry was stored or found.
    pub access_count: u64,
}

pub struct EntryView {
    pub code: Seq<u8>,
    pub access_count: u64,
}

impl View for CacheEntry {
    type V = EntryView;

    open spec fn view(&self) -> EntryView {
        EntryView { code: self.code@, access_count: self.access_count }
    }
}

/// Replacement policy of the code cache.
#[derive(Debug, Clone, Copy, PartialEq, Eq, Structural)]
pub enum CachePolicy {
    /// Least recently used.
    LRU,
    /// Least frequently used (among cold entries).
    LFU,
    /// First in, first out (among cold entries).
    FIFO,
    /// Cold entries first, in recency order.
    Adaptive,
}

/// Configuration of the code cache.
#[derive(Debug, Clone, Copy)]
pub struct CacheConfig {
    /// Byte budget of all cached code.
    pub max_size: usize,
    pub policy: CachePolicy,
    pub enable_prefetch: bool,
    /// Number of accesses after which a cold entry becomes hot.
    pub prefetch_threshold: u64,
    pub enable_tiered_cache: bool,
}

impl Default for CacheConfig {
    /// 64 MiB, adaptive policy, prefetching and tiering on, threshold 10.
    fn default() -> (c: Self)
        ensures
            c == (CacheConfig {
                max_size: 67108864,
                policy: CachePolicy::Adaptive,
                enable_prefetch: true,
                prefetch_threshold: 10,
                enable_tiered_cache: true,
            }),
    {
        CacheConfig {
            max_size: 67108864,
            policy: CachePolicy::Adaptive,
            enable_prefetch: true,
            prefetch_threshold: 10,
            enable_tiered_cache: true,
        }
    }
}

/// Counters of the code cache (all wrap around).
#[derive(Debug, Clone, Copy)]
pub struct CacheStats {
    pub hits: u64,
    pub misses: u64,
    pub evictions: u64,
    pub prefetches: u64,
}

impl Default for CacheStats {
    fn default() -> (s: Self)
        ensures
            s == (CacheStats { hits: 0, misses: 0, evictions: 0, prefetches: 0 }),
    {
        CacheStats { hits: 0, misses: 0, evictions: 0, prefetches: 0 }
    }
}

pub open spec fn inc(x: u64) -> u64 {
    vstd::wrapping::u64_specs::wrapping_add(x, 1)
}

/// The state of the cache.
pub struct OptimizerView {
    pub config: CacheConfig,
    /// Hot tier, in insertion order.
    pub hot: Seq<(u64, EntryView)>,
    /// Cold tier, in insertion order.
    pub cold: Seq<(u64, EntryView)>,
    /// Recency queue: least recent first.
    pub queue: Seq<u64>,
    /// Bytes accounted to cached code.
    pub current_size: usize,
    pub stats: CacheStats,
}

pub open spec fn tier_view(t: Seq<(u64, CacheEntry)>) -> Seq<(u64, EntryView)> {
    t.map_values(|p: (u64, CacheEntry)| (p.0, p.1@))
}

/// Total bytes of code in a tier.
pub open spec fn total(t: Seq<(u64, EntryView)>) -> nat
    decreases t.len(),
{
    if t.len() == 0 {
        0
    } else {
        total(t.drop_last()) + t.last().1.code.len()
    }
}

/// `q` without any occurrence of `pc`.
pub open spec fn without(q: Seq<u64>, pc: u64) -> Seq<u64>
    decreases q.len(),
{
    if q.len() == 0 {
        q
    } else if q.last() == pc {
        without(q.drop_last(), pc)
    } else {
        without(q.drop_last(), pc).push(q.last())
    }
}

/// `q` with `pc` moved (or added) to the most recent end.
pub open spec fn touch(q: Seq<u64>, pc: u64) -> Seq<u64> {
    without(q, pc).push(pc)
}

/// The cache has room for `k` more bytes.
pub open spec fn fits(s: OptimizerView, k: nat) -> bool {
    s.current_size + k <= s.config.max_size
}

/// Drops `pc` from the hot tier, with queue `q` afterwards.
pub open spec fn drop_hot(s: OptimizerView, pc: u64, q: Seq<u64>) -> OptimizerView {
    OptimizerView {
        hot: remove_key(s.hot, pc),
        queue: q,
        current_size: (s.current_size - get(s.hot, pc)->Some_0.code.len()) as usize,
        stats: CacheStats { evictions: inc(s.stats.evictions), ..s.stats },
        ..s
    }
}

/// Drops `pc` from the cold tier, with queue `q` afterwards.
pub open spec fn drop_cold(s: OptimizerView, pc: u64, q: Seq<u64>) -> OptimizerView {
    OptimizerView {
        cold: remove_key(s.cold, pc),
        queue: q,
        current_size: (s.current_size - get(s.cold, pc)->Some_0.code.len()) as usize,
        stats: CacheStats { evictions: inc(s.stats.evictions), ..s.stats },
        ..s
    }
}

/// `i` is the LFU victim of tier `c`: the first entry of least access
/// count, among counts below `u64::MAX`.
pub open spec fn is_lfu_victim(c: Seq<(u64, EntryView)>, i: int) -> bool {
    &&& 0 <= i < c.len()
    &&& c[i].1.access_count < u64::MAX
    &&& forall|j: int| 0 <= j < c.len() ==> (#[trigger] c[j]).1.access_count >= c[i].1.access_count
    &&& forall|j: int| 0 <= j < i ==> (#[trigger] c[j]).1.access_count > c[i].1.access_count
}

pub open spec fn lfu_victim(c: Seq<(u64, EntryView)>) -> Option<int> {
    if exists|i: int| is_lfu_victim(c, i) {
        Some(choose|i: int| is_lfu_victim(c, i))
    } else {
        None
    }
}

/// One replacement step.
/// - LRU and FIFO: the first queued address leaves the queue and its entry
///   leaves the hot tier, or else the cold tier (these policies file new
///   code in the hot tier).
/// - LFU: the LFU victim of the hot tier leaves, or else that of the cold
///   tier.
/// - Adaptive: like LRU, but the cold tier is tried first.
pub open spec fn evict_spec(s: OptimizerView) -> OptimizerView {
    match s.config.policy {
        CachePolicy::LFU => match lfu_victim(s.hot) {
            Some(i) => drop_hot(s, s.hot[i].0, s.queue),
            None => match lfu_victim(s.cold) {
                Some(i) => drop_cold(s, s.cold[i].0, s.queue),
                None => s,
            },
        },
        _ => if s.queue.len() == 0 {
            s
        } else {
            let pc = s.queue[0];
            let q = s.queue.drop_first();
            match s.config.policy {
                CachePolicy::LRU | CachePolicy::FIFO => if has_key(s.hot, pc) {
                    drop_hot(s, pc, q)
                } else if has_key(s.cold, pc) {
                    drop_cold(s, pc, q)
                } else {
                    OptimizerView { queue: q, ..s }
                },
                _ => if has_key(s.cold, pc) {
                    drop_cold(s, pc, q)
                } else if has_key(s.hot, pc) {
                    drop_hot(s, pc, q)
                } else {
                    OptimizerView { queue: q, ..s }
                },
            }
        },
    }
}

/// `n` replacement steps.
pub open spec fn evict_n(s: OptimizerView, n: nat) -> OptimizerView
    decreases n,
{
    if n == 0 {
        s
    } else {
        evict_n(evict_spec(s), (n - 1) as nat)
    }
}

/// Replacement steps until `k` more bytes fit (at most `n` of them).
pub open spec fn settle(s: OptimizerView, k: nat, n: nat) -> OptimizerView
    decreases n,
{
    if fits(s, k) || n == 0 {
        s
    } else {
        settle(evict_spec(s), k, (n - 1) as nat)
    }
}

/// Some number of replacement steps makes room for `k` bytes.
pub open spec fn can_make_room(s: OptimizerView, k: nat) -> bool {
    exists|n: nat| fits(#[trigger] evict_n(s, n), k)
}

/// The state after `insert(pc, code)`: replacement steps until the code
/// fits, then the new entry (access count 1) in the cold tier under LRU and
/// Adaptive, in the hot tier otherwise; its bytes are added to the
/// accounted size and `pc` becomes the most recent address.
pub open spec fn insert_spec(s: OptimizerView, pc: u64, code: Seq<u8>) -> OptimizerView {
    let r = settle(s, code.len(), choose|n: nat| fits(#[trigger] evict_n(s, n), code.len()));
    let e = EntryView { code, access_count: 1 };
    OptimizerView {
        hot: if r.config.policy == CachePolicy::LRU || r.config.policy == CachePolicy::Adaptive {
            r.hot
        } else {
            put(r.hot, pc, e)
        },
        cold: if r.config.policy == CachePolicy::LRU || r.config.policy == CachePolicy::Adaptive {
            put(r.cold, pc, e)
        } else {
            r.cold
        },
        current_size: (r.current_size + code.len()) as usize,
        queue: touch(r.queue, pc),
        ..r
    }
}

/// The state and result of `get(pc)`: a hot hit counts an access and
/// makes `pc` most recent; a cold hit counts an access and moves the entry
/// to the hot tier once its count reaches the threshold; a miss is counted.
pub open spec fn get_spec(s: OptimizerView, pc: u64) -> (OptimizerView, Option<Seq<u8>>) {
    if has_key(s.hot, pc) {
        let e = get(s.hot, pc)->Some_0;
        let e2 = EntryView { access_count: inc(e.access_count), ..e };
        (
            OptimizerView {
                hot: put(s.hot, pc, e2),
                queue: touch(s.queue, pc),
                stats: CacheStats { hits: inc(s.stats.hits), ..s.stats },
                ..s
            },
            Some(e.code),
        )
    } else if has_key(s.cold, pc) {
        let e = get(s.cold, pc)->Some_0;
        let e2 = EntryView { access_count: inc(e.access_count), ..e };
        let s2 = OptimizerView { stats: CacheStats { hits: inc(s.stats.hits), ..s.stats }, ..s };
        if e2.access_count >= s.config.prefetch_threshold {
            (OptimizerView { cold: remove_key(s.cold, pc), hot: put(s.hot, pc, e2), ..s2 }, Some(e.code))
        } else {
            (OptimizerView { cold: put(s.cold, pc, e2), ..s2 }, Some(e.code))
        }
    } else {
        (OptimizerView { stats: CacheStats { misses: inc(s.stats.misses), ..s.stats }, ..s }, None)
    }
}

/// Number of addresses in `pcs` that neither tier holds.
pub open spec fn uncached_count(s: OptimizerView, pcs: Seq<u64>) -> nat
    decreases pcs.len(),
{
    if pcs.len() == 0 {
        0
    } else {
        uncached_count(s, pcs.drop_last()) + if !has_key(s.hot, pcs.last()) && !has_key(s.cold, pcs.last()) {
            1nat
        } else {
            0nat
        }
    }
}

/// `h` advanced by `n`, wrapping around.
pub open spec fn advance(h: u64, n: nat) -> u64
    decreases n,
{
    if n == 0 {
        h
    } else {
        inc(advance(h, (n - 1) as nat))
    }
}

proof fn lemma_total_remove(t: Seq<(u64, EntryView)>, i: int)
    requires
        0 <= i < t.len(),
    ensures
        total(t.remove(i)) + t[i].1.code.len() == total(t),
    decreases t.len(),
{
    let r = t.remove(i);
    if i == t.len() - 1 {
        assert(r =~= t.drop_last());
    } else {
        assert(r.drop_last() =~= t.drop_last().remove(i));
        assert(r.last() == t.last());
        lemma_total_remove(t.drop_last(), i);
    }
}

proof fn lemma_total_update(t: Seq<(u64, EntryView)>, i: int, v: (u64, EntryView))
    requires
        0 <= i < t.len(),
    ensures
        total(t.update(i, v)) + t[i].1.code.len() == total(t) + v.1.code.len(),
    decreases t.len(),
{
    let r = t.update(i, v);
    if i == t.len() - 1 {
        assert(r.drop_last() =~= t.drop_last());
    } else {
        assert(r.drop_last() =~= t.drop_last().update(i, v));
        lemma_total_update(t.drop_last(), i, v);
    }
}

proof fn lemma_total_put(t: Seq<(u64, EntryView)>, k: u64, e: EntryView)
    requires
        unique(t),
    ensures
        total(put(t, k, e)) <= total(t) + e.code.len(),
        !has_key(t, k) ==> total(put(t, k, e)) == total(t) + e.code.len(),
{
    if has_key(t, k) {
        lemma_total_update(t, pos(t, k), (k, e));
    } else {
        assert(put(t, k, e).drop_last() =~= t);
    }
}

proof fn lemma_total_remove_key(t: Seq<(u64, EntryView)>, k: u64)
    requires
        unique(t),
    ensures
        has_key(t, k) ==> total(remove_key(t, k)) + get(t, k)->Some_0.code.len() == total(t),
        has_key(t, k) ==> get(t, k)->Some_0.code.len() <= total(t),
{
    if has_key(t, k) {
        lemma_total_remove(t, pos(t, k));
    }
}

/// Tier operations on the executable representation.
fn tier_find(t: &Vec<(u64, CacheEntry)>, pc: u64) -> (r: Option<usize>)
    requires
        unique(tier_view(t@)),
    ensures
        match r {
            Some(i) => i < t@.len() && has_key(tier_view(t@), pc) && pos(tier_view(t@), pc) == i,
            None => !has_key(tier_view(t@), pc),
        },
{
    let ghost v = tier_view(t@);
    let mut i: usize = 0;
    while i < t.len()
        invariant
            v == tier_view(t@),
            unique(v),
            i <= t@.len(),
            forall|j: int| 0 <= j < i ==> (#[trigger] v[j]).0 != pc,
        decreases t.len() - i,
    {
        assert(v[i as int].0 == t@[i as int].0);
        if t[i].0 == pc {
            proof {
                lemma_pos(v, i as int);
            }
            return Some(i);
        }
        i += 1;
    }
    None
}

fn tier_put(t: &mut Vec<(u64, CacheEntry)>, pc: u64, e: CacheEntry)
    requires
        unique(tier_view(old(t)@)),
    ensures
        tier_view(final(t)@) == put(tier_view(old(t)@), pc, e@),
{
    let ghost ev = e@;
    let ghost v = tier_view(t@);
    match tier_find(t, pc) {
        Some(i) => {
            t.set(i, (pc, e));
            assert(tier_view(t@) =~= v.update(i as int, (pc, ev)));
        },
        None => {
            t.push((pc, e));
            assert(tier_view(t@) =~= v.push((pc, ev)));
        },
    }
}

fn tier_take(t: &mut Vec<(u64, CacheEntry)>, i: usize) -> (e: CacheEntry)
    requires
        unique(tier_view(old(t)@)),
        i < old(t)@.len(),
    ensures
        e@ == tier_view(old(t)@)[i as int].1,
        tier_view(final(t)@) == remove_key(tier_view(old(t)@), tier_view(old(t)@)[i as int].0),
        tier_view(final(t)@) == tier_view(old(t)@).remove(i as int),
{
    let ghost v = tier_view(t@);
    proof {
        lemma_pos(v, i as int);
    }
    let (_, e) = t.remove(i);
    assert(tier_view(t@) =~= v.remove(i as int));
    e
}

/// An equal copy of a byte vector.
fn copy_bytes(v: &Vec<u8>) -> (c: Vec<u8>)
    ensures
        c@ == v@,
{
    let c = v.clone();
    assert(c@ =~= v@);
    c
}

/// The two-tier code cache.
pub struct CacheOptimizer {
    config: CacheConfig,
    hot_cache: Vec<(u64, CacheEntry)>,
    cold_cache: Vec<(u64, CacheEntry)>,
    lru_queue: Vec<u64>,
    current_size: usize,
    stats: CacheStats,
}

impl View for CacheOptimizer {
    type V = OptimizerView;

    closed spec fn view(&self) -> OptimizerView {
        OptimizerView {
            config: self.config,
            hot: tier_view(self.hot_cache@),
            cold: tier_view(self.cold_cache@),
            queue: self.lru_queue@,
            current_size: self.current_size,
            stats: self.stats,
        }
    }
}

/// Keys are unique in each tier and the accounted size covers all cached
/// code.
pub open spec fn optimizer_wf(s: OptimizerView) -> bool {
    &&& unique(s.hot)
    &&& unique(s.cold)
    &&& total(s.hot) + total(s.cold) <= s.current_size
}

impl CacheOptimizer {
    pub open spec fn wf(&self) -> bool {
        optimizer_wf(self@)
    }

    pub fn new(config: CacheConfig) -> (c: Self)
        ensures
            c.wf(),
            c@ == (OptimizerView {
                config,
                hot: Seq::empty(),
                cold: Seq::empty(),
                queue: Seq::empty(),
                current_size: 0,
                stats: CacheStats { hits: 0, misses: 0, evictions: 0, prefetches: 0 },
            }),
    {
        let c = CacheOptimizer {
            config,
            hot_cache: Vec::new(),
            cold_cache: Vec::new(),
            lru_queue: Vec::new(),
            current_size: 0,
            stats: CacheStats::default(),
        };
        assert(c@.hot =~= Seq::<(u64, EntryView)>::empty());
        assert(c@.cold =~= Seq::<(u64, EntryView)>::empty());
        c
    }

    /// Looks code up (see `get_spec`).
    pub fn get(&mut self, pc: u64) -> (r: Option<Vec<u8>>)
        requires
            old(self).wf(),
        ensures
            final(self).wf(),
            final(self)@ == get_spec(old(self)@, pc).0,
            match r {
                Some(c) => get_spec(old(self)@, pc).1 == Some(c@),
                None => get_spec(old(self)@, pc).1 is None,
            },
    {
        let ghost s = self@;
        match tier_find(&self.hot_cache, pc) {
            Some(i) => {
                let code = copy_bytes(&self.hot_cache[i].1.code);
                let count = self.hot_cache[i].1.access_count;
                let e2 = CacheEntry { code: copy_bytes(&code), access_count: count.wrapping_add(1) };
                proof {
                    lemma_total_update(s.hot, i as int, (pc, e2@));
                }
                tier_put(&mut self.hot_cache, pc, e2);
                self.stats.hits = self.stats.hits.wrapping_add(1);
                self.update_lru(pc);
                proof {
                    lemma_put(s.hot, pc, e2@);
                }
                return Some(code);
            },
            None => {},
        }
        match tier_find(&self.cold_cache, pc) {
            Some(i) => {
                let code = copy_bytes(&self.cold_cache[i].1.code);
                let count = self.cold_cache[i].1.access_count.wrapping_add(1);
                let e2 = CacheEntry { code: copy_bytes(&code), access_count: count };
                self.stats.hits = self.stats.hits.wrapping_add(1);
                if count >= self.config.prefetch_threshold {
                    proof {
                        lemma_total_remove(s.cold, i as int);
                        lemma_total_put(s.hot, pc, e2@);
                        lemma_remove_key(s.cold, pc);
                        lemma_put(s.hot, pc, e2@);
                    }
                    self.promote_to_hot(pc, i, e2);
                } else {
                    proof {
                        lemma_total_update(s.cold, i as int, (pc, e2@));
                        lemma_put(s.cold, pc, e2@);
                    }
                    tier_put(&mut self.cold_cache, pc, e2);
                }
                Some(code)
            },
            None => {
                self.stats.misses = self.stats.misses.wrapping_add(1);
                None
            },
        }
    }

    /// Moves the cold entry at position `i` (key `pc`) to the hot tier as `e`.
    fn promote_to_hot(&mut self, pc: u64, i: usize, e: CacheEntry)
        requires
            unique(old(self)@.cold),
            unique(old(self)@.hot),
            i < old(self)@.cold.len(),
            old(self)@.cold[i as int].0 == pc,
        ensures
            final(self)@ == (OptimizerView {
                cold: remove_key(old(self)@.cold, pc),
                hot: put(old(self)@.hot, pc, e@),
                ..old(self)@
            }),
    {
        tier_take(&mut self.cold_cache, i);
        tier_put(&mut self.hot_cache, pc, e);
    }

    /// Stores code for `pc` (see `insert_spec`). Replacement runs until the
    /// code fits, so the caller must make sure that it can free enough room:
    /// where it cannot, inserting would never finish.
    pub fn insert(&mut self, pc: u64, code: Vec<u8>, _compile_time: Duration)
        requires
            old(self).wf(),
            can_make_room(old(self)@, code@.len()),
        ensures
            final(self).wf(),
            final(self)@ == insert_spec(old(self)@, pc, code@),
    {
        let code_size = code.len();
        let ghost k = code@.len();
        let ghost s0 = self@;
        let ghost n0 = choose|n: nat| fits(#[trigger] evict_n(s0, n), k);
        let ghost mut n = n0;
        while code_size > self.config.max_size || self.current_size > self.config.max_size - code_size
            invariant
                self.wf(),
                self@.config == s0.config,
                code_size == k,
                fits(evict_n(self@, n), k),
                settle(self@, k, n) == settle(s0, k, n0),
            decreases n,
        {
            proof {
                assert(n > 0);
            }
            self.evict();
            proof {
                n = (n - 1) as nat;
            }
        }
        let ghost r = self@;
        assert(settle(r, k, n) == r);
        let entry = CacheEntry { code, access_count: 1 };
        let ghost ev = entry@;
        match self.config.policy {
            CachePolicy::LRU | CachePolicy::Adaptive => {
                proof {
                    lemma_total_put(r.cold, pc, ev);
                    lemma_put(r.cold, pc, ev);
                }
                tier_put(&mut self.cold_cache, pc, entry);
            },
            _ => {
                proof {
                    lemma_total_put(r.hot, pc, ev);
                    lemma_put(r.hot, pc, ev);
                }
                tier_put(&mut self.hot_cache, pc, entry);
            },
        }
        self.current_size = self.current_size + code_size;
        self.update_lru(pc);
    }

    /// One replacement step (see `evict_spec`).
    fn evict(&mut self)
        requires
            old(self).wf(),
        ensures
            final(self).wf(),
            final(self)@ == evict_spec(old(self)@),
    {
        let ghost s = self@;
        match self.config.policy {
            CachePolicy::LFU => {
                match lfu_victim_in(&self.hot_cache) {
                    Some(i) => {
                        let ghost pc = s.hot[i as int].0;
                        proof {
                            lemma_total_remove(s.hot, i as int);
                            lemma_pos(s.hot, i as int);
                            lemma_remove_key(s.hot, pc);
                        }
                        let e = tier_take(&mut self.hot_cache, i);
                        self.current_size = self.current_size - e.code.len();
                        self.stats.evictions = self.stats.evictions.wrapping_add(1);
                    },
                    None => match lfu_victim_in(&self.cold_cache) {
                        Some(i) => {
                            let ghost pc = s.cold[i as int].0;
                            proof {
                                lemma_total_remove(s.cold, i as int);
                                lemma_pos(s.cold, i as int);
                                lemma_remove_key(s.cold, pc);
                            }
                            let e = tier_take(&mut self.cold_cache, i);
                            self.current_size = self.current_size - e.code.len();
                            self.stats.evictions = self.stats.evictions.wrapping_add(1);
                        },
                        None => {},
                    },
                }
            },
            _ => {
                if self.lru_queue.len() == 0 {
                    return;
                }
                let pc = self.lru_queue.remove(0);
                assert(self.lru_queue@ =~= s.queue.drop_first());
                match self.config.policy {
                    CachePolicy::LRU | CachePolicy::FIFO => {
                        if !self.evict_hot(pc) {
                            self.evict_cold(pc);
                        }
                    },
                    _ => {
                        if !self.evict_cold(pc) {
                            self.evict_hot(pc);
                        }
                    },
                }
            },
        }
    }

    /// Drops `pc` from the hot tier if it is there; tells whether it was.
    fn evict_hot(&mut self, pc: u64) -> (found: bool)
        requires
            optimizer_wf(old(self)@),
        ensures
            optimizer_wf(final(self)@),
            found == has_key(old(self)@.hot, pc),
            found ==> final(self)@ == drop_hot(old(self)@, pc, old(self)@.queue),
            !found ==> final(self)@ == old(self)@,
    {
        let ghost s = self@;
        match tier_find(&self.hot_cache, pc) {
            Some(i) => {
                proof {
                    lemma_total_remove(s.hot, i as int);
                    lemma_remove_key(s.hot, pc);
                }
                let e = tier_take(&mut self.hot_cache, i);
                self.current_size = self.current_size - e.code.len();
                self.stats.evictions = self.stats.evictions.wrapping_add(1);
                true
            },
            None => false,
        }
    }

    /// Drops `pc` from the cold tier if it is there; tells whether it was.
    fn evict_cold(&mut self, pc: u64) -> (found: bool)
        requires
            optimizer_wf(old(self)@),
        ensures
            optimizer_wf(final(self)@),
            found == has_key(old(self)@.cold, pc),
            found ==> final(self)@ == drop_cold(old(self)@, pc, old(self)@.queue),
            !found ==> final(self)@ == old(self)@,
    {
        let ghost s = self@;
        match tier_find(&self.cold_cache, pc) {
            Some(i) => {
                proof {
                    lemma_total_remove(s.cold, i as int);
                    lemma_remove_key(s.cold, pc);
                }
                let e = tier_take(&mut self.cold_cache, i);
                self.current_size = self.current_size - e.code.len();
                self.stats.evictions = self.stats.evictions.wrapping_add(1);
                true
            },
            None => false,
        }
    }

    /// The LFU victim of the cold tier.

    /// Counts a prefetch for every address of `next_pcs` that neither tier
    /// holds, when prefetching is enabled.
    pub fn prefetch(&mut self, _pc: u64, next_pcs: &[u64])
        requires
            old(self).wf(),
        ensures
            final(self).wf(),
            final(self)@ == if old(self)@.config.enable_prefetch {
                OptimizerView {
                    stats: CacheStats {
                        prefetches: advance(old(self)@.stats.prefetches, uncached_count(old(self)@, next_pcs@)),
                        ..old(self)@.stats
                    },
                    ..old(self)@
                }
            } else {
                old(self)@
            },
    {
        if !self.config.enable_prefetch {
            return;
        }
        let ghost s = self@;
        let mut i: usize = 0;
        while i < next_pcs.len()
            invariant
                i <= next_pcs@.len(),
                self@ == (OptimizerView {
                    stats: CacheStats {
                        prefetches: advance(s.stats.prefetches, uncached_count(s, next_pcs@.subrange(0, i as int))),
                        ..s.stats
                    },
                    ..s
                }),
                optimizer_wf(s),
            decreases next_pcs.len() - i,
        {
            let next_pc = next_pcs[i];
            assert(next_pcs@.subrange(0, i + 1).drop_last() =~= next_pcs@.subrange(0, i as int));
            let in_hot = tier_find(&self.hot_cache, next_pc).is_some();
            let in_cold = tier_find(&self.cold_cache, next_pc).is_some();
            if !in_hot && !in_cold {
                self.stats.prefetches = self.stats.prefetches.wrapping_add(1);
            }
            i += 1;
        }
        assert(next_pcs@.subrange(0, next_pcs@.len() as int) =~= next_pcs@);
    }

    /// The counters.
    pub fn stats(&self) -> (s: &CacheStats)
        ensures
            *s == self@.stats,
    {
        &self.stats
    }

    /// Empties both tiers and the queue; the counters stay.
    pub fn clear(&mut self)
        ensures
            final(self).wf(),
            final(self)@ == (OptimizerView {
                hot: Seq::empty(),
                cold: Seq::empty(),
                queue: Seq::empty(),
                current_size: 0,
                ..old(self)@
            }),
    {
        self.hot_cache.clear();
        self.cold_cache.clear();
        self.lru_queue.clear();
        self.current_size = 0;
        assert(self@.hot =~= Seq::<(u64, EntryView)>::empty());
        assert(self@.cold =~= Seq::<(u64, EntryView)>::empty());
    }

    /// Moves `pc` to the most recent end of the queue.
    fn update_lru(&mut self, pc: u64)
        ensures
            final(self)@ == (OptimizerView { queue: touch(old(self)@.queue, pc), ..old(self)@ }),
    {
        let mut q: Vec<u64> = Vec::new();
        let mut i: usize = 0;
        let ghost q0 = self.lru_queue@;
        while i < self.lru_queue.len()
            invariant
                q0 == self.lru_queue@,
                i <= q0.len(),
                q@ == without(q0.subrange(0, i as int), pc),
            decreases self.lru_queue.len() - i,
        {
            let x = self.lru_queue[i];
            assert(q0.subrange(0, i + 1).drop_last() =~= q0.subrange(0, i as int));
            if x != pc {
                q.push(x);
            }
            i += 1;
        }
        assert(q0.subrange(0, q0.len() as int) =~= q0);
        q.push(pc);
        self.lru_queue = q;
    }
}

/// The position of the LFU victim of tier `t` (see `lfu_victim`).
fn lfu_victim_in(t: &Vec<(u64, CacheEntry)>) -> (r: Option<usize>)
    ensures
        match r {
            Some(i) => lfu_victim(tier_view(t@)) == Some(i as int),
            None => lfu_victim(tier_view(t@)) is None,
        },
{
    let ghost c = tier_view(t@);
    let mut min_access: u64 = u64::MAX;
    let mut best: Option<usize> = None;
    let mut i: usize = 0;
    while i < t.len()
        invariant
            c == tier_view(t@),
            i <= c.len(),
            match best {
                Some(b) => {
                    &&& b < i
                    &&& c[b as int].1.access_count == min_access
                    &&& min_access < u64::MAX
                    &&& forall|j: int| 0 <= j < i ==> (#[trigger] c[j]).1.access_count >= min_access
                    &&& forall|j: int| 0 <= j < b ==> (#[trigger] c[j]).1.access_count > min_access
                },
                None => min_access == u64::MAX && forall|j: int| 0 <= j < i ==> (#[trigger] c[j]).1.access_count
                    == u64::MAX,
            },
        decreases t.len() - i,
    {
        let cnt = t[i].1.access_count;
        assert(c[i as int].1.access_count == cnt);
        if cnt < min_access {
            min_access = cnt;
            best = Some(i);
        }
        i += 1;
    }
    proof {
        match best {
            Some(b) => {
                assert(is_lfu_victim(c, b as int));
                assert forall|i2: int| is_lfu_victim(c, i2) implies i2 == b by {
                    if i2 < b {
                        assert(c[i2].1.access_count > c[b as int].1.access_count);
                    } else if b < i2 {
                        assert(c[b as int].1.access_count > c[i2].1.access_count);
                    }
                }
                let ch = choose|i2: int| is_lfu_victim(c, i2);
                assert(is_lfu_victim(c, ch));
            },
            None => {
                assert forall|i2: int| !is_lfu_victim(c, i2) by {
                    if 0 <= i2 < c.len() {
                        assert(c[i2].1.access_count == u64::MAX);
                    }
                }
            },
        }
    }
    best
}

/// A replacement step keeps the cache well formed and never adds a key to
/// either tier.
pub proof fn lemma_evict_wf(s: OptimizerView)
    requires
        optimizer_wf(s),
    ensures
        optimizer_wf(evict_spec(s)),
        evict_spec(s).config == s.config,
        forall|k: u64| has_key(evict_spec(s).hot, k) ==> has_key(s.hot, k),
{
    assert forall|k: u64| #![auto] has_key(remove_key(s.hot, k), k) ==> false by {
        lemma_remove_key(s.hot, k);
    }
    assert forall|k: u64, k2: u64| #![auto] has_key(remove_key(s.hot, k), k2) ==> has_key(s.hot, k2) by {
        lemma_remove_key(s.hot, k);
        if has_key(remove_key(s.hot, k), k2) && k2 != k {
            assert(get(remove_key(s.hot, k), k2) == get(s.hot, k2));
        }
    }
    assert forall|k: u64| #![auto] has_key(s.hot, k) ==> optimizer_wf(drop_hot(s, k, s.queue.drop_first())) by {
        lemma_remove_key(s.hot, k);
        lemma_total_remove_key(s.hot, k);
    }
    assert forall|k: u64| #![auto] has_key(s.cold, k) ==> optimizer_wf(drop_cold(s, k, s.queue.drop_first())) && optimizer_wf(
        drop_cold(s, k, s.queue),
    ) by {
        lemma_remove_key(s.cold, k);
        lemma_total_remove_key(s.cold, k);
    }
    assert forall|k: u64| #![auto] has_key(s.hot, k) ==> optimizer_wf(drop_hot(s, k, s.queue)) by {
        lemma_remove_key(s.hot, k);
        lemma_total_remove_key(s.hot, k);
    }
    if s.config.policy == CachePolicy::LFU {
        match lfu_victim(s.hot) {
            Some(i) => {
                let w = choose|i: int| is_lfu_victim(s.hot, i);
                assert(is_lfu_victim(s.hot, w));
                assert(has_key(s.hot, s.hot[i].0));
            },
            None => match lfu_victim(s.cold) {
                Some(i) => {
                    let w = choose|i: int| is_lfu_victim(s.cold, i);
                    assert(is_lfu_victim(s.cold, w));
                    assert(has_key(s.cold, s.cold[i].0));
                },
                None => {},
            },
        }
    }
}

/// Replacement steps until the code fits keep the cache well formed, add no
/// hot key, and, when enough steps are allowed, end with the code fitting.
pub proof fn lemma_settle(s: OptimizerView, k: nat, n: nat)
    requires
        optimizer_wf(s),
    ensures
        optimizer_wf(settle(s, k, n)),
        settle(s, k, n).config == s.config,
        forall|key: u64| has_key(settle(s, k, n).hot, key) ==> has_key(s.hot, key),
        fits(evict_n(s, n), k) ==> fits(settle(s, k, n), k),
    decreases n,
{
    if !fits(s, k) && n > 0 {
        lemma_evict_wf(s);
        lemma_settle(evict_spec(s), k, (n - 1) as nat);
    }
}

/// What is inserted is found: right after `insert(pc, code)`, `get(pc)`
/// returns `code`, unless the policy files new code in the cold tier (LRU,
/// Adaptive) while an older entry for `pc` sits in the hot tier, which
/// lookups consult first.
pub proof fn lemma_insert_then_get(s: OptimizerView, pc: u64, code: Seq<u8>)
    requires
        optimizer_wf(s),
        can_make_room(s, code.len()),
        s.config.policy == CachePolicy::LFU || s.config.policy == CachePolicy::FIFO || !has_key(s.hot, pc),
    ensures
        get_spec(insert_spec(s, pc, code), pc).1 == Some(code),
{
    let n = choose|n: nat| fits(#[trigger] evict_n(s, n), code.len());
    lemma_settle(s, code.len(), n);
    let r = settle(s, code.len(), n);
    let e = EntryView { code, access_count: 1 };
    if r.config.policy == CachePolicy::LRU || r.config.policy == CachePolicy::Adaptive {
        lemma_put(r.cold, pc, e);
    } else {
        lemma_put(r.hot, pc, e);
    }
}

/// After an insertion the accounted size is within the byte budget.
pub proof fn lemma_insert_within_budget(s: OptimizerView, pc: u64, code: Seq<u8>)
    requires
        optimizer_wf(s),
        can_make_room(s, code.len()),
    ensures
        insert_spec(s, pc, code).current_size <= s.config.max_size,
        insert_spec(s, pc, code).config == s.config,
{
    let n = choose|n: nat| fits(#[trigger] evict_n(s, n), code.len());
    lemma_settle(s, code.len(), n);
}

/// A lookup keeps the accounted size and the configuration, returns code
/// exactly when either tier holds `pc`, and counts it as exactly one hit or
/// one miss.
pub proof fn lemma_get_accounting(s: OptimizerView, pc: u64)
    ensures
        get_spec(s, pc).0.current_size == s.current_size,
        get_spec(s, pc).0.config == s.config,
        (get_spec(s, pc).1 is Some) == (has_key(s.hot, pc) || has_key(s.cold, pc)),
        get_spec(s, pc).1 is Some ==> get_spec(s, pc).0.stats.hits == inc(s.stats.hits) && get_spec(s, pc).0.stats.misses
            == s.stats.misses,
        get_spec(s, pc).1 is None ==> get_spec(s, pc).0.stats.misses == inc(s.stats.misses) && get_spec(s, pc).0.stats.hits
            == s.stats.hits,
{
}

} // verus!
