//! Hot paths: sequences of guest blocks that execute one after the other
//! often. A sliding window over the executed blocks names the current path;
//! each full window counts one execution of its path, and a path becomes hot
//! when its count passes the threshold or its time passes 10 ms. Hot paths
//! tell which blocks to prefetch next.

use vstd::prelude::*;
use crate::clock::now;

verus! {

/// The time one path execution is counted as, in microseconds.
pub const PATH_TIME_US: u64 = 100;

/// A path: its blocks, how often it ran, when it last ran, its total time
/// in microseconds, and whether it is hot.
#[derive(Debug)]
pub struct ExecutionPath {
    blocks: Vec<u64>,
    execution_count: u64,
    last_execution: std::time::Instant,
    total_time_us: u64,
    is_hot: bool,
}

pub struct PathView {
    pub blocks: Seq<u64>,
    pub execution_count: u64,
    pub total_time_us: u64,
    pub is_hot: bool,
}

impl View for ExecutionPath {
    type V = PathView;

    closed spec fn view(&self) -> PathView {
        PathView {
            blocks: self.blocks@,
            execution_count: self.execution_count,
            total_time_us: self.total_time_us,
            is_hot: self.is_hot,
        }
    }
}

/// `p` after one more execution taking `time` microseconds, judged hot
/// against `threshold`: more executions than the threshold, or more than
/// 10 000 microseconds in all.
pub open spec fn bumped(p: PathView, time: u64, threshold: u64) -> PathView {
    let c = p.execution_count + 1;
    let t = p.total_time_us + time;
    PathView { execution_count: c as u64, total_time_us: t as u64, is_hot: c > threshold || t > 10_000, ..p }
}

pub open spec fn fresh_path(blocks: Seq<u64>) -> PathView {
    PathView { blocks, execution_count: 0, total_time_us: 0, is_hot: false }
}

impl ExecutionPath {
    fn new(blocks: Vec<u64>) -> (p: Self)
        ensures
            p@ == fresh_path(blocks@),
    {
        ExecutionPath { blocks, execution_count: 0, last_execution: now(), total_time_us: 0, is_hot: false }
    }

    /// Counts one execution taking `time_us` microseconds and judges the
    /// path against `threshold` (see `bumped`).
    fn record_execution(&mut self, time_us: u64, threshold: u64)
        requires
            old(self)@.execution_count < u64::MAX,
            old(self)@.total_time_us + time_us <= u64::MAX,
        ensures
            final(self)@ == bumped(old(self)@, time_us, threshold),
    {
        self.execution_count = self.execution_count + 1;
        self.last_execution = now();
        self.total_time_us = self.total_time_us + time_us;
        self.is_hot = self.execution_count > threshold || self.total_time_us > 10_000;
    }

    /// A copy of the path.
    fn copy(&self) -> (p: Self)
        ensures
            p@ == self@,
            p.last_execution == self.last_execution,
    {
        let mut blocks: Vec<u64> = Vec::new();
        let mut i: usize = 0;
        while i < self.blocks.len()
            invariant
                i <= self.blocks@.len(),
                blocks@ == self.blocks@.subrange(0, i as int),
            decreases self.blocks.len() - i,
        {
            blocks.push(self.blocks[i]);
            i += 1;
        }
        assert(self.blocks@.subrange(0, self.blocks@.len() as int) =~= self.blocks@);
        ExecutionPath {
            blocks,
            execution_count: self.execution_count,
            last_execution: self.last_execution.clone(),
            total_time_us: self.total_time_us,
            is_hot: self.is_hot,
        }
    }

    pub fn blocks(&self) -> (b: &[u64])
        ensures
            b@ == self@.blocks,
    {
        self.blocks.as_slice()
    }

    pub fn execution_count(&self) -> (c: u64)
        ensures
            c == self@.execution_count,
    {
        self.execution_count
    }

    pub fn total_time_us(&self) -> (t: u64)
        ensures
            t == self@.total_time_us,
    {
        self.total_time_us
    }

    pub fn is_hot(&self) -> (b: bool)
        ensures
            b == self@.is_hot,
    {
        self.is_hot
    }

    /// When the path last ran.
    pub fn last_execution(&self) -> std::time::Instant {
        self.last_execution.clone()
    }
}

/// Counters of the optimizer.
#[derive(Debug, Clone, Copy, PartialEq, Eq, Structural)]
pub struct HotPathStats {
    /// Hot paths, as of the last threshold change.
    pub hot_path_count: usize,
    /// Path executions counted.
    pub total_path_executions: u64,
    /// Path executions that left their path hot.
    pub hot_path_executions: u64,
}

impl Default for HotPathStats {
    fn default() -> (s: Self)
        ensures
            s == (HotPathStats { hot_path_count: 0, total_path_executions: 0, hot_path_executions: 0 }),
    {
        HotPathStats { hot_path_count: 0, total_path_executions: 0, hot_path_executions: 0 }
    }
}

pub open spec fn paths_view(v: Seq<ExecutionPath>) -> Seq<PathView> {
    v.map_values(|p: ExecutionPath| p@)
}

/// Position of the path of `blocks`, if it is known.
pub open spec fn path_pos(paths: Seq<PathView>, blocks: Seq<u64>) -> Option<int> {
    if exists|i: int| 0 <= i < paths.len() && #[trigger] paths[i].blocks == blocks {
        Some(choose|i: int| 0 <= i < paths.len() && #[trigger] paths[i].blocks == blocks)
    } else {
        None
    }
}

/// No two paths have the same blocks.
pub open spec fn distinct_paths(paths: Seq<PathView>) -> bool {
    forall|i: int, j: int|
        0 <= i < paths.len() && 0 <= j < paths.len() && i != j ==> (#[trigger] paths[i]).blocks != (#[trigger] paths[j]).blocks
}

/// The paths after one execution of the path of `w` (taking 100
/// microseconds): the known path is bumped in place, a new one is added at
/// the end.
pub open spec fn record_path(paths: Seq<PathView>, w: Seq<u64>, threshold: u64) -> Seq<PathView> {
    match path_pos(paths, w) {
        Some(i) => paths.update(i, bumped(paths[i], PATH_TIME_US, threshold)),
        None => paths.push(bumped(fresh_path(w), PATH_TIME_US, threshold)),
    }
}

/// The position that the path of `w` has after `record_path`.
pub open spec fn recorded_pos(paths: Seq<PathView>, w: Seq<u64>) -> int {
    match path_pos(paths, w) {
        Some(i) => i,
        None => paths.len() as int,
    }
}

/// The window after block `pc` ran: `pc` appended, and the oldest block
/// dropped when that exceeds the window size.
pub open spec fn next_window(window: Seq<u64>, pc: u64, size: usize) -> Seq<u64> {
    let w = window.push(pc);
    if w.len() > size {
        w.drop_first()
    } else {
        w
    }
}

/// The (block, path) links after one execution of path `idx` whose blocks
/// are `bs`: one link per block of the path, in its order.
pub open spec fn link_blocks(links: Seq<(u64, usize)>, bs: Seq<u64>, idx: usize) -> Seq<(u64, usize)> {
    links + bs.map_values(|b: u64| (b, idx))
}

/// The state of the optimizer.
pub struct HotPathView {
    pub window: Seq<u64>,
    pub window_size: usize,
    pub paths: Seq<PathView>,
    /// One link per block of a path per execution of that path, in order.
    pub links: Seq<(u64, usize)>,
    pub threshold: u64,
    pub stats: HotPathStats,
}

/// The state after block `pc` ran (see `next_window`, `record_path`,
/// `link_blocks`): once the window is full, its path counts one execution.
pub open spec fn after_block(s: HotPathView, pc: u64) -> HotPathView {
    let w = next_window(s.window, pc, s.window_size);
    if w.len() == s.window_size {
        let paths = record_path(s.paths, w, s.threshold);
        let idx = recorded_pos(s.paths, w);
        HotPathView {
            window: w,
            paths,
            links: link_blocks(s.links, w, idx as usize),
            stats: HotPathStats {
                total_path_executions: (s.stats.total_path_executions + 1) as u64,
                hot_path_executions: if paths[idx].is_hot {
                    (s.stats.hot_path_executions + 1) as u64
                } else {
                    s.stats.hot_path_executions
                },
                ..s.stats
            },
            ..s
        }
    } else {
        HotPathView { window: w, ..s }
    }
}

/// The paths that the links of `pc` name, with repetition, in link order.
pub open spec fn linked_paths(paths: Seq<PathView>, links: Seq<(u64, usize)>, pc: u64) -> Seq<PathView>
    decreases links.len(),
{
    if links.len() == 0 {
        Seq::empty()
    } else {
        let rest = linked_paths(paths, links.drop_last(), pc);
        let e = links.last();
        if e.0 == pc {
            rest.push(paths[e.1 as int])
        } else {
            rest
        }
    }
}

/// The hot paths among `ps`, in order.
pub open spec fn hot_only(ps: Seq<PathView>) -> Seq<PathView>
    decreases ps.len(),
{
    if ps.len() == 0 {
        Seq::empty()
    } else {
        let rest = hot_only(ps.drop_last());
        if ps.last().is_hot {
            rest.push(ps.last())
        } else {
            rest
        }
    }
}

/// First position at or after `i` where `bs` holds `x`.
pub open spec fn first_index_from(bs: Seq<u64>, x: u64, i: int) -> Option<int>
    decreases bs.len() - i,
{
    if i < 0 || i >= bs.len() {
        None
    } else if bs[i] == x {
        Some(i)
    } else {
        first_index_from(bs, x, i + 1)
    }
}

/// The block after the first `pc` in `bs`, if there is one.
pub open spec fn next_after(bs: Seq<u64>, pc: u64) -> Option<u64> {
    match first_index_from(bs, pc, 0) {
        Some(i) => if i + 1 < bs.len() {
            Some(bs[i + 1])
        } else {
            None
        },
        None => None,
    }
}

/// The blocks that follow `pc` in the hot paths among `ps`, in order.
pub open spec fn next_blocks(ps: Seq<PathView>, pc: u64) -> Seq<u64>
    decreases ps.len(),
{
    if ps.len() == 0 {
        Seq::empty()
    } else {
        let rest = next_blocks(ps.drop_last(), pc);
        match next_after(ps.last().blocks, pc) {
            Some(b) => rest.push(b),
            None => rest,
        }
    }
}

/// First position at or after `i` holding a value not below `x`.
pub open spec fn first_ge(s: Seq<u64>, x: u64, i: int) -> int
    decreases s.len() - i,
{
    if i < 0 || i >= s.len() {
        s.len() as int
    } else if s[i] >= x {
        i
    } else {
        first_ge(s, x, i + 1)
    }
}

/// `x` added to the increasing sequence `s` in its place, unless present.
pub open spec fn insert_sorted(s: Seq<u64>, x: u64) -> Seq<u64> {
    if s.contains(x) {
        s
    } else {
        s.insert(first_ge(s, x, 0), x)
    }
}

/// The distinct values of `c` in increasing order.
pub open spec fn sorted_distinct(c: Seq<u64>) -> Seq<u64>
    decreases c.len(),
{
    if c.len() == 0 {
        Seq::empty()
    } else {
        insert_sorted(sorted_distinct(c.drop_last()), c.last())
    }
}

/// First position at or after `i` whose path ran fewer times than `n`.
pub open spec fn first_below(s: Seq<PathView>, n: u64, i: int) -> int
    decreases s.len() - i,
{
    if i < 0 || i >= s.len() {
        s.len() as int
    } else if s[i].execution_count < n {
        i
    } else {
        first_below(s, n, i + 1)
    }
}

/// The paths of `c` by execution count, most first; paths of equal count
/// keep their order.
pub open spec fn by_count(c: Seq<PathView>) -> Seq<PathView>
    decreases c.len(),
{
    if c.len() == 0 {
        Seq::empty()
    } else {
        let s = by_count(c.drop_last());
        s.insert(first_below(s, c.last().execution_count, 0), c.last())
    }
}

/// At most the first `limit` items.
pub open spec fn at_most<T>(s: Seq<T>, limit: usize) -> Seq<T> {
    if s.len() <= limit {
        s
    } else {
        s.take(limit as int)
    }
}

/// Finds the paths that blocks execute along and which of them are hot.
pub struct HotPathOptimizer {
    current_path: Vec<u64>,
    path_window_size: usize,
    hot_paths: Vec<ExecutionPath>,
    block_to_paths: Vec<(u64, usize)>,
    hot_threshold: u64,
    stats: HotPathStats,
}

impl View for HotPathOptimizer {
    type V = HotPathView;

    closed spec fn view(&self) -> HotPathView {
        HotPathView {
            window: self.current_path@,
            window_size: self.path_window_size,
            paths: paths_view(self.hot_paths@),
            links: self.block_to_paths@,
            threshold: self.hot_threshold,
            stats: self.stats,
        }
    }
}

/// The state is consistent: paths are distinct, each link names a path
/// holding its block, every path's time is 100 microseconds per execution
/// and no path ran more often than all paths together.
pub open spec fn hot_wf(s: HotPathView) -> bool {
    &&& distinct_paths(s.paths)
    &&& s.window.len() <= s.window_size
    &&& forall|k: int| 0 <= k < s.links.len() ==> (#[trigger] s.links[k]).1 < s.paths.len() && s.paths[s.links[k].1 as int].blocks.contains(s.links[k].0)
    &&& forall|i: int|
        0 <= i < s.paths.len() ==> (#[trigger] s.paths[i]).total_time_us == PATH_TIME_US * s.paths[i].execution_count
            && s.paths[i].execution_count <= s.stats.total_path_executions
    &&& s.stats.hot_path_executions <= s.stats.total_path_executions
}

/// Executions that can still be counted without any counter overflowing.
pub open spec fn can_record(s: HotPathView) -> bool {
    &&& s.stats.total_path_executions < 184467440737095516
    &&& s.links.len() + s.window_size <= usize::MAX
    &&& s.paths.len() < usize::MAX
}

impl HotPathOptimizer {
    pub closed spec fn wf(&self) -> bool {
        hot_wf(self@)
    }

    pub fn new(path_window_size: usize, hot_threshold: u64) -> (o: Self)
        ensures
            o.wf(),
            o@ == (HotPathView {
                window: Seq::empty(),
                window_size: path_window_size,
                paths: Seq::empty(),
                links: Seq::empty(),
                threshold: hot_threshold,
                stats: HotPathStats { hot_path_count: 0, total_path_executions: 0, hot_path_executions: 0 },
            }),
    {
        let o = HotPathOptimizer {
            current_path: Vec::new(),
            path_window_size,
            hot_paths: Vec::new(),
            block_to_paths: Vec::new(),
            hot_threshold,
            stats: HotPathStats::default(),
        };
        assert(o@.paths =~= Seq::<PathView>::empty());
        o
    }

    /// Blocks equal element by element.
    fn same_blocks(a: &Vec<u64>, b: &Vec<u64>) -> (r: bool)
        ensures
            r == (a@ == b@),
    {
        if a.len() != b.len() {
            return false;
        }
        let mut i: usize = 0;
        while i < a.len()
            invariant
                a@.len() == b@.len(),
                i <= a@.len(),
                forall|j: int| 0 <= j < i ==> a@[j] == b@[j],
            decreases a.len() - i,
        {
            if a[i] != b[i] {
                return false;
            }
            i += 1;
        }
        assert(a@ =~= b@);
        true
    }

    /// The position of the path of `w`, if it is known.
    fn find_path(&self, w: &Vec<u64>) -> (r: Option<usize>)
        requires
            distinct_paths(self@.paths),
        ensures
            match r {
                Some(i) => path_pos(self@.paths, w@) == Some(i as int),
                None => path_pos(self@.paths, w@) is None,
            },
    {
        let ghost ps = self@.paths;
        let mut i: usize = 0;
        while i < self.hot_paths.len()
            invariant
                ps == paths_view(self.hot_paths@),
                distinct_paths(ps),
                i <= ps.len(),
                forall|j: int| 0 <= j < i ==> (#[trigger] ps[j]).blocks != w@,
            decreases self.hot_paths.len() - i,
        {
            assert(ps[i as int] == self.hot_paths@[i as int]@);
            if Self::same_blocks(&self.hot_paths[i].blocks, w) {
                proof {
                    assert(ps[i as int].blocks == w@);
                    let c = choose|k: int| 0 <= k < ps.len() && #[trigger] ps[k].blocks == w@;
                    assert(ps[c].blocks == ps[i as int].blocks);
                    assert(c == i);
                }
                return Some(i);
            }
            i += 1;
        }
        None
    }

    /// Counts one execution of the path in the window `w`.
    fn identify_path(&mut self, w: Vec<u64>)
        requires
            old(self).wf(),
            can_record(old(self)@),
            w@.len() == old(self)@.window_size,
            old(self)@.window == w@,
        ensures
            final(self).wf(),
            final(self)@ == ({
                let s = old(self)@;
                let paths = record_path(s.paths, w@, s.threshold);
                let idx = recorded_pos(s.paths, w@);
                HotPathView {
                    paths,
                    links: link_blocks(s.links, w@, idx as usize),
                    stats: HotPathStats {
                        total_path_executions: (s.stats.total_path_executions + 1) as u64,
                        hot_path_executions: if paths[idx].is_hot {
                            (s.stats.hot_path_executions + 1) as u64
                        } else {
                            s.stats.hot_path_executions
                        },
                        ..s.stats
                    },
                    ..s
                }
            }),
    {
        let ghost s = self@;
        let th = self.hot_threshold;
        let idx: usize = match self.find_path(&w) {
            Some(i) => {
                let ghost p0 = s.paths[i as int];
                assert(p0 == self.hot_paths@[i as int]@);
                let mut p = self.hot_paths.remove(i);
                p.record_execution(PATH_TIME_US, th);
                self.hot_paths.insert(i, p);
                assert(paths_view(self.hot_paths@) =~= s.paths.update(i as int, bumped(p0, PATH_TIME_US, th)));
                i
            },
            None => {
                let mut blocks: Vec<u64> = Vec::new();
                let mut k: usize = 0;
                while k < w.len()
                    invariant
                        k <= w@.len(),
                        blocks@ == w@.subrange(0, k as int),
                    decreases w.len() - k,
                {
                    blocks.push(w[k]);
                    k += 1;
                }
                assert(w@.subrange(0, w@.len() as int) =~= w@);
                let mut p = ExecutionPath::new(blocks);
                p.record_execution(PATH_TIME_US, th);
                let n = self.hot_paths.len();
                self.hot_paths.push(p);
                assert(paths_view(self.hot_paths@) =~= s.paths.push(bumped(fresh_path(w@), PATH_TIME_US, th)));
                n
            },
        };
        let ghost paths = record_path(s.paths, w@, th);
        assert(paths_view(self.hot_paths@) == paths);
        assert(idx == recorded_pos(s.paths, w@));
        let mut k: usize = 0;
        let ghost links0 = self.block_to_paths@;
        let ghost hp = self.hot_paths@;
        while k < w.len()
            invariant
                k <= w@.len(),
                links0 == s.links,
                self.hot_paths@ == hp,
                paths_view(hp) == paths,
                idx < paths.len(),
                self.stats == s.stats,
                self.current_path@ == s.window,
                self.path_window_size == s.window_size,
                self.hot_threshold == s.threshold,
                self.block_to_paths@ == links0 + w@.subrange(0, k as int).map_values(|b: u64| (b, idx)),
                links0.len() + w@.len() <= usize::MAX,
            decreases w.len() - k,
        {
            self.block_to_paths.push((w[k], idx));
            assert(self.block_to_paths@ =~= links0 + w@.subrange(0, k + 1).map_values(|b: u64| (b, idx)));
            k += 1;
        }
        assert(w@.subrange(0, w@.len() as int) =~= w@);
        assert(paths_view(self.hot_paths@)[idx as int] == self.hot_paths@[idx as int]@);
        let hot = self.hot_paths[idx].is_hot;
        self.stats.total_path_executions = self.stats.total_path_executions + 1;
        if hot {
            self.stats.hot_path_executions = self.stats.hot_path_executions + 1;
        }
        proof {
            let f = self@;
            assert(f.paths == paths);
            assert forall|i: int, j: int| 0 <= i < paths.len() && 0 <= j < paths.len() && i != j implies (#[trigger] paths[i]).blocks
                != (#[trigger] paths[j]).blocks by {
                if i != idx && j != idx {
                    assert(paths[i] == s.paths[i] && paths[j] == s.paths[j]);
                } else if i == idx {
                    assert(paths[i].blocks == w@);
                    if j < s.paths.len() {
                        assert(paths[j] == s.paths[j]);
                        if path_pos(s.paths, w@) is None {
                            assert(s.paths[j].blocks != w@);
                        }
                    }
                } else {
                    assert(paths[j].blocks == w@);
                    if i < s.paths.len() {
                        assert(paths[i] == s.paths[i]);
                        if path_pos(s.paths, w@) is None {
                            assert(s.paths[i].blocks != w@);
                        }
                    }
                }
            }
            assert forall|k2: int| 0 <= k2 < f.links.len() implies (#[trigger] f.links[k2]).1 < f.paths.len()
                && f.paths[f.links[k2].1 as int].blocks.contains(f.links[k2].0) by {
                if k2 < s.links.len() {
                    assert(f.links[k2] == s.links[k2]);
                    let q = s.links[k2].1 as int;
                    if q != idx {
                        assert(f.paths[q] == s.paths[q]);
                    } else {
                        assert(f.paths[q].blocks == s.paths[q].blocks);
                    }
                } else {
                    let m = k2 - s.links.len();
                    assert(f.links[k2] == (w@[m], idx));
                    assert(f.paths[idx as int].blocks == w@);
                    assert(w@.contains(w@[m]));
                }
            }
            assert forall|i: int| 0 <= i < f.paths.len() implies (#[trigger] f.paths[i]).total_time_us == PATH_TIME_US
                * f.paths[i].execution_count && f.paths[i].execution_count <= f.stats.total_path_executions by {
                if i != idx {
                    assert(f.paths[i] == s.paths[i]);
                }
            }
        }
    }

    /// Counts an execution of block `pc` (see `after_block`).
    pub fn record_block_execution(&mut self, pc: u64)
        requires
            old(self).wf(),
            can_record(old(self)@),
        ensures
            final(self).wf(),
            final(self)@ == after_block(old(self)@, pc),
    {
        let ghost s = self@;
        self.current_path.push(pc);
        if self.current_path.len() > self.path_window_size {
            self.current_path.remove(0);
            assert(self.current_path@ =~= s.window.push(pc).drop_first());
        }
        if self.current_path.len() == self.path_window_size {
            let mut w: Vec<u64> = Vec::new();
            let mut k: usize = 0;
            while k < self.current_path.len()
                invariant
                    k <= self.current_path@.len(),
                    w@ == self.current_path@.subrange(0, k as int),
                decreases self.current_path.len() - k,
            {
                w.push(self.current_path[k]);
                k += 1;
            }
            assert(self.current_path@.subrange(0, self.current_path@.len() as int) =~= self.current_path@);
            self.identify_path(w);
        }
    }

    /// The hot paths, most executed first (equal counts in the order the
    /// paths were first seen), at most `limit` of them.
    pub fn get_hot_paths(&self, limit: usize) -> (r: Vec<ExecutionPath>)
        ensures
            paths_view(r@) == at_most(by_count(hot_only(self@.paths)), limit),
    {
        let ghost ps = self@.paths;
        let mut sorted: Vec<ExecutionPath> = Vec::new();
        let mut i: usize = 0;
        while i < self.hot_paths.len()
            invariant
                ps == paths_view(self.hot_paths@),
                i <= ps.len(),
                paths_view(sorted@) == by_count(hot_only(ps.subrange(0, i as int))),
            decreases self.hot_paths.len() - i,
        {
            let ghost sub1 = ps.subrange(0, i + 1);
            assert(sub1.drop_last() =~= ps.subrange(0, i as int));
            assert(ps[i as int] == self.hot_paths@[i as int]@);
            if self.hot_paths[i].is_hot {
                let n = self.hot_paths[i].execution_count;
                let ghost sv = paths_view(sorted@);
                let mut p: usize = 0;
                while p < sorted.len() && sorted[p].execution_count >= n
                    invariant
                        sv == paths_view(sorted@),
                        p <= sv.len(),
                        first_below(sv, n, 0) == first_below(sv, n, p as int),
                    decreases sorted.len() - p,
                {
                    assert(sv[p as int] == sorted@[p as int]@);
                    p += 1;
                }
                proof {
                    if p < sv.len() {
                        assert(sv[p as int] == sorted@[p as int]@);
                    }
                }
                let copy = self.hot_paths[i].copy();
                sorted.insert(p, copy);
                proof {
                    assert(paths_view(sorted@) =~= sv.insert(p as int, ps[i as int]));
                    assert(hot_only(sub1) == hot_only(ps.subrange(0, i as int)).push(ps[i as int]));
                    assert(hot_only(sub1).drop_last() =~= hot_only(ps.subrange(0, i as int)));
                }
            } else {
                assert(hot_only(sub1) == hot_only(ps.subrange(0, i as int)));
            }
            i += 1;
        }
        assert(ps.subrange(0, ps.len() as int) =~= ps);
        let mut r: Vec<ExecutionPath> = Vec::new();
        let mut k: usize = 0;
        let ghost all = paths_view(sorted@);
        while k < sorted.len() && k < limit
            invariant
                all == paths_view(sorted@),
                k <= all.len(),
                k <= limit,
                paths_view(r@) == all.take(k as int),
            decreases sorted.len() - k,
        {
            assert(all[k as int] == sorted@[k as int]@);
            let c = sorted[k].copy();
            let ghost r0 = r@;
            r.push(c);
            assert(r@ == r0.push(c));
            assert(paths_view(r@) =~= paths_view(r0).push(all[k as int]));
            assert(paths_view(r@) =~= all.take(k + 1));
            k += 1;
        }
        assert(all.take(all.len() as int) =~= all);
        r
    }

    /// Some path that links block `pc` is hot.
    pub fn is_block_in_hot_path(&self, pc: u64) -> (b: bool)
        requires
            self.wf(),
        ensures
            b == (hot_only(linked_paths(self@.paths, self@.links, pc)).len() > 0),
    {
        let ghost s = self@;
        let mut found = false;
        let mut k: usize = 0;
        while k < self.block_to_paths.len()
            invariant
                s == self@,
                hot_wf(s),
                k <= s.links.len(),
                found == (hot_only(linked_paths(s.paths, s.links.subrange(0, k as int), pc)).len() > 0),
            decreases self.block_to_paths.len() - k,
        {
            let (b, idx) = self.block_to_paths[k];
            let ghost sub1 = s.links.subrange(0, k + 1);
            assert(sub1.drop_last() =~= s.links.subrange(0, k as int));
            assert(s.links[k as int] == (b, idx));
            assert(idx < s.paths.len());
            assert(s.paths[idx as int] == self.hot_paths@[idx as int]@);
            if b == pc && self.hot_paths[idx].is_hot {
                found = true;
            }
            proof {
                let l0 = linked_paths(s.paths, s.links.subrange(0, k as int), pc);
                if b == pc {
                    assert(linked_paths(s.paths, sub1, pc) == l0.push(s.paths[idx as int]));
                    assert(l0.push(s.paths[idx as int]).drop_last() =~= l0);
                    lemma_hot_only_len(l0);
                } else {
                    assert(linked_paths(s.paths, sub1, pc) == l0);
                }
            }
            k += 1;
        }
        assert(s.links.subrange(0, s.links.len() as int) =~= s.links);
        found
    }

    /// The hot paths that link block `pc`, once per link, in link order.
    pub fn get_block_hot_paths(&self, pc: u64) -> (r: Vec<ExecutionPath>)
        requires
            self.wf(),
        ensures
            paths_view(r@) == hot_only(linked_paths(self@.paths, self@.links, pc)),
    {
        let ghost s = self@;
        let mut r: Vec<ExecutionPath> = Vec::new();
        let mut k: usize = 0;
        while k < self.block_to_paths.len()
            invariant
                s == self@,
                hot_wf(s),
                k <= s.links.len(),
                paths_view(r@) == hot_only(linked_paths(s.paths, s.links.subrange(0, k as int), pc)),
            decreases self.block_to_paths.len() - k,
        {
            let (b, idx) = self.block_to_paths[k];
            let ghost sub1 = s.links.subrange(0, k + 1);
            assert(sub1.drop_last() =~= s.links.subrange(0, k as int));
            assert(s.links[k as int] == (b, idx));
            assert(s.paths[idx as int] == self.hot_paths@[idx as int]@);
            let ghost l0 = linked_paths(s.paths, s.links.subrange(0, k as int), pc);
            if b == pc {
                assert(linked_paths(s.paths, sub1, pc) == l0.push(s.paths[idx as int]));
                assert(l0.push(s.paths[idx as int]).drop_last() =~= l0);
                if self.hot_paths[idx].is_hot {
                    let c = self.hot_paths[idx].copy();
                    r.push(c);
                    assert(paths_view(r@) =~= hot_only(l0).push(s.paths[idx as int]));
                }
            } else {
                assert(linked_paths(s.paths, sub1, pc) == l0);
            }
            k += 1;
        }
        assert(s.links.subrange(0, s.links.len() as int) =~= s.links);
        r
    }

    /// The blocks that follow `current_pc` in the hot paths that link it,
    /// without repetition, in increasing order, at most `limit` of them.
    pub fn prefetch_next_blocks(&self, current_pc: u64, limit: usize) -> (r: Vec<u64>)
        requires
            self.wf(),
        ensures
            r@ == at_most(sorted_distinct(next_blocks(hot_only(linked_paths(self@.paths, self@.links, current_pc)), current_pc)), limit),
    {
        let hot = self.get_block_hot_paths(current_pc);
        let ghost hv = paths_view(hot@);
        let mut cands: Vec<u64> = Vec::new();
        let mut i: usize = 0;
        while i < hot.len()
            invariant
                hv == paths_view(hot@),
                i <= hv.len(),
                cands@ == next_blocks(hv.subrange(0, i as int), current_pc),
            decreases hot.len() - i,
        {
            assert(hv.subrange(0, i + 1).drop_last() =~= hv.subrange(0, i as int));
            assert(hv[i as int] == hot@[i as int]@);
            let bs = hot[i].blocks();
            let mut j: usize = 0;
            while j < bs.len() && bs[j] != current_pc
                invariant
                    j <= bs@.len(),
                    first_index_from(bs@, current_pc, 0) == first_index_from(bs@, current_pc, j as int),
                decreases bs.len() - j,
            {
                j += 1;
            }
            if j < bs.len() && j + 1 < bs.len() {
                cands.push(bs[j + 1]);
            }
            i += 1;
        }
        assert(hv.subrange(0, hv.len() as int) =~= hv);
        let mut sorted: Vec<u64> = Vec::new();
        let mut k: usize = 0;
        while k < cands.len()
            invariant
                k <= cands@.len(),
                sorted@ == sorted_distinct(cands@.subrange(0, k as int)),
                forall|a: int, b: int| 0 <= a < b < sorted@.len() ==> sorted@[a] < sorted@[b],
            decreases cands.len() - k,
        {
            let x = cands[k];
            assert(cands@.subrange(0, k + 1).drop_last() =~= cands@.subrange(0, k as int));
            let ghost s0 = sorted@;
            let mut p: usize = 0;
            while p < sorted.len() && sorted[p] < x
                invariant
                    s0 == sorted@,
                    p <= s0.len(),
                    first_ge(s0, x, 0) == first_ge(s0, x, p as int),
                    forall|j: int| 0 <= j < p ==> s0[j] < x,
                decreases sorted.len() - p,
            {
                p += 1;
            }
            if p < sorted.len() && sorted[p] == x {
                assert(s0.contains(x));
            } else {
                proof {
                    assert(!s0.contains(x)) by {
                        if s0.contains(x) {
                            let q = choose|q: int| 0 <= q < s0.len() && s0[q] == x;
                            if q >= p {
                                assert(s0[p as int] <= s0[q]);
                            }
                        }
                    }
                    s0.insert_ensures(p as int, x);
                }
                sorted.insert(p, x);
                proof {
                    let s1 = sorted@;
                    assert forall|a: int, b: int| 0 <= a < b < s1.len() implies s1[a] < s1[b] by {
                        if b < p {
                        } else if b == p {
                            assert(s1[a] == s0[a]);
                        } else if a < p {
                            assert(s1[a] == s0[a]);
                            assert(s1[b] == s0[b - 1]);
                            if b - 1 >= p as int {
                                assert(s0[p as int] <= s0[b - 1]);
                            }
                        } else if a == p {
                            assert(s1[b] == s0[b - 1]);
                            assert(x < s0[p as int]);
                            if b - 1 > p as int {
                                assert(s0[p as int] < s0[b - 1]);
                            }
                        } else {
                            assert(s1[a] == s0[a - 1]);
                            assert(s1[b] == s0[b - 1]);
                        }
                    }
                }
            }
            k += 1;
        }
        assert(cands@.subrange(0, cands@.len() as int) =~= cands@);
        let mut r: Vec<u64> = Vec::new();
        let mut t: usize = 0;
        while t < sorted.len() && t < limit
            invariant
                t <= sorted@.len(),
                t <= limit,
                r@ == sorted@.take(t as int),
            decreases sorted.len() - t,
        {
            r.push(sorted[t]);
            assert(r@ =~= sorted@.take(t + 1));
            t += 1;
        }
        assert(sorted@.take(sorted@.len() as int) =~= sorted@);
        r
    }

    pub fn stats(&self) -> (s: &HotPathStats)
        ensures
            *s == self@.stats,
    {
        &self.stats
    }

    /// Sets the threshold and judges every path against it again (more
    /// executions than the threshold, or more than 10 ms); the number of
    /// hot paths is recounted.
    pub fn set_hot_threshold(&mut self, threshold: u64)
        requires
            old(self).wf(),
        ensures
            final(self).wf(),
            final(self)@ == ({
                let s = old(self)@;
                let paths = rejudged(s.paths, threshold);
                HotPathView {
                    threshold,
                    paths,
                    stats: HotPathStats { hot_path_count: hot_only(paths).len() as usize, ..s.stats },
                    ..s
                }
            }),
    {
        let ghost s = self@;
        self.hot_threshold = threshold;
        let mut i: usize = 0;
        let mut count: usize = 0;
        while i < self.hot_paths.len()
            invariant
                i <= s.paths.len(),
                self.hot_paths@.len() == s.paths.len(),
                self.hot_threshold == threshold,
                self.current_path@ == s.window,
                self.path_window_size == s.window_size,
                self.block_to_paths@ == s.links,
                self.stats == s.stats,
                forall|j: int| 0 <= j < i ==> #[trigger] paths_view(self.hot_paths@)[j] == rejudge(s.paths[j], threshold),
                forall|j: int| i <= j < s.paths.len() ==> #[trigger] paths_view(self.hot_paths@)[j] == s.paths[j],
                count == hot_only(rejudged(s.paths.subrange(0, i as int), threshold)).len(),
                count <= i,
            decreases s.paths.len() - i,
        {
            let ghost before = paths_view(self.hot_paths@);
            assert(before[i as int] == s.paths[i as int]);
            let mut p = self.hot_paths.remove(i);
            p.is_hot = p.execution_count > threshold || p.total_time_us > 10_000;
            let h = p.is_hot;
            self.hot_paths.insert(i, p);
            assert(paths_view(self.hot_paths@) =~= before.update(i as int, rejudge(s.paths[i as int], threshold)));
            proof {
                let sub0 = s.paths.subrange(0, i as int);
                let sub1 = s.paths.subrange(0, i + 1);
                assert(sub1.drop_last() =~= sub0);
                assert(rejudged(sub1, threshold).drop_last() =~= rejudged(sub0, threshold));
                assert(rejudged(sub1, threshold).last() == rejudge(s.paths[i as int], threshold));
            }
            if h {
                count = count + 1;
            }
            i += 1;
        }
        proof {
            assert(s.paths.subrange(0, s.paths.len() as int) =~= s.paths);
            assert(paths_view(self.hot_paths@) =~= rejudged(s.paths, threshold));
        }
        self.stats.hot_path_count = count;
    }
}

/// `p` judged against `threshold`.
pub open spec fn rejudge(p: PathView, threshold: u64) -> PathView {
    PathView { is_hot: p.execution_count > threshold || p.total_time_us > 10_000, ..p }
}

/// Every path judged against `threshold`.
pub open spec fn rejudged(ps: Seq<PathView>, threshold: u64) -> Seq<PathView> {
    ps.map_values(|p: PathView| rejudge(p, threshold))
}

proof fn lemma_hot_only_len(ps: Seq<PathView>)
    ensures
        hot_only(ps).len() <= ps.len(),
    decreases ps.len(),
{
    if ps.len() > 0 {
        lemma_hot_only_len(ps.drop_last());
    }
}

impl Default for HotPathOptimizer {
    fn default() -> (o: Self)
        ensures
            o.wf(),
            o@.window_size == 10,
            o@.threshold == 100,
    {
        HotPathOptimizer::new(10, 100)
    }
}

} // verus!
