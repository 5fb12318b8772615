//! Adaptive optimization: execution counting and hotspot detection, a
//! performance profile per address, tiered compilation and cached
//! recompilation, and the optimizer that chooses between them.
//!
//! Durations are whole nanoseconds and follow the arithmetic of
//! `std::time::Duration`.

use vstd::prelude::*;
use std::collections::HashMap;
use crate::clock::{div_duration, duration_div, elapsed_nanos, mul_duration, now, DURATION_MAX_NANOS};
use crate::ir::IROp;
use crate::text::text;

verus! {

/// The estimated cost (and complexity weight) of one operation: simple ALU
/// operations 1, multiplication 3, division and remainder 10, loads and
/// stores 2, moves of immediates and immediate arithmetic 0, anything else 1.
pub open spec fn op_cost(op: IROp) -> u32 {
    match op {
        IROp::Add { .. } | IROp::Sub { .. } | IROp::And { .. } | IROp::Or { .. } | IROp::Xor { .. } | IROp::Sll {
            ..
        } | IROp::Srl { .. } | IROp::Sra { .. } => 1,
        IROp::Mul { .. } => 3,
        IROp::Div { .. } | IROp::Rem { .. } => 10,
        IROp::Load { .. } | IROp::Store { .. } => 2,
        IROp::MovImm { .. } | IROp::AddImm { .. } | IROp::MulImm { .. } => 0,
        _ => 1,
    }
}

/// The summed cost of a sequence of operations.
pub open spec fn cost_sum(ops: Seq<IROp>) -> nat
    decreases ops.len(),
{
    if ops.len() == 0 {
        0
    } else {
        cost_sum(ops.drop_last()) + op_cost(ops.last()) as nat
    }
}

/// The cost weight of one operation.
pub fn instruction_complexity(op: &IROp) -> (c: u32)
    ensures
        c == op_cost(*op),
{
    match op {
        IROp::Add { .. } | IROp::Sub { .. } | IROp::And { .. } | IROp::Or { .. } | IROp::Xor { .. } | IROp::Sll {
            ..
        } | IROp::Srl { .. } | IROp::Sra { .. } => 1,
        IROp::Mul { .. } => 3,
        IROp::Div { .. } | IROp::Rem { .. } => 10,
        IROp::Load { .. } | IROp::Store { .. } => 2,
        IROp::MovImm { .. } | IROp::AddImm { .. } | IROp::MulImm { .. } => 0,
        _ => 1,
    }
}

/// The summed cost of a sequence of operations; a sum beyond `u32` would
/// overflow, so it is excluded.
pub fn calculate_complexity(ops: &[IROp]) -> (c: u32)
    requires
        cost_sum(ops@) <= u32::MAX,
    ensures
        c == cost_sum(ops@),
{
    let mut sum: u32 = 0;
    let mut i: usize = 0;
    while i < ops.len()
        invariant
            i <= ops@.len(),
            sum == cost_sum(ops@.subrange(0, i as int)),
            cost_sum(ops@) <= u32::MAX,
        decreases ops.len() - i,
    {
        proof {
            assert(ops@.subrange(0, i + 1).drop_last() =~= ops@.subrange(0, i as int));
            lemma_cost_sum_prefix(ops@, i + 1);
        }
        sum = sum + instruction_complexity(&ops[i]);
        i += 1;
    }
    assert(ops@.subrange(0, ops@.len() as int) =~= ops@);
    sum
}

/// The cost of a prefix is at most the cost of the whole.
proof fn lemma_cost_sum_prefix(ops: Seq<IROp>, n: int)
    requires
        0 <= n <= ops.len(),
    ensures
        cost_sum(ops.subrange(0, n)) <= cost_sum(ops),
    decreases ops.len() - n,
{
    if n < ops.len() {
        lemma_cost_sum_prefix(ops, n + 1);
        assert(ops.subrange(0, n + 1).drop_last() =~= ops.subrange(0, n));
    } else {
        assert(ops.subrange(0, n) =~= ops);
    }
}

/// The value under `k`, if any.
pub open spec fn map_get<V>(m: Map<u64, V>, k: u64) -> Option<V> {
    if m.contains_key(k) {
        Some(m[k])
    } else {
        None
    }
}

/// A block executed often enough to be optimized.
#[derive(Debug, Clone, Copy)]
pub struct Hotspot {
    pub address: u64,
    pub execution_count: u64,
    /// Total recorded execution time, in nanoseconds.
    pub total_time: u128,
    /// Average execution time, in nanoseconds.
    pub average_time: u128,
}

/// Counts executions per address and reports addresses that reach the
/// threshold.
#[derive(Debug, Clone)]
pub struct HotspotDetector {
    execution_counts: HashMap<u64, u64>,
    /// Recorded execution time per address, in nanoseconds.
    execution_times: HashMap<u64, u128>,
    hotspot_threshold: u64,
}

pub struct DetectorView {
    pub counts: Map<u64, u64>,
    pub times: Map<u64, u128>,
    pub threshold: u64,
}

impl View for HotspotDetector {
    type V = DetectorView;

    closed spec fn view(&self) -> DetectorView {
        DetectorView { counts: self.execution_counts@, times: self.execution_times@, threshold: self.hotspot_threshold }
    }
}

/// The hotspots that `detect_hotspots(address)` reports: the address alone
/// once its count reaches the threshold, with its recorded time (zero if
/// none) and the `Duration` average over the count.
pub open spec fn hotspots_of(d: DetectorView, address: u64) -> Seq<Hotspot> {
    if d.counts.contains_key(address) && d.counts[address] >= d.threshold {
        let count = d.counts[address];
        let total = if d.times.contains_key(address) { d.times[address] } else { 0 };
        seq![Hotspot {
            address,
            execution_count: count,
            total_time: total,
            average_time: if count > 0 { duration_div(total, count as u32) } else { 0 },
        }]
    } else {
        Seq::empty()
    }
}

impl HotspotDetector {
    /// No counts, threshold 100.
    pub fn new() -> (d: Self)
        ensures
            d@ == (DetectorView { counts: Map::empty(), times: Map::empty(), threshold: 100 }),
    {
        HotspotDetector { execution_counts: HashMap::new(), execution_times: HashMap::new(), hotspot_threshold: 100 }
    }

    /// Counts one execution of `address`. The count is a `u64` that is
    /// incremented unchecked, so a count at `u64::MAX` is excluded.
    pub fn record_execution(&mut self, address: u64)
        requires
            old(self)@.counts.contains_key(address) ==> old(self)@.counts[address] < u64::MAX,
        ensures
            final(self)@ == (DetectorView {
                counts: old(self)@.counts.insert(
                    address,
                    (if old(self)@.counts.contains_key(address) { old(self)@.counts[address] + 1 } else { 1 }) as u64,
                ),
                ..old(self)@
            }),
    {
        let count: u64 = match self.execution_counts.get(&address) {
            Some(c) => *c + 1,
            None => 1,
        };
        self.execution_counts.insert(address, count);
    }

    /// The recorded count of `address` (zero if none).
    pub fn execution_count(&self, address: u64) -> (c: u64)
        ensures
            c == (if self@.counts.contains_key(address) { self@.counts[address] } else { 0 }),
    {
        match self.execution_counts.get(&address) {
            Some(c) => *c,
            None => 0,
        }
    }

    /// The hotspots at `address` (see `hotspots_of`). The average divides by
    /// the count taken as a `u32`, which panics in `Duration` when that is
    /// zero, so such counts are excluded.
    pub fn detect_hotspots(&mut self, address: u64) -> (v: Vec<Hotspot>)
        requires
            old(self)@.counts.contains_key(address) && old(self)@.counts[address] >= old(self)@.threshold
                ==> old(self)@.counts[address] as u32 != 0,
        ensures
            final(self)@ == old(self)@,
            v@ == hotspots_of(old(self)@, address),
    {
        let mut hotspots: Vec<Hotspot> = Vec::new();
        match self.execution_counts.get(&address) {
            Some(c) => {
                let count = *c;
                if count >= self.hotspot_threshold {
                    let total_time: u128 = match self.execution_times.get(&address) {
                        Some(t) => *t,
                        None => 0,
                    };
                    let average_time: u128 = if count > 0 {
                        div_duration(total_time, count as u32)
                    } else {
                        0
                    };
                    hotspots.push(Hotspot { address, execution_count: count, total_time, average_time });
                }
            },
            None => {},
        }
        assert(hotspots@ =~= hotspots_of(old(self)@, address));
        hotspots
    }
}

/// The recorded count of `a` (zero if none).
pub open spec fn detector_count(d: DetectorView, a: u64) -> nat {
    if d.counts.contains_key(a) {
        d.counts[a] as nat
    } else {
        0
    }
}

/// The detector after `record_execution(a)`.
pub open spec fn after_record(d: DetectorView, a: u64) -> DetectorView {
    DetectorView { counts: d.counts.insert(a, (detector_count(d, a) + 1) as u64), ..d }
}

/// The detector after recording the addresses `addrs`, one after the other.
pub open spec fn after_records(d: DetectorView, addrs: Seq<u64>) -> DetectorView
    decreases addrs.len(),
{
    if addrs.len() == 0 {
        d
    } else {
        after_record(after_records(d, addrs.drop_last()), addrs.last())
    }
}

/// How often `a` occurs in `addrs`.
pub open spec fn occurrences(addrs: Seq<u64>, a: u64) -> nat
    decreases addrs.len(),
{
    if addrs.len() == 0 {
        0
    } else {
        occurrences(addrs.drop_last(), a) + if addrs.last() == a { 1nat } else { 0nat }
    }
}

/// Recording `a` changes the hotspots of no other address, and `a` is
/// reported once its new count reaches the threshold, with that count.
pub proof fn lemma_record_hotspots(d: DetectorView, a: u64, b: u64)
    requires
        detector_count(d, a) < u64::MAX,
    ensures
        b != a ==> hotspots_of(after_record(d, a), b) == hotspots_of(d, b),
        hotspots_of(after_record(d, a), a).len() > 0 <==> detector_count(d, a) + 1 >= d.threshold,
        hotspots_of(after_record(d, a), a).len() > 0 ==> hotspots_of(after_record(d, a), a).len() == 1
            && hotspots_of(after_record(d, a), a)[0].execution_count == detector_count(d, a) + 1,
{
}

/// After a sequence of recordings, each address's count has grown by how
/// often it was recorded (while no count overflows); the threshold and the
/// recorded times stay.
pub proof fn lemma_records_count(d: DetectorView, addrs: Seq<u64>, a: u64)
    requires
        forall|b: u64| detector_count(d, b) + occurrences(addrs, b) <= u64::MAX,
    ensures
        detector_count(after_records(d, addrs), a) == detector_count(d, a) + occurrences(addrs, a),
        after_records(d, addrs).threshold == d.threshold,
        after_records(d, addrs).times == d.times,
    decreases addrs.len(),
{
    if addrs.len() > 0 {
        let init = addrs.drop_last();
        let x = addrs.last();
        assert forall|b: u64| detector_count(d, b) + occurrences(init, b) <= u64::MAX by {
            assert(occurrences(init, b) <= occurrences(addrs, b));
        }
        lemma_records_count(d, init, a);
        lemma_records_count(d, init, x);
        assert(detector_count(d, x) + occurrences(addrs, x) <= u64::MAX);
    }
}

/// From a new detector (no counts), after recording `addrs` and then `a`
/// once more, `a` is reported exactly when it was recorded at least the
/// threshold number of times, with that many executions.
pub proof fn lemma_hotspot_after_records(d: DetectorView, addrs: Seq<u64>, a: u64)
    requires
        d.counts == Map::<u64, u64>::empty(),
        forall|b: u64| occurrences(addrs.push(a), b) <= u64::MAX,
    ensures
        ({
            let e = after_records(d, addrs.push(a));
            let n = occurrences(addrs, a) + 1;
            &&& hotspots_of(e, a).len() > 0 <==> n >= d.threshold
            &&& hotspots_of(e, a).len() > 0 ==> hotspots_of(e, a)[0].execution_count == n
        }),
{
    assert forall|b: u64| detector_count(d, b) + occurrences(addrs, b) <= u64::MAX by {
        assert(addrs.push(a).drop_last() =~= addrs);
        assert(occurrences(addrs, b) <= occurrences(addrs.push(a), b));
    }
    lemma_records_count(d, addrs, a);
    assert(addrs.push(a).drop_last() =~= addrs);
    assert(occurrences(addrs.push(a), a) == occurrences(addrs, a) + 1);
    lemma_record_hotspots(after_records(d, addrs), a, a);
}

/// The direction of the performance of a block.
#[derive(Debug, Clone, Copy, PartialEq, Eq, Structural)]
pub enum PerformanceTrend {
    Improving,
    Stable,
    Degrading,
    Unknown,
}

/// The performance record of one address (times in nanoseconds).
#[derive(Debug, Clone, Copy)]
pub struct PerformanceData {
    pub address: u64,
    pub execution_count: u64,
    pub total_time: u128,
    pub min_time: u128,
    pub max_time: u128,
    pub last_execution: std::time::Instant,
    pub trend: PerformanceTrend,
}

/// The trend after `count` (at least three) executions taking `total` in
/// all: the average is compared with nine and eleven tenths of itself, in
/// `Duration` arithmetic.
pub open spec fn trend_of(total: u128, count: u64) -> PerformanceTrend {
    let average = duration_div(total, count as u32);
    let recent = average;
    if recent < duration_div((average * 9) as u128, 10) {
        PerformanceTrend::Improving
    } else if recent > duration_div((average * 11) as u128, 10) {
        PerformanceTrend::Degrading
    } else {
        PerformanceTrend::Stable
    }
}

/// The record of `address` before the first execution.
pub open spec fn fresh_data(address: u64, at: std::time::Instant) -> PerformanceData {
    PerformanceData {
        address,
        execution_count: 0,
        total_time: 0,
        min_time: DURATION_MAX_NANOS,
        max_time: 0,
        last_execution: at,
        trend: PerformanceTrend::Unknown,
    }
}

/// The record after one more execution taking `t` nanoseconds, at `at`.
pub open spec fn recorded(base: PerformanceData, t: u128, at: std::time::Instant) -> PerformanceData {
    let count = (base.execution_count + 1) as u64;
    let total = (base.total_time + t) as u128;
    PerformanceData {
        execution_count: count,
        total_time: total,
        min_time: if t < base.min_time { t } else { base.min_time },
        max_time: if t > base.max_time { t } else { base.max_time },
        last_execution: at,
        trend: if count < 3 { PerformanceTrend::Unknown } else { trend_of(total, count) },
        ..base
    }
}

/// One more execution taking `t` stays within what `Duration` and the
/// counters hold: the count below `u64::MAX`, the total within the range of
/// `Duration`, and, from the third execution on, a nonzero `u32` divisor and
/// eleven times the average within range.
pub open spec fn record_fits(base: PerformanceData, t: u128) -> bool {
    let count = base.execution_count + 1;
    let total = base.total_time + t;
    &&& base.execution_count < u64::MAX
    &&& total <= DURATION_MAX_NANOS
    &&& count >= 3 ==> (count as u64) as u32 != 0 && duration_div(total as u128, (count as u64) as u32) * 11
        <= DURATION_MAX_NANOS
}

/// Keeps a performance record per address.
#[derive(Debug, Clone)]
pub struct PerformanceProfiler {
    performance_data: HashMap<u64, PerformanceData>,
}

impl View for PerformanceProfiler {
    type V = Map<u64, PerformanceData>;

    closed spec fn view(&self) -> Map<u64, PerformanceData> {
        self.performance_data@
    }
}

/// The record that an execution of `address` starts from.
pub open spec fn base_of(m: Map<u64, PerformanceData>, address: u64, at: std::time::Instant) -> PerformanceData {
    if m.contains_key(address) {
        m[address]
    } else {
        fresh_data(address, at)
    }
}

impl PerformanceProfiler {
    pub fn new() -> (p: Self)
        ensures
            p@ == Map::<u64, PerformanceData>::empty(),
    {
        PerformanceProfiler { performance_data: HashMap::new() }
    }

    /// The record of `address`, if any.
    pub fn data(&self, address: u64) -> (r: Option<PerformanceData>)
        ensures
            r == map_get(self@, address),
    {
        match self.performance_data.get(&address) {
            Some(d) => Some(*d),
            None => None,
        }
    }

    /// The estimated execution time of `ops`: ten nanoseconds per unit of
    /// cost.
    pub fn estimate_execution_time(ops: &[IROp]) -> (t: u128)
        requires
            cost_sum(ops@) <= u32::MAX,
        ensures
            t == cost_sum(ops@) * 10,
    {
        let c = calculate_complexity(ops);
        (c as u64 * 10) as u128
    }

    /// Records one execution of `ops` at `address`, taking their estimated
    /// time, now (see `recorded`). Inputs on which the `Duration` arithmetic
    /// or the count would overflow are excluded.
    pub fn record_execution(&mut self, address: u64, ops: &[IROp])
        requires
            cost_sum(ops@) <= u32::MAX,
            forall|at: std::time::Instant| record_fits(#[trigger] base_of(old(self)@, address, at), (cost_sum(ops@) * 10) as u128),
        ensures
            final(self)@.contains_key(address),
            final(self)@ == old(self)@.insert(
                address,
                recorded(
                    base_of(old(self)@, address, final(self)@[address].last_execution),
                    (cost_sum(ops@) * 10) as u128,
                    final(self)@[address].last_execution,
                ),
            ),
    {
        let at = now();
        let t = Self::estimate_execution_time(ops);
        let base: PerformanceData = match self.performance_data.get(&address) {
            Some(d) => *d,
            None => PerformanceData {
                address,
                execution_count: 0,
                total_time: 0,
                min_time: DURATION_MAX_NANOS,
                max_time: 0,
                last_execution: at,
                trend: PerformanceTrend::Unknown,
            },
        };
        assert(base == base_of(old(self)@, address, at));
        assert(record_fits(base, t));
        let count = base.execution_count + 1;
        let total = base.total_time + t;
        let trend = if count < 3 {
            PerformanceTrend::Unknown
        } else {
            let average = div_duration(total, count as u32);
            let recent = average;
            if recent < div_duration(mul_duration(average, 9), 10) {
                PerformanceTrend::Improving
            } else if recent > div_duration(mul_duration(average, 11), 10) {
                PerformanceTrend::Degrading
            } else {
                PerformanceTrend::Stable
            }
        };
        let data = PerformanceData {
            address: base.address,
            execution_count: count,
            total_time: total,
            min_time: if t < base.min_time { t } else { base.min_time },
            max_time: if t > base.max_time { t } else { base.max_time },
            last_execution: at,
            trend,
        };
        self.performance_data.insert(address, data);
    }

    /// Whether the trend of `address` is `Degrading` (false without a
    /// record).
    pub fn has_performance_degradation(&self, address: u64) -> (b: bool)
        ensures
            b == (self@.contains_key(address) && self@[address].trend == PerformanceTrend::Degrading),
    {
        match self.performance_data.get(&address) {
            Some(d) => d.trend == PerformanceTrend::Degrading,
            None => false,
        }
    }
}

/// A copy of a sequence of operations.
pub fn copy_ops(ops: &[IROp]) -> (v: Vec<IROp>)
    ensures
        v@ == ops@,
{
    let mut v: Vec<IROp> = Vec::new();
    let mut i: usize = 0;
    while i < ops.len()
        invariant
            i <= ops@.len(),
            v@ == ops@.subrange(0, i as int),
        decreases ops.len() - i,
    {
        v.push(ops[i]);
        assert(v@ =~= ops@.subrange(0, i + 1));
        i += 1;
    }
    assert(ops@.subrange(0, ops@.len() as int) =~= ops@);
    v
}

/// How tiers are chosen.
#[derive(Debug, Clone, Copy, PartialEq, Eq, Structural)]
pub enum TieredCompilationStrategy {
    ExecutionFrequency,
    PerformanceFeedback,
    ResourceAvailability,
    Hybrid,
}

/// When a tier applies (durations in nanoseconds).
#[derive(Debug, Clone, Copy, PartialEq, Eq, Structural)]
pub enum TierTriggerCondition {
    ExecutionCount(u64),
    PerformanceThreshold(u128),
    TimeInterval(u128),
    Manual,
}

/// One compilation tier.
#[derive(Debug, Clone)]
pub struct CompilationTier {
    pub tier_id: u8,
    pub name: String,
    pub optimization_level: u8,
    /// Compilation time budget, in nanoseconds.
    pub compilation_budget: u128,
    pub trigger_condition: TierTriggerCondition,
}

pub struct TierView {
    pub tier_id: u8,
    pub name: Seq<char>,
    pub optimization_level: u8,
    pub compilation_budget: u128,
    pub trigger_condition: TierTriggerCondition,
}

impl View for CompilationTier {
    type V = TierView;

    open spec fn view(&self) -> TierView {
        TierView {
            tier_id: self.tier_id,
            name: self.name@,
            optimization_level: self.optimization_level,
            compilation_budget: self.compilation_budget,
            trigger_condition: self.trigger_condition,
        }
    }
}

/// Tier `i` is triggered by an execution count of `count`.
pub open spec fn triggered(t: TierView, count: u64) -> bool {
    t.trigger_condition matches TierTriggerCondition::ExecutionCount(th) && count >= th
}

/// The tier chosen for `count`: the first tier whose execution-count
/// trigger it reaches, or else the first tier.
pub open spec fn chosen_tier(tiers: Seq<TierView>, count: u64) -> int {
    if exists|i: int| 0 <= i < tiers.len() && triggered(#[trigger] tiers[i], count) {
        choose|i: int|
            0 <= i < tiers.len() && triggered(#[trigger] tiers[i], count) && forall|j: int|
                0 <= j < i ==> !triggered(#[trigger] tiers[j], count)
    } else {
        0
    }
}

pub struct TieredView {
    pub tiers: Seq<TierView>,
    pub counts: Map<u64, u64>,
}

/// Chooses a compilation tier per address.
#[derive(Debug, Clone)]
pub struct TieredCompiler {
    tiers: Vec<CompilationTier>,
    execution_counts: HashMap<u64, u64>,
}

impl View for TieredCompiler {
    type V = TieredView;

    closed spec fn view(&self) -> TieredView {
        TieredView { tiers: self.tiers@.map_values(|t: CompilationTier| t@), counts: self.execution_counts@ }
    }
}

/// The default tiers: the interpreter from the first execution and the
/// baseline JIT from the fifteenth.
pub open spec fn default_tiers() -> Seq<TierView> {
    seq![
        TierView {
            tier_id: 0,
            name: "Interpreter"@,
            optimization_level: 0,
            compilation_budget: 1_000_000,
            trigger_condition: TierTriggerCondition::ExecutionCount(1),
        },
        TierView {
            tier_id: 1,
            name: "Baseline JIT"@,
            optimization_level: 1,
            compilation_budget: 15_000_000,
            trigger_condition: TierTriggerCondition::ExecutionCount(15),
        },
    ]
}

pub open spec fn count_of(counts: Map<u64, u64>, address: u64) -> u64 {
    if counts.contains_key(address) {
        counts[address]
    } else {
        0
    }
}

impl TieredCompiler {
    pub open spec fn wf(&self) -> bool {
        self@.tiers.len() >= 1
    }

    pub fn new() -> (c: Self)
        ensures
            c.wf(),
            c@ == (TieredView { tiers: default_tiers(), counts: Map::empty() }),
    {
        let mut tiers: Vec<CompilationTier> = Vec::new();
        tiers.push(
            CompilationTier {
                tier_id: 0,
                name: text("Interpreter"),
                optimization_level: 0,
                compilation_budget: 1_000_000,
                trigger_condition: TierTriggerCondition::ExecutionCount(1),
            },
        );
        tiers.push(
            CompilationTier {
                tier_id: 1,
                name: text("Baseline JIT"),
                optimization_level: 1,
                compilation_budget: 15_000_000,
                trigger_condition: TierTriggerCondition::ExecutionCount(15),
            },
        );
        let c = TieredCompiler { tiers, execution_counts: HashMap::new() };
        assert(c@.tiers =~= default_tiers());
        c
    }

    /// The recorded execution count of `address` (zero if none).
    pub fn get_execution_count(&self, address: u64) -> (n: u64)
        ensures
            n == count_of(self@.counts, address),
    {
        match self.execution_counts.get(&address) {
            Some(c) => *c,
            None => 0,
        }
    }

    /// The tier for `address` (see `chosen_tier`).
    pub fn determine_compilation_tier(&self, address: u64) -> (t: &CompilationTier)
        requires
            self.wf(),
        ensures
            t@ == self@.tiers[chosen_tier(self@.tiers, count_of(self@.counts, address))],
    {
        let count = self.get_execution_count(address);
        let ghost tv = self@.tiers;
        let mut i: usize = 0;
        while i < self.tiers.len()
            invariant
                tv == self@.tiers,
                tv.len() >= 1,
                i <= tv.len(),
                count == count_of(self@.counts, address),
                forall|j: int| 0 <= j < i ==> !triggered(#[trigger] tv[j], count),
            decreases self.tiers.len() - i,
        {
            assert(tv[i as int] == self.tiers@[i as int]@);
            if let TierTriggerCondition::ExecutionCount(threshold) = self.tiers[i].trigger_condition {
                if count >= threshold {
                    proof {
                        assert(triggered(tv[i as int], count));
                        let c = chosen_tier(tv, count);
                        assert(0 <= c < tv.len() && triggered(tv[c], count) && forall|j: int|
                            0 <= j < c ==> !triggered(#[trigger] tv[j], count));
                        if c < i {
                            assert(!triggered(tv[c], count));
                        }
                        if c > i {
                            assert(!triggered(tv[i as int], count));
                        }
                    }
                    return &self.tiers[i];
                }
            }
            i += 1;
        }
        proof {
            assert forall|j: int| !(0 <= j < tv.len() && triggered(#[trigger] tv[j], count)) by {}
        }
        assert(tv[0] == self.tiers@[0]@);
        &self.tiers[0]
    }

    /// Compiles `ops` at the tier of `address`. Every tier passes the
    /// operations through unchanged.
    pub fn optimize(&mut self, ops: &[IROp], address: u64) -> (v: Vec<IROp>)
        requires
            old(self).wf(),
        ensures
            final(self)@ == old(self)@,
            final(self).wf(),
            v@ == ops@,
    {
        let tier_id = self.determine_compilation_tier(address).tier_id;
        if tier_id == 0 {
            copy_ops(ops)
        } else if tier_id == 1 {
            Self::baseline_optimization(ops)
        } else if tier_id == 2 {
            Self::optimized_compilation(ops)
        } else {
            copy_ops(ops)
        }
    }

    /// Baseline tier: the operations as they are.
    fn baseline_optimization(ops: &[IROp]) -> (v: Vec<IROp>)
        ensures
            v@ == ops@,
    {
        copy_ops(ops)
    }

    /// Optimizing tier: the operations as they are.
    fn optimized_compilation(ops: &[IROp]) -> (v: Vec<IROp>)
        ensures
            v@ == ops@,
    {
        copy_ops(ops)
    }
}

/// What triggers a recompilation.
#[derive(Debug, Clone, Copy, PartialEq, Eq, Structural)]
pub enum RecompilationStrategy {
    PerformanceDegradation,
    EnvironmentChange,
    HotspotMigration,
    Predictive,
}

/// Why a block was recompiled.
#[derive(Debug, Clone, Copy, PartialEq, Eq, Structural)]
pub enum RecompilationReason {
    PerformanceDegradation,
    HotspotDetected,
    EnvironmentChange,
    PredictiveOptimization,
}

/// Settings of a profiling session (durations in nanoseconds; the sampling
/// rate, a fraction, is kept by the caller).
#[derive(Debug, Clone, Copy, PartialEq, Eq, Structural)]
pub struct ProfilingConfig {
    pub max_history: usize,
    pub performance_threshold: u128,
    pub trend_window: usize,
}

/// One sample of a profiling session (the CPU share, a fraction, is kept
/// by the caller).
#[derive(Debug, Clone, Copy)]
pub struct PerformanceSample {
    pub timestamp: std::time::Instant,
    pub address: u64,
    /// Nanoseconds.
    pub execution_time: u128,
    pub memory_usage: u64,
}

/// A profiling session and its samples.
#[derive(Debug, Clone)]
pub struct ProfilingSession {
    pub session_id: u64,
    pub start_time: std::time::Instant,
    pub samples: Vec<PerformanceSample>,
}

/// A past compilation (time in nanoseconds; the estimated gain, a fraction,
/// is kept by the caller).
#[derive(Debug, Clone, Copy)]
pub struct CompilationRecord {
    pub timestamp: std::time::Instant,
    pub address: u64,
    pub tier: u8,
    pub compilation_time: u128,
}

/// A past recompilation (time in nanoseconds).
#[derive(Debug, Clone, Copy)]
pub struct RecompilationRecord {
    pub timestamp: std::time::Instant,
    pub address: u64,
    pub reason: RecompilationReason,
    pub recompilation_time: u128,
}

/// Recompiled code kept for an address.
#[derive(Debug, Clone)]
pub struct CachedCode {
    pub code: Vec<IROp>,
    pub compilation_time: std::time::Instant,
    pub execution_count: u64,
    pub optimization_level: u8,
}

pub struct RecompilerView {
    pub history: Seq<RecompilationRecord>,
    pub cache: Map<u64, CachedCode>,
}

/// How long recompiled code stays valid: one minute, in nanoseconds.
pub const CACHE_VALIDITY_NANOS: u128 = 60_000_000_000;

/// Code compiled `age` nanoseconds ago is still valid.
pub fn cache_age_valid(age: u128) -> (b: bool)
    ensures
        b == (age < CACHE_VALIDITY_NANOS),
{
    age < CACHE_VALIDITY_NANOS
}

/// `n` is a possible state and `r` a possible result of recompiling `ops`
/// at `address` from `o`: either still-valid cached code of the address is
/// returned and nothing changes, or `ops` is "recompiled" (kept as it is),
/// cached under the address with execution count zero and optimization
/// level two, and returned.
pub open spec fn recompile_outcome(o: RecompilerView, n: RecompilerView, ops: Seq<IROp>, address: u64, r: Seq<IROp>) -> bool {
    ||| o.cache.contains_key(address) && r == o.cache[address].code@ && n == o
    ||| {
        &&& r == ops
        &&& n.history == o.history
        &&& n.cache.contains_key(address)
        &&& n.cache == o.cache.insert(address, n.cache[address])
        &&& n.cache[address].code@ == ops
        &&& n.cache[address].execution_count == 0
        &&& n.cache[address].optimization_level == 2
    }
}

/// Whether the recompiler would recompile `ops` at `address`: their cost
/// exceeds 100 if the address was recompiled before, 50 otherwise.
pub open spec fn should_recompile_spec(o: RecompilerView, address: u64, ops: Seq<IROp>) -> bool {
    if exists|i: int| 0 <= i < o.history.len() && (#[trigger] o.history[i]).address == address {
        cost_sum(ops) > 100
    } else {
        cost_sum(ops) > 50
    }
}

/// Recompiles blocks and keeps the result for a minute.
#[derive(Debug, Clone)]
pub struct DynamicRecompiler {
    recompilation_history: Vec<RecompilationRecord>,
    recompilation_cache: HashMap<u64, CachedCode>,
}

impl View for DynamicRecompiler {
    type V = RecompilerView;

    closed spec fn view(&self) -> RecompilerView {
        RecompilerView { history: self.recompilation_history@, cache: self.recompilation_cache@ }
    }
}

impl DynamicRecompiler {
    pub fn new() -> (d: Self)
        ensures
            d@ == (RecompilerView { history: Seq::empty(), cache: Map::empty() }),
    {
        DynamicRecompiler { recompilation_history: Vec::new(), recompilation_cache: HashMap::new() }
    }

    /// Returns code for `ops` at `address` (see `recompile_outcome`): the
    /// cached code while it is younger than a minute, else a fresh
    /// recompilation.
    pub fn optimize(&mut self, ops: &[IROp], address: u64) -> (v: Vec<IROp>)
        ensures
            recompile_outcome(old(self)@, final(self)@, ops@, address, v@),
            !old(self)@.cache.contains_key(address) ==> v@ == ops@,
    {
        match self.recompilation_cache.get(&address) {
            Some(cached) => {
                let age = elapsed_nanos(&cached.compilation_time);
                if cache_age_valid(age) {
                    return copy_ops(cached.code.as_slice());
                }
            },
            None => {},
        }
        let recompiled = Self::recompile(ops);
        let entry = CachedCode {
            code: copy_ops(recompiled.as_slice()),
            compilation_time: now(),
            execution_count: 0,
            optimization_level: 2,
        };
        self.recompilation_cache.insert(address, entry);
        recompiled
    }

    /// Whether `ops` at `address` should be recompiled (see
    /// `should_recompile_spec`).
    pub fn should_recompile(&self, address: u64, ops: &[IROp]) -> (b: bool)
        requires
            cost_sum(ops@) <= u32::MAX,
        ensures
            b == should_recompile_spec(self@, address, ops@),
    {
        let complexity = calculate_complexity(ops);
        let mut has_history = false;
        let mut i: usize = 0;
        while i < self.recompilation_history.len()
            invariant
                i <= self@.history.len(),
                has_history == exists|j: int| 0 <= j < i && (#[trigger] self@.history[j]).address == address,
            decreases self.recompilation_history.len() - i,
        {
            if self.recompilation_history[i].address == address {
                has_history = true;
            }
            i += 1;
        }
        if has_history {
            complexity > 100
        } else {
            complexity > 50
        }
    }

    /// Recompilation keeps the operations as they are.
    fn recompile(ops: &[IROp]) -> (v: Vec<IROp>)
        ensures
            v@ == ops@,
    {
        copy_ops(ops)
    }
}

/// Counters of the adaptive optimizer (time in milliseconds, wrapping).
#[derive(Debug, Clone, Copy)]
pub struct OptimizationStats {
    pub hotspot_detections: usize,
    pub dynamic_recompilations: usize,
    pub tiered_compilations: usize,
    pub optimization_time_ms: u64,
}

impl Default for OptimizationStats {
    fn default() -> (s: Self)
        ensures
            s == (OptimizationStats {
                hotspot_detections: 0,
                dynamic_recompilations: 0,
                tiered_compilations: 0,
                optimization_time_ms: 0,
            }),
    {
        OptimizationStats { hotspot_detections: 0, dynamic_recompilations: 0, tiered_compilations: 0, optimization_time_ms: 0 }
    }
}

/// The strategy the optimizer picks for a block.
#[derive(Debug, Clone, Copy, PartialEq, Eq, Structural)]
pub enum OptimizationStrategy {
    TieredCompilation,
    DynamicRecompilation,
    Hybrid,
}

/// No hotspot: tiered compilation; a hotspot whose performance degrades:
/// recompilation; any other hotspot: both.
pub open spec fn strategy_for(hotspots: Seq<Hotspot>, degrading: bool) -> OptimizationStrategy {
    if hotspots.len() == 0 {
        OptimizationStrategy::TieredCompilation
    } else if degrading {
        OptimizationStrategy::DynamicRecompilation
    } else {
        OptimizationStrategy::Hybrid
    }
}

/// The detector after counting one execution of `address`.
pub open spec fn counted(d: DetectorView, address: u64) -> DetectorView {
    DetectorView {
        counts: d.counts.insert(
            address,
            (if d.counts.contains_key(address) { d.counts[address] + 1 } else { 1 }) as u64,
        ),
        ..d
    }
}

pub struct AdaptiveView {
    pub stats: OptimizationStats,
    pub detector: DetectorView,
    pub profiler: Map<u64, PerformanceData>,
    pub tiered: TieredView,
    pub recompiler: RecompilerView,
}

/// Profiles blocks, detects hotspots and picks a compilation strategy.
pub struct AdaptiveOptimizer {
    stats: OptimizationStats,
    hotspot_detector: HotspotDetector,
    profiler: PerformanceProfiler,
    tiered_compiler: TieredCompiler,
    dynamic_recompiler: DynamicRecompiler,
}

impl View for AdaptiveOptimizer {
    type V = AdaptiveView;

    closed spec fn view(&self) -> AdaptiveView {
        AdaptiveView {
            stats: self.stats,
            detector: self.hotspot_detector@,
            profiler: self.profiler@,
            tiered: self.tiered_compiler@,
            recompiler: self.dynamic_recompiler@,
        }
    }
}

/// `optimize(ops, address)` can run without overflow from `s`: the cost of
/// the operations fits a `u32`, the profile of the address can take one more
/// execution, and the execution count can grow by one and, at the hotspot
/// threshold, be a nonzero `u32`.
pub open spec fn optimize_fits(s: AdaptiveView, ops: Seq<IROp>, address: u64) -> bool {
    let d1 = counted(s.detector, address);
    &&& cost_sum(ops) <= u32::MAX
    &&& forall|at: std::time::Instant| record_fits(#[trigger] base_of(s.profiler, address, at), (cost_sum(ops) * 10) as u128)
    &&& s.detector.counts.contains_key(address) ==> s.detector.counts[address] < u64::MAX
    &&& d1.counts[address] >= d1.threshold ==> d1.counts[address] as u32 != 0
}

/// The state of a new optimizer: zero counters, threshold 100, the default
/// tiers, and nothing recorded or cached.
pub open spec fn initial_adaptive() -> AdaptiveView {
    AdaptiveView {
        stats: OptimizationStats {
            hotspot_detections: 0,
            dynamic_recompilations: 0,
            tiered_compilations: 0,
            optimization_time_ms: 0,
        },
        detector: DetectorView { counts: Map::empty(), times: Map::empty(), threshold: 100 },
        profiler: Map::empty(),
        tiered: TieredView { tiers: default_tiers(), counts: Map::empty() },
        recompiler: RecompilerView { history: Seq::empty(), cache: Map::empty() },
    }
}

impl AdaptiveOptimizer {
    pub open spec fn wf(&self) -> bool {
        self@.tiered.tiers.len() >= 1
    }

    pub fn new() -> (o: Self)
        ensures
            o.wf(),
            o@ == initial_adaptive(),
    {
        AdaptiveOptimizer {
            stats: OptimizationStats::default(),
            hotspot_detector: HotspotDetector::new(),
            profiler: PerformanceProfiler::new(),
            tiered_compiler: TieredCompiler::new(),
            dynamic_recompiler: DynamicRecompiler::new(),
        }
    }

    /// Optimizes the operations of the block at `address`: records the
    /// execution in the profile and the detector, picks a strategy
    /// (`strategy_for`) and applies it; under the hybrid strategy the tiered
    /// result is recompiled when `should_recompile_spec` says so. The time
    /// taken is added to the statistics.
    pub fn optimize(&mut self, ops: &[IROp], address: u64) -> (v: Vec<IROp>)
        requires
            old(self).wf(),
            optimize_fits(old(self)@, ops@, address),
        ensures
            final(self).wf(),
            ({
                let s = old(self)@;
                let f = final(self)@;
                let at = f.profiler[address].last_execution;
                let hs = hotspots_of(f.detector, address);
                let degrading = f.profiler[address].trend == PerformanceTrend::Degrading;
                &&& f.tiered == s.tiered
                &&& f.detector == counted(s.detector, address)
                &&& f.profiler.contains_key(address)
                &&& f.profiler == s.profiler.insert(
                    address,
                    recorded(base_of(s.profiler, address, at), (cost_sum(ops@) * 10) as u128, at),
                )
                &&& f.stats == (OptimizationStats { optimization_time_ms: f.stats.optimization_time_ms, ..s.stats })
                &&& match strategy_for(hs, degrading) {
                    OptimizationStrategy::TieredCompilation => v@ == ops@ && f.recompiler == s.recompiler,
                    OptimizationStrategy::DynamicRecompilation => recompile_outcome(s.recompiler, f.recompiler, ops@, address, v@),
                    OptimizationStrategy::Hybrid => if should_recompile_spec(s.recompiler, address, ops@) {
                        recompile_outcome(s.recompiler, f.recompiler, ops@, address, v@)
                    } else {
                        v@ == ops@ && f.recompiler == s.recompiler
                    },
                }
            }),
    {
        let start = now();
        self.profiler.record_execution(address, ops);
        self.hotspot_detector.record_execution(address);
        let hotspots = self.hotspot_detector.detect_hotspots(address);
        let strategy = if hotspots.len() == 0 {
            OptimizationStrategy::TieredCompilation
        } else if self.profiler.has_performance_degradation(address) {
            OptimizationStrategy::DynamicRecompilation
        } else {
            OptimizationStrategy::Hybrid
        };
        let optimized = match strategy {
            OptimizationStrategy::TieredCompilation => self.tiered_compiler.optimize(ops, address),
            OptimizationStrategy::DynamicRecompilation => self.dynamic_recompiler.optimize(ops, address),
            OptimizationStrategy::Hybrid => {
                let tiered = self.tiered_compiler.optimize(ops, address);
                if self.dynamic_recompiler.should_recompile(address, tiered.as_slice()) {
                    self.dynamic_recompiler.optimize(tiered.as_slice(), address)
                } else {
                    tiered
                }
            },
        };
        let elapsed_ms = (elapsed_nanos(&start) / 1_000_000) as u64;
        self.stats.optimization_time_ms = self.stats.optimization_time_ms.wrapping_add(elapsed_ms);
        optimized
    }

    pub fn get_stats(&self) -> (s: &OptimizationStats)
        ensures
            *s == self@.stats,
    {
        &self.stats
    }

    /// Sets every counter back to zero.
    pub fn reset_stats(&mut self)
        ensures
            final(self)@ == (AdaptiveView {
                stats: OptimizationStats {
                    hotspot_detections: 0,
                    dynamic_recompilations: 0,
                    tiered_compilations: 0,
                    optimization_time_ms: 0,
                },
                ..old(self)@
            }),
            final(self).wf() == old(self).wf(),
    {
        self.stats = OptimizationStats::default();
    }
}

impl Default for AdaptiveOptimizer {
    fn default() -> (o: Self)
        ensures
            o.wf(),
            o@ == initial_adaptive(),
    {
        Self::new()
    }
}

/// `Duration` division by ten is exact floor division.
proof fn lemma_duration_div_ten(x: u128)
    ensures
        duration_div(x, 10) == x / 10,
{
    let secs = x as int / 1_000_000_000;
    let nanos = x as int % 1_000_000_000;
    let q = secs / 10;
    let carry = secs % 10;
    assert(carry * 1_000_000_000 / 10 == carry * 100_000_000);
    assert(secs == q * 10 + carry);
    assert(x as int == secs * 1_000_000_000 + nanos);
    assert(q * 1_000_000_000 + nanos / 10 + carry * 100_000_000 == x as int / 10) by (nonlinear_arith)
        requires
            secs == q * 10 + carry,
            x as int == secs * 1_000_000_000 + nanos,
            0 <= nanos < 1_000_000_000,
            0 <= carry < 10,
    ;
}

/// Once a block has run three times or more its trend is `Stable`: the
/// average is compared with itself, and nine tenths of it is never above it
/// nor eleven tenths below it. So the profiler never reports a degrading
/// block.
pub proof fn lemma_trend_is_stable(total: u128, count: u64)
    requires
        count as u32 != 0,
        duration_div(total, count as u32) * 11 <= DURATION_MAX_NANOS,
    ensures
        trend_of(total, count) == PerformanceTrend::Stable,
{
    let a = duration_div(total, count as u32);
    lemma_duration_div_ten((a * 9) as u128);
    lemma_duration_div_ten((a * 11) as u128);
    assert((a * 9) / 10 <= a);
    assert((a * 11) / 10 >= a);
}

/// A recorded execution never makes a block degrading.
pub proof fn lemma_recorded_not_degrading(base: PerformanceData, t: u128, at: std::time::Instant)
    requires
        record_fits(base, t),
    ensures
        recorded(base, t, at).trend != PerformanceTrend::Degrading,
{
    let r = recorded(base, t, at);
    if r.execution_count >= 3 {
        lemma_trend_is_stable(r.total_time, r.execution_count);
    }
}

/// No recorded block is degrading.
pub open spec fn none_degrading(m: Map<u64, PerformanceData>) -> bool {
    forall|a: u64| m.contains_key(a) ==> (#[trigger] m[a]).trend != PerformanceTrend::Degrading
}

/// The profile after recording `cs` (address, estimated time, clock
/// reading), one after the other (see `record_execution`).
pub open spec fn after_profiles(m: Map<u64, PerformanceData>, cs: Seq<(u64, u128, std::time::Instant)>) -> Map<
    u64,
    PerformanceData,
>
    decreases cs.len(),
{
    if cs.len() == 0 {
        m
    } else {
        let m1 = after_profiles(m, cs.drop_last());
        let (a, t, at) = cs.last();
        m1.insert(a, recorded(base_of(m1, a, at), t, at))
    }
}

/// Every recording of `cs` fits its counters (what `record_execution`
/// requires).
pub open spec fn profiles_fit(m: Map<u64, PerformanceData>, cs: Seq<(u64, u128, std::time::Instant)>) -> bool
    decreases cs.len(),
{
    if cs.len() == 0 {
        true
    } else {
        let m1 = after_profiles(m, cs.drop_last());
        let (a, t, at) = cs.last();
        profiles_fit(m, cs.drop_last()) && record_fits(base_of(m1, a, at), t)
    }
}

/// From a new profiler (or any profile without a degrading block), no
/// sequence of recordings makes a block degrading, so
/// `has_performance_degradation` answers `false` for every address.
pub proof fn lemma_profiles_never_degrade(m: Map<u64, PerformanceData>, cs: Seq<(u64, u128, std::time::Instant)>)
    requires
        none_degrading(m),
        profiles_fit(m, cs),
    ensures
        none_degrading(after_profiles(m, cs)),
    decreases cs.len(),
{
    if cs.len() > 0 {
        lemma_profiles_never_degrade(m, cs.drop_last());
        let m1 = after_profiles(m, cs.drop_last());
        let (a, t, at) = cs.last();
        lemma_recorded_not_degrading(base_of(m1, a, at), t, at);
    }
}

/// Recompiling the same operations twice at an address that had no cached
/// code returns the operations both times.
pub proof fn lemma_recompile_twice(o: RecompilerView, n: RecompilerView, n2: RecompilerView, ops: Seq<IROp>, address: u64, r1: Seq<IROp>, r2: Seq<IROp>)
    requires
        !o.cache.contains_key(address),
        recompile_outcome(o, n, ops, address, r1),
        recompile_outcome(n, n2, ops, address, r2),
    ensures
        r1 == ops,
        r2 == ops,
{
}

} // verus!
