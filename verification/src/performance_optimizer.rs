//! Block-level optimizations for a target architecture: folding of
//! immediate forms, a choice of cheaper instructions for multiplications by
//! constants, a count of register uses that maps the most used registers to
//! the target's physical registers, and a count of hot blocks.

use vstd::prelude::*;
use crate::encoding::Architecture;
use crate::ir::{GuestAddr, IRBlock, IROp, RegId};
use crate::ir_optimizer::{is_pos_pow2, is_power_of_two};
use crate::keyed::{get, has_key, lemma_pos, lemma_put, pos, put, unique};

verus! {

/// Which optimizations run.
#[derive(Debug, Clone, Copy, PartialEq, Eq, Structural)]
pub struct PerformanceConfig {
    pub enable_register_allocation: bool,
    pub enable_instruction_selection: bool,
    pub enable_constant_folding: bool,
    pub enable_dead_code_elimination: bool,
    pub enable_loop_optimization: bool,
    pub enable_simd_optimization: bool,
    pub enable_inlining: bool,
    pub max_inline_depth: usize,
}

/// Everything on; inlining three levels deep.
pub open spec fn default_performance_config() -> PerformanceConfig {
    PerformanceConfig {
        enable_register_allocation: true,
        enable_instruction_selection: true,
        enable_constant_folding: true,
        enable_dead_code_elimination: true,
        enable_loop_optimization: true,
        enable_simd_optimization: true,
        enable_inlining: true,
        max_inline_depth: 3,
    }
}

impl Default for PerformanceConfig {
    /// Everything on; inlining three levels deep.
    fn default() -> (c: Self)
        ensures
            c == default_performance_config(),
    {
        PerformanceConfig {
            enable_register_allocation: true,
            enable_instruction_selection: true,
            enable_constant_folding: true,
            enable_dead_code_elimination: true,
            enable_loop_optimization: true,
            enable_simd_optimization: true,
            enable_inlining: true,
            max_inline_depth: 3,
        }
    }
}

/// An operation with its immediate form simplified: adding an immediate to
/// register 0 becomes a move of the immediate, multiplying by 1 an addition
/// of 0, multiplying by 0 a move of 0.
pub open spec fn fold_op(op: IROp) -> IROp {
    match op {
        IROp::AddImm { dst, src, imm } => if src == 0 {
            IROp::MovImm { dst, imm: imm as u64 }
        } else {
            op
        },
        IROp::MulImm { dst, src, imm } => if imm == 1 {
            IROp::AddImm { dst, src, imm: 0 }
        } else if imm == 0 {
            IROp::MovImm { dst, imm: 0 }
        } else {
            op
        },
        _ => op,
    }
}

/// The exponent of a positive power of two.
pub open spec fn log2_of(v: i64) -> u8 {
    choose|k: u8| k < 63 && vstd::arithmetic::power2::pow2(k as nat) == v
}

/// The cheaper form of an operation on `arch`: on ARM64 and RISC-V64 a
/// multiplication by a power of two becomes a left shift; on x86-64 a
/// multiplication by an immediate in -2048..=2047 becomes an addition of the
/// immediate less one.
pub open spec fn select_op(op: IROp, arch: Architecture) -> IROp {
    match op {
        IROp::MulImm { dst, src, imm } => match arch {
            Architecture::X86_64 => if -2048 <= imm <= 2047 {
                IROp::AddImm { dst, src, imm: (imm - 1) as i64 }
            } else {
                op
            },
            _ => if is_pos_pow2(imm) {
                IROp::SllImm { dst, src, sh: log2_of(imm) }
            } else {
                op
            },
        },
        _ => op,
    }
}

/// The operations after folding, where it is on.
pub open spec fn folded(config: PerformanceConfig, ops: Seq<IROp>) -> Seq<IROp> {
    if config.enable_constant_folding {
        ops.map_values(|op: IROp| fold_op(op))
    } else {
        ops
    }
}

/// The operations after folding and instruction selection, where they are on.
pub open spec fn optimized_ops(config: PerformanceConfig, ops: Seq<IROp>, arch: Architecture) -> Seq<IROp> {
    let f = folded(config, ops);
    if config.enable_instruction_selection {
        f.map_values(|op: IROp| select_op(op, arch))
    } else {
        f
    }
}

/// The registers an operation reads, in order.
pub open spec fn reads_of(op: IROp) -> Seq<u32> {
    match op {
        IROp::Add { src1, src2, .. } => seq![src1, src2],
        IROp::AddImm { src, .. } => seq![src],
        IROp::Load { base, .. } => seq![base],
        IROp::Store { src, base, .. } => seq![src, base],
        _ => Seq::empty(),
    }
}

/// The registers an operation writes (a store counts as writing its base).
pub open spec fn writes_of(op: IROp) -> Seq<u32> {
    match op {
        IROp::Add { dst, .. } => seq![dst],
        IROp::AddImm { dst, .. } => seq![dst],
        IROp::MovImm { dst, .. } => seq![dst],
        IROp::Load { dst, .. } => seq![dst],
        IROp::Store { base, .. } => seq![base],
        _ => Seq::empty(),
    }
}

/// One more use of `r`.
pub open spec fn count_use(u: Seq<(u32, u32)>, r: u32) -> Seq<(u32, u32)> {
    put(
        u,
        r,
        (match get(u, r) {
            Some(c) => c,
            None => 0,
        } + 1) as u32,
    )
}

/// One more use of each of `regs`, in order.
pub open spec fn count_uses(u: Seq<(u32, u32)>, regs: Seq<u32>) -> Seq<(u32, u32)>
    decreases regs.len(),
{
    if regs.len() == 0 {
        u
    } else {
        count_use(count_uses(u, regs.drop_last()), regs.last())
    }
}

/// The use counts after the reads and then the writes of each operation.
pub open spec fn usage_after(u: Seq<(u32, u32)>, ops: Seq<IROp>) -> Seq<(u32, u32)>
    decreases ops.len(),
{
    if ops.len() == 0 {
        u
    } else {
        let before = usage_after(u, ops.drop_last());
        count_uses(count_uses(before, reads_of(ops.last())), writes_of(ops.last()))
    }
}

/// First position at or after `i` whose count is below `n`.
pub open spec fn first_below(s: Seq<(u32, u32)>, n: u32, i: int) -> int
    decreases s.len() - i,
{
    if i < 0 || i >= s.len() {
        s.len() as int
    } else if s[i].1 < n {
        i
    } else {
        first_below(s, n, i + 1)
    }
}

/// The registers by use count, most used first; equal counts keep their
/// order.
pub open spec fn by_count(c: Seq<(u32, u32)>) -> Seq<(u32, u32)>
    decreases c.len(),
{
    if c.len() == 0 {
        Seq::empty()
    } else {
        let s = by_count(c.drop_last());
        s.insert(first_below(s, c.last().1, 0), c.last())
    }
}

/// The number of general registers of `arch`.
pub open spec fn available_regs(arch: Architecture) -> nat {
    match arch {
        Architecture::X86_64 => 16,
        _ => 32,
    }
}

/// The `i`-th most used register goes to physical register `i`, for as many
/// registers as the target has.
pub open spec fn mapping_of(sorted: Seq<(u32, u32)>, n: nat) -> Seq<(u32, u32)> {
    let m = if sorted.len() < n { sorted.len() } else { n };
    Seq::new(m, |i: int| (sorted[i].0, i as u32))
}

/// The hot blocks: addresses recorded at least `threshold` times, in the
/// order they were first recorded.
pub open spec fn hot_addresses(h: Seq<(u64, u32)>, threshold: u32) -> Seq<u64>
    decreases h.len(),
{
    if h.len() == 0 {
        Seq::empty()
    } else {
        let rest = hot_addresses(h.drop_last(), threshold);
        if h.last().1 >= threshold {
            rest.push(h.last().0)
        } else {
            rest
        }
    }
}

/// The registers live before `ops`, given those live after: walking back,
/// a write ends a register's life and a read starts it.
pub open spec fn live_before(ops: Seq<IROp>, live: Set<u32>) -> Set<u32>
    decreases ops.len(),
{
    if ops.len() == 0 {
        live
    } else {
        let op = ops.last();
        live_before(ops.drop_last(), live.difference(writes_of(op).to_set()).union(reads_of(op).to_set()))
    }
}

/// The state of the optimizer.
pub struct PerfView {
    pub config: PerformanceConfig,
    /// Use counts per register, in the order the registers were first used.
    pub usage: Seq<(u32, u32)>,
    /// Records per block address, in the order first recorded.
    pub hot: Seq<(u64, u32)>,
    /// (register, physical register) of the last allocation.
    pub mapping: Seq<(u32, u32)>,
}

/// Registers and addresses each occur once.
pub open spec fn perf_wf(s: PerfView) -> bool {
    unique(s.usage) && unique(s.hot)
}

/// No use count can overflow while the block's operations are counted.
pub open spec fn usage_room(u: Seq<(u32, u32)>, ops: Seq<IROp>) -> bool {
    &&& 4 * ops.len() <= u32::MAX
    &&& forall|i: int| 0 <= i < u.len() ==> (#[trigger] u[i]).1 + 4 * ops.len() <= u32::MAX
}

pub struct PerformanceOptimizer {
    config: PerformanceConfig,
    register_usage: Vec<(u32, u32)>,
    hot_blocks: Vec<(u64, u32)>,
    register_mapping: Vec<(u32, u32)>,
}

impl View for PerformanceOptimizer {
    type V = PerfView;

    closed spec fn view(&self) -> PerfView {
        PerfView {
            config: self.config,
            usage: self.register_usage@,
            hot: self.hot_blocks@,
            mapping: self.register_mapping@,
        }
    }
}

/// The position of `k` among the pairs, where it has one.
fn find_reg(v: &Vec<(u32, u32)>, k: u32) -> (r: Option<usize>)
    requires
        unique(v@),
    ensures
        match r {
            Some(i) => i < v@.len() && v@[i as int].0 == k && has_key(v@, k) && pos(v@, k) == i,
            None => !has_key(v@, k),
        },
{
    let mut i: usize = 0;
    while i < v.len()
        invariant
            i <= v@.len(),
            unique(v@),
            forall|j: int| 0 <= j < i ==> (#[trigger] v@[j]).0 != k,
        decreases v.len() - i,
    {
        if v[i].0 == k {
            proof {
                lemma_pos(v@, i as int);
            }
            return Some(i);
        }
        i += 1;
    }
    None
}

/// The position of `k` among the pairs, where it has one.
fn find_addr(v: &Vec<(u64, u32)>, k: u64) -> (r: Option<usize>)
    requires
        unique(v@),
    ensures
        match r {
            Some(i) => i < v@.len() && v@[i as int].0 == k && has_key(v@, k) && pos(v@, k) == i,
            None => !has_key(v@, k),
        },
{
    let mut i: usize = 0;
    while i < v.len()
        invariant
            i <= v@.len(),
            unique(v@),
            forall|j: int| 0 <= j < i ==> (#[trigger] v@[j]).0 != k,
        decreases v.len() - i,
    {
        if v[i].0 == k {
            proof {
                lemma_pos(v@, i as int);
            }
            return Some(i);
        }
        i += 1;
    }
    None
}

/// The exponent of a positive power of two that fits in an `i64`.
fn exponent(imm: i64) -> (k: u8)
    requires
        is_pos_pow2(imm),
    ensures
        k == log2_of(imm),
{
    let k = is_power_of_two(imm).unwrap();
    proof {
        let c = log2_of(imm);
        assert(exists|j: u8| j < 63 && vstd::arithmetic::power2::pow2(j as nat) == imm);
        assert(c < 63 && vstd::arithmetic::power2::pow2(c as nat) == imm);
        if c < k {
            vstd::arithmetic::power2::lemma_pow2_strictly_increases(c as nat, k as nat);
        } else if k < c {
            vstd::arithmetic::power2::lemma_pow2_strictly_increases(k as nat, c as nat);
        }
    }
    k
}

/// One more use keeps the registers distinct and raises the largest count
/// by at most one.
proof fn lemma_count_use(u: Seq<(u32, u32)>, r: u32, m: int)
    requires
        unique(u),
        forall|i: int| 0 <= i < u.len() ==> (#[trigger] u[i]).1 <= m,
        0 <= m < u32::MAX,
    ensures
        unique(count_use(u, r)),
        forall|i: int| 0 <= i < count_use(u, r).len() ==> (#[trigger] count_use(u, r)[i]).1 <= m + 1,
{
    let v = (match get(u, r) {
        Some(x) => x,
        None => 0,
    } + 1) as u32;
    if has_key(u, r) {
        let q = pos(u, r);
        assert(u[q].1 <= m);
    }
    lemma_put(u, r, v);
    let n = put(u, r, v);
    assert forall|i: int| 0 <= i < n.len() implies (#[trigger] n[i]).1 <= m + 1 by {
        lemma_pos(n, i);
        if n[i].0 != r {
            assert(get(n, n[i].0) == get(u, n[i].0));
            let q = pos(u, n[i].0);
            assert(u[q].1 <= m);
        }
    }
}

/// `s` with `x` pushed has no duplicates when `s` has none and lacks `x`.
proof fn lemma_push_distinct(s: Seq<u32>, x: u32)
    requires
        s.no_duplicates(),
        !s.contains(x),
    ensures
        s.push(x).no_duplicates(),
{
    let t = s.push(x);
    assert forall|i: int, j: int| 0 <= i < t.len() && 0 <= j < t.len() && i != j implies t[i] != t[j] by {
        if i == s.len() {
            assert(s[j] == t[j]);
        } else if j == s.len() {
            assert(s[i] == t[i]);
        }
    }
}

impl PerformanceOptimizer {
    pub fn new(config: PerformanceConfig) -> (o: Self)
        ensures
            o@ == (PerfView { config, usage: Seq::empty(), hot: Seq::empty(), mapping: Seq::empty() }),
            perf_wf(o@),
    {
        PerformanceOptimizer {
            config,
            register_usage: Vec::new(),
            hot_blocks: Vec::new(),
            register_mapping: Vec::new(),
        }
    }

    /// The configuration.
    pub fn config(&self) -> (c: &PerformanceConfig)
        ensures
            *c == self@.config,
    {
        &self.config
    }

    /// The optimized copy of `block` for `target_arch` (see
    /// `optimized_ops`); with register allocation on, the uses of the folded
    /// block are counted and the registers mapped again from all counts so
    /// far (see `usage_after`, `by_count`, `mapping_of`).
    pub fn optimize_ir_block(&mut self, block: &IRBlock, target_arch: Architecture) -> (r: Result<IRBlock, String>)
        requires
            perf_wf(old(self)@),
            old(self)@.config.enable_register_allocation ==> usage_room(old(self)@.usage, block.ops@),
        ensures
            perf_wf(final(self)@),
            r matches Ok(b) && b.start_pc == block.start_pc && b.term == block.term && b.ops@ == optimized_ops(
                old(self)@.config,
                block.ops@,
                target_arch,
            ),
            final(self)@.config == old(self)@.config,
            final(self)@.hot == old(self)@.hot,
            old(self)@.config.enable_register_allocation ==> ({
                let u = usage_after(old(self)@.usage, folded(old(self)@.config, block.ops@));
                &&& final(self)@.usage == u
                &&& final(self)@.mapping == mapping_of(by_count(u), available_regs(target_arch))
            }),
            !old(self)@.config.enable_register_allocation ==> final(self)@.usage == old(self)@.usage
                && final(self)@.mapping == old(self)@.mapping,
    {
        let mut ops: Vec<IROp> = Vec::new();
        let mut i: usize = 0;
        while i < block.ops.len()
            invariant
                i <= block.ops@.len(),
                ops@ == block.ops@.subrange(0, i as int),
            decreases block.ops.len() - i,
        {
            ops.push(block.ops[i]);
            i += 1;
        }
        assert(block.ops@.subrange(0, block.ops@.len() as int) =~= block.ops@);
        if self.config.enable_constant_folding {
            ops = Self::constant_folding(&ops);
        }
        if self.config.enable_dead_code_elimination {
            let _live = Self::dead_code_elimination(&ops);
        }
        if self.config.enable_register_allocation {
            self.optimize_register_allocation(&ops, target_arch);
        }
        if self.config.enable_instruction_selection {
            ops = Self::optimize_instruction_selection(&ops, target_arch);
        }
        Ok(IRBlock { start_pc: block.start_pc, ops, term: block.term })
    }

    /// Folds each operation (see `fold_op`).
    fn constant_folding(ops: &Vec<IROp>) -> (r: Vec<IROp>)
        ensures
            r@ == ops@.map_values(|op: IROp| fold_op(op)),
    {
        let mut r: Vec<IROp> = Vec::new();
        let mut i: usize = 0;
        while i < ops.len()
            invariant
                i <= ops@.len(),
                r@ == ops@.subrange(0, i as int).map_values(|op: IROp| fold_op(op)),
            decreases ops.len() - i,
        {
            let op = ops[i];
            let f = match op {
                IROp::AddImm { dst, src, imm } => if src == 0 {
                    IROp::MovImm { dst, imm: imm as u64 }
                } else {
                    op
                },
                IROp::MulImm { dst, src, imm } => if imm == 1 {
                    IROp::AddImm { dst, src, imm: 0 }
                } else if imm == 0 {
                    IROp::MovImm { dst, imm: 0 }
                } else {
                    op
                },
                _ => op,
            };
            r.push(f);
            assert(r@ =~= ops@.subrange(0, i + 1).map_values(|op: IROp| fold_op(op)));
            i += 1;
        }
        assert(ops@.subrange(0, ops@.len() as int) =~= ops@);
        r
    }

    /// The registers read and written by `op` (see `reads_of`, `writes_of`).
    fn get_register_access(op: &IROp) -> (r: (Vec<u32>, Vec<u32>))
        ensures
            r.0@ == reads_of(*op),
            r.1@ == writes_of(*op),
    {
        let mut reads: Vec<u32> = Vec::new();
        let mut writes: Vec<u32> = Vec::new();
        match *op {
            IROp::Add { dst, src1, src2 } => {
                writes.push(dst);
                reads.push(src1);
                reads.push(src2);
            },
            IROp::AddImm { dst, src, .. } => {
                writes.push(dst);
                reads.push(src);
            },
            IROp::MovImm { dst, .. } => {
                writes.push(dst);
            },
            IROp::Load { dst, base, .. } => {
                writes.push(dst);
                reads.push(base);
            },
            IROp::Store { src, base, .. } => {
                writes.push(base);
                reads.push(src);
                reads.push(base);
            },
            _ => {},
        }
        assert(reads@ =~= reads_of(*op));
        assert(writes@ =~= writes_of(*op));
        (reads, writes)
    }

    /// The registers live at the start of `ops` when none is live at its end
    /// (see `live_before`), each once.
    fn dead_code_elimination(ops: &Vec<IROp>) -> (live: Vec<u32>)
        ensures
            live@.to_set() == live_before(ops@, Set::empty()),
            live@.no_duplicates(),
    {
        let mut used: Vec<u32> = Vec::new();
        let mut i: usize = ops.len();
        proof {
            assert(used@.to_set() =~= Set::<u32>::empty());
            assert(ops@.subrange(0, ops@.len() as int) =~= ops@);
        }
        while i > 0
            invariant
                i <= ops@.len(),
                used@.no_duplicates(),
                live_before(ops@, Set::empty()) == live_before(ops@.subrange(0, i as int), used@.to_set()),
            decreases i,
        {
            let ghost u0 = used@.to_set();
            let op = ops[i - 1];
            let (reads, writes) = Self::get_register_access(&op);
            let mut kept: Vec<u32> = Vec::new();
            let mut k: usize = 0;
            while k < used.len()
                invariant
                    k <= used@.len(),
                    used@.no_duplicates(),
                    u0 == used@.to_set(),
                    writes@ == writes_of(op),
                    kept@.no_duplicates(),
                    kept@.to_set() == used@.subrange(0, k as int).to_set().difference(writes@.to_set()),
                    forall|x: u32| #[trigger] kept@.contains(x) ==> used@.subrange(0, k as int).contains(x),
                decreases used.len() - k,
            {
                let x = used[k];
                let mut w: usize = 0;
                let mut written = false;
                while w < writes.len()
                    invariant
                        w <= writes@.len(),
                        written == writes@.subrange(0, w as int).contains(x),
                    decreases writes.len() - w,
                {
                    if writes[w] == x {
                        written = true;
                    }
                    proof {
                        assert(writes@.subrange(0, w + 1) =~= writes@.subrange(0, w as int).push(writes@[w as int]));
                        vstd::seq_lib::lemma_seq_contains_after_push(writes@.subrange(0, w as int), writes@[w as int], x);
                    }
                    w += 1;
                }
                assert(writes@.subrange(0, writes@.len() as int) =~= writes@);
                let ghost before = kept@;
                proof {
                    assert(used@.subrange(0, k + 1) =~= used@.subrange(0, k as int).push(x));
                    assert(!used@.subrange(0, k as int).contains(x)) by {
                        if used@.subrange(0, k as int).contains(x) {
                            let j = choose|j: int| 0 <= j < k && used@.subrange(0, k as int)[j] == x;
                            assert(used@[j] == used@[k as int]);
                        }
                    }
                }
                if !written {
                    proof {
                        assert(!before.contains(x));
                        lemma_push_distinct(before, x);
                    }
                    kept.push(x);
                    proof {
                        assert(kept@.to_set() =~= before.to_set().insert(x)) by {
                            assert forall|y: u32| #[trigger] kept@.contains(y) <==> (before.contains(y) || y == x) by {
                                crate::keyed::lemma_push_contains(before, x, y);
                            }
                        }
                        assert forall|y: u32| #[trigger] kept@.contains(y) implies used@.subrange(0, k + 1).contains(y) by {
                            crate::keyed::lemma_push_contains(before, x, y);
                            crate::keyed::lemma_push_contains(used@.subrange(0, k as int), x, y);
                        }
                    }
                } else {
                    proof {
                        assert forall|y: u32| #[trigger] kept@.contains(y) implies used@.subrange(0, k + 1).contains(y) by {
                            crate::keyed::lemma_push_contains(used@.subrange(0, k as int), x, y);
                        }
                    }
                }
                proof {
                    assert forall|y: u32| #[trigger] used@.subrange(0, k + 1).to_set().contains(y) <==> (used@.subrange(0, k as int).to_set().contains(y) || y == x) by {
                        crate::keyed::lemma_push_contains(used@.subrange(0, k as int), x, y);
                    }
                    assert(kept@.to_set() =~= used@.subrange(0, k + 1).to_set().difference(writes@.to_set()));
                }
                k += 1;
            }
            assert(used@.subrange(0, used@.len() as int) =~= used@);
            let mut r: usize = 0;
            let ghost base = kept@;
            assert(reads@.subrange(0, 0) =~= Seq::<u32>::empty());
            while r < reads.len()
                invariant
                    r <= reads@.len(),
                    reads@ == reads_of(op),
                    kept@.no_duplicates(),
                    forall|y: u32| #[trigger] kept@.contains(y) <==> (base.contains(y) || reads@.subrange(0, r as int).contains(y)),
                decreases reads.len() - r,
            {
                let x = reads[r];
                let mut present = false;
                let mut j: usize = 0;
                while j < kept.len()
                    invariant
                        j <= kept@.len(),
                        present == kept@.subrange(0, j as int).contains(x),
                    decreases kept.len() - j,
                {
                    if kept[j] == x {
                        present = true;
                    }
                    proof {
                        assert(kept@.subrange(0, j + 1) =~= kept@.subrange(0, j as int).push(kept@[j as int]));
                        vstd::seq_lib::lemma_seq_contains_after_push(kept@.subrange(0, j as int), kept@[j as int], x);
                    }
                    j += 1;
                }
                assert(kept@.subrange(0, kept@.len() as int) =~= kept@);
                let ghost before = kept@;
                if !present {
                    proof {
                        lemma_push_distinct(before, x);
                    }
                    kept.push(x);
                    proof {
                        assert forall|y: u32| #[trigger] kept@.contains(y) <==> (before.contains(y) || y == x) by {
                            crate::keyed::lemma_push_contains(before, x, y);
                        }
                    }
                }
                proof {
                    assert forall|y: u32| #[trigger] reads@.subrange(0, r + 1).contains(y) <==> (reads@.subrange(0, r as int).contains(y) || y == x) by {
                        assert(reads@.subrange(0, r + 1) =~= reads@.subrange(0, r as int).push(x));
                        crate::keyed::lemma_push_contains(reads@.subrange(0, r as int), x, y);
                    }
                    assert forall|y: u32| #[trigger] kept@.contains(y) <==> (before.contains(y) || y == x) by {
                        if !present {
                            crate::keyed::lemma_push_contains(before, x, y);
                        }
                    }
                }
                r += 1;
            }
            proof {
                assert(reads@.subrange(0, reads@.len() as int) =~= reads@);
                let pre = ops@.subrange(0, i - 1);
                assert(ops@.subrange(0, i as int).drop_last() =~= pre);
                assert(ops@.subrange(0, i as int).last() == op);
                assert forall|y: u32| #[trigger] kept@.to_set().contains(y) <==> u0.difference(writes_of(op).to_set()).union(reads_of(op).to_set()).contains(y) by {
                    assert(kept@.contains(y) <==> (base.contains(y) || reads@.contains(y)));
                    assert(base.to_set().contains(y) <==> base.contains(y));
                }
                assert(kept@.to_set() =~= u0.difference(writes_of(op).to_set()).union(reads_of(op).to_set()));
            }
            used = kept;
            i -= 1;
        }
        assert(ops@.subrange(0, 0) =~= Seq::<IROp>::empty());
        used
    }

    /// Counts one more use of register `r`.
    fn count_register(&mut self, r: u32)
        requires
            unique(old(self)@.usage),
            forall|i: int| 0 <= i < old(self)@.usage.len() ==> (#[trigger] old(self)@.usage[i]).1 < u32::MAX,
        ensures
            final(self)@ == (PerfView { usage: count_use(old(self)@.usage, r), ..old(self)@ }),
    {
        match find_reg(&self.register_usage, r) {
            Some(i) => {
                let c = self.register_usage[i].1;
                self.register_usage.set(i, (r, c + 1));
            },
            None => {
                self.register_usage.push((r, 1));
            },
        }
    }

    /// Counts the uses of `ops` and maps the most used registers to the
    /// physical registers of `target_arch`.
    fn optimize_register_allocation(&mut self, ops: &Vec<IROp>, target_arch: Architecture)
        requires
            perf_wf(old(self)@),
            usage_room(old(self)@.usage, ops@),
        ensures
            perf_wf(final(self)@),
            final(self)@.config == old(self)@.config,
            final(self)@.hot == old(self)@.hot,
            final(self)@.usage == usage_after(old(self)@.usage, ops@),
            final(self)@.mapping == mapping_of(by_count(final(self)@.usage), available_regs(target_arch)),
    {
        let ghost s = self@;
        let ghost m: int = u32::MAX - 4 * ops@.len();
        let mut i: usize = 0;
        while i < ops.len()
            invariant
                i <= ops@.len(),
                self@.config == s.config,
                self@.hot == s.hot,
                perf_wf(s),
                m == u32::MAX - 4 * ops@.len(),
                    m >= 0,
                self@.usage == usage_after(s.usage, ops@.subrange(0, i as int)),
                unique(self@.usage),
                unique(self@.hot),
                forall|j: int| 0 <= j < self@.usage.len() ==> (#[trigger] self@.usage[j]).1 <= m + 4 * i,
            decreases ops.len() - i,
        {
            let op = ops[i];
            let ghost pre = ops@.subrange(0, i as int);
            let ghost pre1 = ops@.subrange(0, i + 1);
            assert(pre1.drop_last() =~= pre);
            let ghost u0 = self@.usage;
            let (reads, writes) = Self::get_register_access(&op);
            assert(reads_of(op).len() <= 2 && writes_of(op).len() <= 1);
            let mut k: usize = 0;
            while k < reads.len()
                invariant
                    k <= reads@.len(),
                    reads@.len() <= 2,
                    i < ops@.len(),
                    m == u32::MAX - 4 * ops@.len(),
                    m >= 0,
                    reads@ == reads_of(op),
                    self@.config == s.config,
                    self@.hot == s.hot,
                    unique(self@.usage),
                    unique(self@.hot),
                    forall|j: int| 0 <= j < self@.usage.len() ==> (#[trigger] self@.usage[j]).1 <= m + 4 * i + k,
                    self@.usage == count_uses(u0, reads@.subrange(0, k as int)),
                decreases reads.len() - k,
            {
                proof {
                    lemma_count_use(self@.usage, reads@[k as int], m + 4 * i + k);
                    assert(reads@.subrange(0, k + 1).drop_last() =~= reads@.subrange(0, k as int));
                }
                self.count_register(reads[k]);
                k += 1;
            }
            assert(reads@.subrange(0, reads@.len() as int) =~= reads@);
            let ghost u1 = self@.usage;
            let ghost nr = reads@.len();
            let mut k: usize = 0;
            while k < writes.len()
                invariant
                    k <= writes@.len(),
                    writes@.len() <= 1,
                    nr <= 2,
                    i < ops@.len(),
                    m == u32::MAX - 4 * ops@.len(),
                    m >= 0,
                    writes@ == writes_of(op),
                    self@.config == s.config,
                    self@.hot == s.hot,
                    unique(self@.usage),
                    unique(self@.hot),
                    forall|j: int| 0 <= j < self@.usage.len() ==> (#[trigger] self@.usage[j]).1 <= m + 4 * i + nr + k,
                    self@.usage == count_uses(u1, writes@.subrange(0, k as int)),
                decreases writes.len() - k,
            {
                proof {
                    lemma_count_use(self@.usage, writes@[k as int], m + 4 * i + nr + k);
                    assert(writes@.subrange(0, k + 1).drop_last() =~= writes@.subrange(0, k as int));
                }
                self.count_register(writes[k]);
                k += 1;
            }
            assert(writes@.subrange(0, writes@.len() as int) =~= writes@);
            assert(pre1.last() == op);
            i += 1;
        }
        assert(ops@.subrange(0, ops@.len() as int) =~= ops@);
        let available: usize = match target_arch {
            Architecture::X86_64 => 16,
            _ => 32,
        };
        let sorted = Self::sorted_by_count(&self.register_usage);
        let mut mapping: Vec<(u32, u32)> = Vec::new();
        let mut j: usize = 0;
        while j < sorted.len() && j < available
            invariant
                j <= sorted@.len(),
                j <= available,
                available == available_regs(target_arch),
                mapping@ == mapping_of(sorted@.subrange(0, j as int), j as nat),
            decreases sorted.len() - j,
        {
            mapping.push((sorted[j].0, j as u32));
            assert(mapping@ =~= mapping_of(sorted@.subrange(0, j + 1), (j + 1) as nat));
            j += 1;
        }
        assert(mapping@ =~= mapping_of(sorted@, available_regs(target_arch)));
        self.register_mapping = mapping;
    }

    /// The pairs by count, most first, equal counts in their order.
    fn sorted_by_count(u: &Vec<(u32, u32)>) -> (r: Vec<(u32, u32)>)
        ensures
            r@ == by_count(u@),
    {
        let mut sorted: Vec<(u32, u32)> = Vec::new();
        let mut i: usize = 0;
        while i < u.len()
            invariant
                i <= u@.len(),
                sorted@ == by_count(u@.subrange(0, i as int)),
            decreases u.len() - i,
        {
            let ghost sub1 = u@.subrange(0, i + 1);
            assert(sub1.drop_last() =~= u@.subrange(0, i as int));
            let n = u[i].1;
            let ghost sv = sorted@;
            let mut p: usize = 0;
            while p < sorted.len() && sorted[p].1 >= n
                invariant
                    sv == sorted@,
                    p <= sv.len(),
                    first_below(sv, n, 0) == first_below(sv, n, p as int),
                decreases sorted.len() - p,
            {
                p += 1;
            }
            sorted.insert(p, u[i]);
            i += 1;
        }
        assert(u@.subrange(0, u@.len() as int) =~= u@);
        sorted
    }

    /// The cheaper form of each operation on `target_arch` (see `select_op`).
    fn optimize_instruction_selection(ops: &Vec<IROp>, target_arch: Architecture) -> (r: Vec<IROp>)
        ensures
            r@ == ops@.map_values(|op: IROp| select_op(op, target_arch)),
    {
        let mut r: Vec<IROp> = Vec::new();
        let mut i: usize = 0;
        while i < ops.len()
            invariant
                i <= ops@.len(),
                r@ == ops@.subrange(0, i as int).map_values(|op: IROp| select_op(op, target_arch)),
            decreases ops.len() - i,
        {
            let op = ops[i];
            let s = match op {
                IROp::MulImm { dst, src, imm } => match target_arch {
                    Architecture::X86_64 => if -2048 <= imm && imm <= 2047 {
                        IROp::AddImm { dst, src, imm: imm - 1 }
                    } else {
                        op
                    },
                    _ => if imm > 0 && (imm & (imm - 1)) == 0 {
                        IROp::SllImm { dst, src, sh: exponent(imm) }
                    } else {
                        op
                    },
                },
                _ => op,
            };
            r.push(s);
            assert(r@ =~= ops@.subrange(0, i + 1).map_values(|op: IROp| select_op(op, target_arch)));
            i += 1;
        }
        assert(ops@.subrange(0, ops@.len() as int) =~= ops@);
        r
    }

    /// Counts one more execution of the block at `pc`.
    pub fn record_hot_block(&mut self, pc: GuestAddr)
        requires
            perf_wf(old(self)@),
            get(old(self)@.hot, pc) matches Some(c) ==> c < u32::MAX,
        ensures
            perf_wf(final(self)@),
            final(self)@ == (PerfView {
                hot: put(
                    old(self)@.hot,
                    pc,
                    (match get(old(self)@.hot, pc) {
                        Some(c) => c,
                        None => 0,
                    } + 1) as u32,
                ),
                ..old(self)@
            }),
    {
        let ghost h = self@.hot;
        proof {
            lemma_put(h, pc, (match get(h, pc) {
                Some(c) => c,
                None => 0,
            } + 1) as u32);
        }
        match find_addr(&self.hot_blocks, pc) {
            Some(i) => {
                let c = self.hot_blocks[i].1;
                self.hot_blocks.set(i, (pc, c + 1));
            },
            None => {
                self.hot_blocks.push((pc, 1));
            },
        }
    }

    /// The blocks recorded at least `threshold` times, in the order first
    /// recorded.
    pub fn get_hot_blocks(&self, threshold: u32) -> (r: Vec<GuestAddr>)
        ensures
            r@ == hot_addresses(self@.hot, threshold),
    {
        let ghost h = self@.hot;
        let mut r: Vec<GuestAddr> = Vec::new();
        let mut i: usize = 0;
        while i < self.hot_blocks.len()
            invariant
                h == self@.hot,
                i <= h.len(),
                r@ == hot_addresses(h.subrange(0, i as int), threshold),
            decreases self.hot_blocks.len() - i,
        {
            assert(h.subrange(0, i + 1).drop_last() =~= h.subrange(0, i as int));
            if self.hot_blocks[i].1 >= threshold {
                r.push(self.hot_blocks[i].0);
            }
            i += 1;
        }
        assert(h.subrange(0, h.len() as int) =~= h);
        r
    }
}

} // verus!
