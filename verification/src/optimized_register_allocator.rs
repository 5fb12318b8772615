//! A register mapper for the target architecture that analyses register
//! lifetimes, drops redundant copies, builds the interference graph of the
//! live ranges and assigns target registers greedily (reusing registers
//! where it can), and hands out temporary registers from the caller-saved
//! set with a pool of released ones.

use vstd::prelude::*;
use crate::encoding::Architecture;
use crate::ir::{IROp, RegId};
use crate::keyed::{get, has_key, lemma_pos, lemma_push_contains, lemma_put, pos, put, unique, without};
use crate::text::{dec, push_u64, text};

verus! {

/// The class of a target register.
#[derive(Debug, Clone, Copy, PartialEq, Eq, Structural)]
pub enum RegisterClass {
    General,
    Float,
    Vector,
    Special,
}

/// A target register: its number, class, whether the callee saves it and
/// whether it may hold temporaries.
#[derive(Debug, Clone, Copy, PartialEq, Eq, Structural)]
pub struct RegisterInfo {
    pub id: RegId,
    pub class: RegisterClass,
    pub callee_saved: bool,
    pub can_be_temp: bool,
}

/// The calling convention of a target.
#[derive(Debug, Clone)]
pub struct CallingConvention {
    pub arg_regs: Vec<RegId>,
    pub ret_regs: Vec<RegId>,
    pub caller_saved: Vec<RegId>,
    pub callee_saved: Vec<RegId>,
    pub stack_ptr: RegId,
    pub base_ptr: Option<RegId>,
}

/// Counters of the mapper.
#[derive(Debug, Clone, Copy, PartialEq, Eq, Structural)]
pub struct OptimizationStats {
    pub copies_eliminated: usize,
    pub registers_reused: usize,
    pub temps_reused: usize,
    pub total_copies: usize,
    pub total_allocations: usize,
}

impl Default for OptimizationStats {
    fn default() -> (s: Self)
        ensures
            s == zero_stats(),
    {
        OptimizationStats { copies_eliminated: 0, registers_reused: 0, temps_reused: 0, total_copies: 0, total_allocations: 0 }
    }
}

pub open spec fn zero_stats() -> OptimizationStats {
    OptimizationStats { copies_eliminated: 0, registers_reused: 0, temps_reused: 0, total_copies: 0, total_allocations: 0 }
}

/// Counts of the current mapping.
#[derive(Debug, Clone, Copy, PartialEq, Eq, Structural)]
pub struct RegisterAllocationStats {
    pub total_mappings: usize,
    pub allocated_targets: usize,
    pub temp_allocated: usize,
    pub available_temps: usize,
}

/// The use of one temporary register.
#[derive(Debug, Clone, Copy, PartialEq, Eq, Structural)]
pub struct TempRegisterUsage {
    pub reg: RegId,
    pub allocated_at: usize,
    pub released_at: Option<usize>,
    pub use_count: usize,
    pub can_reuse: bool,
}

/// The lifetime of a source register: where it is first defined and last
/// used (0 where it is never defined or never used).
#[derive(Debug, Clone, PartialEq, Eq)]
pub struct RegisterLifetime {
    pub reg: RegId,
    pub def_point: usize,
    pub last_use: usize,
    pub use_points: Vec<usize>,
    pub in_loop: bool,
    pub loop_depth: usize,
}

pub struct LifetimeView {
    pub reg: RegId,
    pub def_point: usize,
    pub last_use: usize,
    pub use_points: Seq<usize>,
    pub in_loop: bool,
    pub loop_depth: usize,
}

impl View for RegisterLifetime {
    type V = LifetimeView;

    open spec fn view(&self) -> LifetimeView {
        LifetimeView {
            reg: self.reg,
            def_point: self.def_point,
            last_use: self.last_use,
            use_points: self.use_points@,
            in_loop: self.in_loop,
            loop_depth: self.loop_depth,
        }
    }
}

/// A register copy met in a block, and whether it was dropped.
#[derive(Debug, Clone, PartialEq, Eq)]
pub struct RegisterCopy {
    pub src: RegId,
    pub dst: RegId,
    pub position: usize,
    pub can_eliminate: bool,
    pub eliminate_reason: Option<String>,
}

pub struct CopyView {
    pub src: RegId,
    pub dst: RegId,
    pub position: usize,
    pub can_eliminate: bool,
    pub eliminate_reason: Option<Seq<char>>,
}

impl View for RegisterCopy {
    type V = CopyView;

    open spec fn view(&self) -> CopyView {
        CopyView {
            src: self.src,
            dst: self.dst,
            position: self.position,
            can_eliminate: self.can_eliminate,
            eliminate_reason: match self.eliminate_reason {
                Some(s) => Some(s@),
                None => None,
            },
        }
    }
}

/// A node of the interference graph: a source register, the registers
/// whose live ranges overlap its own, its class and priority (the number
/// of conflicts).
#[derive(Debug, Clone)]
pub struct InterferenceNode {
    pub reg: RegId,
    pub conflicts: Vec<RegId>,
    pub class: RegisterClass,
    pub priority: u32,
    pub allocated: bool,
}

pub open spec fn reg_info(id: RegId, class: RegisterClass, callee_saved: bool, can_be_temp: bool) -> RegisterInfo {
    RegisterInfo { id, class, callee_saved, can_be_temp }
}

pub open spec fn arm64_general(i: int) -> RegisterInfo {
    reg_info(i as u32, RegisterClass::General, 19 <= i <= 28, i != 29 && i != 30)
}

pub open spec fn arm64_vector(i: int) -> RegisterInfo {
    reg_info((32 + i) as u32, RegisterClass::Vector, 8 <= i <= 15, true)
}

pub open spec fn riscv_saved(i: int) -> bool {
    (8 <= i <= 9) || (18 <= i <= 27)
}

pub open spec fn riscv_general(i: int) -> RegisterInfo {
    reg_info(i as u32, RegisterClass::General, riscv_saved(i), i != 0 && i != 2)
}

pub open spec fn riscv_float(i: int) -> RegisterInfo {
    reg_info((32 + i) as u32, RegisterClass::Float, riscv_saved(i), true)
}

/// The registers of each target, in allocation order.
pub open spec fn target_registers(arch: Architecture) -> Seq<RegisterInfo> {
    match arch {
        Architecture::X86_64 => Seq::new(16, |i: int| x86_general(i)) + Seq::new(8, |i: int| x86_float(i)),
        Architecture::ARM64 => Seq::new(31, |i: int| arm64_general(i)) + seq![reg_info(31, RegisterClass::Special, true, false)]
            + Seq::new(32, |i: int| arm64_vector(i)),
        Architecture::RISCV64 => Seq::new(32, |i: int| riscv_general(i)) + Seq::new(32, |i: int| riscv_float(i)),
    }
}

/// RAX..R15: RSP and RBP are callee-saved and never temporaries, R12-R15
/// callee-saved temporaries, the rest caller-saved temporaries.
pub open spec fn x86_general(i: int) -> RegisterInfo {
    reg_info(i as u32, RegisterClass::General, i == 4 || i == 5 || 12 <= i <= 15, i != 4 && i != 5)
}

/// XMM0..XMM7: XMM7 callee-saved.
pub open spec fn x86_float(i: int) -> RegisterInfo {
    reg_info((16 + i) as u32, RegisterClass::Float, i == 7, true)
}

pub struct CallConvView {
    pub arg_regs: Seq<RegId>,
    pub ret_regs: Seq<RegId>,
    pub caller_saved: Seq<RegId>,
    pub callee_saved: Seq<RegId>,
    pub stack_ptr: RegId,
    pub base_ptr: Option<RegId>,
}

impl View for CallingConvention {
    type V = CallConvView;

    open spec fn view(&self) -> CallConvView {
        CallConvView {
            arg_regs: self.arg_regs@,
            ret_regs: self.ret_regs@,
            caller_saved: self.caller_saved@,
            callee_saved: self.callee_saved@,
            stack_ptr: self.stack_ptr,
            base_ptr: self.base_ptr,
        }
    }
}

/// `lo, lo + 1, ..., hi - 1`.
pub open spec fn reg_range(lo: int, hi: int) -> Seq<RegId> {
    Seq::new((hi - lo) as nat, |i: int| (lo + i) as u32)
}

/// The calling convention of each target.
pub open spec fn calling_convention(arch: Architecture) -> CallConvView {
    match arch {
        Architecture::X86_64 => CallConvView {
            arg_regs: seq![5u32, 4, 1, 0, 2, 3],
            ret_regs: seq![0u32],
            caller_saved: seq![0u32, 1, 2, 8, 9, 10, 11],
            callee_saved: seq![3u32, 12, 13, 14, 15],
            stack_ptr: 4,
            base_ptr: Some(5),
        },
        Architecture::ARM64 => CallConvView {
            arg_regs: reg_range(0, 8),
            ret_regs: seq![0u32],
            caller_saved: reg_range(0, 15),
            callee_saved: reg_range(19, 28),
            stack_ptr: 31,
            base_ptr: Some(29),
        },
        Architecture::RISCV64 => CallConvView {
            arg_regs: reg_range(10, 17),
            ret_regs: seq![10u32, 11],
            caller_saved: reg_range(5, 7),
            callee_saved: reg_range(8, 9),
            stack_ptr: 2,
            base_ptr: Some(8),
        },
    }
}

/// The state of the mapper.
pub struct MapperView {
    pub target_regs: Seq<RegisterInfo>,
    pub calling_conv: CallConvView,
    /// (source register, target register).
    pub mapping: Seq<(RegId, RegId)>,
    /// The target registers in use, each once, in the order taken.
    pub allocated: Seq<RegId>,
    pub lifetimes: Seq<LifetimeView>,
    pub copies: Seq<CopyView>,
    pub temp_usages: Seq<TempRegisterUsage>,
    /// Released temporaries, first released first.
    pub reusable: Seq<RegId>,
    pub next_temp: usize,
    pub reuse_mapping: Seq<(RegId, RegId)>,
    pub stats: OptimizationStats,
}

pub open spec fn lifetimes_view(v: Seq<RegisterLifetime>) -> Seq<LifetimeView> {
    v.map_values(|l: RegisterLifetime| l@)
}

pub open spec fn copies_view(v: Seq<RegisterCopy>) -> Seq<CopyView> {
    v.map_values(|c: RegisterCopy| c@)
}

/// The mapping and the reuse mapping have one entry per source register,
/// and no target register is held twice.
pub open spec fn mapper_wf(s: MapperView) -> bool {
    &&& unique(s.mapping)
    &&& unique(s.reuse_mapping)
    &&& s.allocated.no_duplicates()
    &&& forall|i: int| 0 <= i < s.lifetimes.len() ==> (#[trigger] s.lifetimes[i]).def_point < usize::MAX
}

/// The registers an operation reads, for the lifetime analysis.
pub open spec fn lt_uses(op: IROp) -> Seq<RegId> {
    match op {
        IROp::Add { src1, src2, .. } | IROp::Sub { src1, src2, .. } | IROp::Mul { src1, src2, .. } | IROp::Div {
            src1,
            src2,
            ..
        } | IROp::Rem { src1, src2, .. } | IROp::And { src1, src2, .. } | IROp::Or { src1, src2, .. } | IROp::Xor {
            src1,
            src2,
            ..
        } => seq![src1, src2],
        IROp::Sll { src, shreg, .. } | IROp::Srl { src, shreg, .. } | IROp::Sra { src, shreg, .. } => seq![src, shreg],
        IROp::Store { src, .. } => seq![src],
        IROp::CmpEq { lhs, rhs, .. } | IROp::CmpNe { lhs, rhs, .. } | IROp::CmpLt { lhs, rhs, .. } | IROp::CmpLtU {
            lhs,
            rhs,
            ..
        } | IROp::CmpGe { lhs, rhs, .. } | IROp::CmpGeU { lhs, rhs, .. } => seq![lhs, rhs],
        IROp::Mov { src, .. } => seq![src],
        _ => Seq::empty(),
    }
}

/// The registers an operation defines, for the lifetime analysis.
pub open spec fn lt_defs(op: IROp) -> Seq<RegId> {
    match op {
        IROp::Add { dst, .. } | IROp::Sub { dst, .. } | IROp::Mul { dst, .. } | IROp::Div { dst, .. } | IROp::Rem {
            dst,
            ..
        } | IROp::And { dst, .. } | IROp::Or { dst, .. } | IROp::Xor { dst, .. } => seq![dst],
        IROp::Sll { dst, .. } | IROp::Srl { dst, .. } | IROp::Sra { dst, .. } => seq![dst],
        IROp::Load { dst, .. } | IROp::MovImm { dst, .. } => seq![dst],
        IROp::CmpEq { dst, .. } | IROp::CmpNe { dst, .. } | IROp::CmpLt { dst, .. } | IROp::CmpLtU { dst, .. }
        | IROp::CmpGe { dst, .. } | IROp::CmpGeU { dst, .. } => seq![dst],
        IROp::Mov { dst, .. } => seq![dst],
        _ => Seq::empty(),
    }
}

/// `s` with each of `regs` it lacks appended, in order.
pub open spec fn add_new(s: Seq<RegId>, regs: Seq<RegId>) -> Seq<RegId>
    decreases regs.len(),
{
    if regs.len() == 0 {
        s
    } else {
        let t = add_new(s, regs.drop_last());
        if t.contains(regs.last()) {
            t
        } else {
            t.push(regs.last())
        }
    }
}

/// The registers that `ops` read or define, in the order first mentioned
/// (within an operation, its reads first).
pub open spec fn mentioned(ops: Seq<IROp>) -> Seq<RegId>
    decreases ops.len(),
{
    if ops.len() == 0 {
        Seq::empty()
    } else {
        add_new(mentioned(ops.drop_last()), lt_uses(ops.last()) + lt_defs(ops.last()))
    }
}

/// The first position at or after `i` that defines `r`.
pub open spec fn first_def_from(ops: Seq<IROp>, r: RegId, i: int) -> Option<int>
    decreases ops.len() - i,
{
    if i < 0 || i >= ops.len() {
        None
    } else if lt_defs(ops[i]).contains(r) {
        Some(i)
    } else {
        first_def_from(ops, r, i + 1)
    }
}

/// The last position before `n` that reads `r`.
pub open spec fn last_use_before(ops: Seq<IROp>, r: RegId, n: int) -> Option<int>
    decreases n,
{
    if n <= 0 || n > ops.len() {
        None
    } else if lt_uses(ops[n - 1]).contains(r) {
        Some(n - 1)
    } else {
        last_use_before(ops, r, n - 1)
    }
}

/// The lifetime of `r` in `ops`: its first definition and its last use (0
/// where there is none).
pub open spec fn lifetime_of(ops: Seq<IROp>, r: RegId) -> LifetimeView {
    LifetimeView {
        reg: r,
        def_point: match first_def_from(ops, r, 0) {
            Some(i) => i as usize,
            None => 0,
        },
        last_use: match last_use_before(ops, r, ops.len() as int) {
            Some(i) => i as usize,
            None => 0,
        },
        use_points: Seq::empty(),
        in_loop: false,
        loop_depth: 0,
    }
}

/// The lifetimes of the registers of `ops`, in the order first mentioned.
pub open spec fn lifetimes_spec(ops: Seq<IROp>) -> Seq<LifetimeView> {
    mentioned(ops).map_values(|r: RegId| lifetime_of(ops, r))
}

/// `r` taken (once).
pub open spec fn take_reg(a: Seq<RegId>, r: RegId) -> Seq<RegId> {
    if a.contains(r) {
        a
    } else {
        a.push(r)
    }
}

/// `r` given back.
pub open spec fn give_back(a: Seq<RegId>, r: RegId) -> Seq<RegId> {
    without(a, r)
}

/// A fresh use record of temporary `r`.
pub open spec fn fresh_usage(r: RegId) -> TempRegisterUsage {
    TempRegisterUsage { reg: r, allocated_at: 0, released_at: None, use_count: 0, can_reuse: true }
}

/// The first use record of `r` at or after `i`.
pub open spec fn first_usage_from(u: Seq<TempRegisterUsage>, r: RegId, i: int) -> Option<int>
    decreases u.len() - i,
{
    if i < 0 || i >= u.len() {
        None
    } else if u[i].reg == r {
        Some(i)
    } else {
        first_usage_from(u, r, i + 1)
    }
}

/// The state after `allocate_temp` and its result: a released temporary
/// where there is one (counted as reused), else the next caller-saved
/// register not yet handed out, else nothing.
pub open spec fn allocate_temp_spec(s: MapperView) -> (MapperView, Option<RegId>) {
    if s.reusable.len() > 0 {
        let r = s.reusable[0];
        (
            MapperView {
                reusable: s.reusable.drop_first(),
                allocated: take_reg(s.allocated, r),
                temp_usages: s.temp_usages.push(fresh_usage(r)),
                stats: OptimizationStats { temps_reused: (s.stats.temps_reused + 1) as usize, ..s.stats },
                ..s
            },
            Some(r),
        )
    } else if s.next_temp < s.calling_conv.caller_saved.len() {
        let r = s.calling_conv.caller_saved[s.next_temp as int];
        (
            MapperView {
                next_temp: (s.next_temp + 1) as usize,
                allocated: take_reg(s.allocated, r),
                temp_usages: s.temp_usages.push(fresh_usage(r)),
                ..s
            },
            Some(r),
        )
    } else {
        (s, None)
    }
}

/// The state after `release_temp(r)`: `r` is given back; its first use
/// record, where it has one, is marked released with one more use, and `r`
/// joins the pool of reusable temporaries where the record allows reuse.
pub open spec fn release_temp_spec(s: MapperView, r: RegId) -> MapperView {
    let a = give_back(s.allocated, r);
    match first_usage_from(s.temp_usages, r, 0) {
        Some(i) => {
            let u = s.temp_usages[i];
            MapperView {
                allocated: a,
                temp_usages: s.temp_usages.update(
                    i,
                    TempRegisterUsage { released_at: Some(0), use_count: (u.use_count + 1) as usize, ..u },
                ),
                reusable: if u.can_reuse {
                    s.reusable.push(r)
                } else {
                    s.reusable
                },
                ..s
            }
        },
        None => MapperView { allocated: a, ..s },
    }
}

/// Maps source registers to target registers.
pub struct OptimizedRegisterMapper {
    target_regs: Vec<RegisterInfo>,
    calling_conv: CallingConvention,
    current_mapping: Vec<(RegId, RegId)>,
    allocated_targets: Vec<RegId>,
    lifetimes: Vec<RegisterLifetime>,
    copies: Vec<RegisterCopy>,
    temp_usages: Vec<TempRegisterUsage>,
    reusable_temps: Vec<RegId>,
    next_temp: usize,
    reuse_mapping: Vec<(RegId, RegId)>,
    optimization_stats: OptimizationStats,
}

impl View for OptimizedRegisterMapper {
    type V = MapperView;

    closed spec fn view(&self) -> MapperView {
        MapperView {
            target_regs: self.target_regs@,
            calling_conv: self.calling_conv@,
            mapping: self.current_mapping@,
            allocated: self.allocated_targets@,
            lifetimes: lifetimes_view(self.lifetimes@),
            copies: copies_view(self.copies@),
            temp_usages: self.temp_usages@,
            reusable: self.reusable_temps@,
            next_temp: self.next_temp,
            reuse_mapping: self.reuse_mapping@,
            stats: self.optimization_stats,
        }
    }
}

/// The position of `k` among the pairs, where it has one.
fn find_reg_pair(v: &Vec<(RegId, RegId)>, k: RegId) -> (r: Option<usize>)
    requires
        unique(v@),
    ensures
        match r {
            Some(i) => i < v@.len() && v@[i as int].0 == k && has_key(v@, k) && pos(v@, k) == i,
            None => !has_key(v@, k),
        },
{
    let mut i: usize = 0;
    while i < v.len()
        invariant
            i <= v@.len(),
            unique(v@),
            forall|j: int| 0 <= j < i ==> (#[trigger] v@[j]).0 != k,
        decreases v.len() - i,
    {
        if v[i].0 == k {
            proof {
                lemma_pos(v@, i as int);
            }
            return Some(i);
        }
        i += 1;
    }
    None
}

/// Sets `k` to `x` among the pairs.
fn put_reg_pair(v: &mut Vec<(RegId, RegId)>, k: RegId, x: RegId)
    requires
        unique(old(v)@),
    ensures
        final(v)@ == put(old(v)@, k, x),
        unique(final(v)@),
{
    proof {
        lemma_put(v@, k, x);
    }
    match find_reg_pair(v, k) {
        Some(i) => {
            v.set(i, (k, x));
        },
        None => {
            v.push((k, x));
        },
    }
}

/// Whether `v` holds `r`.
fn holds(v: &Vec<RegId>, r: RegId) -> (b: bool)
    ensures
        b == v@.contains(r),
{
    let mut i: usize = 0;
    while i < v.len()
        invariant
            i <= v@.len(),
            forall|j: int| 0 <= j < i ==> v@[j] != r,
        decreases v.len() - i,
    {
        if v[i] == r {
            return true;
        }
        i += 1;
    }
    false
}

/// Takes `r` into `v` once.
fn take(v: &mut Vec<RegId>, r: RegId)
    requires
        old(v)@.no_duplicates(),
    ensures
        final(v)@ == take_reg(old(v)@, r),
        final(v)@.no_duplicates(),
{
    if !holds(v, r) {
        let ghost before = v@;
        v.push(r);
        proof {
            assert forall|i: int, j: int| 0 <= i < v@.len() && 0 <= j < v@.len() && i != j implies v@[i] != v@[j] by {
                if i == before.len() {
                    assert(v@[j] == before[j]);
                } else if j == before.len() {
                    assert(v@[i] == before[i]);
                }
            }
        }
    }
}

/// Removes every `r` from `v`.
fn give(v: &mut Vec<RegId>, r: RegId)
    requires
        old(v)@.no_duplicates(),
    ensures
        final(v)@ == give_back(old(v)@, r),
        final(v)@.no_duplicates(),
{
    let ghost v0 = v@;
    let mut out: Vec<RegId> = Vec::new();
    let mut i: usize = 0;
    while i < v.len()
        invariant
            v@ == v0,
            v0.no_duplicates(),
            i <= v0.len(),
            out@ == without(v0.subrange(0, i as int), r),
            out@.no_duplicates(),
            forall|y: RegId| #[trigger] out@.contains(y) ==> v0.subrange(0, i as int).contains(y),
        decreases v.len() - i,
    {
        let x = v[i];
        let ghost sub = v0.subrange(0, i as int);
        assert(v0.subrange(0, i + 1).drop_last() =~= sub);
        proof {
            assert(v0.subrange(0, i + 1) =~= sub.push(x));
            assert(v0.subrange(0, i + 1).last() == x);
        }
        if x != r {
            let ghost before = out@;
            proof {
                assert(!sub.contains(x)) by {
                    if sub.contains(x) {
                        let k = choose|k: int| 0 <= k < sub.len() && sub[k] == x;
                        assert(v0[k] == v0[i as int]);
                    }
                }
            }
            out.push(x);
            proof {
                assert forall|a: int, b: int| 0 <= a < out@.len() && 0 <= b < out@.len() && a != b implies out@[a] != out@[b] by {
                    if a == before.len() {
                        assert(before.contains(out@[b]));
                    } else if b == before.len() {
                        assert(before.contains(out@[a]));
                    }
                }
                assert forall|y: RegId| #[trigger] out@.contains(y) implies v0.subrange(0, i + 1).contains(y) by {
                    lemma_push_contains(before, x, y);
                    lemma_push_contains(sub, x, y);
                }
            }
        } else {
            proof {
                assert forall|y: RegId| #[trigger] out@.contains(y) implies v0.subrange(0, i + 1).contains(y) by {
                    lemma_push_contains(sub, x, y);
                }
            }
        }
        i += 1;
    }
    assert(v0.subrange(0, v0.len() as int) =~= v0);
    *v = out;
}

/// The first lifetime of `reg` at or after `i`.
pub open spec fn first_lifetime_from(lts: Seq<LifetimeView>, reg: RegId, i: int) -> Option<int>
    decreases lts.len() - i,
{
    if i < 0 || i >= lts.len() {
        None
    } else if lts[i].reg == reg {
        Some(i)
    } else {
        first_lifetime_from(lts, reg, i + 1)
    }
}

/// A copy from `src` to `dst` can go: it copies a register to itself, the
/// same copy went before, or `src` is used once, right after its definition.
pub open spec fn can_elim(lts: Seq<LifetimeView>, map: Seq<(RegId, RegId)>, src: RegId, dst: RegId) -> bool {
    ||| src == dst
    ||| map.contains((src, dst))
    ||| match first_lifetime_from(lts, src, 0) {
        Some(i) => lts[i].use_points.len() == 1 && lts[i].def_point + 1 == lts[i].last_use,
        None => false,
    }
}

/// What copy elimination makes of a block: the operations kept, the copies
/// met, the copies dropped so far, and the counts of copies and drops.
pub struct CopyState {
    pub optimized: Seq<IROp>,
    pub copies: Seq<CopyView>,
    pub map: Seq<(RegId, RegId)>,
    pub total: nat,
    pub eliminated: nat,
}

/// Copy elimination over `ops`: each `Mov` is recorded, and dropped where
/// `can_elim` holds; every other operation is kept.
pub open spec fn copy_fold(lts: Seq<LifetimeView>, ops: Seq<IROp>) -> CopyState
    decreases ops.len(),
{
    if ops.len() == 0 {
        CopyState { optimized: Seq::empty(), copies: Seq::empty(), map: Seq::empty(), total: 0, eliminated: 0 }
    } else {
        let st = copy_fold(lts, ops.drop_last());
        let idx = (ops.len() - 1) as usize;
        match ops.last() {
            IROp::Mov { dst, src } => {
                let elim = can_elim(lts, st.map, src, dst);
                let c = CopyView {
                    src,
                    dst,
                    position: idx,
                    can_eliminate: elim,
                    eliminate_reason: if elim {
                        Some("Redundant copy"@)
                    } else {
                        None
                    },
                };
                if elim {
                    CopyState {
                        copies: st.copies.push(c),
                        map: st.map.push((src, dst)),
                        total: st.total + 1,
                        eliminated: st.eliminated + 1,
                        ..st
                    }
                } else {
                    CopyState { optimized: st.optimized.push(ops.last()), copies: st.copies.push(c), total: st.total + 1, ..st }
                }
            },
            op => CopyState { optimized: st.optimized.push(op), ..st },
        }
    }
}

/// The counts of copy elimination stay below the operations seen.
pub proof fn lemma_copy_counts(lts: Seq<LifetimeView>, ops: Seq<IROp>)
    ensures
        copy_fold(lts, ops).eliminated <= copy_fold(lts, ops).total <= ops.len(),
        copy_fold(lts, ops).copies.len() == copy_fold(lts, ops).total,
    decreases ops.len(),
{
    if ops.len() > 0 {
        lemma_copy_counts(lts, ops.drop_last());
    }
}

/// The live range of each lifetime: (register, (definition, last use)).
pub open spec fn ranges_of(lts: Seq<LifetimeView>) -> Seq<(RegId, (usize, usize))> {
    lts.map_values(|l: LifetimeView| (l.reg, (l.def_point, l.last_use)))
}

/// Two live ranges overlap.
pub open spec fn overlap(a: (RegId, (usize, usize)), b: (RegId, (usize, usize))) -> bool {
    a.1.0 <= b.1.1 && b.1.0 <= a.1.1
}

/// The registers among the first `n` ranges, other than range `i`, whose
/// range overlaps range `i`.
pub open spec fn conflicts_upto(rs: Seq<(RegId, (usize, usize))>, i: int, n: int) -> Seq<RegId>
    decreases n,
{
    if n <= 0 || n > rs.len() {
        Seq::empty()
    } else {
        let c = conflicts_upto(rs, i, n - 1);
        if n - 1 != i && overlap(rs[i], rs[n - 1]) {
            c.push(rs[n - 1].0)
        } else {
            c
        }
    }
}

/// The class of a source register by its number.
pub open spec fn class_of(reg: RegId) -> RegisterClass {
    if reg < 16 {
        RegisterClass::General
    } else if reg < 24 {
        RegisterClass::Float
    } else {
        RegisterClass::Vector
    }
}

pub struct NodeView {
    pub reg: RegId,
    pub conflicts: Seq<RegId>,
    pub class: RegisterClass,
    pub priority: u32,
    pub allocated: bool,
}

impl View for InterferenceNode {
    type V = NodeView;

    open spec fn view(&self) -> NodeView {
        NodeView {
            reg: self.reg,
            conflicts: self.conflicts@,
            class: self.class,
            priority: self.priority,
            allocated: self.allocated,
        }
    }
}

/// The node of range `i`: the registers whose ranges overlap it, its class,
/// and as priority the number of conflicts.
pub open spec fn node_of(rs: Seq<(RegId, (usize, usize))>, i: int) -> NodeView {
    let c = conflicts_upto(rs, i, rs.len() as int);
    NodeView { reg: rs[i].0, conflicts: c, class: class_of(rs[i].0), priority: c.len() as u32, allocated: false }
}

/// The interference graph of the ranges, one node per range.
pub open spec fn graph_of(rs: Seq<(RegId, (usize, usize))>) -> Seq<NodeView> {
    Seq::new(rs.len(), |i: int| node_of(rs, i))
}

/// First position at or after `i` whose priority is below `p`.
pub open spec fn first_below_priority(s: Seq<NodeView>, p: u32, i: int) -> int
    decreases s.len() - i,
{
    if i < 0 || i >= s.len() {
        s.len() as int
    } else if s[i].priority < p {
        i
    } else {
        first_below_priority(s, p, i + 1)
    }
}

/// The nodes by priority, highest first; equal priorities keep their order.
pub open spec fn by_priority(c: Seq<NodeView>) -> Seq<NodeView>
    decreases c.len(),
{
    if c.len() == 0 {
        Seq::empty()
    } else {
        let s = by_priority(c.drop_last());
        s.insert(first_below_priority(s, c.last().priority, 0), c.last())
    }
}

/// The first register at or after `i` of `class`, not taken, and of the
/// kind asked for: 0 caller-saved temporaries, 1 callee-saved temporaries,
/// 2 any.
pub open spec fn first_candidate(regs: Seq<RegisterInfo>, taken: Seq<RegId>, class: RegisterClass, kind: nat, i: int) -> Option<
    RegId,
>
    decreases regs.len() - i,
{
    if i < 0 || i >= regs.len() {
        None
    } else {
        let r = regs[i];
        let fits = if kind == 0 {
            !r.callee_saved && r.can_be_temp
        } else if kind == 1 {
            r.callee_saved && r.can_be_temp
        } else {
            true
        };
        if r.class == class && !taken.contains(r.id) && fits {
            Some(r.id)
        } else {
            first_candidate(regs, taken, class, kind, i + 1)
        }
    }
}

/// A free target register of `class`: a caller-saved temporary first, then
/// a callee-saved temporary, then any.
pub open spec fn find_available(regs: Seq<RegisterInfo>, taken: Seq<RegId>, class: RegisterClass) -> Option<RegId> {
    match first_candidate(regs, taken, class, 0, 0) {
        Some(r) => Some(r),
        None => match first_candidate(regs, taken, class, 1, 0) {
            Some(r) => Some(r),
            None => first_candidate(regs, taken, class, 2, 0),
        },
    }
}

/// A register to reuse for `reg`: its reuse target where that is free,
/// else the first released temporary (counted as reused).
pub open spec fn try_reuse_spec(s: MapperView, reg: RegId) -> (MapperView, Option<RegId>) {
    if get(s.reuse_mapping, reg) matches Some(t) && !s.allocated.contains(t) {
        (s, Some(get(s.reuse_mapping, reg)->Some_0))
    } else if s.reusable.len() > 0 {
        (
            MapperView {
                reusable: s.reusable.drop_first(),
                stats: OptimizationStats { temps_reused: (s.stats.temps_reused + 1) as usize, ..s.stats },
                ..s
            },
            Some(s.reusable[0]),
        )
    } else {
        (s, None)
    }
}

/// Assigning a target register to `node`: a reused one (counted as
/// reused), else a free one (counted as allocated); false where there is
/// none.
pub open spec fn alloc_node(s: MapperView, node: NodeView) -> (MapperView, bool) {
    let (s1, re) = try_reuse_spec(s, node.reg);
    match re {
        Some(t) => (
            MapperView {
                mapping: put(s1.mapping, node.reg, t),
                allocated: take_reg(s1.allocated, t),
                stats: OptimizationStats { registers_reused: (s1.stats.registers_reused + 1) as usize, ..s1.stats },
                ..s1
            },
            true,
        ),
        None => match find_available(s1.target_regs, s1.allocated, node.class) {
            Some(t) => (
                MapperView {
                    mapping: put(s1.mapping, node.reg, t),
                    allocated: take_reg(s1.allocated, t),
                    stats: OptimizationStats { total_allocations: (s1.stats.total_allocations + 1) as usize, ..s1.stats },
                    ..s1
                },
                true,
            ),
            None => (s1, false),
        },
    }
}

/// Assigning registers to the nodes in order, up to the first that gets
/// none, whose register is returned.
pub open spec fn alloc_all(s: MapperView, nodes: Seq<NodeView>) -> (MapperView, Option<RegId>)
    decreases nodes.len(),
{
    if nodes.len() == 0 {
        (s, None)
    } else {
        let (t, e) = alloc_all(s, nodes.drop_last());
        if e is Some {
            (t, e)
        } else {
            let (u, ok) = alloc_node(t, nodes.last());
            if ok {
                (u, None)
            } else {
                (u, Some(nodes.last().reg))
            }
        }
    }
}

/// The state after analysing `ops` and dropping its redundant copies.
pub open spec fn prepared(s: MapperView, ops: Seq<IROp>) -> MapperView {
    let lts = lifetimes_spec(ops);
    let cf = copy_fold(lts, ops);
    MapperView {
        lifetimes: lts,
        copies: s.copies + cf.copies,
        stats: OptimizationStats {
            total_copies: (s.stats.total_copies + cf.total) as usize,
            copies_eliminated: (s.stats.copies_eliminated + cf.eliminated) as usize,
            ..s.stats
        },
        ..s
    }
}

/// The message of a register that gets no target register.
pub open spec fn alloc_failure(reg: RegId) -> Seq<char> {
    "Failed to allocate register for source register "@ + dec(reg as nat)
}

/// `s` with the new registers of `regs` added has at most `regs.len()`
/// more.
pub proof fn lemma_add_new_len(s: Seq<RegId>, regs: Seq<RegId>)
    ensures
        add_new(s, regs).len() <= s.len() + regs.len(),
    decreases regs.len(),
{
    if regs.len() > 0 {
        lemma_add_new_len(s, regs.drop_last());
    }
}

/// A block mentions at most three registers per operation.
pub proof fn lemma_mentioned_len(ops: Seq<IROp>)
    ensures
        mentioned(ops).len() <= 3 * ops.len(),
    decreases ops.len(),
{
    if ops.len() > 0 {
        lemma_mentioned_len(ops.drop_last());
        let op = ops.last();
        assert(lt_uses(op).len() + lt_defs(op).len() <= 3);
        lemma_add_new_len(mentioned(ops.drop_last()), lt_uses(op) + lt_defs(op));
    }
}

/// A released temporary whose record allows reuse is the next one handed
/// out when no other was waiting, and handing it out counts a reuse.
pub proof fn lemma_release_then_allocate(s: MapperView, r: RegId)
    requires
        s.reusable.len() == 0,
        s.stats.temps_reused < usize::MAX,
        first_usage_from(s.temp_usages, r, 0) matches Some(i) && s.temp_usages[i].can_reuse,
    ensures
        allocate_temp_spec(release_temp_spec(s, r)).1 == Some(r),
        allocate_temp_spec(release_temp_spec(s, r)).0.stats.temps_reused == s.stats.temps_reused + 1,
        allocate_temp_spec(release_temp_spec(s, r)).0.allocated.contains(r),
{
    let t = release_temp_spec(s, r);
    assert(t.reusable =~= seq![r]);
    if !t.allocated.contains(r) {
        assert(take_reg(t.allocated, r)[t.allocated.len() as int] == r);
    }
}

/// Once a node gets no register, the nodes after it change nothing.
pub proof fn lemma_alloc_failure_stays(s: MapperView, nodes: Seq<NodeView>, k: int)
    requires
        0 <= k <= nodes.len(),
        alloc_all(s, nodes.subrange(0, k)).1 is Some,
    ensures
        alloc_all(s, nodes) == alloc_all(s, nodes.subrange(0, k)),
    decreases nodes.len(),
{
    if k == nodes.len() {
        assert(nodes.subrange(0, k) =~= nodes);
    } else {
        let d = nodes.drop_last();
        assert(d.subrange(0, k) =~= nodes.subrange(0, k));
        lemma_alloc_failure_stays(s, d, k);
    }
}

/// Sorting by priority keeps the number of nodes.
pub proof fn lemma_by_priority_len(c: Seq<NodeView>)
    ensures
        by_priority(c).len() == c.len(),
    decreases c.len(),
{
    if c.len() > 0 {
        lemma_by_priority_len(c.drop_last());
        let s = by_priority(c.drop_last());
        lemma_first_below_priority_range(s, c.last().priority, 0);
    }
}

proof fn lemma_first_below_priority_range(s: Seq<NodeView>, p: u32, i: int)
    requires
        0 <= i <= s.len(),
    ensures
        i <= first_below_priority(s, p, i) <= s.len(),
    decreases s.len() - i,
{
    if i < s.len() && s[i].priority >= p {
        lemma_first_below_priority_range(s, p, i + 1);
    }
}

/// The registers `op` reads and defines (see `lt_uses`, `lt_defs`).
fn access_of(op: &IROp) -> (r: (Vec<RegId>, Vec<RegId>))
    ensures
        r.0@ == lt_uses(*op),
        r.1@ == lt_defs(*op),
{
    let mut u: Vec<RegId> = Vec::new();
    let mut d: Vec<RegId> = Vec::new();
    match *op {
        IROp::Add { dst, src1, src2 } | IROp::Sub { dst, src1, src2 } | IROp::Mul { dst, src1, src2 } | IROp::Div {
            dst,
            src1,
            src2,
            ..
        } | IROp::Rem { dst, src1, src2, .. } | IROp::And { dst, src1, src2 } | IROp::Or { dst, src1, src2 }
        | IROp::Xor { dst, src1, src2 } => {
            u.push(src1);
            u.push(src2);
            d.push(dst);
        },
        IROp::Sll { dst, src, shreg } | IROp::Srl { dst, src, shreg } | IROp::Sra { dst, src, shreg } => {
            u.push(src);
            u.push(shreg);
            d.push(dst);
        },
        IROp::Load { dst, .. } | IROp::MovImm { dst, .. } => {
            d.push(dst);
        },
        IROp::Store { src, .. } => {
            u.push(src);
        },
        IROp::CmpEq { dst, lhs, rhs } | IROp::CmpNe { dst, lhs, rhs } | IROp::CmpLt { dst, lhs, rhs } | IROp::CmpLtU {
            dst,
            lhs,
            rhs,
        } | IROp::CmpGe { dst, lhs, rhs } | IROp::CmpGeU { dst, lhs, rhs } => {
            u.push(lhs);
            u.push(rhs);
            d.push(dst);
        },
        IROp::Mov { dst, src } => {
            u.push(src);
            d.push(dst);
        },
        _ => {},
    }
    assert(u@ =~= lt_uses(*op));
    assert(d@ =~= lt_defs(*op));
    (u, d)
}

/// The registers of `ops` in the order first mentioned.
fn mentioned_regs(ops: &[IROp]) -> (v: Vec<RegId>)
    ensures
        v@ == mentioned(ops@),
{
    let mut order: Vec<RegId> = Vec::new();
    let mut i: usize = 0;
    while i < ops.len()
        invariant
            i <= ops@.len(),
            order@ == mentioned(ops@.subrange(0, i as int)),
        decreases ops.len() - i,
    {
        let (mut regs, defs) = access_of(&ops[i]);
        let mut d: usize = 0;
        let ghost uses = regs@;
        while d < defs.len()
            invariant
                d <= defs@.len(),
                regs@ == uses + defs@.subrange(0, d as int),
            decreases defs.len() - d,
        {
            regs.push(defs[d]);
            assert(regs@ =~= uses + defs@.subrange(0, d + 1));
            d += 1;
        }
        assert(defs@.subrange(0, defs@.len() as int) =~= defs@);
        let ghost base = order@;
        let mut k: usize = 0;
        while k < regs.len()
            invariant
                k <= regs@.len(),
                order@ == add_new(base, regs@.subrange(0, k as int)),
            decreases regs.len() - k,
        {
            let x = regs[k];
            assert(regs@.subrange(0, k + 1).drop_last() =~= regs@.subrange(0, k as int));
            if !holds(&order, x) {
                order.push(x);
            }
            k += 1;
        }
        assert(regs@.subrange(0, regs@.len() as int) =~= regs@);
        assert(ops@.subrange(0, i + 1).drop_last() =~= ops@.subrange(0, i as int));
        i += 1;
    }
    assert(ops@.subrange(0, ops@.len() as int) =~= ops@);
    order
}

/// The first position of `ops` that defines `r`.
fn first_def(ops: &[IROp], r: RegId) -> (p: Option<usize>)
    ensures
        match p {
            Some(i) => first_def_from(ops@, r, 0) == Some(i as int) && i < ops@.len(),
            None => first_def_from(ops@, r, 0) is None,
        },
{
    let mut i: usize = 0;
    while i < ops.len()
        invariant
            i <= ops@.len(),
            first_def_from(ops@, r, 0) == first_def_from(ops@, r, i as int),
        decreases ops.len() - i,
    {
        let (_, defs) = access_of(&ops[i]);
        if holds(&defs, r) {
            return Some(i);
        }
        i += 1;
    }
    None
}

/// The last position of `ops` that reads `r`.
fn last_use(ops: &[IROp], r: RegId) -> (p: Option<usize>)
    ensures
        match p {
            Some(i) => last_use_before(ops@, r, ops@.len() as int) == Some(i as int),
            None => last_use_before(ops@, r, ops@.len() as int) is None,
        },
{
    let mut n: usize = ops.len();
    while n > 0
        invariant
            n <= ops@.len(),
            last_use_before(ops@, r, ops@.len() as int) == last_use_before(ops@, r, n as int),
        decreases n,
    {
        let (uses, _) = access_of(&ops[n - 1]);
        if holds(&uses, r) {
            return Some(n - 1);
        }
        n -= 1;
    }
    None
}

impl OptimizedRegisterMapper {
    pub closed spec fn wf(&self) -> bool {
        mapper_wf(self@)
    }

    /// A mapper for `target_arch` with nothing mapped.
    pub fn new(target_arch: Architecture) -> (m: Self)
        ensures
            m.wf(),
            m@ == (MapperView {
                target_regs: target_registers(target_arch),
                calling_conv: calling_convention(target_arch),
                mapping: Seq::empty(),
                allocated: Seq::empty(),
                lifetimes: Seq::empty(),
                copies: Seq::empty(),
                temp_usages: Seq::empty(),
                reusable: Seq::empty(),
                next_temp: 0,
                reuse_mapping: Seq::empty(),
                stats: zero_stats(),
            }),
    {
        let m = OptimizedRegisterMapper {
            target_regs: Self::get_target_registers(target_arch),
            calling_conv: Self::get_calling_convention(target_arch),
            current_mapping: Vec::new(),
            allocated_targets: Vec::new(),
            lifetimes: Vec::new(),
            copies: Vec::new(),
            temp_usages: Vec::new(),
            reusable_temps: Vec::new(),
            next_temp: 0,
            reuse_mapping: Vec::new(),
            optimization_stats: OptimizationStats::default(),
        };
        assert(m@.lifetimes =~= Seq::<LifetimeView>::empty());
        assert(m@.copies =~= Seq::<CopyView>::empty());
        m
    }

    /// The number of registers of `arch`.
    fn table_len(arch: Architecture) -> (n: usize)
        ensures
            n == target_registers(arch).len(),
    {
        match arch {
            Architecture::X86_64 => 24,
            _ => 64,
        }
    }

    /// Entry `i` of the register table of `arch`.
    fn table_entry(arch: Architecture, i: u32) -> (r: RegisterInfo)
        requires
            i < target_registers(arch).len(),
        ensures
            r == target_registers(arch)[i as int],
    {
        match arch {
            Architecture::X86_64 => {
                if i < 16 {
                    RegisterInfo {
                        id: i,
                        class: RegisterClass::General,
                        callee_saved: i == 4 || i == 5 || (12 <= i && i <= 15),
                        can_be_temp: i != 4 && i != 5,
                    }
                } else {
                    RegisterInfo { id: i, class: RegisterClass::Float, callee_saved: i == 23, can_be_temp: true }
                }
            },
            Architecture::ARM64 => {
                if i < 31 {
                    RegisterInfo {
                        id: i,
                        class: RegisterClass::General,
                        callee_saved: 19 <= i && i <= 28,
                        can_be_temp: i != 29 && i != 30,
                    }
                } else if i == 31 {
                    RegisterInfo { id: 31, class: RegisterClass::Special, callee_saved: true, can_be_temp: false }
                } else {
                    RegisterInfo { id: i, class: RegisterClass::Vector, callee_saved: 40 <= i && i <= 47, can_be_temp: true }
                }
            },
            Architecture::RISCV64 => {
                let k = if i < 32 {
                    i
                } else {
                    i - 32
                };
                let saved = (8 <= k && k <= 9) || (18 <= k && k <= 27);
                if i < 32 {
                    RegisterInfo { id: i, class: RegisterClass::General, callee_saved: saved, can_be_temp: i != 0 && i != 2 }
                } else {
                    RegisterInfo { id: i, class: RegisterClass::Float, callee_saved: saved, can_be_temp: true }
                }
            },
        }
    }

    /// The register table of `arch` (see `target_registers`).
    fn get_target_registers(arch: Architecture) -> (v: Vec<RegisterInfo>)
        ensures
            v@ == target_registers(arch),
    {
        let n = Self::table_len(arch);
        let mut v: Vec<RegisterInfo> = Vec::new();
        let mut i: usize = 0;
        while i < n
            invariant
                n == target_registers(arch).len(),
                i <= n,
                v@ == target_registers(arch).subrange(0, i as int),
            decreases n - i,
        {
            let e = Self::table_entry(arch, i as u32);
            v.push(e);
            assert(v@ =~= target_registers(arch).subrange(0, i + 1));
            i += 1;
        }
        assert(target_registers(arch).subrange(0, n as int) =~= target_registers(arch));
        v
    }

    /// `lo..hi` as registers.
    fn range_regs(lo: u32, hi: u32) -> (v: Vec<RegId>)
        requires
            lo <= hi,
        ensures
            v@ == reg_range(lo as int, hi as int),
    {
        let mut v: Vec<RegId> = Vec::new();
        let mut r = lo;
        while r < hi
            invariant
                lo <= r <= hi,
                v@ == reg_range(lo as int, r as int),
            decreases hi - r,
        {
            v.push(r);
            assert(v@ =~= reg_range(lo as int, r + 1));
            r += 1;
        }
        v
    }

    /// The calling convention of `arch` (see `calling_convention`).
    fn get_calling_convention(arch: Architecture) -> (c: CallingConvention)
        ensures
            c@ == calling_convention(arch),
    {
        match arch {
            Architecture::X86_64 => {
                let c = CallingConvention {
                    arg_regs: vec![5, 4, 1, 0, 2, 3],
                    ret_regs: vec![0],
                    caller_saved: vec![0, 1, 2, 8, 9, 10, 11],
                    callee_saved: vec![3, 12, 13, 14, 15],
                    stack_ptr: 4,
                    base_ptr: Some(5),
                };
                assert(c@.arg_regs =~= seq![5u32, 4, 1, 0, 2, 3]);
                assert(c@.ret_regs =~= seq![0u32]);
                assert(c@.caller_saved =~= seq![0u32, 1, 2, 8, 9, 10, 11]);
                assert(c@.callee_saved =~= seq![3u32, 12, 13, 14, 15]);
                c
            },
            Architecture::ARM64 => {
                let c = CallingConvention {
                    arg_regs: Self::range_regs(0, 8),
                    ret_regs: vec![0],
                    caller_saved: Self::range_regs(0, 15),
                    callee_saved: Self::range_regs(19, 28),
                    stack_ptr: 31,
                    base_ptr: Some(29),
                };
                assert(c@.ret_regs =~= seq![0u32]);
                c
            },
            Architecture::RISCV64 => {
                let c = CallingConvention {
                    arg_regs: Self::range_regs(10, 17),
                    ret_regs: vec![10, 11],
                    caller_saved: Self::range_regs(5, 7),
                    callee_saved: Self::range_regs(8, 9),
                    stack_ptr: 2,
                    base_ptr: Some(8),
                };
                assert(c@.ret_regs =~= seq![10u32, 11]);
                c
            },
        }
    }

    /// Finds the lifetime of every register that `instructions` read or
    /// define (see `lifetimes_spec`).
    pub fn analyze_lifetimes(&mut self, instructions: &[IROp])
        requires
            old(self).wf(),
        ensures
            final(self).wf(),
            final(self)@ == (MapperView { lifetimes: lifetimes_spec(instructions@), ..old(self)@ }),
    {
        let regs = mentioned_regs(instructions);
        let ghost ops = instructions@;
        let mut lts: Vec<RegisterLifetime> = Vec::new();
        let mut k: usize = 0;
        while k < regs.len()
            invariant
                k <= regs@.len(),
                regs@ == mentioned(ops),
                ops == instructions@,
                lifetimes_view(lts@) == regs@.subrange(0, k as int).map_values(|r: RegId| lifetime_of(ops, r)),
                forall|j: int| 0 <= j < lts@.len() ==> (#[trigger] lts@[j]).def_point < usize::MAX,
            decreases regs.len() - k,
        {
            let r = regs[k];
            let def_point: usize = match first_def(instructions, r) {
                Some(i) => i,
                None => 0,
            };
            assert(def_point < usize::MAX) by {
                assert(instructions@.len() == instructions.len());
            }
            let last: usize = match last_use(instructions, r) {
                Some(i) => i,
                None => 0,
            };
            let lt = RegisterLifetime { reg: r, def_point, last_use: last, use_points: Vec::new(), in_loop: false, loop_depth: 0 };
            assert(lt@ == lifetime_of(ops, r)) by {
                assert(lt@.use_points =~= Seq::<usize>::empty());
            }
            let ghost before = lts@;
            lts.push(lt);
            assert(forall|j: int| 0 <= j < before.len() ==> lts@[j] == before[j]);
            assert(lifetimes_view(lts@) =~= regs@.subrange(0, k + 1).map_values(|r: RegId| lifetime_of(ops, r))) by {
                assert(lts@ =~= before.push(lt));
                assert(lifetimes_view(lts@) =~= lifetimes_view(before).push(lt@));
            }
            k += 1;
        }
        assert(regs@.subrange(0, regs@.len() as int) =~= regs@);
        self.lifetimes = lts;
    }

    /// Whether the copy from `src` to `dst` can go (see `can_elim`).
    fn can_eliminate_copy(&self, src: RegId, dst: RegId, copy_map: &Vec<(RegId, RegId)>) -> (b: bool)
        requires
            self.wf(),
        ensures
            b == can_elim(self@.lifetimes, copy_map@, src, dst),
    {
        if src == dst {
            return true;
        }
        let mut k: usize = 0;
        while k < copy_map.len()
            invariant
                k <= copy_map@.len(),
                forall|j: int| 0 <= j < k ==> copy_map@[j] != (src, dst),
            decreases copy_map.len() - k,
        {
            if copy_map[k].0 == src && copy_map[k].1 == dst {
                assert(copy_map@[k as int] == (src, dst));
                return true;
            }
            k += 1;
        }
        let ghost lts = self@.lifetimes;
        let mut i: usize = 0;
        while i < self.lifetimes.len() && self.lifetimes[i].reg != src
            invariant
                i <= lts.len(),
                lts == lifetimes_view(self.lifetimes@),
                first_lifetime_from(lts, src, 0) == first_lifetime_from(lts, src, i as int),
            decreases self.lifetimes.len() - i,
        {
            assert(lts[i as int] == self.lifetimes@[i as int]@);
            i += 1;
        }
        if i < self.lifetimes.len() {
            assert(lts[i as int] == self.lifetimes@[i as int]@);
            let lt = &self.lifetimes[i];
            assert(lt.def_point < usize::MAX);
            lt.use_points.len() == 1 && lt.def_point + 1 == lt.last_use
        } else {
            false
        }
    }

    /// Drops redundant register copies from `instructions` (see
    /// `copy_fold`): the kept operations are returned, every copy is
    /// recorded and counted.
    pub fn eliminate_copies(&mut self, instructions: &[IROp]) -> (r: Vec<IROp>)
        requires
            old(self).wf(),
            old(self)@.stats.total_copies + instructions@.len() <= usize::MAX,
            old(self)@.stats.copies_eliminated + instructions@.len() <= usize::MAX,
        ensures
            final(self).wf(),
            ({
                let cf = copy_fold(old(self)@.lifetimes, instructions@);
                &&& r@ == cf.optimized
                &&& final(self)@ == (MapperView {
                    copies: old(self)@.copies + cf.copies,
                    stats: OptimizationStats {
                        total_copies: (old(self)@.stats.total_copies + cf.total) as usize,
                        copies_eliminated: (old(self)@.stats.copies_eliminated + cf.eliminated) as usize,
                        ..old(self)@.stats
                    },
                    ..old(self)@
                })
            }),
    {
        let ghost s = self@;
        let ghost ops = instructions@;
        let ghost lts = s.lifetimes;
        let mut optimized: Vec<IROp> = Vec::new();
        let mut copy_map: Vec<(RegId, RegId)> = Vec::new();
        let mut idx: usize = 0;
        proof {
            lemma_copy_counts(lts, ops);
        }
        while idx < instructions.len()
            invariant
                idx <= ops.len(),
                ops == instructions@,
                self.wf(),
                self@.lifetimes == lts,
                s.stats.total_copies + ops.len() <= usize::MAX,
                s.stats.copies_eliminated + ops.len() <= usize::MAX,
                copy_fold(lts, ops).eliminated <= copy_fold(lts, ops).total <= ops.len(),
                ({
                    let cf = copy_fold(lts, ops.subrange(0, idx as int));
                    &&& optimized@ == cf.optimized
                    &&& copy_map@ == cf.map
                    &&& cf.eliminated <= cf.total <= idx
                    &&& self@ == (MapperView {
                        copies: s.copies + cf.copies,
                        stats: OptimizationStats {
                            total_copies: (s.stats.total_copies + cf.total) as usize,
                            copies_eliminated: (s.stats.copies_eliminated + cf.eliminated) as usize,
                            ..s.stats
                        },
                        ..s
                    })
                }),
            decreases instructions.len() - idx,
        {
            let ghost pre = ops.subrange(0, idx as int);
            let ghost pre1 = ops.subrange(0, idx + 1);
            assert(pre1.drop_last() =~= pre);
            assert(pre1.last() == ops[idx as int]);
            proof {
                lemma_copy_counts(lts, pre1);
            }
            let ghost cf = copy_fold(lts, pre);
            let op = instructions[idx];
            match op {
                IROp::Mov { dst, src } => {
                    let elim = self.can_eliminate_copy(src, dst, &copy_map);
                    let reason = if elim {
                        Some(text("Redundant copy"))
                    } else {
                        None
                    };
                    let ghost copies0 = self.copies@;
                    let rc = RegisterCopy { src, dst, position: idx, can_eliminate: elim, eliminate_reason: reason };
                    let ghost cv = rc@;
                    self.copies.push(rc);
                    proof {
                        let c1 = copy_fold(lts, pre1);
                        assert(cv.eliminate_reason == if elim { Some("Redundant copy"@) } else { None::<Seq<char>> });
                        assert(c1.copies == cf.copies.push(cv));
                        assert(copies_view(self.copies@) =~= copies_view(copies0).push(cv));
                        assert(copies_view(self.copies@) =~= s.copies + c1.copies);
                    }
                    self.optimization_stats.total_copies = self.optimization_stats.total_copies + 1;
                    if elim {
                        self.optimization_stats.copies_eliminated = self.optimization_stats.copies_eliminated + 1;
                        copy_map.push((src, dst));
                    } else {
                        optimized.push(op);
                    }
                },
                _ => {
                    optimized.push(op);
                },
            }
            idx += 1;
        }
        assert(ops.subrange(0, ops.len() as int) =~= ops);
        optimized
    }

    /// The live ranges of the lifetimes (see `ranges_of`).
    fn build_live_ranges(&self) -> (r: Vec<(RegId, (usize, usize))>)
        ensures
            r@ == ranges_of(self@.lifetimes),
    {
        let ghost lts = self@.lifetimes;
        let mut r: Vec<(RegId, (usize, usize))> = Vec::new();
        let mut i: usize = 0;
        while i < self.lifetimes.len()
            invariant
                i <= lts.len(),
                lts == lifetimes_view(self.lifetimes@),
                r@ == ranges_of(lts.subrange(0, i as int)),
            decreases self.lifetimes.len() - i,
        {
            assert(lts[i as int] == self.lifetimes@[i as int]@);
            let lt = &self.lifetimes[i];
            r.push((lt.reg, (lt.def_point, lt.last_use)));
            assert(r@ =~= ranges_of(lts.subrange(0, i + 1)));
            i += 1;
        }
        assert(lts.subrange(0, lts.len() as int) =~= lts);
        r
    }

    /// The interference graph of the ranges (see `graph_of`).
    fn build_interference_graph(live_ranges: &Vec<(RegId, (usize, usize))>) -> (g: Vec<InterferenceNode>)
        ensures
            g@.map_values(|n: InterferenceNode| n@) == graph_of(live_ranges@),
    {
        let ghost rs = live_ranges@;
        let mut g: Vec<InterferenceNode> = Vec::new();
        let mut i: usize = 0;
        while i < live_ranges.len()
            invariant
                i <= rs.len(),
                rs == live_ranges@,
                g@.map_values(|n: InterferenceNode| n@) == graph_of(rs).subrange(0, i as int),
            decreases live_ranges.len() - i,
        {
            let (reg, (start_i, end_i)) = live_ranges[i];
            let mut conflicts: Vec<RegId> = Vec::new();
            let mut j: usize = 0;
            while j < live_ranges.len()
                invariant
                    j <= rs.len(),
                    i < rs.len(),
                    rs == live_ranges@,
                    rs[i as int] == (reg, (start_i, end_i)),
                    conflicts@ == conflicts_upto(rs, i as int, j as int),
                decreases live_ranges.len() - j,
            {
                let (reg_j, (start_j, end_j)) = live_ranges[j];
                if j != i && start_i <= end_j && start_j <= end_i {
                    conflicts.push(reg_j);
                }
                j += 1;
            }
            let class = if reg < 16 {
                RegisterClass::General
            } else if reg < 24 {
                RegisterClass::Float
            } else {
                RegisterClass::Vector
            };
            let priority = conflicts.len() as u32;
            let node = InterferenceNode { reg, conflicts, class, priority, allocated: false };
            let ghost before = g@;
            g.push(node);
            proof {
                assert(g@.map_values(|n: InterferenceNode| n@) =~= before.map_values(|n: InterferenceNode| n@).push(
                    node_of(rs, i as int),
                ));
                assert(graph_of(rs).subrange(0, i + 1) =~= graph_of(rs).subrange(0, i as int).push(node_of(rs, i as int)));
            }
            i += 1;
        }
        assert(graph_of(rs).subrange(0, rs.len() as int) =~= graph_of(rs));
        g
    }

    /// The positions of the nodes in priority order (see `by_priority`).
    fn priority_order(g: &Vec<InterferenceNode>) -> (order: Vec<usize>)
        ensures
            order@.len() == g@.len(),
            forall|t: int| 0 <= t < order@.len() ==> #[trigger] order@[t] < g@.len(),
            order@.map_values(|j: usize| g@[j as int]@) == by_priority(g@.map_values(|n: InterferenceNode| n@)),
    {
        let ghost gv = g@.map_values(|n: InterferenceNode| n@);
        let mut order: Vec<usize> = Vec::new();
        let mut k: usize = 0;
        while k < g.len()
            invariant
                k <= g@.len(),
                gv == g@.map_values(|n: InterferenceNode| n@),
                order@.len() == k,
                forall|t: int| 0 <= t < order@.len() ==> #[trigger] order@[t] < k,
                order@.map_values(|j: usize| g@[j as int]@) == by_priority(gv.subrange(0, k as int)),
            decreases g.len() - k,
        {
            let ghost sub1 = gv.subrange(0, k + 1);
            assert(sub1.drop_last() =~= gv.subrange(0, k as int));
            assert(sub1.last() == g@[k as int]@);
            let p = g[k].priority;
            let ghost sv = order@.map_values(|j: usize| g@[j as int]@);
            let mut q: usize = 0;
            while q < order.len() && g[order[q]].priority >= p
                invariant
                    q <= order@.len(),
                    sv == order@.map_values(|j: usize| g@[j as int]@),
                    forall|t: int| 0 <= t < order@.len() ==> #[trigger] order@[t] < k,
                    k < g@.len(),
                    first_below_priority(sv, p, 0) == first_below_priority(sv, p, q as int),
                decreases order.len() - q,
            {
                assert(sv[q as int] == g@[order@[q as int] as int]@);
                q += 1;
            }
            proof {
                if q < order@.len() {
                    assert(sv[q as int] == g@[order@[q as int] as int]@);
                }
            }
            let ghost o0 = order@;
            order.insert(q, k);
            proof {
                assert(order@.map_values(|j: usize| g@[j as int]@) =~= sv.insert(q as int, g@[k as int]@));
                assert forall|t: int| 0 <= t < order@.len() implies #[trigger] order@[t] < k + 1 by {
                    if t < q {
                        assert(order@[t] == o0[t]);
                    } else if t > q {
                        assert(order@[t] == o0[t - 1]);
                    }
                }
            }
            k += 1;
        }
        assert(gv.subrange(0, g@.len() as int) =~= gv);
        order
    }

    /// A register to reuse for `reg` (see `try_reuse_spec`).
    fn try_reuse_register(&mut self, reg: RegId) -> (r: Option<RegId>)
        requires
            old(self).wf(),
            old(self)@.stats.temps_reused < usize::MAX,
        ensures
            final(self).wf(),
            (final(self)@, r) == try_reuse_spec(old(self)@, reg),
    {
        let ghost s = self@;
        match find_reg_pair(&self.reuse_mapping, reg) {
            Some(i) => {
                let t = self.reuse_mapping[i].1;
                if !holds(&self.allocated_targets, t) {
                    return Some(t);
                }
            },
            None => {},
        }
        if self.reusable_temps.len() > 0 {
            let temp_reg = self.reusable_temps.remove(0);
            self.optimization_stats.temps_reused = self.optimization_stats.temps_reused + 1;
            assert(self@.reusable =~= s.reusable.drop_first());
            assert(self@.lifetimes == s.lifetimes);
            return Some(temp_reg);
        }
        None
    }

    /// The first register of the table fitting `first_candidate`.
    fn first_candidate_exec(&self, class: RegisterClass, kind: u8) -> (r: Option<RegId>)
        requires
            kind <= 2,
        ensures
            r == first_candidate(self@.target_regs, self@.allocated, class, kind as nat, 0),
    {
        let ghost regs = self@.target_regs;
        let mut i: usize = 0;
        while i < self.target_regs.len()
            invariant
                i <= regs.len(),
                regs == self.target_regs@,
                kind <= 2,
                first_candidate(regs, self@.allocated, class, kind as nat, 0) == first_candidate(
                    regs,
                    self@.allocated,
                    class,
                    kind as nat,
                    i as int,
                ),
            decreases self.target_regs.len() - i,
        {
            let r = self.target_regs[i];
            let fits = if kind == 0 {
                !r.callee_saved && r.can_be_temp
            } else if kind == 1 {
                r.callee_saved && r.can_be_temp
            } else {
                true
            };
            if r.class == class && !holds(&self.allocated_targets, r.id) && fits {
                return Some(r.id);
            }
            i += 1;
        }
        None
    }

    /// A free target register of `class` (see `find_available`).
    fn find_available_register(&self, class: RegisterClass) -> (r: Option<RegId>)
        ensures
            r == find_available(self@.target_regs, self@.allocated, class),
    {
        match self.first_candidate_exec(class, 0) {
            Some(r) => Some(r),
            None => match self.first_candidate_exec(class, 1) {
                Some(r) => Some(r),
                None => self.first_candidate_exec(class, 2),
            },
        }
    }

    /// Analyses `instructions`, drops their redundant copies, and assigns a
    /// target register to each register of the block, the most conflicting
    /// first (see `prepared`, `graph_of`, `by_priority`, `alloc_all`); a
    /// register that gets none ends the assignment with an error.
    pub fn allocate_registers(&mut self, instructions: &[IROp]) -> (r: Result<(), String>)
        requires
            old(self).wf(),
            3 * instructions@.len() <= usize::MAX,
            old(self)@.stats.total_copies + instructions@.len() <= usize::MAX,
            old(self)@.stats.copies_eliminated + instructions@.len() <= usize::MAX,
            old(self)@.stats.registers_reused + 3 * instructions@.len() <= usize::MAX,
            old(self)@.stats.temps_reused + 3 * instructions@.len() <= usize::MAX,
            old(self)@.stats.total_allocations + 3 * instructions@.len() <= usize::MAX,
        ensures
            final(self).wf(),
            ({
                let p = prepared(old(self)@, instructions@);
                let a = alloc_all(p, by_priority(graph_of(ranges_of(p.lifetimes))));
                &&& final(self)@ == a.0
                &&& match a.1 {
                    None => r is Ok,
                    Some(reg) => r matches Err(m) && m@ == alloc_failure(reg),
                }
            }),
    {
        let ghost s0 = self@;
        self.analyze_lifetimes(instructions);
        let _optimized = self.eliminate_copies(instructions);
        let ghost p = self@;
        assert(p == prepared(s0, instructions@));
        let live_ranges = self.build_live_ranges();
        let nodes = Self::build_interference_graph(&live_ranges);
        let order = Self::priority_order(&nodes);
        let ghost sorted = by_priority(graph_of(ranges_of(p.lifetimes)));
        proof {
            lemma_mentioned_len(instructions@);
            lemma_by_priority_len(graph_of(ranges_of(p.lifetimes)));
        }
        let mut t: usize = 0;
        while t < order.len()
            invariant
                t <= order@.len(),
                order@.len() == nodes@.len(),
                nodes@.len() == p.lifetimes.len(),
                p.lifetimes.len() <= 3 * instructions@.len(),
                forall|u: int| 0 <= u < order@.len() ==> #[trigger] order@[u] < nodes@.len(),
                order@.map_values(|j: usize| nodes@[j as int]@) == sorted,
                sorted.len() == nodes@.len(),
                self.wf(),
                p.stats.registers_reused + 3 * instructions@.len() <= usize::MAX,
                p.stats.temps_reused + 3 * instructions@.len() <= usize::MAX,
                p.stats.total_allocations + 3 * instructions@.len() <= usize::MAX,
                self@.stats.registers_reused <= p.stats.registers_reused + t,
                self@.stats.temps_reused <= p.stats.temps_reused + t,
                self@.stats.total_allocations <= p.stats.total_allocations + t,
                alloc_all(p, sorted.subrange(0, t as int)) == (self@, None::<RegId>),
                p == prepared(old(self)@, instructions@),
                sorted == by_priority(graph_of(ranges_of(p.lifetimes))),
            decreases order.len() - t,
        {
            let ghost pre1 = sorted.subrange(0, t + 1);
            assert(pre1.drop_last() =~= sorted.subrange(0, t as int));
            assert(pre1.last() == sorted[t as int]);
            assert(sorted[t as int] == nodes@[order@[t as int] as int]@);
            let node = &nodes[order[t]];
            let ghost before = self@;
            match self.try_reuse_register(node.reg) {
                Some(reused) => {
                    put_reg_pair(&mut self.current_mapping, node.reg, reused);
                    take(&mut self.allocated_targets, reused);
                    self.optimization_stats.registers_reused = self.optimization_stats.registers_reused + 1;
                },
                None => {
                    match self.find_available_register(node.class) {
                        Some(target) => {
                            put_reg_pair(&mut self.current_mapping, node.reg, target);
                            take(&mut self.allocated_targets, target);
                            self.optimization_stats.total_allocations = self.optimization_stats.total_allocations + 1;
                        },
                        None => {
                            let mut msg = text("Failed to allocate register for source register ");
                            push_u64(&mut msg, node.reg as u64);
                            proof {
                                assert(alloc_all(p, pre1) == (self@, Some(node.reg)));
                                lemma_alloc_failure_stays(p, sorted, t + 1);
                                assert(alloc_all(p, sorted) == (self@, Some(node.reg)));
                                assert(msg@ == alloc_failure(node.reg));
                            }
                            return Err(msg);
                        },
                    }
                },
            }
            t += 1;
        }
        assert(sorted.subrange(0, sorted.len() as int) =~= sorted);
        Ok(())
    }

    /// The target register of `source_reg`, or 0 where it has none.
    pub fn map_register(&self, source_reg: RegId) -> (r: RegId)
        requires
            self.wf(),
        ensures
            r == match get(self@.mapping, source_reg) {
                Some(t) => t,
                None => 0,
            },
    {
        match find_reg_pair(&self.current_mapping, source_reg) {
            Some(i) => self.current_mapping[i].1,
            None => 0,
        }
    }

    /// Hands out a temporary register (see `allocate_temp_spec`).
    pub fn allocate_temp(&mut self) -> (r: Option<RegId>)
        requires
            old(self).wf(),
            old(self)@.stats.temps_reused < usize::MAX,
        ensures
            final(self).wf(),
            (final(self)@, r) == allocate_temp_spec(old(self)@),
    {
        let ghost s = self@;
        if self.reusable_temps.len() > 0 {
            let temp_reg = self.reusable_temps.remove(0);
            take(&mut self.allocated_targets, temp_reg);
            self.temp_usages.push(
                TempRegisterUsage { reg: temp_reg, allocated_at: 0, released_at: None, use_count: 0, can_reuse: true },
            );
            self.optimization_stats.temps_reused = self.optimization_stats.temps_reused + 1;
            assert(self@.reusable =~= s.reusable.drop_first());
            return Some(temp_reg);
        }
        if self.next_temp < self.calling_conv.caller_saved.len() {
            let reg = self.calling_conv.caller_saved[self.next_temp];
            self.next_temp = self.next_temp + 1;
            take(&mut self.allocated_targets, reg);
            self.temp_usages.push(TempRegisterUsage { reg, allocated_at: 0, released_at: None, use_count: 0, can_reuse: true });
            assert(self@.lifetimes == s.lifetimes);
            Some(reg)
        } else {
            None
        }
    }

    /// Gives temporary `reg` back (see `release_temp_spec`).
    pub fn release_temp(&mut self, reg: RegId)
        requires
            old(self).wf(),
            first_usage_from(old(self)@.temp_usages, reg, 0) matches Some(i) ==> old(self)@.temp_usages[i].use_count
                < usize::MAX,
        ensures
            final(self).wf(),
            final(self)@ == release_temp_spec(old(self)@, reg),
    {
        let ghost s = self@;
        give(&mut self.allocated_targets, reg);
        let mut i: usize = 0;
        while i < self.temp_usages.len() && self.temp_usages[i].reg != reg
            invariant
                i <= s.temp_usages.len(),
                self.temp_usages@ == s.temp_usages,
                first_usage_from(s.temp_usages, reg, 0) == first_usage_from(s.temp_usages, reg, i as int),
            decreases self.temp_usages.len() - i,
        {
            i += 1;
        }
        if i < self.temp_usages.len() {
            let u = self.temp_usages[i];
            self.temp_usages.set(
                i,
                TempRegisterUsage { released_at: Some(0), use_count: u.use_count + 1, ..u },
            );
            if u.can_reuse {
                self.reusable_temps.push(reg);
            }
        }
    }

    /// Forgets every mapping, lifetime, copy and temporary, and the counters.
    pub fn reset(&mut self)
        ensures
            final(self).wf(),
            final(self)@ == (MapperView {
                mapping: Seq::empty(),
                allocated: Seq::empty(),
                lifetimes: Seq::empty(),
                copies: Seq::empty(),
                temp_usages: Seq::empty(),
                reusable: Seq::empty(),
                next_temp: 0,
                reuse_mapping: Seq::empty(),
                stats: zero_stats(),
                ..old(self)@
            }),
    {
        self.current_mapping.clear();
        self.allocated_targets.clear();
        self.lifetimes.clear();
        self.copies.clear();
        self.temp_usages.clear();
        self.reusable_temps.clear();
        self.next_temp = 0;
        self.reuse_mapping.clear();
        self.optimization_stats = OptimizationStats::default();
        assert(self@.lifetimes =~= Seq::<LifetimeView>::empty());
        assert(self@.copies =~= Seq::<CopyView>::empty());
    }

    /// The counts of the current mapping.
    pub fn get_stats(&self) -> (s: RegisterAllocationStats)
        ensures
            s == (RegisterAllocationStats {
                total_mappings: self@.mapping.len() as usize,
                allocated_targets: self@.allocated.len() as usize,
                temp_allocated: self@.next_temp,
                available_temps: self@.reusable.len() as usize,
            }),
    {
        RegisterAllocationStats {
            total_mappings: self.current_mapping.len(),
            allocated_targets: self.allocated_targets.len(),
            temp_allocated: self.next_temp,
            available_temps: self.reusable_temps.len(),
        }
    }

    pub fn get_optimization_stats(&self) -> (s: &OptimizationStats)
        ensures
            *s == self@.stats,
    {
        &self.optimization_stats
    }

    /// Notes that `src` may reuse target register `target`.
    pub fn set_reuse_mapping(&mut self, src: RegId, target: RegId)
        requires
            old(self).wf(),
        ensures
            final(self).wf(),
            final(self)@ == (MapperView { reuse_mapping: put(old(self)@.reuse_mapping, src, target), ..old(self)@ }),
    {
        put_reg_pair(&mut self.reuse_mapping, src, target);
    }

    /// The lifetimes of the last analysis.
    pub fn lifetimes(&self) -> (v: &Vec<RegisterLifetime>)
        ensures
            lifetimes_view(v@) == self@.lifetimes,
    {
        &self.lifetimes
    }

    /// The copies met so far.
    pub fn copies(&self) -> (v: &Vec<RegisterCopy>)
        ensures
            copies_view(v@) == self@.copies,
    {
        &self.copies
    }
}

/// `r` is a free register of `class` in the table `regs`.
pub open spec fn free_of_class(regs: Seq<RegisterInfo>, taken: Seq<RegId>, class: RegisterClass, r: RegisterInfo) -> bool {
    regs.contains(r) && r.class == class && !taken.contains(r.id)
}

/// `r` may serve as a temporary that a call does not preserve.
pub open spec fn caller_saved_temp(r: RegisterInfo) -> bool {
    !r.callee_saved && r.can_be_temp
}

proof fn lemma_first_candidate(regs: Seq<RegisterInfo>, taken: Seq<RegId>, class: RegisterClass, kind: nat, i: int)
    requires
        0 <= i,
    ensures
        first_candidate(regs, taken, class, kind, i) matches Some(t) ==> exists|k: int|
            i <= k < regs.len() && #[trigger] regs[k].id == t && regs[k].class == class && !taken.contains(t)
                && (kind == 0 ==> caller_saved_temp(regs[k])),
        first_candidate(regs, taken, class, kind, i) is None ==> forall|k: int|
            i <= k < regs.len() && #[trigger] regs[k].class == class && !taken.contains(regs[k].id) ==> (kind == 0
                && !caller_saved_temp(regs[k])) || (kind == 1 && !(regs[k].callee_saved && regs[k].can_be_temp)),
    decreases regs.len() - i,
{
    if i < regs.len() {
        lemma_first_candidate(regs, taken, class, kind, i + 1);
    }
}

/// The register search hands out free registers of the class asked for,
/// a caller-saved temporary where there is one, and finds none only where
/// every register of the class is taken.
pub proof fn lemma_find_available_free(regs: Seq<RegisterInfo>, taken: Seq<RegId>, class: RegisterClass)
    ensures
        find_available(regs, taken, class) matches Some(t) ==> exists|r: RegisterInfo|
            #[trigger] free_of_class(regs, taken, class, r) && r.id == t,
        (exists|r: RegisterInfo| #[trigger] free_of_class(regs, taken, class, r) && caller_saved_temp(r)) ==> (
        find_available(regs, taken, class) matches Some(t) && exists|r: RegisterInfo|
            #[trigger] free_of_class(regs, taken, class, r) && r.id == t && caller_saved_temp(r)),
        find_available(regs, taken, class) is None <==> !exists|r: RegisterInfo| #[trigger] free_of_class(regs, taken, class, r),
{
    lemma_first_candidate(regs, taken, class, 0, 0);
    lemma_first_candidate(regs, taken, class, 1, 0);
    lemma_first_candidate(regs, taken, class, 2, 0);
    if let Some(t) = find_available(regs, taken, class) {
        let kind: nat = if first_candidate(regs, taken, class, 0, 0) is Some {
            0
        } else if first_candidate(regs, taken, class, 1, 0) is Some {
            1
        } else {
            2
        };
        let k = choose|k: int|
            0 <= k < regs.len() && #[trigger] regs[k].id == t && regs[k].class == class && !taken.contains(t)
                && (kind == 0 ==> caller_saved_temp(regs[k]));
        assert(free_of_class(regs, taken, class, regs[k]));
        if exists|r: RegisterInfo| #[trigger] free_of_class(regs, taken, class, r) && caller_saved_temp(r) {
            let r = choose|r: RegisterInfo| #[trigger] free_of_class(regs, taken, class, r) && caller_saved_temp(r);
            let j = choose|j: int| 0 <= j < regs.len() && regs[j] == r;
            assert(regs[j].class == class);
            assert(kind == 0);
        }
    } else {
        if exists|r: RegisterInfo| #[trigger] free_of_class(regs, taken, class, r) {
            let r = choose|r: RegisterInfo| #[trigger] free_of_class(regs, taken, class, r);
            let j = choose|j: int| 0 <= j < regs.len() && regs[j] == r;
            assert(regs[j].class == class);
        }
    }
}

} // verus!
