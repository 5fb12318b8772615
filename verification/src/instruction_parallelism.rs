//! Instruction-level parallelism: the register dependency graph of a
//! sequence of IR operations, and its division into groups of operations
//! that can issue together within the execution resources of the target.

use vstd::prelude::*;
use crate::encoding::Architecture;
use crate::ir::{IROp, RegId};

verus! {

/// Kind of a register dependency between two operations.
#[derive(Debug, Clone, Copy, PartialEq, Eq, Structural)]
pub enum DependencyType {
    /// Read after write.
    True,
    /// Write after read.
    Anti,
    /// Write after write.
    Output,
}

/// A dependency of operation `to` on the earlier operation `from`.
#[derive(Debug, Clone, Copy, PartialEq, Eq, Structural)]
pub struct DependencyEdge {
    pub from: usize,
    pub to: usize,
    pub dep_type: DependencyType,
    pub register: RegId,
}

/// Execution resources, as units of each kind.
#[derive(Debug, Clone, Copy, PartialEq, Eq, Structural)]
pub struct ResourceRequirements {
    pub alu_units: u32,
    pub memory_ports: u32,
    pub vector_units: u32,
    pub branch_units: u32,
}

impl Default for ResourceRequirements {
    fn default() -> (r: Self)
        ensures
            r == no_resources(),
    {
        ResourceRequirements { alu_units: 0, memory_ports: 0, vector_units: 0, branch_units: 0 }
    }
}

pub open spec fn no_resources() -> ResourceRequirements {
    ResourceRequirements { alu_units: 0, memory_ports: 0, vector_units: 0, branch_units: 0 }
}

/// The resources of each target: x86-64 8 ALUs, 4 memory ports, 2 vector
/// and 2 branch units; ARM64 the same with 3 memory ports; RISC-V64 6 ALUs,
/// 2 memory ports, 1 vector and 1 branch unit.
pub open spec fn resources_of_arch(arch: Architecture) -> ResourceRequirements {
    match arch {
        Architecture::X86_64 => ResourceRequirements { alu_units: 8, memory_ports: 4, vector_units: 2, branch_units: 2 },
        Architecture::ARM64 => ResourceRequirements { alu_units: 8, memory_ports: 3, vector_units: 2, branch_units: 2 },
        Architecture::RISCV64 => ResourceRequirements { alu_units: 6, memory_ports: 2, vector_units: 1, branch_units: 1 },
    }
}

impl ResourceRequirements {
    pub fn for_architecture(arch: Architecture) -> (r: Self)
        ensures
            r == resources_of_arch(arch),
    {
        match arch {
            Architecture::X86_64 => ResourceRequirements { alu_units: 8, memory_ports: 4, vector_units: 2, branch_units: 2 },
            Architecture::ARM64 => ResourceRequirements { alu_units: 8, memory_ports: 3, vector_units: 2, branch_units: 2 },
            Architecture::RISCV64 => ResourceRequirements { alu_units: 6, memory_ports: 2, vector_units: 1, branch_units: 1 },
        }
    }
}

/// The registers an operation reads: both sources of two-register ALU
/// operations, source and shift register of register shifts, the stored
/// register of a store, the source of a move; none for others.
pub open spec fn reads_of(op: IROp) -> Seq<RegId> {
    match op {
        IROp::Add { src1, src2, .. } | IROp::Sub { src1, src2, .. } | IROp::Mul { src1, src2, .. } | IROp::Div {
            src1,
            src2,
            ..
        } | IROp::Rem { src1, src2, .. } | IROp::And { src1, src2, .. } | IROp::Or { src1, src2, .. } | IROp::Xor {
            src1,
            src2,
            ..
        } => seq![src1, src2],
        IROp::Sll { src, shreg, .. } | IROp::Srl { src, shreg, .. } | IROp::Sra { src, shreg, .. } => seq![src, shreg],
        IROp::Store { src, .. } => seq![src],
        IROp::Mov { src, .. } => seq![src],
        _ => Seq::empty(),
    }
}

/// The registers an operation writes: the destination of two-register ALU
/// operations, register shifts, loads, immediate moves and moves.
pub open spec fn writes_of(op: IROp) -> Seq<RegId> {
    match op {
        IROp::Add { dst, .. } | IROp::Sub { dst, .. } | IROp::Mul { dst, .. } | IROp::Div { dst, .. } | IROp::Rem {
            dst,
            ..
        } | IROp::And { dst, .. } | IROp::Or { dst, .. } | IROp::Xor { dst, .. } => seq![dst],
        IROp::Sll { dst, .. } | IROp::Srl { dst, .. } | IROp::Sra { dst, .. } => seq![dst],
        IROp::Load { dst, .. } => seq![dst],
        IROp::MovImm { dst, .. } => seq![dst],
        IROp::Mov { dst, .. } => seq![dst],
        _ => Seq::empty(),
    }
}

/// The latency of an operation in cycles.
pub open spec fn latency_of(op: IROp) -> u32 {
    match op {
        IROp::Mul { .. } => 3,
        IROp::Div { .. } | IROp::Rem { .. } => 10,
        IROp::Load { .. } => 3,
        IROp::Store { .. } => 2,
        _ => 1,
    }
}

/// The resources an operation occupies: a memory port for loads and
/// stores, an ALU for ALU operations, comparisons and moves, and an ALU and
/// a branch unit for anything else.
pub open spec fn op_resources(op: IROp) -> ResourceRequirements {
    match op {
        IROp::Load { .. } | IROp::Store { .. } => ResourceRequirements { memory_ports: 1, ..no_resources() },
        IROp::Add { .. } | IROp::Sub { .. } | IROp::And { .. } | IROp::Or { .. } | IROp::Xor { .. } | IROp::Sll {
            ..
        } | IROp::Srl { .. } | IROp::Sra { .. } | IROp::CmpEq { .. } | IROp::CmpNe { .. } | IROp::CmpLt { .. }
        | IROp::CmpLtU { .. } | IROp::CmpGe { .. } | IROp::CmpGeU { .. } | IROp::Mul { .. } | IROp::Div { .. }
        | IROp::Rem { .. } | IROp::Mov { .. } | IROp::MovImm { .. } => ResourceRequirements { alu_units: 1, ..no_resources() },
        _ => ResourceRequirements { alu_units: 1, branch_units: 1, ..no_resources() },
    }
}

/// The first register of `xs` that `ys` holds.
pub open spec fn first_common(xs: Seq<RegId>, ys: Seq<RegId>) -> Option<RegId>
    decreases xs.len(),
{
    if xs.len() == 0 {
        None
    } else if ys.contains(xs[0]) {
        Some(xs[0])
    } else {
        first_common(xs.drop_first(), ys)
    }
}

/// The dependency of operation `j` on the earlier operation `i`, if any:
/// read after write first, then write after read, then write after write,
/// each on the first register (in the order of `i`'s registers) involved.
pub open spec fn dep_of(ops: Seq<IROp>, i: int, j: int) -> Option<DependencyEdge> {
    let (ri, wi, rj, wj) = (reads_of(ops[i]), writes_of(ops[i]), reads_of(ops[j]), writes_of(ops[j]));
    match first_common(wi, rj) {
        Some(r) => Some(DependencyEdge { from: i as usize, to: j as usize, dep_type: DependencyType::True, register: r }),
        None => match first_common(ri, wj) {
            Some(r) => Some(DependencyEdge { from: i as usize, to: j as usize, dep_type: DependencyType::Anti, register: r }),
            None => match first_common(wi, wj) {
                Some(r) => Some(DependencyEdge { from: i as usize, to: j as usize, dep_type: DependencyType::Output, register: r }),
                None => None,
            },
        },
    }
}

/// The edges out of `i` to the operations in `[a, b)`, in order.
pub open spec fn row_part(ops: Seq<IROp>, i: int, a: int, b: int) -> Seq<DependencyEdge>
    decreases b - a,
{
    if b <= a {
        Seq::empty()
    } else {
        row_part(ops, i, a, b - 1) + match dep_of(ops, i, b - 1) {
            Some(e) => seq![e],
            None => Seq::empty(),
        }
    }
}

/// All edges out of the operations before `i`, row by row.
pub open spec fn edges_prefix(ops: Seq<IROp>, i: int) -> Seq<DependencyEdge>
    decreases i,
{
    if i <= 0 {
        Seq::empty()
    } else {
        edges_prefix(ops, i - 1) + row_part(ops, i - 1, i, ops.len() as int)
    }
}

/// The operations in `[a, b)` that depend on `i`, in order.
pub open spec fn succ_part(ops: Seq<IROp>, i: int, a: int, b: int) -> Seq<usize>
    decreases b - a,
{
    if b <= a {
        Seq::empty()
    } else {
        succ_part(ops, i, a, b - 1) + if dep_of(ops, i, b - 1) is Some {
            seq![(b - 1) as usize]
        } else {
            Seq::empty()
        }
    }
}

/// The operations before `i` that `j` depends on, in order.
pub open spec fn pred_part(ops: Seq<IROp>, j: int, i: int) -> Seq<usize>
    decreases i,
{
    if i <= 0 {
        Seq::empty()
    } else {
        pred_part(ops, j, i - 1) + if dep_of(ops, i - 1, j) is Some {
            seq![(i - 1) as usize]
        } else {
            Seq::empty()
        }
    }
}

/// One node of the dependency graph.
#[derive(Debug, Clone)]
pub struct InstructionNode {
    pub index: usize,
    pub op: IROp,
    pub reads: Vec<RegId>,
    pub writes: Vec<RegId>,
    pub predecessors: Vec<usize>,
    pub successors: Vec<usize>,
    pub can_parallel: bool,
    pub parallel_group: Option<usize>,
    pub latency: u32,
}

pub struct NodeView {
    pub index: usize,
    pub op: IROp,
    pub reads: Seq<RegId>,
    pub writes: Seq<RegId>,
    pub predecessors: Seq<usize>,
    pub successors: Seq<usize>,
    pub can_parallel: bool,
    pub parallel_group: Option<usize>,
    pub latency: u32,
}

impl View for InstructionNode {
    type V = NodeView;

    open spec fn view(&self) -> NodeView {
        NodeView {
            index: self.index,
            op: self.op,
            reads: self.reads@,
            writes: self.writes@,
            predecessors: self.predecessors@,
            successors: self.successors@,
            can_parallel: self.can_parallel,
            parallel_group: self.parallel_group,
            latency: self.latency,
        }
    }
}

/// The node of operation `k` with the given dependency lists, not yet
/// scheduled.
pub open spec fn graph_node(ops: Seq<IROp>, k: int, preds: Seq<usize>, succs: Seq<usize>) -> NodeView {
    NodeView {
        index: k as usize,
        op: ops[k],
        reads: reads_of(ops[k]),
        writes: writes_of(ops[k]),
        predecessors: preds,
        successors: succs,
        can_parallel: false,
        parallel_group: None,
        latency: latency_of(ops[k]),
    }
}

/// The complete node of operation `k` in the dependency graph of `ops`.
pub open spec fn full_node(ops: Seq<IROp>, k: int) -> NodeView {
    graph_node(ops, k, pred_part(ops, k, k), succ_part(ops, k, k + 1, ops.len() as int))
}

pub open spec fn nodes_view(v: Seq<InstructionNode>) -> Seq<NodeView> {
    v.map_values(|n: InstructionNode| n@)
}

/// `x` occurs in `v`.
fn contains_reg(v: &Vec<RegId>, x: RegId) -> (b: bool)
    ensures
        b == v@.contains(x),
{
    let mut i: usize = 0;
    while i < v.len()
        invariant
            i <= v@.len(),
            forall|j: int| 0 <= j < i ==> v@[j] != x,
        decreases v.len() - i,
    {
        if v[i] == x {
            assert(v@[i as int] == x);
            return true;
        }
        i += 1;
    }
    false
}

/// The first register of `xs` that `ys` holds.
fn first_common_exec(xs: &Vec<RegId>, ys: &Vec<RegId>) -> (r: Option<RegId>)
    ensures
        r == first_common(xs@, ys@),
{
    let mut i: usize = 0;
    assert(xs@.subrange(0, xs@.len() as int) =~= xs@);
    while i < xs.len()
        invariant
            i <= xs@.len(),
            first_common(xs@, ys@) == first_common(xs@.subrange(i as int, xs@.len() as int), ys@),
        decreases xs.len() - i,
    {
        let ghost rest = xs@.subrange(i as int, xs@.len() as int);
        assert(rest[0] == xs@[i as int]);
        assert(rest.drop_first() =~= xs@.subrange(i + 1, xs@.len() as int));
        if contains_reg(ys, xs[i]) {
            return Some(xs[i]);
        }
        i += 1;
    }
    assert(xs@.subrange(i as int, xs@.len() as int) =~= Seq::<RegId>::empty());
    None
}

/// The registers read and written by `op` (see `reads_of`, `writes_of`).
fn analyze_instruction_io(op: &IROp) -> (r: (Vec<RegId>, Vec<RegId>))
    ensures
        r.0@ == reads_of(*op),
        r.1@ == writes_of(*op),
{
    let mut reads: Vec<RegId> = Vec::new();
    let mut writes: Vec<RegId> = Vec::new();
    match op {
        IROp::Add { dst, src1, src2 } | IROp::Sub { dst, src1, src2 } | IROp::Mul { dst, src1, src2 } | IROp::Div {
            dst,
            src1,
            src2,
            ..
        } | IROp::Rem { dst, src1, src2, .. } | IROp::And { dst, src1, src2 } | IROp::Or { dst, src1, src2 }
        | IROp::Xor { dst, src1, src2 } => {
            reads.push(*src1);
            reads.push(*src2);
            writes.push(*dst);
        },
        IROp::Sll { dst, src, shreg } | IROp::Srl { dst, src, shreg } | IROp::Sra { dst, src, shreg } => {
            reads.push(*src);
            reads.push(*shreg);
            writes.push(*dst);
        },
        IROp::Load { dst, .. } => {
            writes.push(*dst);
        },
        IROp::Store { src, .. } => {
            reads.push(*src);
        },
        IROp::MovImm { dst, .. } => {
            writes.push(*dst);
        },
        IROp::Mov { dst, src } => {
            reads.push(*src);
            writes.push(*dst);
        },
        _ => {},
    }
    assert(reads@ =~= reads_of(*op));
    assert(writes@ =~= writes_of(*op));
    (reads, writes)
}

/// The latency of `op` (see `latency_of`).
fn estimate_instruction_latency(op: &IROp) -> (l: u32)
    ensures
        l == latency_of(*op),
{
    match op {
        IROp::Mul { .. } => 3,
        IROp::Div { .. } | IROp::Rem { .. } => 10,
        IROp::Load { .. } => 3,
        IROp::Store { .. } => 2,
        _ => 1,
    }
}

/// The resources of `op` (see `op_resources`).
fn estimate_resource_requirements(op: &IROp) -> (r: ResourceRequirements)
    ensures
        r == op_resources(*op),
{
    match op {
        IROp::Load { .. } | IROp::Store { .. } => ResourceRequirements {
            alu_units: 0,
            memory_ports: 1,
            vector_units: 0,
            branch_units: 0,
        },
        IROp::Add { .. } | IROp::Sub { .. } | IROp::And { .. } | IROp::Or { .. } | IROp::Xor { .. } | IROp::Sll {
            ..
        } | IROp::Srl { .. } | IROp::Sra { .. } | IROp::CmpEq { .. } | IROp::CmpNe { .. } | IROp::CmpLt { .. }
        | IROp::CmpLtU { .. } | IROp::CmpGe { .. } | IROp::CmpGeU { .. } | IROp::Mul { .. } | IROp::Div { .. }
        | IROp::Rem { .. } | IROp::Mov { .. } | IROp::MovImm { .. } => ResourceRequirements {
            alu_units: 1,
            memory_ports: 0,
            vector_units: 0,
            branch_units: 0,
        },
        _ => ResourceRequirements { alu_units: 1, memory_ports: 0, vector_units: 0, branch_units: 1 },
    }
}

/// The dependency of `to` on `from` (see `dep_of`).
fn check_dependency(from: &InstructionNode, to: &InstructionNode) -> (r: Option<DependencyEdge>)
    ensures
        r == (match first_common(from@.writes, to@.reads) {
            Some(reg) => Some(DependencyEdge { from: from.index, to: to.index, dep_type: DependencyType::True, register: reg }),
            None => match first_common(from@.reads, to@.writes) {
                Some(reg) => Some(DependencyEdge { from: from.index, to: to.index, dep_type: DependencyType::Anti, register: reg }),
                None => match first_common(from@.writes, to@.writes) {
                    Some(reg) => Some(DependencyEdge { from: from.index, to: to.index, dep_type: DependencyType::Output, register: reg }),
                    None => None,
                },
            },
        }),
{
    match first_common_exec(&from.writes, &to.reads) {
        Some(reg) => {
            return Some(DependencyEdge { from: from.index, to: to.index, dep_type: DependencyType::True, register: reg });
        },
        None => {},
    }
    match first_common_exec(&from.reads, &to.writes) {
        Some(reg) => {
            return Some(DependencyEdge { from: from.index, to: to.index, dep_type: DependencyType::Anti, register: reg });
        },
        None => {},
    }
    match first_common_exec(&from.writes, &to.writes) {
        Some(reg) => Some(DependencyEdge { from: from.index, to: to.index, dep_type: DependencyType::Output, register: reg }),
        None => None,
    }
}

/// A group of operations that issue together.
#[derive(Debug, Clone)]
pub struct ParallelGroup {
    pub id: usize,
    /// Indices of the operations in the group.
    pub instructions: Vec<usize>,
    /// The largest latency in the group.
    pub latency: u32,
    /// The resources the group occupies.
    pub resource_requirements: ResourceRequirements,
}

pub struct GroupView {
    pub id: usize,
    pub instructions: Seq<usize>,
    pub latency: u32,
    pub resource_requirements: ResourceRequirements,
}

impl View for ParallelGroup {
    type V = GroupView;

    open spec fn view(&self) -> GroupView {
        GroupView {
            id: self.id,
            instructions: self.instructions@,
            latency: self.latency,
            resource_requirements: self.resource_requirements,
        }
    }
}

pub open spec fn groups_view(v: Seq<ParallelGroup>) -> Seq<GroupView> {
    v.map_values(|g: ParallelGroup| g@)
}

/// Counts of the last analysis (the averages and rates that derive from
/// them are computed by the caller).
#[derive(Debug, Clone, Copy, PartialEq, Eq, Structural)]
pub struct ParallelismStats {
    pub total_instructions: usize,
    pub parallel_groups: usize,
    pub max_parallelism: usize,
    pub parallel_instructions: usize,
}

/// Builds the dependency graph of a sequence of operations and groups them
/// for parallel issue.
pub struct InstructionParallelizer {
    nodes: Vec<InstructionNode>,
    dependencies: Vec<DependencyEdge>,
    parallel_groups: Vec<ParallelGroup>,
    target_resources: ResourceRequirements,
    stats: ParallelismStats,
}

pub struct ParallelizerView {
    pub nodes: Seq<NodeView>,
    pub dependencies: Seq<DependencyEdge>,
    pub groups: Seq<GroupView>,
    pub target: ResourceRequirements,
    pub stats: ParallelismStats,
}

impl View for InstructionParallelizer {
    type V = ParallelizerView;

    closed spec fn view(&self) -> ParallelizerView {
        ParallelizerView {
            nodes: nodes_view(self.nodes@),
            dependencies: self.dependencies@,
            groups: groups_view(self.parallel_groups@),
            target: self.target_resources,
            stats: self.stats,
        }
    }
}

/// The dependency graph of `ops`: one complete node per operation.
pub open spec fn graph_of(ops: Seq<IROp>) -> Seq<NodeView> {
    Seq::new(ops.len(), |k: int| full_node(ops, k))
}

/// Replaces node `i` of `nodes` with `n`.
fn replace_node(nodes: &mut Vec<InstructionNode>, i: usize, n: InstructionNode)
    requires
        i < old(nodes)@.len(),
    ensures
        nodes_view(final(nodes)@) == nodes_view(old(nodes)@).update(i as int, n@),
{
    let ghost before = nodes_view(nodes@);
    nodes.set(i, n);
    assert(nodes_view(nodes@) =~= before.update(i as int, n@));
}

/// Adds `j` to the successors of node `i`.
fn push_successor(nodes: &mut Vec<InstructionNode>, i: usize, j: usize)
    requires
        i < old(nodes)@.len(),
    ensures
        final(nodes)@.len() == old(nodes)@.len(),
        nodes_view(final(nodes)@) == nodes_view(old(nodes)@).update(
            i as int,
            NodeView { successors: nodes_view(old(nodes)@)[i as int].successors.push(j), ..nodes_view(old(nodes)@)[i as int] },
        ),
{
    let ghost before = nodes_view(nodes@);
    let mut n = nodes.remove(i);
    n.successors.push(j);
    nodes.insert(i, n);
    assert(nodes_view(nodes@) =~= before.update(
        i as int,
        NodeView { successors: before[i as int].successors.push(j), ..before[i as int] },
    ));
}

/// Adds `i` to the predecessors of node `j`.
fn push_predecessor(nodes: &mut Vec<InstructionNode>, j: usize, i: usize)
    requires
        j < old(nodes)@.len(),
    ensures
        final(nodes)@.len() == old(nodes)@.len(),
        nodes_view(final(nodes)@) == nodes_view(old(nodes)@).update(
            j as int,
            NodeView { predecessors: nodes_view(old(nodes)@)[j as int].predecessors.push(i), ..nodes_view(old(nodes)@)[j as int] },
        ),
{
    let ghost before = nodes_view(nodes@);
    let mut n = nodes.remove(j);
    n.predecessors.push(i);
    nodes.insert(j, n);
    assert(nodes_view(nodes@) =~= before.update(
        j as int,
        NodeView { predecessors: before[j as int].predecessors.push(i), ..before[j as int] },
    ));
}

/// The predecessors of `k` that node views record while row `i` is being
/// processed up to column `j`.
pub open spec fn preds_during(ops: Seq<IROp>, k: int, i: int, j: int) -> Seq<usize> {
    if i < k < j {
        pred_part(ops, k, i + 1)
    } else if k < i {
        pred_part(ops, k, k)
    } else {
        pred_part(ops, k, i)
    }
}

/// The successors of `k` that node views record while row `i` is being
/// processed up to column `j`.
pub open spec fn succs_during(ops: Seq<IROp>, k: int, i: int, j: int) -> Seq<usize> {
    if k < i {
        succ_part(ops, k, k + 1, ops.len() as int)
    } else if k == i {
        succ_part(ops, i, i + 1, j)
    } else {
        Seq::empty()
    }
}

/// `r` does not exceed `t` in any kind of unit.
pub open spec fn fits(r: ResourceRequirements, t: ResourceRequirements) -> bool {
    &&& r.alu_units <= t.alu_units
    &&& r.memory_ports <= t.memory_ports
    &&& r.vector_units <= t.vector_units
    &&& r.branch_units <= t.branch_units
}

/// The units of each kind (ALU, memory, vector, branch) that the operations
/// of `nodes` at `idxs` occupy together.
pub open spec fn units_of(nodes: Seq<NodeView>, idxs: Seq<usize>) -> (int, int, int, int)
    decreases idxs.len(),
{
    if idxs.len() == 0 {
        (0, 0, 0, 0)
    } else {
        let u = units_of(nodes, idxs.drop_last());
        let r = op_resources(nodes[idxs.last() as int].op);
        (u.0 + r.alu_units, u.1 + r.memory_ports, u.2 + r.vector_units, u.3 + r.branch_units)
    }
}

pub open spec fn holds_units(r: ResourceRequirements, u: (int, int, int, int)) -> bool {
    &&& r.alu_units == u.0
    &&& r.memory_ports == u.1
    &&& r.vector_units == u.2
    &&& r.branch_units == u.3
}

/// The largest latency of the operations of `nodes` at `idxs` (0 for none).
pub open spec fn max_latency(nodes: Seq<NodeView>, idxs: Seq<usize>) -> u32
    decreases idxs.len(),
{
    if idxs.len() == 0 {
        0
    } else {
        let m = max_latency(nodes, idxs.drop_last());
        let l = nodes[idxs.last() as int].latency;
        if m >= l {
            m
        } else {
            l
        }
    }
}

/// Every predecessor of a node comes before it and lists the node among
/// its successors, and every successor is a node of the graph.
pub open spec fn well_linked(nodes: Seq<NodeView>) -> bool {
    &&& forall|j: int, q: int|
        0 <= j < nodes.len() && 0 <= q < nodes[j].predecessors.len() ==> (#[trigger] nodes[j].predecessors[q]) < j
            && nodes[nodes[j].predecessors[q] as int].successors.contains(j as usize)
    &&& forall|p: int, q: int|
        0 <= p < nodes.len() && 0 <= q < nodes[p].successors.len() ==> (#[trigger] nodes[p].successors[q])
            < nodes.len()
}

/// `n` before it was placed in a group.
pub open spec fn unscheduled(n: NodeView) -> NodeView {
    NodeView { can_parallel: false, parallel_group: None, ..n }
}

/// Group `g` of `groups` is a valid issue group of the graph `base`, whose
/// operations `nodes` assigns to groups: its id is `g`; it holds one or more
/// distinct operations, each assigned to `g` and each after every operation
/// it depends on, which sits in an earlier group; it records the units its
/// operations occupy, which fit the target unless it holds one operation;
/// and its latency is the largest of theirs.
pub open spec fn scheduled_group(
    base: Seq<NodeView>,
    nodes: Seq<NodeView>,
    groups: Seq<GroupView>,
    g: int,
    target: ResourceRequirements,
) -> bool {
    let grp = groups[g];
    &&& grp.id == g
    &&& grp.instructions.len() > 0
    &&& grp.instructions.no_duplicates()
    &&& forall|k: int|
        0 <= k < grp.instructions.len() ==> {
            let m = #[trigger] grp.instructions[k];
            &&& m < base.len()
            &&& nodes[m as int].parallel_group == Some(g as usize)
            &&& forall|q: int|
                0 <= q < base[m as int].predecessors.len() ==> (#[trigger] nodes[base[m as int].predecessors[q] as int].parallel_group matches Some(h)
                    && h < g)
        }
    &&& holds_units(grp.resource_requirements, units_of(base, grp.instructions))
    &&& (fits(grp.resource_requirements, target) || grp.instructions.len() == 1)
    &&& grp.latency == max_latency(base, grp.instructions)
}

/// `groups` schedule every operation of the graph `base` (see
/// `scheduled_group`), and `nodes` is `base` with each operation marked with
/// the group that holds it.
pub open spec fn valid_schedule(
    base: Seq<NodeView>,
    nodes: Seq<NodeView>,
    groups: Seq<GroupView>,
    target: ResourceRequirements,
) -> bool {
    &&& nodes.len() == base.len()
    &&& forall|g: int| 0 <= g < groups.len() ==> scheduled_group(base, nodes, groups, g, target)
    &&& forall|i: int|
        0 <= i < nodes.len() ==> {
            &&& unscheduled(#[trigger] nodes[i]) == unscheduled(base[i])
            &&& nodes[i].can_parallel
            &&& nodes[i].parallel_group matches Some(g) && g < groups.len() && groups[g as int].instructions.contains(
                i as usize,
            )
        }
}

/// Number of `true` entries.
pub open spec fn count_true(s: Seq<bool>) -> nat
    decreases s.len(),
{
    if s.len() == 0 {
        0
    } else {
        count_true(s.drop_last()) + if s.last() {
            1nat
        } else {
            0nat
        }
    }
}

proof fn lemma_count_true_bound(s: Seq<bool>)
    ensures
        count_true(s) <= s.len(),
    decreases s.len(),
{
    if s.len() > 0 {
        lemma_count_true_bound(s.drop_last());
    }
}

proof fn lemma_count_true_set(s: Seq<bool>, i: int)
    requires
        0 <= i < s.len(),
        !s[i],
    ensures
        count_true(s.update(i, true)) == count_true(s) + 1,
    decreases s.len(),
{
    let t = s.update(i, true);
    if i == s.len() - 1 {
        assert(t.drop_last() =~= s.drop_last());
    } else {
        assert(t.drop_last() =~= s.drop_last().update(i, true));
        lemma_count_true_set(s.drop_last(), i);
    }
}

proof fn lemma_count_true_none(s: Seq<bool>)
    requires
        forall|i: int| 0 <= i < s.len() ==> !s[i],
    ensures
        count_true(s) == 0,
    decreases s.len(),
{
    if s.len() > 0 {
        lemma_count_true_none(s.drop_last());
    }
}

/// All predecessors of `j` in `base` are marked done.
pub open spec fn preds_done(base: Seq<NodeView>, done: Seq<bool>, j: int) -> bool {
    forall|q: int| 0 <= q < base[j].predecessors.len() ==> #[trigger] done[base[j].predecessors[q] as int]
}

/// When every node that is not done has a predecessor that is not done,
/// and predecessors come first, every node is done.
proof fn lemma_all_done(base: Seq<NodeView>, done: Seq<bool>, k: int)
    requires
        well_linked(base),
        done.len() == base.len(),
        0 <= k <= base.len(),
        forall|j: int| 0 <= j < base.len() && !done[j] ==> !preds_done(base, done, j),
    ensures
        forall|j: int| 0 <= j < k ==> done[j],
    decreases k,
{
    if k > 0 {
        lemma_all_done(base, done, k - 1);
        if !done[k - 1] {
            assert(!preds_done(base, done, k - 1));
            let q = choose|q: int| 0 <= q < base[k - 1].predecessors.len() && !#[trigger] done[base[k - 1].predecessors[q] as int];
            assert(base[k - 1].predecessors[q] < k - 1);
        }
    }
}

/// Units of `node_res` added to `current` fit `target`.
fn can_add_to_group(
    node_res: &ResourceRequirements,
    current: &ResourceRequirements,
    target: &ResourceRequirements,
) -> (b: bool)
    ensures
        b == (current.alu_units + node_res.alu_units <= target.alu_units && current.memory_ports
            + node_res.memory_ports <= target.memory_ports && current.vector_units + node_res.vector_units
            <= target.vector_units && current.branch_units + node_res.branch_units <= target.branch_units),
{
    (current.alu_units as u64) + (node_res.alu_units as u64) <= (target.alu_units as u64) && (current.memory_ports as u64)
        + (node_res.memory_ports as u64) <= (target.memory_ports as u64) && (current.vector_units as u64)
        + (node_res.vector_units as u64) <= (target.vector_units as u64) && (current.branch_units as u64)
        + (node_res.branch_units as u64) <= (target.branch_units as u64)
}

/// Adds the units of `to_add` to `current`.
fn add_resources(current: &mut ResourceRequirements, to_add: &ResourceRequirements)
    requires
        old(current).alu_units + to_add.alu_units <= u32::MAX,
        old(current).memory_ports + to_add.memory_ports <= u32::MAX,
        old(current).vector_units + to_add.vector_units <= u32::MAX,
        old(current).branch_units + to_add.branch_units <= u32::MAX,
    ensures
        final(current).alu_units == old(current).alu_units + to_add.alu_units,
        final(current).memory_ports == old(current).memory_ports + to_add.memory_ports,
        final(current).vector_units == old(current).vector_units + to_add.vector_units,
        final(current).branch_units == old(current).branch_units + to_add.branch_units,
{
    current.alu_units = current.alu_units + to_add.alu_units;
    current.memory_ports = current.memory_ports + to_add.memory_ports;
    current.vector_units = current.vector_units + to_add.vector_units;
    current.branch_units = current.branch_units + to_add.branch_units;
}

/// Marks node `i` as placed in group `g`.
fn assign_group(nodes: &mut Vec<InstructionNode>, i: usize, g: usize)
    requires
        i < old(nodes)@.len(),
    ensures
        final(nodes)@.len() == old(nodes)@.len(),
        nodes_view(final(nodes)@) == nodes_view(old(nodes)@).update(
            i as int,
            NodeView { can_parallel: true, parallel_group: Some(g), ..nodes_view(old(nodes)@)[i as int] },
        ),
{
    let ghost before = nodes_view(nodes@);
    let mut n = nodes.remove(i);
    n.parallel_group = Some(g);
    n.can_parallel = true;
    nodes.insert(i, n);
    assert(nodes_view(nodes@) =~= before.update(
        i as int,
        NodeView { can_parallel: true, parallel_group: Some(g), ..before[i as int] },
    ));
}

/// `x` occurs in `v`.
fn contains_index(v: &Vec<usize>, x: usize) -> (b: bool)
    ensures
        b == v@.contains(x),
{
    let mut i: usize = 0;
    while i < v.len()
        invariant
            i <= v@.len(),
            forall|j: int| 0 <= j < i ==> v@[j] != x,
        decreases v.len() - i,
    {
        if v[i] == x {
            assert(v@[i as int] == x);
            return true;
        }
        i += 1;
    }
    false
}

/// Removes every occurrence of `x` from `v`.
fn remove_index(v: &mut Vec<usize>, x: usize)
    ensures
        forall|y: usize| #[trigger] final(v)@.contains(y) <==> (old(v)@.contains(y) && y != x),
        old(v)@.no_duplicates() ==> final(v)@.no_duplicates(),
{
    let ghost src = v@;
    let mut kept: Vec<usize> = Vec::new();
    let mut i: usize = 0;
    while i < v.len()
        invariant
            v@ == src,
            i <= src.len(),
            forall|y: usize| #[trigger] kept@.contains(y) <==> (src.subrange(0, i as int).contains(y) && y != x),
            src.no_duplicates() ==> kept@.no_duplicates(),
        decreases v.len() - i,
    {
        let y = v[i];
        proof {
            assert forall|z: usize| src.subrange(0, i + 1).contains(z) <==> (src.subrange(0, i as int).contains(z) || z == y) by {
                if src.subrange(0, i + 1).contains(z) {
                    let k = choose|k: int| 0 <= k < i + 1 && #[trigger] src.subrange(0, i + 1)[k] == z;
                    if k < i {
                        assert(src.subrange(0, i as int)[k] == z);
                    }
                }
                if src.subrange(0, i as int).contains(z) {
                    let k = choose|k: int| 0 <= k < i && #[trigger] src.subrange(0, i as int)[k] == z;
                    assert(src.subrange(0, i + 1)[k] == z);
                }
                if z == y {
                    assert(src.subrange(0, i + 1)[i as int] == z);
                }
            }
        }
        if y != x {
            proof {
                if src.no_duplicates() {
                    assert(!src.subrange(0, i as int).contains(y)) by {
                        if src.subrange(0, i as int).contains(y) {
                            let k = choose|k: int| 0 <= k < i && #[trigger] src.subrange(0, i as int)[k] == y;
                            assert(src[k] == src[i as int]);
                        }
                    }
                }
            }
            let ghost k0 = kept@;
            kept.push(y);
            proof {
                assert forall|z: usize| #[trigger] kept@.contains(z) <==> (k0.contains(z) || z == y) by {
                    if kept@.contains(z) {
                        let j = choose|j: int| 0 <= j < kept@.len() && #[trigger] kept@[j] == z;
                        if j < k0.len() {
                            assert(k0[j] == z);
                        }
                    }
                    if k0.contains(z) {
                        let j = choose|j: int| 0 <= j < k0.len() && #[trigger] k0[j] == z;
                        assert(kept@[j] == z);
                    }
                    if z == y {
                        assert(kept@[k0.len() as int] == z);
                    }
                }
                if src.no_duplicates() {
                    assert(!k0.contains(y));
                    assert forall|a: int, b: int| 0 <= a < kept@.len() && 0 <= b < kept@.len() && a != b implies kept@[a] != kept@[b] by {
                        if a < k0.len() && b < k0.len() {
                            assert(kept@[a] == k0[a]);
                            assert(kept@[b] == k0[b]);
                        } else if a < k0.len() {
                            assert(kept@[a] == k0[a]);
                            assert(k0.contains(kept@[a]));
                        } else if b < k0.len() {
                            assert(kept@[b] == k0[b]);
                            assert(k0.contains(kept@[b]));
                        }
                    }
                }
            }
        }
        assert forall|z: usize| #[trigger] kept@.contains(z) <==> (src.subrange(0, i + 1).contains(z) && z != x) by {
            assert(src.subrange(0, i + 1).contains(z) <==> (src.subrange(0, i as int).contains(z) || z == y));
        }
        i += 1;
    }
    assert(src.subrange(0, src.len() as int) =~= src);
    *v = kept;
}

/// Every predecessor in `preds` is marked in `done`.
fn all_marked(preds: &Vec<usize>, done: &Vec<bool>) -> (b: bool)
    requires
        forall|q: int| 0 <= q < preds@.len() ==> preds@[q] < done@.len(),
    ensures
        b == (forall|q: int| 0 <= q < preds@.len() ==> #[trigger] done@[preds@[q] as int]),
{
    let mut q: usize = 0;
    while q < preds.len()
        invariant
            q <= preds@.len(),
            forall|k: int| 0 <= k < preds@.len() ==> preds@[k] < done@.len(),
            forall|k: int| 0 <= k < q ==> #[trigger] done@[preds@[k] as int],
        decreases preds.len() - q,
    {
        if !done[preds[q]] {
            return false;
        }
        q += 1;
    }
    true
}

/// The operations at `ready`, highest latency first; operations of equal
/// latency keep their order.
fn sort_by_latency(nodes: &Vec<InstructionNode>, ready: &Vec<usize>) -> (r: Vec<usize>)
    requires
        forall|k: int| 0 <= k < ready@.len() ==> ready@[k] < nodes@.len(),
    ensures
        r@.len() == ready@.len(),
        forall|y: usize| #[trigger] r@.contains(y) <==> ready@.contains(y),
        ready@.no_duplicates() ==> r@.no_duplicates(),
        forall|a: int, b: int|
            0 <= a < b < r@.len() ==> nodes@[r@[a] as int].latency >= nodes@[r@[b] as int].latency,
{
    let mut out: Vec<usize> = Vec::new();
    let mut k: usize = 0;
    while k < ready.len()
        invariant
            k <= ready@.len(),
            forall|j: int| 0 <= j < ready@.len() ==> ready@[j] < nodes@.len(),
            out@.len() == k,
            forall|y: usize| #[trigger] out@.contains(y) <==> ready@.subrange(0, k as int).contains(y),
            ready@.no_duplicates() ==> out@.no_duplicates(),
            forall|j: int| 0 <= j < out@.len() ==> out@[j] < nodes@.len(),
            forall|a: int, b: int|
                0 <= a < b < out@.len() ==> nodes@[out@[a] as int].latency >= nodes@[out@[b] as int].latency,
        decreases ready.len() - k,
    {
        let x = ready[k];
        let lx = nodes[x].latency;
        let mut p: usize = 0;
        while p < out.len() && nodes[out[p]].latency >= lx
            invariant
                p <= out@.len(),
                forall|j: int| 0 <= j < out@.len() ==> out@[j] < nodes@.len(),
                forall|j: int| 0 <= j < p ==> nodes@[out@[j] as int].latency >= lx,
            decreases out.len() - p,
        {
            p += 1;
        }
        let ghost before = out@;
        proof {
            before.insert_ensures(p as int, x);
        }
        out.insert(p, x);
        proof {
            let after = out@;
            assert(after == before.insert(p as int, x));
            assert forall|y: usize| #[trigger] after.contains(y) <==> ready@.subrange(0, k + 1).contains(y) by {
                let pre = ready@.subrange(0, k as int);
                let pre1 = ready@.subrange(0, k + 1);
                assert(pre1[k as int] == x);
                assert(pre1.contains(y) <==> (pre.contains(y) || y == x)) by {
                    if pre1.contains(y) {
                        let j = choose|j: int| 0 <= j < pre1.len() && #[trigger] pre1[j] == y;
                        if j < k {
                            assert(pre[j] == y);
                        }
                    }
                    if pre.contains(y) {
                        let j = choose|j: int| 0 <= j < pre.len() && #[trigger] pre[j] == y;
                        assert(pre1[j] == y);
                    }
                }
                if after.contains(y) {
                    let j = choose|j: int| 0 <= j < after.len() && #[trigger] after[j] == y;
                    if j < p {
                        assert(before[j] == y);
                        assert(before.contains(y));
                    } else if j > p {
                        assert(before[j - 1] == y);
                        assert(before.contains(y));
                    }
                }
                if before.contains(y) {
                    let j = choose|j: int| 0 <= j < before.len() && #[trigger] before[j] == y;
                    if j < p {
                        assert(after[j] == y);
                    } else {
                        assert(after[j + 1] == y);
                    }
                }
                assert(after[p as int] == x);
            }
            if ready@.no_duplicates() {
                assert(!before.contains(x)) by {
                    if before.contains(x) {
                        assert(ready@.subrange(0, k as int).contains(x));
                        let j = choose|j: int| 0 <= j < k && #[trigger] ready@.subrange(0, k as int)[j] == x;
                        assert(ready@[j] == ready@[k as int]);
                    }
                }
                assert forall|a: int, b: int| 0 <= a < after.len() && 0 <= b < after.len() && a != b implies after[a] != after[b] by {
                    let ia = if a < p { a } else if a == p { -1 } else { a - 1 };
                    let ib = if b < p { b } else if b == p { -1 } else { b - 1 };
                    if ia >= 0 && ib >= 0 {
                        assert(after[a] == before[ia]);
                        assert(after[b] == before[ib]);
                    } else if ia >= 0 {
                        assert(after[a] == before[ia]);
                        assert(before.contains(after[a]));
                    } else if ib >= 0 {
                        assert(after[b] == before[ib]);
                        assert(before.contains(after[b]));
                    }
                }
            }
            assert forall|a: int, b: int|
                0 <= a < b < after.len() implies nodes@[after[a] as int].latency >= nodes@[after[b] as int].latency by {
                if b < p {
                } else if b == p {
                    assert(after[a] == before[a]);
                } else if a < p {
                    assert(after[a] == before[a]);
                    assert(after[b] == before[b - 1]);
                } else if a == p {
                    assert(after[b] == before[b - 1]);
                    if p < before.len() {
                        assert(nodes@[before[p as int] as int].latency < lx);
                        if b - 1 > p {
                            assert(nodes@[before[p as int] as int].latency >= nodes@[before[b - 1] as int].latency);
                        }
                    }
                } else {
                    assert(after[a] == before[a - 1]);
                    assert(after[b] == before[b - 1]);
                }
            }
            assert forall|j: int| 0 <= j < after.len() implies after[j] < nodes@.len() by {
                if j < p {
                    assert(after[j] == before[j]);
                } else if j > p {
                    assert(after[j] == before[j - 1]);
                }
            }
        }
        k += 1;
    }
    assert(ready@.subrange(0, ready@.len() as int) =~= ready@);
    out
}

/// A copy of `v`.
fn copy_indices(v: &Vec<usize>) -> (r: Vec<usize>)
    ensures
        r@ == v@,
{
    let mut r: Vec<usize> = Vec::new();
    let mut i: usize = 0;
    while i < v.len()
        invariant
            i <= v@.len(),
            r@ == v@.subrange(0, i as int),
        decreases v.len() - i,
    {
        r.push(v[i]);
        i += 1;
    }
    assert(v@.subrange(0, v@.len() as int) =~= v@);
    r
}

/// The operations at `ready` are distinct nodes of `base`, not yet done,
/// whose predecessors are all done.
pub open spec fn ready_ok(base: Seq<NodeView>, done: Seq<bool>, ready: Seq<usize>) -> bool {
    &&& ready.no_duplicates()
    &&& forall|k: int|
        0 <= k < ready.len() ==> (#[trigger] ready[k]) < base.len() && !done[ready[k] as int] && preds_done(
            base,
            done,
            ready[k] as int,
        )
}

/// Every node of `base` that is not done and whose predecessors are all
/// done is at `ready`.
pub open spec fn ready_complete(base: Seq<NodeView>, done: Seq<bool>, ready: Seq<usize>) -> bool {
    forall|j: int| 0 <= j < base.len() && !done[j] && #[trigger] preds_done(base, done, j) ==> ready.contains(j as usize)
}

/// A valid group stays valid while no assigned operation changes group.
proof fn lemma_group_stable(
    base: Seq<NodeView>,
    nv1: Seq<NodeView>,
    nv2: Seq<NodeView>,
    groups1: Seq<GroupView>,
    groups2: Seq<GroupView>,
    g: int,
    target: ResourceRequirements,
)
    requires
        0 <= g < groups1.len(),
        g < groups2.len(),
        groups2[g] == groups1[g],
        scheduled_group(base, nv1, groups1, g, target),
        nv1.len() == base.len(),
        nv2.len() == base.len(),
        forall|i: int| 0 <= i < base.len() && (nv1[i].parallel_group is Some) ==> #[trigger] nv2[i].parallel_group == nv1[i].parallel_group,
        well_linked(base),
    ensures
        scheduled_group(base, nv2, groups2, g, target),
{
    let grp = groups2[g];
    assert forall|k: int| 0 <= k < grp.instructions.len() implies {
        let m = #[trigger] grp.instructions[k];
        &&& m < base.len()
        &&& nv2[m as int].parallel_group == Some(g as usize)
        &&& forall|q: int|
            0 <= q < base[m as int].predecessors.len() ==> (#[trigger] nv2[base[m as int].predecessors[q] as int].parallel_group matches Some(h)
                && h < g)
    } by {
        let m = grp.instructions[k];
        assert(nv1[m as int].parallel_group == Some(g as usize));
        assert forall|q: int| 0 <= q < base[m as int].predecessors.len() implies (#[trigger] nv2[base[m as int].predecessors[q] as int].parallel_group matches Some(h)
            && h < g) by {
            let p = base[m as int].predecessors[q];
            assert(nv1[p as int].parallel_group matches Some(h) && h < g);
            assert(p < m);
        }
    }
}

proof fn lemma_pred_part(ops: Seq<IROp>, j: int, i: int)
    requires
        0 <= i <= ops.len() <= usize::MAX,
    ensures
        forall|q: int|
            0 <= q < pred_part(ops, j, i).len() ==> (#[trigger] pred_part(ops, j, i)[q]) < i && dep_of(
                ops,
                pred_part(ops, j, i)[q] as int,
                j,
            ) is Some,
    decreases i,
{
    if i > 0 {
        lemma_pred_part(ops, j, i - 1);
        let prev = pred_part(ops, j, i - 1);
        assert forall|q: int| 0 <= q < pred_part(ops, j, i).len() implies (#[trigger] pred_part(ops, j, i)[q]) < i && dep_of(
            ops,
            pred_part(ops, j, i)[q] as int,
            j,
        ) is Some by {
            if q < prev.len() {
                assert(pred_part(ops, j, i)[q] == prev[q]);
            }
        }
    }
}

proof fn lemma_succ_part(ops: Seq<IROp>, i: int, a: int, b: int)
    requires
        0 <= a,
        b <= ops.len() <= usize::MAX,
    ensures
        forall|q: int|
            0 <= q < succ_part(ops, i, a, b).len() ==> a <= (#[trigger] succ_part(ops, i, a, b)[q]) < b,
        forall|x: int| a <= x < b && #[trigger] dep_of(ops, i, x) is Some ==> succ_part(ops, i, a, b).contains(x as usize),
    decreases b - a,
{
    if b > a {
        lemma_succ_part(ops, i, a, b - 1);
        let prev = succ_part(ops, i, a, b - 1);
        let cur = succ_part(ops, i, a, b);
        assert forall|q: int| 0 <= q < cur.len() implies a <= (#[trigger] cur[q]) < b by {
            if q < prev.len() {
                assert(cur[q] == prev[q]);
            }
        }
        assert forall|x: int| a <= x < b && #[trigger] dep_of(ops, i, x) is Some implies cur.contains(x as usize) by {
            if x < b - 1 {
                assert(prev.contains(x as usize));
                let k = choose|k: int| 0 <= k < prev.len() && #[trigger] prev[k] == x as usize;
                assert(cur[k] == x as usize);
            } else {
                assert(cur[prev.len() as int] == x as usize);
            }
        }
    }
}

/// The dependency graph of a sequence of operations is well linked, and
/// none of its operations is placed in a group yet.
pub proof fn lemma_graph_well_linked(ops: Seq<IROp>)
    requires
        ops.len() <= usize::MAX,
    ensures
        well_linked(graph_of(ops)),
        forall|i: int| 0 <= i < ops.len() ==> #[trigger] unscheduled(graph_of(ops)[i]) == graph_of(ops)[i],
{
    let g = graph_of(ops);
    let n = ops.len() as int;
    assert forall|j: int, q: int| 0 <= j < n && 0 <= q < g[j].predecessors.len() implies (#[trigger] g[j].predecessors[q]) < j
        && g[g[j].predecessors[q] as int].successors.contains(j as usize) by {
        lemma_pred_part(ops, j, j);
        let p = g[j].predecessors[q];
        assert(pred_part(ops, j, j)[q] == p);
        lemma_succ_part(ops, p as int, p + 1, n);
        assert(dep_of(ops, p as int, j) is Some);
    }
    assert forall|p: int, q: int| 0 <= p < n && 0 <= q < g[p].successors.len() implies (#[trigger] g[p].successors[q]) < n by {
        lemma_succ_part(ops, p, p + 1, n);
        assert(succ_part(ops, p, p + 1, n)[q] == g[p].successors[q]);
    }
}

/// Number of nodes placed in a group.
pub open spec fn count_parallel(nodes: Seq<NodeView>) -> nat
    decreases nodes.len(),
{
    if nodes.len() == 0 {
        0
    } else {
        count_parallel(nodes.drop_last()) + if nodes.last().can_parallel {
            1nat
        } else {
            0nat
        }
    }
}

/// The size of the largest group (0 for none).
pub open spec fn max_group_size(groups: Seq<GroupView>) -> nat
    decreases groups.len(),
{
    if groups.len() == 0 {
        0
    } else {
        let m = max_group_size(groups.drop_last());
        let l = groups.last().instructions.len();
        if m >= l {
            m
        } else {
            l
        }
    }
}

/// The statistics of the graph `nodes` divided into `groups`.
pub open spec fn stats_of(nodes: Seq<NodeView>, groups: Seq<GroupView>) -> ParallelismStats {
    ParallelismStats {
        total_instructions: nodes.len() as usize,
        parallel_groups: groups.len() as usize,
        max_parallelism: max_group_size(groups) as usize,
        parallel_instructions: count_parallel(nodes) as usize,
    }
}

proof fn lemma_count_parallel_bound(nodes: Seq<NodeView>)
    ensures
        count_parallel(nodes) <= nodes.len(),
    decreases nodes.len(),
{
    if nodes.len() > 0 {
        lemma_count_parallel_bound(nodes.drop_last());
    }
}

/// The operations of `nodes` at `idxs`, skipping indices past the end.
pub open spec fn ops_at(nodes: Seq<NodeView>, idxs: Seq<usize>) -> Seq<IROp>
    decreases idxs.len(),
{
    if idxs.len() == 0 {
        Seq::empty()
    } else {
        ops_at(nodes, idxs.drop_last()) + if idxs.last() < nodes.len() {
            seq![nodes[idxs.last() as int].op]
        } else {
            Seq::empty()
        }
    }
}

/// The operations of `groups` in group order.
pub open spec fn grouped_ops(nodes: Seq<NodeView>, groups: Seq<GroupView>) -> Seq<IROp>
    decreases groups.len(),
{
    if groups.len() == 0 {
        Seq::empty()
    } else {
        grouped_ops(nodes, groups.drop_last()) + ops_at(nodes, groups.last().instructions)
    }
}

/// The operations of the nodes not placed in any group, in order.
pub open spec fn ungrouped_ops(nodes: Seq<NodeView>) -> Seq<IROp>
    decreases nodes.len(),
{
    if nodes.len() == 0 {
        Seq::empty()
    } else {
        ungrouped_ops(nodes.drop_last()) + if nodes.last().can_parallel {
            Seq::empty()
        } else {
            seq![nodes.last().op]
        }
    }
}

/// The state after `analyze_parallelism(ops)` on a parallelizer with target
/// `target`.
pub open spec fn analyzed(p: ParallelizerView, ops: Seq<IROp>, target: ResourceRequirements) -> bool {
    &&& p.target == target
    &&& valid_schedule(graph_of(ops), p.nodes, p.groups, target)
    &&& p.dependencies == edges_prefix(ops, ops.len() as int)
    &&& p.stats == stats_of(p.nodes, p.groups)
}

/// The indices of all groups, group by group.
pub open spec fn flat_members(groups: Seq<GroupView>) -> Seq<usize>
    decreases groups.len(),
{
    if groups.len() == 0 {
        Seq::empty()
    } else {
        flat_members(groups.drop_last()) + groups.last().instructions
    }
}

/// `perm` lists each position below `n` exactly once.
pub open spec fn is_permutation(perm: Seq<usize>, n: nat) -> bool {
    &&& perm.len() == n
    &&& perm.no_duplicates()
    &&& forall|k: int| 0 <= k < perm.len() ==> #[trigger] perm[k] < n
}

proof fn lemma_ungrouped_empty(nodes: Seq<NodeView>)
    requires
        forall|i: int| 0 <= i < nodes.len() ==> #[trigger] nodes[i].can_parallel,
    ensures
        ungrouped_ops(nodes) =~= Seq::<IROp>::empty(),
    decreases nodes.len(),
{
    if nodes.len() > 0 {
        let d = nodes.drop_last();
        assert forall|i: int| 0 <= i < d.len() implies #[trigger] d[i].can_parallel by {
            assert(d[i] == nodes[i]);
        }
        lemma_ungrouped_empty(d);
        assert(nodes.last().can_parallel);
    }
}

proof fn lemma_ops_at_map(nodes: Seq<NodeView>, idxs: Seq<usize>)
    requires
        forall|k: int| 0 <= k < idxs.len() ==> #[trigger] idxs[k] < nodes.len(),
    ensures
        ops_at(nodes, idxs) =~= idxs.map_values(|x: usize| nodes[x as int].op),
    decreases idxs.len(),
{
    if idxs.len() > 0 {
        let d = idxs.drop_last();
        assert forall|k: int| 0 <= k < d.len() implies #[trigger] d[k] < nodes.len() by {
            assert(d[k] == idxs[k]);
        }
        lemma_ops_at_map(nodes, d);
        assert(idxs[idxs.len() - 1] < nodes.len());
    }
}

proof fn lemma_grouped_map(nodes: Seq<NodeView>, groups: Seq<GroupView>)
    requires
        forall|g: int, k: int|
            0 <= g < groups.len() && 0 <= k < groups[g].instructions.len() ==> #[trigger] groups[g].instructions[k]
                < nodes.len(),
    ensures
        grouped_ops(nodes, groups) =~= flat_members(groups).map_values(|x: usize| nodes[x as int].op),
    decreases groups.len(),
{
    if groups.len() > 0 {
        let d = groups.drop_last();
        assert forall|g: int, k: int| 0 <= g < d.len() && 0 <= k < d[g].instructions.len() implies #[trigger] d[g].instructions[k]
            < nodes.len() by {
            assert(d[g] == groups[g]);
        }
        lemma_grouped_map(nodes, d);
        let last = groups.last().instructions;
        assert forall|k: int| 0 <= k < last.len() implies #[trigger] last[k] < nodes.len() by {
            assert(groups[groups.len() - 1].instructions[k] < nodes.len());
        }
        lemma_ops_at_map(nodes, last);
    }
}

proof fn lemma_flat_members(
    base: Seq<NodeView>,
    nodes: Seq<NodeView>,
    groups: Seq<GroupView>,
    target: ResourceRequirements,
    g: int,
)
    requires
        valid_schedule(base, nodes, groups, target),
        0 <= g <= groups.len(),
    ensures
        forall|k: int|
            0 <= k < flat_members(groups.subrange(0, g)).len() ==> {
                let x = #[trigger] flat_members(groups.subrange(0, g))[k];
                &&& x < nodes.len()
                &&& nodes[x as int].parallel_group matches Some(h) && h < g
            },
        flat_members(groups.subrange(0, g)).no_duplicates(),
        forall|h: int, x: usize|
            0 <= h < g && #[trigger] groups[h].instructions.contains(x) ==> flat_members(groups.subrange(0, g)).contains(x),
    decreases g,
{
    if g > 0 {
        lemma_flat_members(base, nodes, groups, target, g - 1);
        let sub = groups.subrange(0, g);
        assert(sub.drop_last() =~= groups.subrange(0, g - 1));
        let prev = flat_members(groups.subrange(0, g - 1));
        let last = groups[g - 1].instructions;
        let f = flat_members(sub);
        assert(f == prev + last);
        assert(scheduled_group(base, nodes, groups, g - 1, target));
        assert forall|k: int| 0 <= k < f.len() implies {
            let x = #[trigger] f[k];
            &&& x < nodes.len()
            &&& nodes[x as int].parallel_group matches Some(h) && h < g
        } by {
            if k < prev.len() {
                assert(f[k] == prev[k]);
            } else {
                assert(f[k] == last[k - prev.len()]);
            }
        }
        assert forall|a: int, b: int| 0 <= a < f.len() && 0 <= b < f.len() && a != b implies f[a] != f[b] by {
            if a < prev.len() && b < prev.len() {
                assert(f[a] == prev[a] && f[b] == prev[b]);
            } else if a >= prev.len() && b >= prev.len() {
                assert(f[a] == last[a - prev.len()] && f[b] == last[b - prev.len()]);
            } else if a < prev.len() {
                assert(f[a] == prev[a]);
                assert(f[b] == last[b - prev.len()]);
                assert(nodes[f[b] as int].parallel_group == Some((g - 1) as usize));
            } else {
                assert(f[b] == prev[b]);
                assert(f[a] == last[a - prev.len()]);
                assert(nodes[f[a] as int].parallel_group == Some((g - 1) as usize));
            }
        }
        assert forall|h: int, x: usize| 0 <= h < g && #[trigger] groups[h].instructions.contains(x) implies f.contains(x) by {
            if h < g - 1 {
                assert(prev.contains(x));
                let k = choose|k: int| 0 <= k < prev.len() && #[trigger] prev[k] == x;
                assert(f[k] == x);
            } else {
                let k = choose|k: int| 0 <= k < last.len() && #[trigger] last[k] == x;
                assert(f[prev.len() + k] == x);
            }
        }
    }
}

/// A duplicate-free sequence of positions below `n` that holds every one
/// of them has length `n`.
proof fn lemma_cover_len(f: Seq<usize>, n: nat)
    requires
        f.no_duplicates(),
        forall|k: int| 0 <= k < f.len() ==> #[trigger] f[k] < n,
        forall|i: int| 0 <= i < n ==> #[trigger] f.contains(i as usize),
        n <= usize::MAX,
    ensures
        f.len() == n,
{
    let g = f.map_values(|x: usize| x as int);
    assert forall|a: int, b: int| 0 <= a < g.len() && 0 <= b < g.len() && a != b implies g[a] != g[b] by {
        assert(f[a] != f[b]);
    }
    g.unique_seq_to_set();
    vstd::set_lib::lemma_int_range(0, n as int);
    assert forall|x: int| #[trigger] g.to_set().contains(x) <==> vstd::set_lib::set_int_range(0, n as int).contains(x) by {
        if g.to_set().contains(x) {
            let k = choose|k: int| 0 <= k < g.len() && #[trigger] g[k] == x;
            assert(f[k] < n);
        }
        if 0 <= x < n {
            assert(f.contains(x as usize));
            let k = choose|k: int| 0 <= k < f.len() && #[trigger] f[k] == x as usize;
            assert(g[k] == x);
            assert(g.contains(x));
        }
    }
    assert(g.to_set() =~= vstd::set_lib::set_int_range(0, n as int));
}

/// After `analyze_parallelism(ops)`, rescheduling gives back every
/// operation of `ops` exactly once: the result is `ops` taken in the order
/// of a permutation of its positions.
pub proof fn lemma_reschedule_permutes(p: ParallelizerView, ops: Seq<IROp>, target: ResourceRequirements)
    requires
        analyzed(p, ops, target),
        ops.len() <= usize::MAX,
    ensures
        exists|perm: Seq<usize>|
            {
                let out = grouped_ops(p.nodes, p.groups) + ungrouped_ops(p.nodes);
                &&& #[trigger] is_permutation(perm, ops.len())
                &&& out.len() == perm.len()
                &&& forall|k: int| 0 <= k < out.len() ==> #[trigger] out[k] == ops[perm[k] as int]
            },
{
    let base = graph_of(ops);
    let nodes = p.nodes;
    let groups = p.groups;
    let n = ops.len();
    lemma_flat_members(base, nodes, groups, target, groups.len() as int);
    assert(groups.subrange(0, groups.len() as int) =~= groups);
    let f = flat_members(groups);
    assert forall|g: int, k: int| 0 <= g < groups.len() && 0 <= k < groups[g].instructions.len() implies #[trigger] groups[g].instructions[k]
        < nodes.len() by {
        assert(scheduled_group(base, nodes, groups, g, target));
    }
    lemma_grouped_map(nodes, groups);
    assert forall|i: int| 0 <= i < nodes.len() implies #[trigger] nodes[i].can_parallel by {}
    lemma_ungrouped_empty(nodes);
    assert forall|i: int| 0 <= i < n implies #[trigger] f.contains(i as usize) by {
        assert(unscheduled(nodes[i]) == unscheduled(base[i]));
        let h = nodes[i].parallel_group->0;
        assert(groups[h as int].instructions.contains(i as usize));
    }
    assert forall|k: int| 0 <= k < f.len() implies #[trigger] f[k] < n by {}
    lemma_cover_len(f, n);
    let out = grouped_ops(nodes, groups) + ungrouped_ops(nodes);
    assert(out =~= f.map_values(|x: usize| nodes[x as int].op));
    assert forall|k: int| 0 <= k < out.len() implies #[trigger] out[k] == ops[f[k] as int] by {
        let x = f[k];
        assert(unscheduled(nodes[x as int]) == unscheduled(base[x as int]));
    }
    assert(is_permutation(f, n));
}

impl InstructionParallelizer {
    pub fn new(target_resources: ResourceRequirements) -> (p: Self)
        ensures
            p@ == (ParallelizerView {
                nodes: Seq::empty(),
                dependencies: Seq::empty(),
                groups: Seq::empty(),
                target: target_resources,
                stats: ParallelismStats { total_instructions: 0, parallel_groups: 0, max_parallelism: 0, parallel_instructions: 0 },
            }),
    {
        let p = InstructionParallelizer {
            nodes: Vec::new(),
            dependencies: Vec::new(),
            parallel_groups: Vec::new(),
            target_resources,
            stats: ParallelismStats { total_instructions: 0, parallel_groups: 0, max_parallelism: 0, parallel_instructions: 0 },
        };
        assert(p@.nodes =~= Seq::<NodeView>::empty());
        assert(p@.groups =~= Seq::<GroupView>::empty());
        p
    }

    /// Builds the dependency graph of `instructions`: its nodes (see
    /// `graph_of`) and its edges row by row (see `edges_prefix`).
    fn build_dependency_graph(&mut self, instructions: &[IROp])
        ensures
            final(self)@.nodes == graph_of(instructions@),
            final(self)@.dependencies == edges_prefix(instructions@, instructions@.len() as int),
            final(self)@.groups == old(self)@.groups,
            final(self)@.target == old(self)@.target,
            final(self)@.stats == old(self)@.stats,
    {
        let ghost ops = instructions@;
        self.nodes.clear();
        self.dependencies.clear();
        let n = instructions.len();
        let mut idx: usize = 0;
        while idx < n
            invariant
                n == ops.len(),
                ops == instructions@,
                idx <= n,
                nodes_view(self.nodes@) == Seq::new(idx as nat, |k: int| graph_node(ops, k, Seq::empty(), Seq::empty())),
                self.dependencies@ == Seq::<DependencyEdge>::empty(),
                self@.groups == old(self)@.groups,
                self@.target == old(self)@.target,
                self@.stats == old(self)@.stats,
            decreases n - idx,
        {
            let op = instructions[idx];
            let (reads, writes) = analyze_instruction_io(&op);
            let latency = estimate_instruction_latency(&op);
            let ghost before = nodes_view(self.nodes@);
            let node = InstructionNode {
                index: idx,
                op,
                reads,
                writes,
                predecessors: Vec::new(),
                successors: Vec::new(),
                can_parallel: false,
                parallel_group: None,
                latency,
            };
            assert(node@.predecessors =~= Seq::<usize>::empty());
            assert(node@.successors =~= Seq::<usize>::empty());
            assert(node@ == graph_node(ops, idx as int, Seq::empty(), Seq::empty()));
            self.nodes.push(node);
            assert(nodes_view(self.nodes@) =~= before.push(node@));
            assert(nodes_view(self.nodes@) =~= Seq::new((idx + 1) as nat, |k: int| graph_node(ops, k, Seq::empty(), Seq::empty())));
            idx += 1;
        }
        let mut i: usize = 0;
        while i < n
            invariant
                n == ops.len(),
                ops == instructions@,
                i <= n,
                nodes_view(self.nodes@).len() == n,
                forall|k: int| 0 <= k < n ==> #[trigger] nodes_view(self.nodes@)[k] == graph_node(
                    ops,
                    k,
                    preds_during(ops, k, i as int, i as int),
                    succs_during(ops, k, i as int, i as int),
                ),
                self.dependencies@ == edges_prefix(ops, i as int),
                self@.groups == old(self)@.groups,
                self@.target == old(self)@.target,
                self@.stats == old(self)@.stats,
            decreases n - i,
        {
            let mut j: usize = i + 1;
            proof {
                assert forall|k: int| 0 <= k < n implies #[trigger] nodes_view(self.nodes@)[k] == graph_node(
                    ops,
                    k,
                    preds_during(ops, k, i as int, (i + 1) as int),
                    succs_during(ops, k, i as int, (i + 1) as int),
                ) by {
                    assert(preds_during(ops, k, i as int, (i + 1) as int) == preds_during(ops, k, i as int, i as int));
                    if k == i {
                        assert(succ_part(ops, k, k + 1, k + 1) =~= Seq::<usize>::empty());
                        assert(pred_part(ops, k, k) == pred_part(ops, k, i as int));
                    }
                }
                assert(edges_prefix(ops, i as int) + row_part(ops, i as int, (i + 1) as int, (i + 1) as int) =~= edges_prefix(ops, i as int));
            }
            while j < n
                invariant
                    n == ops.len(),
                    ops == instructions@,
                    i < n,
                    i + 1 <= j <= n,
                    nodes_view(self.nodes@).len() == n,
                    forall|k: int| 0 <= k < n ==> #[trigger] nodes_view(self.nodes@)[k] == graph_node(
                        ops,
                        k,
                        preds_during(ops, k, i as int, j as int),
                        succs_during(ops, k, i as int, j as int),
                    ),
                    self.dependencies@ == edges_prefix(ops, i as int) + row_part(ops, i as int, (i + 1) as int, j as int),
                    self@.groups == old(self)@.groups,
                    self@.target == old(self)@.target,
                    self@.stats == old(self)@.stats,
                decreases n - j,
            {
                let ghost nv = nodes_view(self.nodes@);
                assert(nv[i as int] == graph_node(ops, i as int, preds_during(ops, i as int, i as int, j as int), succs_during(ops, i as int, i as int, j as int)));
                assert(nv[j as int] == graph_node(ops, j as int, preds_during(ops, j as int, i as int, j as int), succs_during(ops, j as int, i as int, j as int)));
                let dep = check_dependency(&self.nodes[i], &self.nodes[j]);
                assert(dep == dep_of(ops, i as int, j as int));
                match dep {
                    Some(d) => {
                        self.dependencies.push(d);
                        push_successor(&mut self.nodes, i, j);
                        push_predecessor(&mut self.nodes, j, i);
                        assert(nodes_view(self.nodes@) == nv.update(
                            i as int,
                            NodeView { successors: nv[i as int].successors.push(j), ..nv[i as int] },
                        ).update(j as int, NodeView { predecessors: nv[j as int].predecessors.push(i), ..nv[j as int] }));
                    },
                    None => {},
                }
                proof {
                    assert(self.dependencies@ =~= edges_prefix(ops, i as int) + row_part(ops, i as int, (i + 1) as int, (j + 1) as int));
                    assert forall|k: int| 0 <= k < n implies #[trigger] nodes_view(self.nodes@)[k] == graph_node(
                        ops,
                        k,
                        preds_during(ops, k, i as int, (j + 1) as int),
                        succs_during(ops, k, i as int, (j + 1) as int),
                    ) by {
                        assert(nv[k] == graph_node(ops, k, preds_during(ops, k, i as int, j as int), succs_during(ops, k, i as int, j as int)));
                        if k == j {
                            let p0 = pred_part(ops, k, i as int);
                            assert(preds_during(ops, k, i as int, j as int) == p0);
                            assert(preds_during(ops, k, i as int, (j + 1) as int) == pred_part(ops, k, (i + 1) as int));
                            if dep is Some {
                                assert(pred_part(ops, k, (i + 1) as int) =~= p0.push(i));
                                assert(nodes_view(self.nodes@)[k] == NodeView { predecessors: nv[k].predecessors.push(i), ..nv[k] });
                            } else {
                                assert(pred_part(ops, k, (i + 1) as int) =~= p0);
                                assert(nodes_view(self.nodes@)[k] == nv[k]);
                            }
                        } else if k == i {
                            let s0 = succ_part(ops, k, (i + 1) as int, j as int);
                            assert(succs_during(ops, k, i as int, j as int) == s0);
                            assert(succs_during(ops, k, i as int, (j + 1) as int) == succ_part(ops, k, (i + 1) as int, (j + 1) as int));
                            if dep is Some {
                                assert(succ_part(ops, k, (i + 1) as int, (j + 1) as int) =~= s0.push(j));
                                assert(nodes_view(self.nodes@)[k] == NodeView { successors: nv[k].successors.push(j), ..nv[k] });
                            } else {
                                assert(succ_part(ops, k, (i + 1) as int, (j + 1) as int) =~= s0);
                                assert(nodes_view(self.nodes@)[k] == nv[k]);
                            }
                        } else {
                            assert(preds_during(ops, k, i as int, (j + 1) as int) == preds_during(ops, k, i as int, j as int));
                            assert(succs_during(ops, k, i as int, (j + 1) as int) == succs_during(ops, k, i as int, j as int));
                            assert(nodes_view(self.nodes@)[k] == nv[k]);
                        }
                    }
                }
                j += 1;
            }
            proof {
                assert(edges_prefix(ops, (i + 1) as int) == edges_prefix(ops, i as int) + row_part(ops, i as int, (i + 1) as int, n as int));
                assert forall|k: int| 0 <= k < n implies #[trigger] nodes_view(self.nodes@)[k] == graph_node(
                    ops,
                    k,
                    preds_during(ops, k, (i + 1) as int, (i + 1) as int),
                    succs_during(ops, k, (i + 1) as int, (i + 1) as int),
                ) by {
                    if k == i {
                        assert(pred_part(ops, k, k) == pred_part(ops, k, i as int));
                    }
                }
            }
            i += 1;
        }
        proof {
            assert forall|k: int| 0 <= k < n implies #[trigger] nodes_view(self.nodes@)[k] == graph_of(ops)[k] by {}
            assert(nodes_view(self.nodes@) =~= graph_of(ops));
        }
    }

    /// Divides the graph into issue groups (see `valid_schedule`). Each
    /// round takes the operations whose predecessors are all placed,
    /// highest latency first, and puts in the new group each that still
    /// fits the target's units; where none fits, the first goes alone.
    #[verifier::rlimit(60)]
    fn identify_parallel_groups(&mut self)
        requires
            well_linked(old(self)@.nodes),
            forall|i: int| 0 <= i < old(self)@.nodes.len() ==> #[trigger] unscheduled(old(self)@.nodes[i]) == old(self)@.nodes[i],
        ensures
            valid_schedule(old(self)@.nodes, final(self)@.nodes, final(self)@.groups, old(self)@.target),
            final(self)@.dependencies == old(self)@.dependencies,
            final(self)@.target == old(self)@.target,
            final(self)@.stats == old(self)@.stats,
    {
        let ghost base = nodes_view(self.nodes@);
        let ghost target = self.target_resources;
        let ghost deps = self.dependencies@;
        let ghost stats = self.stats;
        self.parallel_groups.clear();
        let n = self.nodes.len();
        let mut processed: Vec<bool> = Vec::new();
        let mut ready: Vec<usize> = Vec::new();
        let mut i: usize = 0;
        while i < n
            invariant
                n == base.len(),
                n == self.nodes@.len(),
                base == nodes_view(self.nodes@),
                i <= n,
                processed@.len() == i,
                forall|k: int| 0 <= k < i ==> !processed@[k],
                ready@.no_duplicates(),
                forall|k: int| 0 <= k < ready@.len() ==> (#[trigger] ready@[k]) < i && base[ready@[k] as int].predecessors.len() == 0,
                forall|j: int| 0 <= j < i && base[j].predecessors.len() == 0 ==> #[trigger] ready@.contains(j as usize),
            decreases n - i,
        {
            processed.push(false);
            assert(nodes_view(self.nodes@)[i as int] == self.nodes@[i as int]@);
            if self.nodes[i].predecessors.len() == 0 {
                let ghost r0 = ready@;
                ready.push(i);
                proof {
                    assert forall|j: int| 0 <= j < i + 1 && base[j].predecessors.len() == 0 implies #[trigger] ready@.contains(j as usize) by {
                        if j < i {
                            assert(r0.contains(j as usize));
                            let k = choose|k: int| 0 <= k < r0.len() && #[trigger] r0[k] == j as usize;
                            assert(ready@[k] == j as usize);
                        } else {
                            assert(ready@[r0.len() as int] == i);
                        }
                    }
                }
            }
            i += 1;
        }
        proof {
            lemma_count_true_none(processed@);
            assert forall|k: int| 0 <= k < ready@.len() implies (#[trigger] ready@[k]) < base.len() && !processed@[ready@[k] as int]
                && preds_done(base, processed@, ready@[k] as int) by {}
            assert forall|j: int| 0 <= j < base.len() && !processed@[j] && #[trigger] preds_done(base, processed@, j) implies ready@.contains(
                j as usize,
            ) by {
                if base[j].predecessors.len() > 0 {
                    assert(processed@[base[j].predecessors[0] as int]);
                }
            }
        }
        let mut group_id: usize = 0;
        let mut done_count: usize = 0;
        while ready.len() > 0
            invariant
                n == base.len(),
                self.nodes@.len() == n,
                nodes_view(self.nodes@).len() == n,
                well_linked(base),
                forall|i: int| 0 <= i < n ==> #[trigger] unscheduled(base[i]) == base[i],
                self.target_resources == target,
                self.dependencies@ == deps,
                self.stats == stats,
                processed@.len() == n,
                done_count == count_true(processed@),
                done_count <= n,
                group_id <= done_count,
                group_id == self.parallel_groups@.len(),
                forall|i: int|
                    0 <= i < n ==> {
                        let nd = #[trigger] nodes_view(self.nodes@)[i];
                        &&& unscheduled(nd) == base[i]
                        &&& nd.can_parallel == (nd.parallel_group is Some)
                        &&& processed@[i] == (nd.parallel_group is Some)
                        &&& (nd.parallel_group matches Some(g) ==> g < group_id && groups_view(
                            self.parallel_groups@,
                        )[g as int].instructions.contains(i as usize))
                    },
                forall|g: int|
                    0 <= g < group_id ==> scheduled_group(
                        base,
                        nodes_view(self.nodes@),
                        groups_view(self.parallel_groups@),
                        g,
                        target,
                    ),
                ready_ok(base, processed@, ready@),
                ready_complete(base, processed@, ready@),
            decreases n - done_count,
        {
            let sorted = sort_by_latency(&self.nodes, &ready);
            proof {
                assert forall|k: int| 0 <= k < sorted@.len() implies (#[trigger] sorted@[k]) < base.len() && !processed@[sorted@[k] as int]
                    && preds_done(base, processed@, sorted@[k] as int) by {
                    assert(sorted@.contains(sorted@[k]));
                    let k2 = choose|k2: int| 0 <= k2 < ready@.len() && #[trigger] ready@[k2] == sorted@[k];
                }
                assert forall|j: int| 0 <= j < base.len() && !processed@[j] && #[trigger] preds_done(base, processed@, j) implies sorted@.contains(
                    j as usize,
                ) by {
                    assert(ready@.contains(j as usize));
                }
            }
            ready = sorted;
            let ghost nv0 = nodes_view(self.nodes@);
            let ghost groups0 = groups_view(self.parallel_groups@);
            let mut members: Vec<usize> = Vec::new();
            let mut current = ResourceRequirements { alu_units: 0, memory_ports: 0, vector_units: 0, branch_units: 0 };
            let mut latency: u32 = 0;
            let mut r: usize = 0;
            while r < ready.len()
                invariant
                    n == base.len(),
                    self.nodes@.len() == n,
                    nodes_view(self.nodes@).len() == n,
                    self.target_resources == target,
                    self.dependencies@ == deps,
                    self.stats == stats,
                    groups_view(self.parallel_groups@) == groups0,
                    group_id == self.parallel_groups@.len(),
                    processed@.len() == n,
                    forall|i: int| 0 <= i < n ==> processed@[i] == (#[trigger] nv0[i].parallel_group is Some),
                    nv0.len() == n,
                    r <= ready@.len(),
                    ready_ok(base, processed@, ready@),
                    members@.no_duplicates(),
                    forall|k: int| 0 <= k < members@.len() ==> ready@.subrange(0, r as int).contains(#[trigger] members@[k]),
                    forall|i: int|
                        0 <= i < n ==> #[trigger] nodes_view(self.nodes@)[i] == if members@.contains(i as usize) {
                            NodeView { can_parallel: true, parallel_group: Some(group_id), ..nv0[i] }
                        } else {
                            nv0[i]
                        },
                    forall|i: int| 0 <= i < n ==> #[trigger] unscheduled(nv0[i]) == base[i],
                    holds_units(current, units_of(base, members@)),
                    fits(current, target),
                    latency == max_latency(base, members@),
                decreases ready.len() - r,
            {
                let idx = ready[r];
                assert(ready@.contains(idx));
                assert(idx < n && !processed@[idx as int]);
                if !processed[idx] {
                    assert(nodes_view(self.nodes@)[idx as int] == self.nodes@[idx as int]@);
                    assert(!members@.contains(idx)) by {
                        if members@.contains(idx) {
                            let k = choose|k: int| 0 <= k < members@.len() && #[trigger] members@[k] == idx;
                            assert(ready@.subrange(0, r as int).contains(idx));
                            let k2 = choose|k2: int| 0 <= k2 < r && #[trigger] ready@.subrange(0, r as int)[k2] == idx;
                            assert(ready@[k2] == ready@[r as int]);
                        }
                    }
                    assert(unscheduled(nv0[idx as int]) == base[idx as int]);
                    let node_res = estimate_resource_requirements(&self.nodes[idx].op);
                    if can_add_to_group(&node_res, &current, &self.target_resources) {
                        let node_latency = self.nodes[idx].latency;
                        let ghost m0 = members@;
                        let ghost nva = nodes_view(self.nodes@);
                        members.push(idx);
                        if node_latency > latency {
                            latency = node_latency;
                        }
                        add_resources(&mut current, &node_res);
                        assign_group(&mut self.nodes, idx, group_id);
                        proof {
                            assert(members@.drop_last() =~= m0);
                            assert forall|y: usize| #[trigger] members@.contains(y) <==> (m0.contains(y) || y == idx) by {
                                if members@.contains(y) {
                                    let k = choose|k: int| 0 <= k < members@.len() && #[trigger] members@[k] == y;
                                    if k < m0.len() {
                                        assert(m0[k] == y);
                                    }
                                }
                                if m0.contains(y) {
                                    let k = choose|k: int| 0 <= k < m0.len() && #[trigger] m0[k] == y;
                                    assert(members@[k] == y);
                                }
                                if y == idx {
                                    assert(members@[m0.len() as int] == y);
                                }
                            }
                            assert forall|a: int, b: int| 0 <= a < members@.len() && 0 <= b < members@.len() && a != b implies members@[a]
                                != members@[b] by {
                                if a < m0.len() && b < m0.len() {
                                    assert(members@[a] == m0[a]);
                                    assert(members@[b] == m0[b]);
                                } else if a < m0.len() {
                                    assert(members@[a] == m0[a]);
                                    assert(m0.contains(members@[a]));
                                } else if b < m0.len() {
                                    assert(members@[b] == m0[b]);
                                    assert(m0.contains(members@[b]));
                                }
                            }
                            assert forall|k: int| 0 <= k < members@.len() implies ready@.subrange(0, r + 1).contains(#[trigger] members@[k]) by {
                                if k < m0.len() {
                                    assert(members@[k] == m0[k]);
                                    assert(ready@.subrange(0, r as int).contains(m0[k]));
                                    let k2 = choose|k2: int| 0 <= k2 < r && #[trigger] ready@.subrange(0, r as int)[k2] == m0[k];
                                    assert(ready@.subrange(0, r + 1)[k2] == m0[k]);
                                } else {
                                    assert(ready@.subrange(0, r + 1)[r as int] == idx);
                                }
                            }
                            assert forall|i: int| 0 <= i < n implies #[trigger] nodes_view(self.nodes@)[i] == if members@.contains(i as usize) {
                                NodeView { can_parallel: true, parallel_group: Some(group_id), ..nv0[i] }
                            } else {
                                nv0[i]
                            } by {
                                assert(nva[i] == if m0.contains(i as usize) {
                                    NodeView { can_parallel: true, parallel_group: Some(group_id), ..nv0[i] }
                                } else {
                                    nv0[i]
                                });
                            }
                        }
                    } else {
                        proof {
                            assert forall|k: int| 0 <= k < members@.len() implies ready@.subrange(0, r + 1).contains(#[trigger] members@[k]) by {
                                assert(ready@.subrange(0, r as int).contains(members@[k]));
                                let k2 = choose|k2: int| 0 <= k2 < r && #[trigger] ready@.subrange(0, r as int)[k2] == members@[k];
                                assert(ready@.subrange(0, r + 1)[k2] == members@[k]);
                            }
                        }
                    }
                }
                r += 1;
            }
            if members.len() == 0 {
                let idx = ready[0];
                assert(ready@.contains(idx));
                assert(idx < n && !processed@[idx as int]);
                assert(nodes_view(self.nodes@)[idx as int] == self.nodes@[idx as int]@);
                assert(unscheduled(nv0[idx as int]) == base[idx as int]);
                let node_res = estimate_resource_requirements(&self.nodes[idx].op);
                let ghost nva = nodes_view(self.nodes@);
                members.push(idx);
                latency = self.nodes[idx].latency;
                add_resources(&mut current, &node_res);
                assign_group(&mut self.nodes, idx, group_id);
                proof {
                    assert(members@ =~= seq![idx]);
                    assert(members@.drop_last() =~= Seq::<usize>::empty());
                    assert(nva[idx as int] == nv0[idx as int]);
                    assert(latency == base[idx as int].latency);
                    assert(max_latency(base, Seq::<usize>::empty()) == 0);
                    assert(members@.last() == idx);
                    assert(max_latency(base, members@) == base[idx as int].latency);
                    assert forall|i: int| 0 <= i < n implies #[trigger] nodes_view(self.nodes@)[i] == if members@.contains(i as usize) {
                        NodeView { can_parallel: true, parallel_group: Some(group_id), ..nv0[i] }
                    } else {
                        nv0[i]
                    } by {
                        assert(nva[i] == nv0[i]);
                        if i == idx {
                            assert(members@[0] == idx);
                        }
                    }
                    assert forall|k: int| 0 <= k < members@.len() implies ready@.contains(#[trigger] members@[k]) by {}
                }
            } else {
                proof {
                    assert forall|k: int| 0 <= k < members@.len() implies ready@.contains(#[trigger] members@[k]) by {
                        assert(ready@.subrange(0, ready@.len() as int) =~= ready@);
                    }
                }
            }
            let ghost nv1 = nodes_view(self.nodes@);
            let instructions = copy_indices(&members);
            proof {
                assert(instructions@.subrange(0, instructions@.len() as int) =~= instructions@);
                assert forall|i: int| 0 <= i < n implies processed@[i] == (#[trigger] nv1[i].parallel_group is Some && !instructions@.subrange(
                    0,
                    instructions@.len() as int,
                ).contains(i as usize)) by {
                    assert(nv1[i] == if members@.contains(i as usize) {
                        NodeView { can_parallel: true, parallel_group: Some(group_id), ..nv0[i] }
                    } else {
                        nv0[i]
                    });
                    assert(processed@[i] == (nv0[i].parallel_group is Some));
                    if members@.contains(i as usize) {
                        let k = choose|k: int| 0 <= k < members@.len() && #[trigger] members@[k] == i as usize;
                        assert(ready@.contains(members@[k]));
                        let k2 = choose|k2: int| 0 <= k2 < ready@.len() && #[trigger] ready@[k2] == i as usize;
                    }
                }
                assert forall|i: int| 0 <= i < n implies #[trigger] unscheduled(nv1[i]) == base[i] by {
                    assert(nv1[i] == if members@.contains(i as usize) {
                        NodeView { can_parallel: true, parallel_group: Some(group_id), ..nv0[i] }
                    } else {
                        nv0[i]
                    });
                    assert(unscheduled(nv0[i]) == base[i]);
                }
            }
            self.parallel_groups.push(
                ParallelGroup { id: group_id, instructions: members, latency, resource_requirements: current },
            );
            let ghost groups1 = groups_view(self.parallel_groups@);
            proof {
                assert(groups1 =~= groups0.push(groups1[group_id as int]));
                assert forall|k: int| 0 <= k < instructions@.len() implies {
                    let m = #[trigger] instructions@[k];
                    &&& m < base.len()
                    &&& nv1[m as int].parallel_group == Some(group_id as usize)
                    &&& forall|q: int|
                        0 <= q < base[m as int].predecessors.len() ==> (#[trigger] nv1[base[m as int].predecessors[q] as int].parallel_group matches Some(
                            h,
                        ) && h < group_id)
                } by {
                    let m = instructions@[k];
                    assert(ready@.contains(m));
                    let k2 = choose|k2: int| 0 <= k2 < ready@.len() && #[trigger] ready@[k2] == m;
                    assert(preds_done(base, processed@, m as int));
                    assert(instructions@.contains(m));
                    assert forall|q: int| 0 <= q < base[m as int].predecessors.len() implies (#[trigger] nv1[base[m as int].predecessors[q] as int].parallel_group matches Some(
                        h,
                    ) && h < group_id) by {
                        let p = base[m as int].predecessors[q];
                        assert(processed@[p as int]);
                        assert(p < m);
                        assert(nv0[p as int].parallel_group is Some);
                        if instructions@.contains(p) {
                            let k3 = choose|k3: int| 0 <= k3 < instructions@.len() && #[trigger] instructions@[k3] == p;
                            assert(ready@.contains(p));
                            let k4 = choose|k4: int| 0 <= k4 < ready@.len() && #[trigger] ready@[k4] == p;
                        }
                        assert(nv1[p as int] == nv0[p as int]);
                        let nd = nodes_view(self.nodes@)[p as int];
                    }
                }
                let grp = groups1[group_id as int];
                assert(grp.id == group_id);
                assert(grp.instructions == instructions@);
                assert(grp.instructions.len() > 0);
                assert(grp.instructions.no_duplicates());
                assert(holds_units(grp.resource_requirements, units_of(base, grp.instructions)));
                assert(fits(grp.resource_requirements, target) || grp.instructions.len() == 1);
                assert(grp.latency == max_latency(base, grp.instructions));
                assert(scheduled_group(base, nv1, groups1, group_id as int, target));
                assert forall|g: int| 0 <= g < group_id + 1 implies scheduled_group(base, nv1, groups1, g, target) by {
                    if g < group_id {
                        lemma_group_stable(base, nv0, nv1, groups0, groups1, g, target);
                    }
                }
            }
            let ghost start_count = done_count;
            let mut t: usize = 0;
            while t < instructions.len()
                invariant
                    n == base.len(),
                    self.nodes@.len() == n,
                    nodes_view(self.nodes@) == nv1,
                    nv1.len() == n,
                    well_linked(base),
                    self.target_resources == target,
                    self.dependencies@ == deps,
                    self.stats == stats,
                    groups_view(self.parallel_groups@) == groups1,
                    processed@.len() == n,
                    t <= instructions@.len(),
                    instructions@.len() > 0,
                    instructions@.no_duplicates(),
                    forall|k: int| 0 <= k < instructions@.len() ==> (#[trigger] instructions@[k]) < n && nv1[instructions@[k] as int].parallel_group == Some(group_id),
                    forall|i: int|
                        0 <= i < n ==> processed@[i] == (#[trigger] nv1[i].parallel_group is Some && !instructions@.subrange(
                            t as int,
                            instructions@.len() as int,
                        ).contains(i as usize)),
                    forall|k: int| t <= k < instructions@.len() ==> ready@.contains(#[trigger] instructions@[k]),
                    done_count == count_true(processed@),
                    done_count == start_count + t,
                    done_count <= n,
                    group_id <= start_count,
                    ready_ok(base, processed@, ready@),
                    ready_complete(base, processed@, ready@),
                    forall|i: int| 0 <= i < n ==> #[trigger] unscheduled(base[i]) == base[i],
                    forall|i: int| 0 <= i < n ==> #[trigger] unscheduled(nv1[i]) == base[i],
                decreases instructions.len() - t,
            {
                let idx = instructions[t];
                let ghost p0 = processed@;
                let ghost rd0 = ready@;
                assert(ready@.contains(idx));
                let k_idx = t;
                assert(!p0[idx as int]) by {
                    let k2 = choose|k2: int| 0 <= k2 < rd0.len() && #[trigger] rd0[k2] == idx;
                }
                processed.set(idx, true);
                proof {
                    lemma_count_true_set(p0, idx as int);
                    lemma_count_true_bound(processed@);
                }
                done_count = done_count + 1;
                remove_index(&mut ready, idx);
                let ghost p1 = processed@;
                let ghost rd1 = ready@;
                proof {
                    assert forall|j: int| 0 <= j < n && #[trigger] preds_done(base, p0, j) implies preds_done(base, p1, j) by {
                        assert forall|q: int| 0 <= q < base[j].predecessors.len() implies #[trigger] p1[base[j].predecessors[q] as int] by {
                            assert(p0[base[j].predecessors[q] as int]);
                        }
                    }
                    assert forall|k: int| 0 <= k < rd1.len() implies (#[trigger] rd1[k]) < base.len() && !p1[rd1[k] as int]
                        && preds_done(base, p1, rd1[k] as int) by {
                        assert(rd1.contains(rd1[k]));
                        let k2 = choose|k2: int| 0 <= k2 < rd0.len() && #[trigger] rd0[k2] == rd1[k];
                    }
                    assert(ready_ok(base, p1, rd1));
                }
                assert(nodes_view(self.nodes@)[idx as int] == self.nodes@[idx as int]@);
                assert(unscheduled(nv1[idx as int]) == base[idx as int]);
                let ns = self.nodes[idx].successors.len();
                let mut q: usize = 0;
                proof {
                    let succs = base[idx as int].successors;
                    assert(succs.subrange(0, ns as int) =~= succs);
                    assert forall|j: int| 0 <= j < n && !p1[j] && #[trigger] preds_done(base, p1, j) implies rd1.contains(j as usize)
                        || succs.subrange(0, ns as int).contains(j as usize) by {
                        if preds_done(base, p0, j) {
                            assert(rd0.contains(j as usize));
                            assert(j != idx);
                        } else {
                            let qq = choose|qq: int| 0 <= qq < base[j].predecessors.len() && !#[trigger] p0[base[j].predecessors[qq] as int];
                            let pp = base[j].predecessors[qq];
                            assert(p1[pp as int]);
                            assert(pp == idx);
                            assert(base[pp as int].successors.contains(j as usize));
                        }
                    }
                }
                while q < ns
                    invariant
                        n == base.len(),
                        self.nodes@.len() == n,
                        nodes_view(self.nodes@) == nv1,
                        well_linked(base),
                        idx < n,
                        q <= ns,
                        ns == base[idx as int].successors.len(),
                        processed@ == p1,
                        p1.len() == n,
                        ready_ok(base, p1, ready@),
                        forall|j: int|
                            0 <= j < n && !p1[j] && #[trigger] preds_done(base, p1, j) ==> ready@.contains(j as usize)
                                || base[idx as int].successors.subrange(q as int, ns as int).contains(j as usize),
                        forall|y: usize| #[trigger] rd1.contains(y) ==> ready@.contains(y),
                        nv1.len() == n,
                        forall|i: int| 0 <= i < n ==> #[trigger] unscheduled(nv1[i]) == base[i],
                    decreases ns - q,
                {
                    assert(nodes_view(self.nodes@)[idx as int] == self.nodes@[idx as int]@);
                    assert(unscheduled(nv1[idx as int]) == base[idx as int]);
                    let s = self.nodes[idx].successors[q];
                    assert(s == base[idx as int].successors[q as int]);
                    assert(s < n);
                    let ghost rq = ready@;
                    if !processed[s] {
                        assert(nodes_view(self.nodes@)[s as int] == self.nodes@[s as int]@);
                        assert(unscheduled(nv1[s as int]) == base[s as int]);
                        proof {
                            assert forall|k: int| 0 <= k < base[s as int].predecessors.len() implies base[s as int].predecessors[k] < processed@.len() by {
                                assert(base[s as int].predecessors[k] < s);
                            }
                        }
                        let all = all_marked(&self.nodes[s].predecessors, &processed);
                        assert(all == preds_done(base, p1, s as int));
                        if all && !contains_index(&ready, s) {
                            ready.push(s);
                            proof {
                                assert forall|y: usize| #[trigger] ready@.contains(y) <== (rq.contains(y) || y == s) by {
                                    if rq.contains(y) {
                                        let k = choose|k: int| 0 <= k < rq.len() && #[trigger] rq[k] == y;
                                        assert(ready@[k] == y);
                                    }
                                    if y == s {
                                        assert(ready@[rq.len() as int] == s);
                                    }
                                }
                                assert forall|a: int, b: int| 0 <= a < ready@.len() && 0 <= b < ready@.len() && a != b implies ready@[a]
                                    != ready@[b] by {
                                    if a < rq.len() && b < rq.len() {
                                        assert(ready@[a] == rq[a]);
                                        assert(ready@[b] == rq[b]);
                                    } else if a < rq.len() {
                                        assert(ready@[a] == rq[a]);
                                        assert(rq.contains(ready@[a]));
                                    } else if b < rq.len() {
                                        assert(ready@[b] == rq[b]);
                                        assert(rq.contains(ready@[b]));
                                    }
                                }
                                assert forall|k: int| 0 <= k < ready@.len() implies (#[trigger] ready@[k]) < base.len() && !p1[ready@[k] as int]
                                    && preds_done(base, p1, ready@[k] as int) by {
                                    if k < rq.len() {
                                        assert(ready@[k] == rq[k]);
                                    }
                                }
                            }
                        }
                    }
                    proof {
                        let succs = base[idx as int].successors;
                        assert forall|j: int| 0 <= j < n && !p1[j] && #[trigger] preds_done(base, p1, j) implies ready@.contains(j as usize)
                            || succs.subrange(q + 1, ns as int).contains(j as usize) by {
                            if succs.subrange(q as int, ns as int).contains(j as usize) && !rq.contains(j as usize) {
                                let k = choose|k: int| 0 <= k < ns - q && #[trigger] succs.subrange(q as int, ns as int)[k] == j as usize;
                                if k > 0 {
                                    assert(succs.subrange(q + 1, ns as int)[k - 1] == j as usize);
                                } else {
                                    assert(j == s);
                                }
                            }
                            if rq.contains(j as usize) {
                                let k = choose|k: int| 0 <= k < rq.len() && #[trigger] rq[k] == j as usize;
                                assert(ready@[k] == rq[k]);
                            }
                        }
                    }
                    q += 1;
                }
                proof {
                    assert(base[idx as int].successors.subrange(ns as int, ns as int) =~= Seq::<usize>::empty());
                    let tail0 = instructions@.subrange(t as int, instructions@.len() as int);
                    let tail1 = instructions@.subrange(t + 1, instructions@.len() as int);
                    assert forall|y: usize| #[trigger] tail0.contains(y) <==> (tail1.contains(y) || y == idx) by {
                        if tail0.contains(y) {
                            let k = choose|k: int| 0 <= k < tail0.len() && #[trigger] tail0[k] == y;
                            if k > 0 {
                                assert(tail1[k - 1] == y);
                            }
                        }
                        if tail1.contains(y) {
                            let k = choose|k: int| 0 <= k < tail1.len() && #[trigger] tail1[k] == y;
                            assert(tail0[k + 1] == y);
                        }
                        if y == idx {
                            assert(tail0[0] == y);
                        }
                    }
                    assert(!tail1.contains(idx)) by {
                        if tail1.contains(idx) {
                            let k = choose|k: int| 0 <= k < tail1.len() && #[trigger] tail1[k] == idx;
                            assert(instructions@[t + 1 + k] == instructions@[t as int]);
                        }
                    }
                    assert forall|i: int| 0 <= i < n implies processed@[i] == (#[trigger] nv1[i].parallel_group is Some && !tail1.contains(
                        i as usize,
                    )) by {
                        assert(p0[i] == (nv1[i].parallel_group is Some && !tail0.contains(i as usize)));
                        if i == idx {
                            assert(nv1[instructions@[t as int] as int].parallel_group == Some(group_id));
                        } else {
                            assert(processed@[i] == p0[i]);
                            assert(tail0.contains(i as usize) == tail1.contains(i as usize));
                        }
                    }
                    assert forall|k: int| t + 1 <= k < instructions@.len() implies ready@.contains(#[trigger] instructions@[k]) by {
                        assert(rd0.contains(instructions@[k]));
                        assert(instructions@[k] != idx);
                        assert(rd1.contains(instructions@[k]));
                    }
                }
                t += 1;
            }
            proof {
                assert(instructions@.subrange(t as int, instructions@.len() as int) =~= Seq::<usize>::empty());
                assert forall|i: int| 0 <= i < n implies {
                    let nd = #[trigger] nodes_view(self.nodes@)[i];
                    &&& unscheduled(nd) == base[i]
                    &&& nd.can_parallel == (nd.parallel_group is Some)
                    &&& processed@[i] == (nd.parallel_group is Some)
                    &&& (nd.parallel_group matches Some(g) ==> g < group_id + 1 && groups_view(
                        self.parallel_groups@,
                    )[g as int].instructions.contains(i as usize))
                } by {
                    assert(nv1[i] == if instructions@.contains(i as usize) {
                        NodeView { can_parallel: true, parallel_group: Some(group_id), ..nv0[i] }
                    } else {
                        nv0[i]
                    });
                    assert(groups1[group_id as int].instructions == instructions@);
                    if !instructions@.contains(i as usize) {
                        if nv0[i].parallel_group is Some {
                            assert(groups1[nv0[i].parallel_group->0 as int] == groups0[nv0[i].parallel_group->0 as int]);
                        }
                    }
                }
            }
            group_id += 1;
        }
        proof {
            lemma_all_done(base, processed@, n as int);
            assert forall|i: int| 0 <= i < nodes_view(self.nodes@).len() implies {
                &&& unscheduled(#[trigger] nodes_view(self.nodes@)[i]) == unscheduled(base[i])
                &&& nodes_view(self.nodes@)[i].can_parallel
                &&& nodes_view(self.nodes@)[i].parallel_group matches Some(g) && g < groups_view(self.parallel_groups@).len()
                    && groups_view(self.parallel_groups@)[g as int].instructions.contains(i as usize)
            } by {
                assert(processed@[i]);
            }
        }
    }

    /// Counts the nodes, the groups, the nodes placed in a group and the
    /// size of the largest group.
    fn calculate_stats(&mut self)
        ensures
            final(self)@ == (ParallelizerView { stats: stats_of(old(self)@.nodes, old(self)@.groups), ..old(self)@ }),
    {
        let total_instructions = self.nodes.len();
        let parallel_groups = self.parallel_groups.len();
        let mut parallel_instructions: usize = 0;
        let mut i: usize = 0;
        while i < self.nodes.len()
            invariant
                i <= self.nodes@.len(),
                parallel_instructions == count_parallel(nodes_view(self.nodes@).subrange(0, i as int)),
            decreases self.nodes.len() - i,
        {
            let ghost nv = nodes_view(self.nodes@);
            proof {
                assert(nv.subrange(0, i + 1).drop_last() =~= nv.subrange(0, i as int));
                assert(nv[i as int] == self.nodes@[i as int]@);
                lemma_count_parallel_bound(nv.subrange(0, i as int));
            }
            if self.nodes[i].can_parallel {
                parallel_instructions += 1;
            }
            i += 1;
        }
        let mut max_parallelism: usize = 0;
        let mut g: usize = 0;
        while g < self.parallel_groups.len()
            invariant
                g <= self.parallel_groups@.len(),
                max_parallelism == max_group_size(groups_view(self.parallel_groups@).subrange(0, g as int)),
            decreases self.parallel_groups.len() - g,
        {
            let ghost gv = groups_view(self.parallel_groups@);
            proof {
                assert(gv.subrange(0, g + 1).drop_last() =~= gv.subrange(0, g as int));
                assert(gv[g as int] == self.parallel_groups@[g as int]@);
            }
            let size = self.parallel_groups[g].instructions.len();
            if size > max_parallelism {
                max_parallelism = size;
            }
            g += 1;
        }
        proof {
            assert(nodes_view(self.nodes@).subrange(0, self.nodes@.len() as int) =~= nodes_view(self.nodes@));
            assert(groups_view(self.parallel_groups@).subrange(0, self.parallel_groups@.len() as int) =~= groups_view(
                self.parallel_groups@,
            ));
        }
        self.stats = ParallelismStats { total_instructions, parallel_groups, max_parallelism, parallel_instructions };
    }

    /// Builds the dependency graph of `instructions`, divides it into issue
    /// groups for the target (see `valid_schedule`) and records the
    /// statistics. It always succeeds.
    pub fn analyze_parallelism(&mut self, instructions: &[IROp]) -> (r: Result<(), String>)
        ensures
            r is Ok,
            analyzed(final(self)@, instructions@, old(self)@.target),
    {
        let n = instructions.len();
        proof {
            lemma_graph_well_linked(instructions@);
        }
        self.build_dependency_graph(instructions);
        self.identify_parallel_groups();
        self.calculate_stats();
        Ok(())
    }

    /// The operations of the groups, group by group, or `ops` itself where
    /// that is empty. This analyzes `ops` first (see `analyze_parallelism`).
    pub fn optimize_instruction_sequence(&mut self, ops: &[IROp]) -> (r: Result<Vec<IROp>, String>)
        ensures
            analyzed(final(self)@, ops@, old(self)@.target),
            r matches Ok(v) && v@ == if grouped_ops(final(self)@.nodes, final(self)@.groups).len() == 0 {
                ops@
            } else {
                grouped_ops(final(self)@.nodes, final(self)@.groups)
            },
    {
        let _ = self.analyze_parallelism(ops);
        let mut optimized_ops = self.grouped_operations();
        if optimized_ops.len() == 0 {
            let mut k: usize = 0;
            while k < ops.len()
                invariant
                    k <= ops@.len(),
                    optimized_ops@ == ops@.subrange(0, k as int),
                decreases ops.len() - k,
            {
                optimized_ops.push(ops[k]);
                k += 1;
            }
            assert(ops@.subrange(0, ops@.len() as int) =~= ops@);
        }
        Ok(optimized_ops)
    }

    /// The operations of the groups, group by group.
    fn grouped_operations(&self) -> (r: Vec<IROp>)
        ensures
            r@ == grouped_ops(self@.nodes, self@.groups),
    {
        let ghost nv = nodes_view(self.nodes@);
        let ghost gv = groups_view(self.parallel_groups@);
        let mut out: Vec<IROp> = Vec::new();
        let mut g: usize = 0;
        while g < self.parallel_groups.len()
            invariant
                g <= gv.len(),
                gv == groups_view(self.parallel_groups@),
                nv == nodes_view(self.nodes@),
                out@ == grouped_ops(nv, gv.subrange(0, g as int)),
            decreases self.parallel_groups.len() - g,
        {
            assert(gv[g as int] == self.parallel_groups@[g as int]@);
            let members = &self.parallel_groups[g].instructions;
            let ghost before = out@;
            let mut k: usize = 0;
            while k < members.len()
                invariant
                    k <= members@.len(),
                    members@ == gv[g as int].instructions,
                    nv == nodes_view(self.nodes@),
                    out@ == before + ops_at(nv, members@.subrange(0, k as int)),
                decreases members.len() - k,
            {
                let idx = members[k];
                proof {
                    assert(members@.subrange(0, k + 1).drop_last() =~= members@.subrange(0, k as int));
                }
                if idx < self.nodes.len() {
                    assert(nv[idx as int] == self.nodes@[idx as int]@);
                    out.push(self.nodes[idx].op);
                }
                assert(out@ =~= before + ops_at(nv, members@.subrange(0, k + 1)));
                k += 1;
            }
            proof {
                assert(members@.subrange(0, members@.len() as int) =~= members@);
                assert(gv.subrange(0, g + 1).drop_last() =~= gv.subrange(0, g as int));
            }
            g += 1;
        }
        assert(gv.subrange(0, gv.len() as int) =~= gv);
        out
    }

    /// The operations of the groups, group by group, followed by those of
    /// the operations not placed in any group.
    pub fn reschedule_for_parallelism(&self, original_instructions: &[IROp]) -> (r: Vec<IROp>)
        ensures
            r@ == grouped_ops(self@.nodes, self@.groups) + ungrouped_ops(self@.nodes),
    {
        let mut rescheduled = self.grouped_operations();
        let ghost front = rescheduled@;
        let ghost nv = nodes_view(self.nodes@);
        let mut i: usize = 0;
        while i < self.nodes.len()
            invariant
                i <= nv.len(),
                nv == nodes_view(self.nodes@),
                rescheduled@ == front + ungrouped_ops(nv.subrange(0, i as int)),
            decreases self.nodes.len() - i,
        {
            assert(nv[i as int] == self.nodes@[i as int]@);
            proof {
                assert(nv.subrange(0, i + 1).drop_last() =~= nv.subrange(0, i as int));
            }
            if !self.nodes[i].can_parallel {
                rescheduled.push(self.nodes[i].op);
            }
            assert(rescheduled@ =~= front + ungrouped_ops(nv.subrange(0, i + 1)));
            i += 1;
        }
        assert(nv.subrange(0, nv.len() as int) =~= nv);
        rescheduled
    }

    pub fn get_instruction_nodes(&self) -> (r: &[InstructionNode])
        ensures
            nodes_view(r@) == self@.nodes,
    {
        self.nodes.as_slice()
    }

    pub fn get_dependencies(&self) -> (r: &[DependencyEdge])
        ensures
            r@ == self@.dependencies,
    {
        self.dependencies.as_slice()
    }

    pub fn get_parallel_groups(&self) -> (r: &[ParallelGroup])
        ensures
            groups_view(r@) == self@.groups,
    {
        self.parallel_groups.as_slice()
    }

    pub fn get_stats(&self) -> (r: &ParallelismStats)
        ensures
            *r == self@.stats,
    {
        &self.stats
    }
}


/// The register an operation writes, for the operations whose registers
/// the dependency analysis tracks: the destination of two-register ALU
/// operations (add, sub, mul, div, rem, and, or, xor), register shifts,
/// loads, immediate moves and moves, as the IR defines them.
pub open spec fn defined_reg(op: IROp) -> Option<RegId> {
    match op {
        IROp::Add { dst, .. } | IROp::Sub { dst, .. } | IROp::Mul { dst, .. } | IROp::Div { dst, .. }
        | IROp::Rem { dst, .. } | IROp::And { dst, .. } | IROp::Or { dst, .. } | IROp::Xor { dst, .. }
        | IROp::Sll { dst, .. } | IROp::Srl { dst, .. } | IROp::Sra { dst, .. } | IROp::Load { dst, .. }
        | IROp::MovImm { dst, .. } | IROp::Mov { dst, .. } => Some(dst),
        _ => None,
    }
}

/// `op` takes register `r` as an operand: either source of a two-register
/// ALU operation, the value or the shift amount of a register shift, the
/// stored register of a store, or the source of a move.
pub open spec fn uses_reg(op: IROp, r: RegId) -> bool {
    match op {
        IROp::Add { src1, src2, .. } | IROp::Sub { src1, src2, .. } | IROp::Mul { src1, src2, .. }
        | IROp::And { src1, src2, .. } | IROp::Or { src1, src2, .. } | IROp::Xor { src1, src2, .. } => src1 == r
            || src2 == r,
        IROp::Div { src1, src2, .. } | IROp::Rem { src1, src2, .. } => src1 == r || src2 == r,
        IROp::Sll { src, shreg, .. } | IROp::Srl { src, shreg, .. } | IROp::Sra { src, shreg, .. } => src == r
            || shreg == r,
        IROp::Store { src, .. } => src == r,
        IROp::Mov { src, .. } => src == r,
        _ => false,
    }
}

proof fn lemma_row_part_has(ops: Seq<IROp>, i: int, a: int, b: int, x: int)
    requires
        a <= x < b,
        dep_of(ops, i, x) is Some,
    ensures
        row_part(ops, i, a, b).contains(dep_of(ops, i, x)->0),
    decreases b - a,
{
    let e = dep_of(ops, i, x)->0;
    if x == b - 1 {
        let prev = row_part(ops, i, a, b - 1);
        assert(row_part(ops, i, a, b) == prev + seq![e]);
        assert((prev + seq![e])[prev.len() as int] == e);
    } else {
        lemma_row_part_has(ops, i, a, b - 1, x);
        let prev = row_part(ops, i, a, b - 1);
        let k = choose|k: int| 0 <= k < prev.len() && prev[k] == e;
        let tail = match dep_of(ops, i, b - 1) {
            Some(f) => seq![f],
            None => Seq::<DependencyEdge>::empty(),
        };
        assert((prev + tail)[k] == e);
    }
}

proof fn lemma_edges_prefix_has(ops: Seq<IROp>, k: int, i: int, e: DependencyEdge)
    requires
        0 <= i < k,
        row_part(ops, i, i + 1, ops.len() as int).contains(e),
    ensures
        edges_prefix(ops, k).contains(e),
    decreases k,
{
    let prev = edges_prefix(ops, k - 1);
    let row = row_part(ops, k - 1, k, ops.len() as int);
    if i == k - 1 {
        let q = choose|q: int| 0 <= q < row.len() && row[q] == e;
        assert((prev + row)[prev.len() + q] == e);
    } else {
        lemma_edges_prefix_has(ops, k - 1, i, e);
        let q = choose|q: int| 0 <= q < prev.len() && prev[q] == e;
        assert((prev + row)[q] == e);
    }
}

proof fn lemma_pred_part_has(ops: Seq<IROp>, j: int, i: int, x: int)
    requires
        0 <= x < i,
        dep_of(ops, x, j) is Some,
    ensures
        pred_part(ops, j, i).contains(x as usize),
    decreases i,
{
    let prev = pred_part(ops, j, i - 1);
    if x == i - 1 {
        assert((prev + seq![x as usize])[prev.len() as int] == x as usize);
    } else {
        lemma_pred_part_has(ops, j, i - 1, x);
        let q = choose|q: int| 0 <= q < prev.len() && prev[q] == x as usize;
        let tail = if dep_of(ops, i - 1, j) is Some { seq![(i - 1) as usize] } else { Seq::<usize>::empty() };
        assert((prev + tail)[q] == x as usize);
    }
}

/// Read after write is respected: after `analyze_parallelism(ops)`, when
/// operation `j` takes as an operand the register that an earlier operation
/// `i` writes (see `defined_reg` and `uses_reg`), the dependencies hold a
/// read-after-write edge from `i` to `j` on that register, and `j` is
/// issued in a later parallel group than `i`.
pub proof fn lemma_read_after_write_ordered(
    p: ParallelizerView,
    ops: Seq<IROp>,
    target: ResourceRequirements,
    i: int,
    j: int,
    d: RegId,
)
    requires
        analyzed(p, ops, target),
        ops.len() <= usize::MAX,
        0 <= i < j < ops.len(),
        defined_reg(ops[i]) == Some(d),
        uses_reg(ops[j], d),
    ensures
        p.dependencies.contains(DependencyEdge { from: i as usize, to: j as usize, dep_type: DependencyType::True, register: d }),
        p.nodes[i].parallel_group matches Some(gi) && p.nodes[j].parallel_group matches Some(gj) && gi < gj,
{
    let e = DependencyEdge { from: i as usize, to: j as usize, dep_type: DependencyType::True, register: d };
    let wi = writes_of(ops[i]);
    let rj = reads_of(ops[j]);
    assert(wi == seq![d]);
    assert(rj.contains(d)) by {
        if rj[0] == d {
        } else {
            assert(rj[1] == d);
        }
    }
    assert(first_common(wi, rj) == Some(d)) by {
        reveal_with_fuel(first_common, 2);
    }
    assert(dep_of(ops, i, j) == Some(e));
    lemma_row_part_has(ops, i, i + 1, ops.len() as int, j);
    lemma_edges_prefix_has(ops, ops.len() as int, i, e);
    let base = graph_of(ops);
    assert(base[j] == full_node(ops, j));
    lemma_pred_part_has(ops, j, j, i);
    let preds = base[j].predecessors;
    let q = choose|q: int| 0 <= q < preds.len() && preds[q] == i as usize;
    let gj = p.nodes[j].parallel_group->0;
    assert(p.groups[gj as int].instructions.contains(j as usize));
    let k = choose|k: int| 0 <= k < p.groups[gj as int].instructions.len() && p.groups[gj as int].instructions[k] == j as usize;
    assert(scheduled_group(base, p.nodes, p.groups, gj as int, target));
    assert(p.nodes[base[j].predecessors[q] as int].parallel_group matches Some(h) && h < gj);
}

proof fn lemma_first_common_some(xs: Seq<RegId>, ys: Seq<RegId>, x: RegId)
    requires
        xs.contains(x),
        ys.contains(x),
    ensures
        first_common(xs, ys) is Some,
    decreases xs.len(),
{
    if !ys.contains(xs[0]) {
        let k = choose|k: int| 0 <= k < xs.len() && xs[k] == x;
        assert(xs.drop_first()[k - 1] == x);
        lemma_first_common_some(xs.drop_first(), ys, x);
    }
}

proof fn lemma_uses_read(op: IROp, d: RegId)
    requires
        uses_reg(op, d),
    ensures
        reads_of(op).contains(d),
{
    let r = reads_of(op);
    if r[0] != d {
        assert(r[1] == d);
    }
}

proof fn lemma_dep_ordered(p: ParallelizerView, ops: Seq<IROp>, target: ResourceRequirements, i: int, j: int)
    requires
        analyzed(p, ops, target),
        ops.len() <= usize::MAX,
        0 <= i < j < ops.len(),
        dep_of(ops, i, j) is Some,
    ensures
        p.dependencies.contains(dep_of(ops, i, j)->0),
        p.nodes[i].parallel_group matches Some(gi) && p.nodes[j].parallel_group matches Some(gj) && gi < gj,
{
    let e = dep_of(ops, i, j)->0;
    lemma_row_part_has(ops, i, i + 1, ops.len() as int, j);
    lemma_edges_prefix_has(ops, ops.len() as int, i, e);
    let base = graph_of(ops);
    assert(base[j] == full_node(ops, j));
    lemma_pred_part_has(ops, j, j, i);
    let preds = base[j].predecessors;
    let q = choose|q: int| 0 <= q < preds.len() && preds[q] == i as usize;
    let gj = p.nodes[j].parallel_group->0;
    assert(p.groups[gj as int].instructions.contains(j as usize));
    let k = choose|k: int| 0 <= k < p.groups[gj as int].instructions.len() && p.groups[gj as int].instructions[k] == j as usize;
    assert(scheduled_group(base, p.nodes, p.groups, gj as int, target));
    assert(p.nodes[base[j].predecessors[q] as int].parallel_group matches Some(h) && h < gj);
}

/// Operations `a` and `b` conflict on register `d`: one writes `d` and the
/// other reads or writes it (see `defined_reg` and `uses_reg`).
pub open spec fn conflict_on(a: IROp, b: IROp, d: RegId) -> bool {
    ||| defined_reg(a) == Some(d) && uses_reg(b, d)
    ||| uses_reg(a, d) && defined_reg(b) == Some(d)
    ||| defined_reg(a) == Some(d) && defined_reg(b) == Some(d)
}

/// Every register conflict is respected: after `analyze_parallelism(ops)`,
/// when an earlier operation `i` and a later operation `j` conflict on a
/// register (read after write, write after read, or write after write), the
/// dependencies hold an edge from `i` to `j`, and `j` is issued in a later
/// parallel group than `i`, so no group holds two conflicting operations.
pub proof fn lemma_conflicts_ordered(
    p: ParallelizerView,
    ops: Seq<IROp>,
    target: ResourceRequirements,
    i: int,
    j: int,
    d: RegId,
)
    requires
        analyzed(p, ops, target),
        ops.len() <= usize::MAX,
        0 <= i < j < ops.len(),
        conflict_on(ops[i], ops[j], d),
    ensures
        exists|e: DependencyEdge| #[trigger] p.dependencies.contains(e) && e.from == i && e.to == j,
        p.nodes[i].parallel_group matches Some(gi) && p.nodes[j].parallel_group matches Some(gj) && gi < gj,
{
    let (ri, wi, rj, wj) = (reads_of(ops[i]), writes_of(ops[i]), reads_of(ops[j]), writes_of(ops[j]));
    if defined_reg(ops[i]) == Some(d) && uses_reg(ops[j], d) {
        assert(wi == seq![d] && wi[0] == d);
        lemma_uses_read(ops[j], d);
        lemma_first_common_some(wi, rj, d);
    } else if uses_reg(ops[i], d) && defined_reg(ops[j]) == Some(d) {
        lemma_uses_read(ops[i], d);
        assert(wj == seq![d] && wj[0] == d);
        if first_common(wi, rj) is None {
            lemma_first_common_some(ri, wj, d);
        }
    } else {
        assert(wi == seq![d] && wi[0] == d);
        assert(wj == seq![d] && wj[0] == d);
        if first_common(wi, rj) is None && first_common(ri, wj) is None {
            lemma_first_common_some(wi, wj, d);
        }
    }
    assert(dep_of(ops, i, j) is Some);
    lemma_dep_ordered(p, ops, target, i, j);
    let e = dep_of(ops, i, j)->0;
    assert(p.dependencies.contains(e) && e.from == i && e.to == j);
}

/// How many of the operations of `ops` at `idxs` access memory (loads and
/// stores).
pub open spec fn memory_accesses(ops: Seq<IROp>, idxs: Seq<usize>) -> int
    decreases idxs.len(),
{
    if idxs.len() == 0 {
        0
    } else {
        memory_accesses(ops, idxs.drop_last()) + if ops[idxs.last() as int] is Load || ops[idxs.last() as int] is Store {
            1int
        } else {
            0int
        }
    }
}

proof fn lemma_units_count(ops: Seq<IROp>, idxs: Seq<usize>)
    requires
        forall|k: int| 0 <= k < idxs.len() ==> #[trigger] idxs[k] < ops.len(),
    ensures
        units_of(graph_of(ops), idxs).1 == memory_accesses(ops, idxs),
        units_of(graph_of(ops), idxs).0 >= idxs.len() - memory_accesses(ops, idxs),
    decreases idxs.len(),
{
    if idxs.len() > 0 {
        let init = idxs.drop_last();
        assert forall|k: int| 0 <= k < init.len() implies #[trigger] init[k] < ops.len() by {
            assert(init[k] == idxs[k]);
        }
        lemma_units_count(ops, init);
        assert(idxs.last() == idxs[idxs.len() - 1]);
        assert(graph_of(ops)[idxs.last() as int].op == ops[idxs.last() as int]);
    }
}

/// Parallel groups respect the target's units: after
/// `analyze_parallelism(ops)` with target `target`, a group of two or more
/// operations holds at most `memory_ports` memory accesses (loads and
/// stores) and at most `alu_units` other operations, each of which needs
/// an arithmetic unit.
pub proof fn lemma_groups_within_units(p: ParallelizerView, ops: Seq<IROp>, target: ResourceRequirements, g: int)
    requires
        analyzed(p, ops, target),
        0 <= g < p.groups.len(),
        p.groups[g].instructions.len() >= 2,
    ensures
        memory_accesses(ops, p.groups[g].instructions) <= target.memory_ports,
        p.groups[g].instructions.len() - memory_accesses(ops, p.groups[g].instructions) <= target.alu_units,
{
    let base = graph_of(ops);
    assert(scheduled_group(base, p.nodes, p.groups, g, target));
    let idxs = p.groups[g].instructions;
    assert forall|k: int| 0 <= k < idxs.len() implies #[trigger] idxs[k] < ops.len() by {
        assert(idxs[k] < base.len());
    }
    lemma_units_count(ops, idxs);
}

} // verus!
