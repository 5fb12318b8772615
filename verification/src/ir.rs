//! The intermediate representation that the encoders and optimizers work on:
//! register-level operations over virtual registers.

use vstd::prelude::*;

verus! {

/// A virtual register number.
pub type RegId = u32;

/// A guest virtual address.
pub type GuestAddr = u64;

/// Read-modify-write operations of an atomic memory access.
#[derive(Debug, Clone, Copy, PartialEq, Eq, Hash)]
pub enum AtomicOp {
    Add,
    Sub,
    And,
    Or,
    Xor,
    Xchg,
    Swap,
    Min,
    Max,
    MinU,
    MaxU,
}

/// The name of an atomic operation, as its `Debug` rendering spells it.
pub open spec fn atomic_op_text(op: AtomicOp) -> Seq<char> {
    match op {
        AtomicOp::Add => "Add"@,
        AtomicOp::Sub => "Sub"@,
        AtomicOp::And => "And"@,
        AtomicOp::Or => "Or"@,
        AtomicOp::Xor => "Xor"@,
        AtomicOp::Xchg => "Xchg"@,
        AtomicOp::Swap => "Swap"@,
        AtomicOp::Min => "Min"@,
        AtomicOp::Max => "Max"@,
        AtomicOp::MinU => "MinU"@,
        AtomicOp::MaxU => "MaxU"@,
    }
}

pub fn atomic_op_name(op: AtomicOp) -> (s: &'static str)
    ensures
        s@ == atomic_op_text(op),
{
    match op {
        AtomicOp::Add => "Add",
        AtomicOp::Sub => "Sub",
        AtomicOp::And => "And",
        AtomicOp::Or => "Or",
        AtomicOp::Xor => "Xor",
        AtomicOp::Xchg => "Xchg",
        AtomicOp::Swap => "Swap",
        AtomicOp::Min => "Min",
        AtomicOp::Max => "Max",
        AtomicOp::MinU => "MinU",
        AtomicOp::MaxU => "MaxU",
    }
}

/// Attributes of a memory access.
#[derive(Debug, Clone, Copy, PartialEq, Eq, Hash, Default)]
pub struct MemFlags {
    pub volatile: bool,
    pub atomic: bool,
}

/// One IR operation. Register operands are virtual register numbers;
/// `size` and `element_size` are in bytes.
#[derive(Debug, Clone, Copy, PartialEq, Eq, Hash)]
pub enum IROp {
    Nop,
    Const { dst: RegId, value: i64 },
    Mov { dst: RegId, src: RegId },
    MovImm { dst: RegId, imm: u64 },
    Add { dst: RegId, src1: RegId, src2: RegId },
    Sub { dst: RegId, src1: RegId, src2: RegId },
    Mul { dst: RegId, src1: RegId, src2: RegId },
    Div { dst: RegId, src1: RegId, src2: RegId, signed: bool },
    Rem { dst: RegId, src1: RegId, src2: RegId, signed: bool },
    And { dst: RegId, src1: RegId, src2: RegId },
    Or { dst: RegId, src1: RegId, src2: RegId },
    Xor { dst: RegId, src1: RegId, src2: RegId },
    Not { dst: RegId, src: RegId },
    Sll { dst: RegId, src: RegId, shreg: RegId },
    Srl { dst: RegId, src: RegId, shreg: RegId },
    Sra { dst: RegId, src: RegId, shreg: RegId },
    AddImm { dst: RegId, src: RegId, imm: i64 },
    MulImm { dst: RegId, src: RegId, imm: i64 },
    SllImm { dst: RegId, src: RegId, sh: u8 },
    SrlImm { dst: RegId, src: RegId, sh: u8 },
    SraImm { dst: RegId, src: RegId, sh: u8 },
    CmpEq { dst: RegId, lhs: RegId, rhs: RegId },
    CmpNe { dst: RegId, lhs: RegId, rhs: RegId },
    CmpLt { dst: RegId, lhs: RegId, rhs: RegId },
    CmpLtU { dst: RegId, lhs: RegId, rhs: RegId },
    CmpGe { dst: RegId, lhs: RegId, rhs: RegId },
    CmpGeU { dst: RegId, lhs: RegId, rhs: RegId },
    Select { dst: RegId, cond: RegId, true_val: RegId, false_val: RegId },
    Load { dst: RegId, base: RegId, offset: i64, size: u8, flags: MemFlags },
    Store { src: RegId, base: RegId, offset: i64, size: u8, flags: MemFlags },
    VecAdd { dst: RegId, src1: RegId, src2: RegId, element_size: u8 },
    VecSub { dst: RegId, src1: RegId, src2: RegId, element_size: u8 },
    VecMul { dst: RegId, src1: RegId, src2: RegId, element_size: u8 },
    VecAddSat { dst: RegId, src1: RegId, src2: RegId, element_size: u8, signed: bool },
    VecSubSat { dst: RegId, src1: RegId, src2: RegId, element_size: u8, signed: bool },
    VecMulSat { dst: RegId, src1: RegId, src2: RegId, element_size: u8, signed: bool },
    Vec128Add {
        dst_lo: RegId,
        dst_hi: RegId,
        src1_lo: RegId,
        src1_hi: RegId,
        src2_lo: RegId,
        src2_hi: RegId,
        element_size: u8,
        signed: bool,
    },
    Vec256Add {
        dst0: RegId,
        dst1: RegId,
        dst2: RegId,
        dst3: RegId,
        src10: RegId,
        src11: RegId,
        src12: RegId,
        src13: RegId,
        src20: RegId,
        src21: RegId,
        src22: RegId,
        src23: RegId,
        element_size: u8,
        signed: bool,
    },
    Vec256Sub {
        dst0: RegId,
        dst1: RegId,
        dst2: RegId,
        dst3: RegId,
        src10: RegId,
        src11: RegId,
        src12: RegId,
        src13: RegId,
        src20: RegId,
        src21: RegId,
        src22: RegId,
        src23: RegId,
        element_size: u8,
        signed: bool,
    },
    Vec256Mul {
        dst0: RegId,
        dst1: RegId,
        dst2: RegId,
        dst3: RegId,
        src10: RegId,
        src11: RegId,
        src12: RegId,
        src13: RegId,
        src20: RegId,
        src21: RegId,
        src22: RegId,
        src23: RegId,
        element_size: u8,
        signed: bool,
    },
    Fadd { dst: RegId, src1: RegId, src2: RegId },
    Fsub { dst: RegId, src1: RegId, src2: RegId },
    Fmul { dst: RegId, src1: RegId, src2: RegId },
    Fdiv { dst: RegId, src1: RegId, src2: RegId },
    FaddS { dst: RegId, src1: RegId, src2: RegId },
    FsubS { dst: RegId, src1: RegId, src2: RegId },
    FmulS { dst: RegId, src1: RegId, src2: RegId },
    FdivS { dst: RegId, src1: RegId, src2: RegId },
    Fsqrt { dst: RegId, src: RegId },
    FsqrtS { dst: RegId, src: RegId },
    Fmadd { dst: RegId, src1: RegId, src2: RegId, src3: RegId },
    Fmsub { dst: RegId, src1: RegId, src2: RegId, src3: RegId },
    Fnmadd { dst: RegId, src1: RegId, src2: RegId, src3: RegId },
    Fnmsub { dst: RegId, src1: RegId, src2: RegId, src3: RegId },
    FmaddS { dst: RegId, src1: RegId, src2: RegId, src3: RegId },
    FmsubS { dst: RegId, src1: RegId, src2: RegId, src3: RegId },
    FnmaddS { dst: RegId, src1: RegId, src2: RegId, src3: RegId },
    FnmsubS { dst: RegId, src1: RegId, src2: RegId, src3: RegId },
    Feq { dst: RegId, src1: RegId, src2: RegId },
    Flt { dst: RegId, src1: RegId, src2: RegId },
    Fle { dst: RegId, src1: RegId, src2: RegId },
    FeqS { dst: RegId, src1: RegId, src2: RegId },
    FltS { dst: RegId, src1: RegId, src2: RegId },
    FleS { dst: RegId, src1: RegId, src2: RegId },
    Fmin { dst: RegId, src1: RegId, src2: RegId },
    Fmax { dst: RegId, src1: RegId, src2: RegId },
    FminS { dst: RegId, src1: RegId, src2: RegId },
    FmaxS { dst: RegId, src1: RegId, src2: RegId },
    Fabs { dst: RegId, src: RegId },
    Fneg { dst: RegId, src: RegId },
    FabsS { dst: RegId, src: RegId },
    FnegS { dst: RegId, src: RegId },
    Fcvtws { dst: RegId, src: RegId },
    Fcvtsw { dst: RegId, src: RegId },
    Fcvtld { dst: RegId, src: RegId },
    Fcvtdl { dst: RegId, src: RegId },
    Fcvtsd { dst: RegId, src: RegId },
    Fcvtds { dst: RegId, src: RegId },
    Fcvtwus { dst: RegId, src: RegId },
    Fcvtlus { dst: RegId, src: RegId },
    Fcvtswu { dst: RegId, src: RegId },
    Fcvtslu { dst: RegId, src: RegId },
    Fcvtwd { dst: RegId, src: RegId },
    Fcvtwud { dst: RegId, src: RegId },
    Fcvtlud { dst: RegId, src: RegId },
    Fcvtdw { dst: RegId, src: RegId },
    Fcvtdwu { dst: RegId, src: RegId },
    Fcvtdlu { dst: RegId, src: RegId },
    Fload { dst: RegId, base: RegId, offset: i64, size: u8, flags: MemFlags },
    Fstore { src: RegId, base: RegId, offset: i64, size: u8, flags: MemFlags },
    Fsgnj { dst: RegId, src1: RegId, src2: RegId },
    Fsgnjn { dst: RegId, src1: RegId, src2: RegId },
    Fsgnjx { dst: RegId, src1: RegId, src2: RegId },
    FsgnjS { dst: RegId, src1: RegId, src2: RegId },
    FsgnjnS { dst: RegId, src1: RegId, src2: RegId },
    FsgnjxS { dst: RegId, src1: RegId, src2: RegId },
    Fclass { dst: RegId, src: RegId },
    FclassS { dst: RegId, src: RegId },
    FmvXW { dst: RegId, src: RegId },
    FmvWX { dst: RegId, src: RegId },
    FmvXD { dst: RegId, src: RegId },
    FmvDX { dst: RegId, src: RegId },
    AtomicRMW { dst: RegId, base: RegId, src: RegId, op: AtomicOp, size: u8 },
    AtomicCmpXchg { dst: RegId, base: RegId, expected: RegId, new: RegId, size: u8 },
    AtomicLoadReserve { dst: RegId, base: RegId, offset: i64, size: u8, flags: MemFlags },
    AtomicStoreCond {
        src: RegId,
        base: RegId,
        offset: i64,
        size: u8,
        dst_flag: RegId,
        flags: MemFlags,
    },
}

/// How a block of IR ends.
#[derive(Debug, Clone, Copy, PartialEq, Eq, Hash)]
pub enum Terminator {
    Ret,
    Jmp { target: GuestAddr },
    CondJmp { cond: RegId, target_true: GuestAddr, target_false: GuestAddr },
    Fault { cause: u64 },
}

/// A straight-line block of IR operations starting at a guest address.
#[derive(Debug, Clone, PartialEq, Eq, Hash)]
pub struct IRBlock {
    pub start_pc: GuestAddr,
    pub ops: Vec<IROp>,
    pub term: Terminator,
}


/// Guest instruction set architectures.
#[derive(Debug, Clone, Copy, PartialEq, Eq, Structural, Hash)]
pub enum GuestArch {
    X86_64,
    Arm64,
    Riscv64,
    PowerPC64,
}

/// The name of a guest architecture, as its `Debug` rendering spells it.
pub open spec fn guest_arch_text(a: GuestArch) -> Seq<char> {
    match a {
        GuestArch::X86_64 => "X86_64"@,
        GuestArch::Arm64 => "Arm64"@,
        GuestArch::Riscv64 => "Riscv64"@,
        GuestArch::PowerPC64 => "PowerPC64"@,
    }
}

pub fn guest_arch_name(a: GuestArch) -> (s: &'static str)
    ensures
        s@ == guest_arch_text(a),
{
    match a {
        GuestArch::X86_64 => "X86_64",
        GuestArch::Arm64 => "Arm64",
        GuestArch::Riscv64 => "Riscv64",
        GuestArch::PowerPC64 => "PowerPC64",
    }
}

/// Binary operators of the structured instruction form.
#[derive(Debug, Clone, Copy, PartialEq, Eq, Hash)]
pub enum BinaryOperator {
    Add,
    Sub,
    Mul,
    Div,
    And,
    Or,
    Xor,
    Shl,
    Shr,
}

/// An operand of a structured instruction: a register, a 64-bit immediate,
/// or a binary expression over operands.
#[derive(Debug, PartialEq, Eq)]
pub enum Operand {
    Reg(RegId),
    Imm64(u64),
    Binary { op: BinaryOperator, left: Box<Operand>, right: Box<Operand> },
}

/// A structured (decoded) instruction.
#[derive(Debug, PartialEq, Eq)]
pub enum IRInstruction {
    Nop,
    BinaryOp { op: BinaryOperator, dest: RegId, src1: Operand, src2: Operand },
    Branch { target: Operand, link: bool },
    CondBranch { condition: Operand, target: Operand, link: bool },
    LoadExt { dest: RegId, addr: Operand, size: u8, flags: MemFlags },
    StoreExt { value: Operand, addr: Operand, size: u8, flags: MemFlags },
}

} // verus!
