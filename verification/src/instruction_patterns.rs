//! Classification of IR operations into common instruction patterns.

use vstd::prelude::*;
use crate::ir::IROp;

verus! {

/// Common instruction patterns.
#[derive(Debug, Clone, Copy, PartialEq, Eq, Structural)]
pub enum InstructionPattern {
    MoveRegToReg,
    LoadImmediate,
    LoadFromMemory,
    StoreToMemory,
    ArithmeticOp,
    LogicalOp,
    CompareOp,
    ConditionalBranch,
    UnconditionalJump,
}

/// The pattern of an operation: immediate moves, loads and stores, the four
/// arithmetic operations, the four logical ones, and the equality,
/// inequality, less-than and greater-or-equal comparisons; none for others.
pub open spec fn pattern_of(op: IROp) -> Option<InstructionPattern> {
    match op {
        IROp::MovImm { .. } => Some(InstructionPattern::LoadImmediate),
        IROp::Load { .. } => Some(InstructionPattern::LoadFromMemory),
        IROp::Store { .. } => Some(InstructionPattern::StoreToMemory),
        IROp::Add { .. } | IROp::Sub { .. } | IROp::Mul { .. } | IROp::Div { .. } => Some(InstructionPattern::ArithmeticOp),
        IROp::And { .. } | IROp::Or { .. } | IROp::Xor { .. } | IROp::Not { .. } => Some(InstructionPattern::LogicalOp),
        IROp::CmpEq { .. } | IROp::CmpNe { .. } | IROp::CmpLt { .. } | IROp::CmpGe { .. } => Some(InstructionPattern::CompareOp),
        _ => None,
    }
}

/// The pattern of `op` (see `pattern_of`).
pub fn identify_pattern(op: &IROp) -> (p: Option<InstructionPattern>)
    ensures
        p == pattern_of(*op),
{
    match op {
        IROp::MovImm { .. } => Some(InstructionPattern::LoadImmediate),
        IROp::Load { .. } => Some(InstructionPattern::LoadFromMemory),
        IROp::Store { .. } => Some(InstructionPattern::StoreToMemory),
        IROp::Add { .. } | IROp::Sub { .. } | IROp::Mul { .. } | IROp::Div { .. } => Some(InstructionPattern::ArithmeticOp),
        IROp::And { .. } | IROp::Or { .. } | IROp::Xor { .. } | IROp::Not { .. } => Some(InstructionPattern::LogicalOp),
        IROp::CmpEq { .. } | IROp::CmpNe { .. } | IROp::CmpLt { .. } | IROp::CmpGe { .. } => Some(InstructionPattern::CompareOp),
        _ => None,
    }
}

} // verus!
