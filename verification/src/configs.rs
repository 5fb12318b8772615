//! Configuration and statistics records of the optimizers, the
//! ahead-of-time compiler, the runtime and the system layer.

use vstd::prelude::*;

verus! {

/// Switches of the performance optimizer.
#[derive(Debug, Clone, Copy, PartialEq, Eq, Structural)]
pub struct PerformanceConfig {
    pub enable_register_allocation: bool,
    pub enable_instruction_selection: bool,
    pub enable_constant_folding: bool,
    pub enable_dead_code_elimination: bool,
    pub enable_loop_optimization: bool,
    pub enable_simd_optimization: bool,
    pub enable_inlining: bool,
    pub max_inline_depth: usize,
}

impl Default for PerformanceConfig {
    /// Every optimization on, inlining three levels deep.
    fn default() -> (c: Self)
        ensures
            c == (PerformanceConfig {
                enable_register_allocation: true,
                enable_instruction_selection: true,
                enable_constant_folding: true,
                enable_dead_code_elimination: true,
                enable_loop_optimization: true,
                enable_simd_optimization: true,
                enable_inlining: true,
                max_inline_depth: 3,
            }),
    {
        PerformanceConfig {
            enable_register_allocation: true,
            enable_instruction_selection: true,
            enable_constant_folding: true,
            enable_dead_code_elimination: true,
            enable_loop_optimization: true,
            enable_simd_optimization: true,
            enable_inlining: true,
            max_inline_depth: 3,
        }
    }
}

/// Counters of the ahead-of-time compiler.
#[derive(Debug, Clone, Copy, PartialEq, Eq, Structural)]
pub struct CrossArchAotStats {
    pub blocks_compiled: usize,
    pub cross_arch_translations: usize,
    pub total_compilation_time_ms: u64,
    pub generated_code_size: usize,
}

impl Default for CrossArchAotStats {
    fn default() -> (s: Self)
        ensures
            s == (CrossArchAotStats {
                blocks_compiled: 0,
                cross_arch_translations: 0,
                total_compilation_time_ms: 0,
                generated_code_size: 0,
            }),
    {
        CrossArchAotStats { blocks_compiled: 0, cross_arch_translations: 0, total_compilation_time_ms: 0, generated_code_size: 0 }
    }
}

/// Binary operations of the IR optimizer's expressions.
#[derive(Debug, Clone, Copy, PartialEq, Eq, Structural, Hash)]
pub enum BinaryOp {
    Add,
    Sub,
    Mul,
    Div,
    Mod,
    And,
    Or,
    Xor,
    Shl,
    Shr,
    Eq,
    Ne,
    Lt,
    Le,
    Gt,
    Ge,
}

/// Unary operations of the IR optimizer's expressions.
#[derive(Debug, Clone, Copy, PartialEq, Eq, Structural, Hash)]
pub enum UnaryOp {
    Neg,
    Not,
}

} // verus!
