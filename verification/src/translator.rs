//! The source/target architecture pair of a translation, and the numbering of
//! architectures that translation keys use.

use vstd::prelude::*;
use crate::encoding::{Architecture, TargetInstruction};

verus! {

/// The architecture whose code is translated.
pub type SourceArch = Architecture;

/// The architecture that translated code runs on.
pub type TargetArch = Architecture;

/// The number of an architecture in keys: its position in the declaration
/// of `Architecture`.
pub open spec fn arch_number(a: Architecture) -> u32 {
    match a {
        Architecture::X86_64 => 0,
        Architecture::ARM64 => 1,
        Architecture::RISCV64 => 2,
    }
}

pub fn arch_code(a: Architecture) -> (n: u32)
    ensures
        n == arch_number(a),
{
    match a {
        Architecture::X86_64 => 0,
        Architecture::ARM64 => 1,
        Architecture::RISCV64 => 2,
    }
}

/// A translator from one architecture to another.
#[derive(Debug, Clone, Copy)]
pub struct ArchTranslator {
    pub source_arch: SourceArch,
    pub target_arch: TargetArch,
}

impl ArchTranslator {
    pub fn new(source_arch: SourceArch, target_arch: TargetArch) -> (t: Self)
        ensures
            t.source_arch == source_arch,
            t.target_arch == target_arch,
    {
        ArchTranslator { source_arch, target_arch }
    }
}

/// Counters of a translator.
#[derive(Debug, Clone, Copy)]
pub struct TranslationStats {
    pub translated_blocks: u64,
    pub translated_instructions: u64,
}

/// The instructions and counters of one block translation.
#[derive(Debug, Clone)]
pub struct TranslationResult {
    pub instructions: Vec<TargetInstruction>,
    pub stats: TranslationStats,
}

} // verus!
