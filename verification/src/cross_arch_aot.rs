//! Ahead-of-time compilation across architectures: IR blocks encoded as
//! machine code of the target architecture, and the counters of a
//! compilation session. Building and saving the image itself is the job of
//! the code generator behind it.

use vstd::prelude::*;
use crate::encoder::ArchEncoder;
use crate::encoder_arm64::{arm64_encodable, arm64_encode_spec, Arm64Encoder};
use crate::encoder_riscv::{riscv_encode_spec, Riscv64Encoder};
use crate::encoder_x86::{x86_encode_spec, X86_64Encoder};
use crate::encoding::{Architecture, EncodeOutcome, InsnView, TargetInstruction, TranslationError, insns_view};
use crate::configs::CrossArchAotStats;
use crate::error::VmError;
use crate::ir::{IRBlock, IROp};
use crate::performance_optimizer::{default_performance_config, optimized_ops, PerformanceConfig, PerformanceOptimizer};
use crate::clock::{elapsed_nanos, now};
use crate::adaptive_optimizer::copy_ops;
use crate::text::{push_text, text};

verus! {

/// Settings of a cross-architecture AOT compilation.
#[derive(Debug, Clone, Copy, PartialEq, Eq, Structural)]
pub struct CrossArchAotConfig {
    pub source_arch: Architecture,
    pub target_arch: Architecture,
    /// 0 to 3.
    pub optimization_level: u32,
    pub enable_cross_arch_optimization: bool,
}

impl Default for CrossArchAotConfig {
    fn default() -> (c: Self)
        ensures
            c == (CrossArchAotConfig {
                source_arch: Architecture::X86_64,
                target_arch: Architecture::ARM64,
                optimization_level: 2,
                enable_cross_arch_optimization: true,
            }),
    {
        CrossArchAotConfig {
            source_arch: Architecture::X86_64,
            target_arch: Architecture::ARM64,
            optimization_level: 2,
            enable_cross_arch_optimization: true,
        }
    }
}

/// The expected outcome of encoding `op` for `arch`.
#[verifier::opaque]
pub open spec fn encode_for(arch: Architecture, op: IROp) -> EncodeOutcome {
    match arch {
        Architecture::X86_64 => x86_encode_spec(op),
        Architecture::ARM64 => arm64_encode_spec(op),
        Architecture::RISCV64 => riscv_encode_spec(op),
    }
}

/// `op` can be handed to the encoder of `arch`.
pub open spec fn encodable_for(arch: Architecture, op: IROp) -> bool {
    match arch {
        Architecture::ARM64 => arm64_encodable(op),
        _ => true,
    }
}

/// The bytes of a sequence of instructions, one after the other.
pub open spec fn insn_bytes(s: Seq<InsnView>) -> Seq<u8>
    decreases s.len(),
{
    if s.len() == 0 {
        Seq::empty()
    } else {
        insn_bytes(s.drop_last()) + s.last().bytes
    }
}

/// The machine code of `ops` for `arch`: the bytes of each operation's
/// instructions in order, or `None` where some operation fails to encode.
pub open spec fn target_code(arch: Architecture, ops: Seq<IROp>) -> Option<Seq<u8>>
    decreases ops.len(),
{
    if ops.len() == 0 {
        Some(Seq::empty())
    } else {
        match target_code(arch, ops.drop_last()) {
            None => None,
            Some(code) => match encode_for(arch, ops.last()) {
                Ok(insns) => Some(code + insn_bytes(insns)),
                Err(_) => None,
            },
        }
    }
}

/// The text that names `arch` in encoding failures.
pub open spec fn arch_label(arch: Architecture) -> Seq<char> {
    match arch {
        Architecture::X86_64 => "x86-64"@,
        Architecture::ARM64 => "ARM64"@,
        Architecture::RISCV64 => "RISC-V64"@,
    }
}

/// The text that the derived `Debug` of `TranslationError` renders for an
/// error; it depends on the error's value alone.
pub uninterp spec fn translation_error_text(e: TranslationError) -> Seq<char>;

/// The `Debug` rendering of an encoding error, used in the text of the
/// error that reports it. Calls `format!("{:?}")`; the text is claimed to be
/// `translation_error_text` of the error and nothing more.
#[verifier::external_body]
fn translation_error_debug(e: &TranslationError) -> (s: String)
    ensures
        s@ == translation_error_text(*e),
{
    format!("{:?}", e)
}

/// The `Internal` error that reports encoding error `cause` for `arch`.
pub open spec fn is_encode_failure(err: VmError, arch: Architecture, cause: TranslationError) -> bool {
    err matches VmError::Internal { message, module } && message@ == "Failed to encode to "@ + arch_label(arch) + ": "@
        + translation_error_text(cause) && module@ == "CrossArchAotCompiler"@
}

/// Encodes `op` for `arch` at guest address `pc`.
fn encode_with(arch: Architecture, op: &IROp, pc: u64) -> (r: Result<Vec<TargetInstruction>, TranslationError>)
    requires
        encodable_for(arch, *op),
    ensures
        match (r, encode_for(arch, *op)) {
            (Ok(v), Ok(s)) => insns_view(v@) == s,
            (Err(_), Err(_)) => true,
            _ => false,
        },
{
    reveal(encode_for);
    match arch {
        Architecture::X86_64 => X86_64Encoder.encode_op(op, pc),
        Architecture::ARM64 => Arm64Encoder.encode_op(op, pc),
        Architecture::RISCV64 => Riscv64Encoder.encode_op(op, pc),
    }
}

/// The error that reports a failure to encode for `arch`.
fn encode_failure(arch: Architecture, e: &TranslationError) -> (err: VmError)
    ensures
        is_encode_failure(err, arch, *e),
        err matches VmError::Internal { message, module } && message@.len() >= 20 + arch_label(arch).len()
            && message@.subrange(0, 20 + arch_label(arch).len() as int) == "Failed to encode to "@ + arch_label(
            arch,
        ) && module@ == "CrossArchAotCompiler"@,
{
    let mut message = text("Failed to encode to ");
    match arch {
        Architecture::X86_64 => push_text(&mut message, "x86-64"),
        Architecture::ARM64 => push_text(&mut message, "ARM64"),
        Architecture::RISCV64 => push_text(&mut message, "RISC-V64"),
    }
    let ghost head = message@;
    push_text(&mut message, ": ");
    let detail = translation_error_debug(e);
    push_text(&mut message, detail.as_str());
    proof {
        reveal_strlit("Failed to encode to ");
        reveal_strlit("x86-64");
        reveal_strlit("ARM64");
        reveal_strlit("RISC-V64");
        reveal_strlit(": ");
        assert(head =~= "Failed to encode to "@ + arch_label(arch));
        assert(message@ =~= head + ": "@ + translation_error_text(*e));
        assert(message@.subrange(0, head.len() as int) =~= head);
    }
    VmError::Internal { message, module: text("CrossArchAotCompiler") }
}

/// The operations that a compiler with settings `cfg` encodes for `ops`:
/// optimized for the target with the default optimizer settings where
/// cross-architecture optimization is on.
pub open spec fn prepared_for(cfg: CrossArchAotConfig, ops: Seq<IROp>) -> Seq<IROp> {
    if cfg.enable_cross_arch_optimization {
        optimized_ops(default_performance_config(), ops, cfg.target_arch)
    } else {
        ops
    }
}

/// A block of `ops` can be handed to a compiler with settings `cfg`: the
/// optimizer takes it, and each operation it yields can be encoded.
pub open spec fn block_compilable(cfg: CrossArchAotConfig, ops: Seq<IROp>) -> bool {
    &&& 4 * ops.len() <= u32::MAX
    &&& forall|k: int| 0 <= k < prepared_for(cfg, ops).len() ==> #[trigger] encodable_for(cfg.target_arch, prepared_for(cfg, ops)[k])
}

/// The code that a compiler with settings `cfg` produces for `ops`, if any.
pub open spec fn block_code(cfg: CrossArchAotConfig, ops: Seq<IROp>) -> Option<Seq<u8>> {
    target_code(cfg.target_arch, prepared_for(cfg, ops))
}

/// How many of `blocks` compile to code under `cfg`.
pub open spec fn compiled_count(cfg: CrossArchAotConfig, blocks: Seq<(u64, IRBlock)>) -> nat
    decreases blocks.len(),
{
    if blocks.len() == 0 {
        0
    } else {
        compiled_count(cfg, blocks.drop_last()) + if block_code(cfg, blocks.last().1.ops@) is Some {
            1nat
        } else {
            0nat
        }
    }
}

/// The bytes of code that `blocks` compile to under `cfg`, in all.
pub open spec fn compiled_size(cfg: CrossArchAotConfig, blocks: Seq<(u64, IRBlock)>) -> nat
    decreases blocks.len(),
{
    if blocks.len() == 0 {
        0
    } else {
        compiled_size(cfg, blocks.drop_last()) + match block_code(cfg, blocks.last().1.ops@) {
            Some(code) => code.len(),
            None => 0nat,
        }
    }
}

/// Over a prefix of `blocks`, no more blocks compile than the prefix holds,
/// and no more code comes out than over all of them.
pub proof fn lemma_compiled_prefix(cfg: CrossArchAotConfig, blocks: Seq<(u64, IRBlock)>, k: int)
    requires
        0 <= k <= blocks.len(),
    ensures
        compiled_count(cfg, blocks.subrange(0, k)) <= k,
        compiled_size(cfg, blocks.subrange(0, k)) <= compiled_size(cfg, blocks),
    decreases blocks.len(),
{
    if k == blocks.len() {
        assert(blocks.subrange(0, k) =~= blocks);
        lemma_compiled_count_bound(cfg, blocks);
    } else {
        lemma_compiled_prefix(cfg, blocks.drop_last(), k);
        assert(blocks.drop_last().subrange(0, k) =~= blocks.subrange(0, k));
    }
}

proof fn lemma_compiled_count_bound(cfg: CrossArchAotConfig, blocks: Seq<(u64, IRBlock)>)
    ensures
        compiled_count(cfg, blocks) <= blocks.len(),
    decreases blocks.len(),
{
    if blocks.len() > 0 {
        lemma_compiled_count_bound(cfg, blocks.drop_last());
    }
}

/// The counters and settings of a compilation session.
pub struct CrossArchAotCompiler {
    config: CrossArchAotConfig,
    stats: CrossArchAotStats,
    /// Decoded blocks of source code by guest address, in the order decoded.
    source_to_ir: Vec<(u64, IRBlock)>,
}

/// The operations cached under `pc`: those of the first entry for `pc`.
pub open spec fn cached_ops(cache: Seq<(u64, Seq<IROp>)>, pc: u64) -> Option<Seq<IROp>>
    decreases cache.len(),
{
    if cache.len() == 0 {
        None
    } else if cache[0].0 == pc {
        Some(cache[0].1)
    } else {
        cached_ops(cache.drop_first(), pc)
    }
}

/// The operations that `compile_from_source(pc, decoded)` compiles: the
/// cached ones for `pc`, or else the decoded ones.
pub open spec fn source_ops(cache: Seq<(u64, Seq<IROp>)>, pc: u64, decoded: Seq<IROp>) -> Seq<IROp> {
    match cached_ops(cache, pc) {
        Some(ops) => ops,
        None => decoded,
    }
}

impl CrossArchAotCompiler {
    pub fn new(config: CrossArchAotConfig) -> (c: Self)
        ensures
            c.cfg() == config,
            c.ir_cache() == Seq::<(u64, Seq<IROp>)>::empty(),
            c.stats_view() == (CrossArchAotStats {
                blocks_compiled: 0,
                cross_arch_translations: 0,
                total_compilation_time_ms: 0,
                generated_code_size: 0,
            }),
    {
        CrossArchAotCompiler {
            config,
            stats: CrossArchAotStats {
                blocks_compiled: 0,
                cross_arch_translations: 0,
                total_compilation_time_ms: 0,
                generated_code_size: 0,
            },
            source_to_ir: Vec::new(),
        }
    }

    pub closed spec fn cfg(&self) -> CrossArchAotConfig {
        self.config
    }

    pub closed spec fn stats_view(&self) -> CrossArchAotStats {
        self.stats
    }

    /// The decoded blocks kept by guest address: (address, operations).
    pub closed spec fn ir_cache(&self) -> Seq<(u64, Seq<IROp>)> {
        self.source_to_ir@.map_values(|e: (u64, IRBlock)| (e.0, e.1.ops@))
    }

    /// Encodes the operations of `ir_block` for the target architecture,
    /// each at the block's start address, and returns their bytes in order.
    /// The first operation that fails to encode ends it with an `Internal`
    /// error naming the target.
    pub fn compile_ir_to_target(&self, ir_block: &IRBlock) -> (r: Result<Vec<u8>, VmError>)
        requires
            forall|k: int| 0 <= k < ir_block.ops@.len() ==> #[trigger] encodable_for(self.cfg().target_arch, ir_block.ops@[k]),
        ensures
            target_code(self.cfg().target_arch, ir_block.ops@) is None ==> r is Err && exists|cause: TranslationError|
                #[trigger] is_encode_failure(r->Err_0, self.cfg().target_arch, cause),
            match target_code(self.cfg().target_arch, ir_block.ops@) {
                Some(code) => r matches Ok(v) && v@ == code,
                None => r matches Err(VmError::Internal { message, module }) && message@.len() >= 20 + arch_label(
                    self.cfg().target_arch,
                ).len() && message@.subrange(0, 20 + arch_label(self.cfg().target_arch).len() as int)
                    == "Failed to encode to "@ + arch_label(self.cfg().target_arch) && module@
                    == "CrossArchAotCompiler"@,
            },
    {
        let arch = self.config.target_arch;
        let pc = ir_block.start_pc;
        let ops = &ir_block.ops;
        let mut target: Vec<u8> = Vec::new();
        let mut k: usize = 0;
        assert(ops@.subrange(0, 0) =~= Seq::<IROp>::empty());
        while k < ops.len()
            invariant
                k <= ops@.len(),
                arch == self.cfg().target_arch,
                ops@ == ir_block.ops@,
                forall|j: int| 0 <= j < ops@.len() ==> #[trigger] encodable_for(arch, ops@[j]),
                target_code(arch, ops@.subrange(0, k as int)) == Some(target@),
            decreases ops.len() - k,
        {
            let op = ops[k];
            assert(ops@.subrange(0, k + 1).drop_last() =~= ops@.subrange(0, k as int));
            assert(ops@.subrange(0, k + 1).last() == op);
            match encode_with(arch, &op, pc) {
                Ok(insns) => {
                    let ghost before = target@;
                    let mut i: usize = 0;
                    while i < insns.len()
                        invariant
                            i <= insns@.len(),
                            target@ == before + insn_bytes(insns_view(insns@).subrange(0, i as int)),
                        decreases insns.len() - i,
                    {
                        let ghost t0 = target@;
                        let bytes = &insns[i].bytes;
                        let mut b: usize = 0;
                        while b < bytes.len()
                            invariant
                                b <= bytes@.len(),
                                target@ == t0 + bytes@.subrange(0, b as int),
                            decreases bytes.len() - b,
                        {
                            target.push(bytes[b]);
                            assert(target@ =~= t0 + bytes@.subrange(0, b + 1));
                            b += 1;
                        }
                        proof {
                            let iv = insns_view(insns@);
                            assert(bytes@.subrange(0, bytes@.len() as int) =~= bytes@);
                            assert(iv.subrange(0, i + 1).drop_last() =~= iv.subrange(0, i as int));
                            assert(iv[i as int] == insns@[i as int]@);
                            assert(target@ =~= before + insn_bytes(iv.subrange(0, i + 1)));
                        }
                        i += 1;
                    }
                    proof {
                        assert(insns_view(insns@).subrange(0, insns@.len() as int) =~= insns_view(insns@));
                    }
                },
                Err(e) => {
                    proof {
                        lemma_target_code_none(arch, ops@, k as int + 1);
                    }
                    return Err(encode_failure(arch, &e));
                },
            }
            k += 1;
        }
        assert(ops@.subrange(0, ops@.len() as int) =~= ops@);
        Ok(target)
    }

    /// The operations that the compiler encodes for `ops`: optimized for the
    /// target with the default optimizer settings where cross-architecture
    /// optimization is on.
    pub open spec fn prepared_ops(&self, ops: Seq<IROp>) -> Seq<IROp> {
        prepared_for(self.cfg(), ops)
    }

    /// `ir_block` optimized for the target with the default optimizer
    /// settings (see `optimized_ops`).
    fn optimize_for_target_arch(&self, ir_block: &IRBlock) -> (r: Result<IRBlock, VmError>)
        requires
            4 * ir_block.ops@.len() <= u32::MAX,
        ensures
            r matches Ok(b) && b.start_pc == ir_block.start_pc && b.term == ir_block.term && b.ops@ == optimized_ops(
                default_performance_config(),
                ir_block.ops@,
                self.cfg().target_arch,
            ),
    {
        let mut optimizer = PerformanceOptimizer::new(PerformanceConfig::default());
        match optimizer.optimize_ir_block(ir_block, self.config.target_arch) {
            Ok(b) => Ok(b),
            Err(e) => {
                let mut message = text("Failed to optimize IR: ");
                push_text(&mut message, e.as_str());
                Err(VmError::Internal { message, module: text("CrossArchAotCompiler") })
            },
        }
    }

    /// Compiles `ir_block` (optimized first where cross-architecture
    /// optimization is on) to target code for the image at `pc`, and counts
    /// it; a failure to encode is the error of `compile_ir_to_target` and
    /// counts nothing. The code is returned for the image builder.
    pub fn compile_from_ir(&mut self, pc: u64, ir_block: &IRBlock) -> (r: Result<Vec<u8>, VmError>)
        requires
            4 * ir_block.ops@.len() <= u32::MAX,
            forall|k: int|
                0 <= k < old(self).prepared_ops(ir_block.ops@).len() ==> #[trigger] encodable_for(
                    old(self).cfg().target_arch,
                    old(self).prepared_ops(ir_block.ops@)[k],
                ),
            old(self).stats_view().blocks_compiled < usize::MAX,
            target_code(old(self).cfg().target_arch, old(self).prepared_ops(ir_block.ops@)) matches Some(code)
                ==> old(self).stats_view().generated_code_size + code.len() <= usize::MAX,
        ensures
            final(self).cfg() == old(self).cfg(),
            final(self).ir_cache() == old(self).ir_cache(),
            match target_code(old(self).cfg().target_arch, old(self).prepared_ops(ir_block.ops@)) {
                Some(code) => r matches Ok(v) && v@ == code && final(self).stats_view().blocks_compiled
                    == old(self).stats_view().blocks_compiled + 1 && final(self).stats_view().generated_code_size
                    == old(self).stats_view().generated_code_size + code.len()
                    && final(self).stats_view().cross_arch_translations == old(self).stats_view().cross_arch_translations
                    && final(self).stats_view().total_compilation_time_ms >= old(self).stats_view().total_compilation_time_ms,
                None => r matches Err(VmError::Internal { module, .. }) && module@ == "CrossArchAotCompiler"@
                    && final(self).stats_view() == old(self).stats_view(),
            },
    {
        let start = now();
        let code = if self.config.enable_cross_arch_optimization {
            let optimized = self.optimize_for_target_arch(ir_block)?;
            self.compile_ir_to_target(&optimized)?
        } else {
            self.compile_ir_to_target(ir_block)?
        };
        let ms = elapsed_nanos(&start) / 1_000_000;
        self.stats.blocks_compiled = self.stats.blocks_compiled + 1;
        self.stats.total_compilation_time_ms = self.stats.total_compilation_time_ms.saturating_add(ms as u64);
        self.stats.generated_code_size = self.stats.generated_code_size + code.len();
        Ok(code)
    }

    /// Compiles source code at `pc` whose decoding is `decoded`: the block
    /// decoded earlier for `pc` is taken if there is one, else `decoded`,
    /// which is kept for `pc`. The block is compiled as `compile_from_ir`
    /// does; a success also counts in `cross_arch_translations`.
    pub fn compile_from_source(&mut self, pc: u64, decoded: IRBlock) -> (r: Result<Vec<u8>, VmError>)
        requires
            ({
                let ops = source_ops(old(self).ir_cache(), pc, decoded.ops@);
                &&& 4 * ops.len() <= u32::MAX
                &&& forall|k: int|
                    0 <= k < old(self).prepared_ops(ops).len() ==> #[trigger] encodable_for(
                        old(self).cfg().target_arch,
                        old(self).prepared_ops(ops)[k],
                    )
                &&& old(self).stats_view().blocks_compiled < usize::MAX
                &&& old(self).stats_view().cross_arch_translations < usize::MAX
                &&& target_code(old(self).cfg().target_arch, old(self).prepared_ops(ops)) matches Some(code)
                    ==> old(self).stats_view().generated_code_size + code.len() <= usize::MAX
            }),
        ensures
            final(self).cfg() == old(self).cfg(),
            final(self).ir_cache() == if cached_ops(old(self).ir_cache(), pc) is Some {
                old(self).ir_cache()
            } else {
                old(self).ir_cache().push((pc, decoded.ops@))
            },
            ({
                let ops = source_ops(old(self).ir_cache(), pc, decoded.ops@);
                match target_code(old(self).cfg().target_arch, old(self).prepared_ops(ops)) {
                    Some(code) => r matches Ok(v) && v@ == code && final(self).stats_view().blocks_compiled
                        == old(self).stats_view().blocks_compiled + 1 && final(self).stats_view().generated_code_size
                        == old(self).stats_view().generated_code_size + code.len()
                        && final(self).stats_view().cross_arch_translations == old(self).stats_view().cross_arch_translations + 1
                        && final(self).stats_view().total_compilation_time_ms >= old(self).stats_view().total_compilation_time_ms,
                    None => r matches Err(VmError::Internal { module, .. }) && module@ == "CrossArchAotCompiler"@
                        && final(self).stats_view() == old(self).stats_view(),
                }
            }),
    {
        let block = match self.find_cached_ir(pc) {
            Some(i) => IRBlock {
                start_pc: self.source_to_ir[i].1.start_pc,
                ops: copy_ops(self.source_to_ir[i].1.ops.as_slice()),
                term: self.source_to_ir[i].1.term,
            },
            None => {
                let kept = IRBlock { start_pc: decoded.start_pc, ops: copy_ops(decoded.ops.as_slice()), term: decoded.term };
                let ghost before = self.source_to_ir@;
                self.source_to_ir.push((pc, kept));
                assert(self.ir_cache() =~= before.map_values(|e: (u64, IRBlock)| (e.0, e.1.ops@)).push((pc, decoded.ops@)));
                decoded
            },
        };
        let code = self.compile_from_ir(pc, &block)?;
        self.stats.cross_arch_translations = self.stats.cross_arch_translations + 1;
        Ok(code)
    }

    /// The position of the first kept block for `pc`, with its operations
    /// (see `cached_ops`).
    fn find_cached_ir(&self, pc: u64) -> (r: Option<usize>)
        ensures
            match r {
                Some(i) => i < self.ir_cache().len() && self.ir_cache()[i as int].0 == pc && cached_ops(self.ir_cache(), pc)
                    == Some(self.ir_cache()[i as int].1),
                None => cached_ops(self.ir_cache(), pc) is None,
            },
    {
        let ghost c = self.ir_cache();
        let mut i: usize = 0;
        assert(c.subrange(0, c.len() as int) =~= c);
        while i < self.source_to_ir.len()
            invariant
                c == self.ir_cache(),
                c.len() == self.source_to_ir@.len(),
                i <= c.len(),
                cached_ops(c, pc) == cached_ops(c.subrange(i as int, c.len() as int), pc),
            decreases self.source_to_ir.len() - i,
        {
            let ghost rest = c.subrange(i as int, c.len() as int);
            assert(rest[0] == c[i as int]);
            assert(c[i as int].0 == self.source_to_ir@[i as int].0);
            if self.source_to_ir[i].0 == pc {
                return Some(i);
            }
            assert(rest.drop_first() =~= c.subrange(i + 1, c.len() as int));
            i += 1;
        }
        assert(c.subrange(i as int, c.len() as int) =~= Seq::<(u64, Seq<IROp>)>::empty());
        None
    }

    /// Counts one compiled block of `code_size` bytes that took
    /// `elapsed_ms` milliseconds; `from_source` counts it as a translation
    /// from source-architecture code as well.
    pub fn record_compiled(&mut self, code_size: usize, elapsed_ms: u64, from_source: bool)
        requires
            old(self).stats_view().blocks_compiled < usize::MAX,
            old(self).stats_view().cross_arch_translations < usize::MAX,
            old(self).stats_view().total_compilation_time_ms + elapsed_ms <= u64::MAX,
            old(self).stats_view().generated_code_size + code_size <= usize::MAX,
        ensures
            final(self).cfg() == old(self).cfg(),
            final(self).stats_view() == (CrossArchAotStats {
                blocks_compiled: (old(self).stats_view().blocks_compiled + 1) as usize,
                cross_arch_translations: if from_source {
                    (old(self).stats_view().cross_arch_translations + 1) as usize
                } else {
                    old(self).stats_view().cross_arch_translations
                },
                total_compilation_time_ms: (old(self).stats_view().total_compilation_time_ms + elapsed_ms) as u64,
                generated_code_size: (old(self).stats_view().generated_code_size + code_size) as usize,
            }),
    {
        self.stats.generated_code_size = self.stats.generated_code_size + code_size;
        self.stats.blocks_compiled = self.stats.blocks_compiled + 1;
        if from_source {
            self.stats.cross_arch_translations = self.stats.cross_arch_translations + 1;
        }
        self.stats.total_compilation_time_ms = self.stats.total_compilation_time_ms + elapsed_ms;
    }

    pub fn stats(&self) -> (s: &CrossArchAotStats)
        ensures
            *s == self.stats_view(),
    {
        &self.stats
    }

    pub fn config(&self) -> (c: &CrossArchAotConfig)
        ensures
            *c == self.cfg(),
    {
        &self.config
    }
}

/// Once a prefix of the operations fails to encode, so do all longer ones.
proof fn lemma_target_code_none(arch: Architecture, ops: Seq<IROp>, k: int)
    requires
        0 < k <= ops.len(),
        target_code(arch, ops.subrange(0, k)) is None,
    ensures
        target_code(arch, ops) is None,
    decreases ops.len() - k,
{
    if k < ops.len() {
        assert(ops.subrange(0, k + 1).drop_last() =~= ops.subrange(0, k));
        lemma_target_code_none(arch, ops, k + 1);
    } else {
        assert(ops.subrange(0, k) =~= ops);
    }
}

} // verus!
