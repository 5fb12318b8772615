//! The bookkeeping of the cross-architecture runtime: how often each guest
//! block ran and which are hot, the cache of compiled code per guest
//! address, the checks on an AOT image before its code is taken in, and the
//! settings of the JIT, the AOT compiler and guest memory. Executing blocks,
//! compiling them and reading image files is the job of the engines behind.

use vstd::prelude::*;
use crate::cross_arch_aot::{
    block_code, block_compilable, compiled_count, compiled_size, lemma_compiled_prefix, CrossArchAotCompiler,
    CrossArchAotConfig,
};
use crate::configs::CrossArchAotStats;
use crate::encoding::{Architecture, le64, push_le64};
use crate::error::VmError;
use crate::ir::{GuestArch, IRBlock};
use crate::keyed::{get, has_key, lemma_pos, lemma_put, pos, put, unique};
use crate::text::{dec, push_text, push_u64, text};

verus! {

/// JIT settings.
#[derive(Debug, Clone, Copy, PartialEq, Eq, Structural)]
pub struct JitConfig {
    pub enable_jit: bool,
    /// Executions after which a block counts as hot.
    pub hotspot_threshold: u32,
    /// Bytes of compiled code to keep.
    pub cache_size: usize,
}

impl Default for JitConfig {
    fn default() -> (c: Self)
        ensures
            c == (JitConfig { enable_jit: true, hotspot_threshold: 100, cache_size: 67108864 }),
    {
        JitConfig { enable_jit: true, hotspot_threshold: 100, cache_size: 67108864 }
    }
}

/// AOT settings.
#[derive(Debug, Clone, PartialEq, Eq)]
pub struct AotConfig {
    pub enable_aot: bool,
    /// Where the AOT image lives.
    pub image_path: Option<String>,
    /// AOT code is preferred to JIT code.
    pub priority: bool,
    /// Executions after which a block counts as hot.
    pub hotspot_threshold: u32,
}

impl Default for AotConfig {
    fn default() -> (c: Self)
        ensures
            !c.enable_aot,
            c.image_path is None,
            c.priority,
            c.hotspot_threshold == 1000,
    {
        AotConfig { enable_aot: false, image_path: None, priority: true, hotspot_threshold: 1000 }
    }
}

/// Guest memory settings.
#[derive(Debug, Clone, Copy, PartialEq, Eq, Structural)]
pub struct MemoryConfig {
    pub memory_size: usize,
    pub enable_mmu: bool,
}

impl Default for MemoryConfig {
    fn default() -> (c: Self)
        ensures
            c == (MemoryConfig { memory_size: 134217728, enable_mmu: true }),
    {
        MemoryConfig { memory_size: 134217728, enable_mmu: true }
    }
}

/// The settings of the runtime: the guest and host architectures and those
/// of the JIT, the AOT compiler and guest memory.
#[derive(Debug, Clone)]
pub struct CrossArchRuntimeConfig {
    pub guest_arch: GuestArch,
    /// The host architecture, where it is one that code can be generated for.
    pub host_arch: Option<Architecture>,
    pub jit: JitConfig,
    pub aot: AotConfig,
    pub memory: MemoryConfig,
}

/// The threshold of the runtime's hotspot tracker: the larger of the JIT's
/// and the AOT compiler's.
pub open spec fn runtime_threshold(config: CrossArchRuntimeConfig) -> u32 {
    if config.jit.hotspot_threshold >= config.aot.hotspot_threshold {
        config.jit.hotspot_threshold
    } else {
        config.aot.hotspot_threshold
    }
}

impl CrossArchRuntimeConfig {
    /// The settings for `guest_arch` on `host_arch`, with the default JIT,
    /// AOT and memory settings.
    pub fn auto_create(guest_arch: GuestArch, host_arch: Option<Architecture>) -> (c: Self)
        ensures
            c.guest_arch == guest_arch,
            c.host_arch == host_arch,
            c.jit == (JitConfig { enable_jit: true, hotspot_threshold: 100, cache_size: 67108864 }),
            !c.aot.enable_aot && c.aot.image_path is None && c.aot.priority && c.aot.hotspot_threshold == 1000,
            c.memory == (MemoryConfig { memory_size: 134217728, enable_mmu: true }),
    {
        CrossArchRuntimeConfig {
            guest_arch,
            host_arch,
            jit: JitConfig::default(),
            aot: AotConfig::default(),
            memory: MemoryConfig::default(),
        }
    }

    pub fn hotspot_threshold(&self) -> (t: u32)
        ensures
            t == runtime_threshold(*self),
    {
        if self.jit.hotspot_threshold >= self.aot.hotspot_threshold {
            self.jit.hotspot_threshold
        } else {
            self.aot.hotspot_threshold
        }
    }
}

/// The execution count recorded for `pc` (0 where none is).
pub open spec fn count_of(s: Seq<(u64, u32)>, pc: u64) -> u32 {
    match get(s, pc) {
        Some(c) => c,
        None => 0,
    }
}

/// The addresses whose count reaches `threshold`, in the order they were
/// first recorded.
pub open spec fn hot_keys(s: Seq<(u64, u32)>, threshold: u32) -> Seq<u64>
    decreases s.len(),
{
    if s.len() == 0 {
        Seq::empty()
    } else {
        hot_keys(s.drop_last(), threshold) + if s.last().1 >= threshold {
            seq![s.last().0]
        } else {
            Seq::empty()
        }
    }
}

/// The sum of all counts.
pub open spec fn total_count(s: Seq<(u64, u32)>) -> nat
    decreases s.len(),
{
    if s.len() == 0 {
        0
    } else {
        total_count(s.drop_last()) + s.last().1 as nat
    }
}

proof fn lemma_total_prefix(s: Seq<(u64, u32)>, i: int, j: int)
    requires
        0 <= i <= j <= s.len(),
    ensures
        total_count(s.subrange(0, i)) <= total_count(s.subrange(0, j)),
    decreases j - i,
{
    if i < j {
        lemma_total_prefix(s, i, j - 1);
        assert(s.subrange(0, j).drop_last() =~= s.subrange(0, j - 1));
    }
}

proof fn lemma_hot_keys_len(s: Seq<(u64, u32)>, threshold: u32)
    ensures
        hot_keys(s, threshold).len() <= s.len(),
    decreases s.len(),
{
    if s.len() > 0 {
        lemma_hot_keys_len(s.drop_last(), threshold);
    }
}

/// The position of `pc` among the pairs, where it has one.
fn find_key<V>(v: &Vec<(u64, V)>, pc: u64) -> (r: Option<usize>)
    requires
        unique(v@),
    ensures
        match r {
            Some(i) => i < v@.len() && v@[i as int].0 == pc && has_key(v@, pc) && pos(v@, pc) == i,
            None => !has_key(v@, pc),
        },
{
    let mut i: usize = 0;
    while i < v.len()
        invariant
            i <= v@.len(),
            unique(v@),
            forall|j: int| 0 <= j < i ==> (#[trigger] v@[j]).0 != pc,
        decreases v.len() - i,
    {
        if v[i].0 == pc {
            proof {
                lemma_pos(v@, i as int);
            }
            return Some(i);
        }
        i += 1;
    }
    None
}

/// Execution counts per guest address, and the count from which an address
/// is hot.
pub struct HotspotTracker {
    execution_counts: Vec<(u64, u32)>,
    threshold: u32,
}

impl HotspotTracker {
    /// The counts, one pair per address, in the order the addresses were
    /// first recorded.
    pub closed spec fn counts(&self) -> Seq<(u64, u32)> {
        self.execution_counts@
    }

    /// The count from which an address is hot.
    pub closed spec fn thr(&self) -> u32 {
        self.threshold
    }

    pub fn threshold(&self) -> (t: u32)
        ensures
            t == self.thr(),
    {
        self.threshold
    }

    /// No address has two counts.
    pub closed spec fn wf(&self) -> bool {
        unique(self.execution_counts@)
    }

    pub fn new(threshold: u32) -> (t: Self)
        ensures
            t.wf(),
            t.counts() == Seq::<(u64, u32)>::empty(),
            t.thr() == threshold,
    {
        HotspotTracker { execution_counts: Vec::new(), threshold }
    }

    /// Counts one more execution of `pc`.
    pub fn record_execution(&mut self, pc: u64)
        requires
            old(self).wf(),
            count_of(old(self).counts(), pc) < u32::MAX,
        ensures
            final(self).wf(),
            final(self).thr() == old(self).thr(),
            final(self).counts() == put(old(self).counts(), pc, (count_of(old(self).counts(), pc) + 1) as u32),
    {
        proof {
            lemma_put(self.execution_counts@, pc, (count_of(self.execution_counts@, pc) + 1) as u32);
        }
        match find_key(&self.execution_counts, pc) {
            Some(i) => {
                let c = self.execution_counts[i].1;
                self.execution_counts.set(i, (pc, c + 1));
            },
            None => {
                self.execution_counts.push((pc, 1));
            },
        }
    }

    /// Sets the count of `pc` to `count`.
    pub fn set_execution_count(&mut self, pc: u64, count: u32)
        requires
            old(self).wf(),
        ensures
            final(self).wf(),
            final(self).thr() == old(self).thr(),
            final(self).counts() == put(old(self).counts(), pc, count),
    {
        proof {
            lemma_put(self.execution_counts@, pc, count);
        }
        match find_key(&self.execution_counts, pc) {
            Some(i) => {
                self.execution_counts.set(i, (pc, count));
            },
            None => {
                self.execution_counts.push((pc, count));
            },
        }
    }

    /// The count of `pc` (0 where it has none).
    pub fn execution_count(&self, pc: u64) -> (c: u32)
        requires
            self.wf(),
        ensures
            c == count_of(self.counts(), pc),
    {
        match find_key(&self.execution_counts, pc) {
            Some(i) => self.execution_counts[i].1,
            None => 0,
        }
    }

    /// `pc` has a count and it reaches the threshold.
    pub fn is_hotspot(&self, pc: u64) -> (b: bool)
        requires
            self.wf(),
        ensures
            b == (get(self.counts(), pc) matches Some(c) && c >= self.thr()),
    {
        match find_key(&self.execution_counts, pc) {
            Some(i) => self.execution_counts[i].1 >= self.threshold,
            None => false,
        }
    }

    /// The hot addresses, in the order they were first recorded.
    pub fn get_hotspots(&self) -> (r: Vec<u64>)
        ensures
            r@ == hot_keys(self.counts(), self.thr()),
    {
        let mut r: Vec<u64> = Vec::new();
        let mut i: usize = 0;
        while i < self.execution_counts.len()
            invariant
                i <= self.execution_counts@.len(),
                r@ == hot_keys(self.execution_counts@.subrange(0, i as int), self.threshold),
            decreases self.execution_counts.len() - i,
        {
            let (pc, c) = self.execution_counts[i];
            assert(self.execution_counts@.subrange(0, i + 1).drop_last() =~= self.execution_counts@.subrange(0, i as int));
            if c >= self.threshold {
                r.push(pc);
            }
            assert(r@ =~= hot_keys(self.execution_counts@.subrange(0, i + 1), self.threshold));
            i += 1;
        }
        assert(self.execution_counts@.subrange(0, self.execution_counts@.len() as int) =~= self.execution_counts@);
        r
    }

    /// Sets the count of each address in `addrs` to `count`, as the runtime
    /// does for the code of an AOT image it loaded.
    pub fn mark_loaded(&mut self, addrs: &Vec<u64>, count: u32)
        requires
            old(self).wf(),
        ensures
            final(self).wf(),
            final(self).thr() == old(self).thr(),
            final(self).counts() == put_all(old(self).counts(), addrs@, count),
    {
        let mut k: usize = 0;
        while k < addrs.len()
            invariant
                k <= addrs@.len(),
                self.wf(),
                self.thr() == old(self).thr(),
                self.counts() == put_all(old(self).counts(), addrs@.subrange(0, k as int), count),
            decreases addrs.len() - k,
        {
            self.set_execution_count(addrs[k], count);
            assert(addrs@.subrange(0, k + 1).drop_last() =~= addrs@.subrange(0, k as int));
            k += 1;
        }
        assert(addrs@.subrange(0, addrs@.len() as int) =~= addrs@);
    }

    /// The sum of all counts, the number of hot addresses and the threshold.
    pub fn stats(&self) -> (s: HotspotStats)
        requires
            total_count(self.counts()) <= u32::MAX,
        ensures
            s.total_executions == total_count(self.counts()),
            s.hotspot_count == hot_keys(self.counts(), self.thr()).len(),
            s.threshold == self.thr(),
    {
        let hot = self.get_hotspots();
        let mut total: u32 = 0;
        let mut i: usize = 0;
        while i < self.execution_counts.len()
            invariant
                i <= self.execution_counts@.len(),
                total == total_count(self.execution_counts@.subrange(0, i as int)),
                total_count(self.execution_counts@) <= u32::MAX,
            decreases self.execution_counts.len() - i,
        {
            proof {
                assert(self.execution_counts@.subrange(0, i + 1).drop_last() =~= self.execution_counts@.subrange(0, i as int));
                lemma_total_prefix(self.execution_counts@, i + 1, self.execution_counts@.len() as int);
                assert(self.execution_counts@.subrange(0, self.execution_counts@.len() as int) =~= self.execution_counts@);
            }
            total = total + self.execution_counts[i].1;
            i += 1;
        }
        assert(self.execution_counts@.subrange(0, self.execution_counts@.len() as int) =~= self.execution_counts@);
        HotspotStats { total_executions: total, hotspot_count: hot.len(), threshold: self.threshold }
    }
}

/// `s` with each address of `addrs` in turn mapped to `count`.
pub open spec fn put_all(s: Seq<(u64, u32)>, addrs: Seq<u64>, count: u32) -> Seq<(u64, u32)>
    decreases addrs.len(),
{
    if addrs.len() == 0 {
        s
    } else {
        put(put_all(s, addrs.drop_last(), count), addrs.last(), count)
    }
}

/// The execution counts of the runtime in brief.
#[derive(Debug, Clone, Copy, PartialEq, Eq, Structural)]
pub struct HotspotStats {
    /// The sum of all execution counts.
    pub total_executions: u32,
    /// How many addresses are hot.
    pub hotspot_count: usize,
    pub threshold: u32,
}

/// The compiled-code cache in brief.
#[derive(Debug, Clone, Copy, PartialEq, Eq, Structural)]
pub struct JitCacheStats {
    pub cached_blocks: usize,
    /// Bytes of code in all.
    pub total_size: usize,
}

/// The contents of a compiled-code cache: one code sequence per guest
/// address, in the order the addresses were first stored.
pub open spec fn code_view(v: Seq<(u64, Vec<u8>)>) -> Seq<(u64, Seq<u8>)> {
    v.map_values(|e: (u64, Vec<u8>)| (e.0, e.1@))
}

/// Bytes of code in all.
pub open spec fn code_size(s: Seq<(u64, Seq<u8>)>) -> nat
    decreases s.len(),
{
    if s.len() == 0 {
        0
    } else {
        code_size(s.drop_last()) + s.last().1.len()
    }
}

proof fn lemma_code_size_prefix(s: Seq<(u64, Seq<u8>)>, i: int, j: int)
    requires
        0 <= i <= j <= s.len(),
    ensures
        code_size(s.subrange(0, i)) <= code_size(s.subrange(0, j)),
    decreases j - i,
{
    if i < j {
        lemma_code_size_prefix(s, i, j - 1);
        assert(s.subrange(0, j).drop_last() =~= s.subrange(0, j - 1));
    }
}

/// The code that the runtime records for a block the JIT compiled: the
/// block's start address in little-endian bytes, then a 1.
pub open spec fn jit_marker(start_pc: u64) -> Seq<u8> {
    le64(start_pc).push(1u8)
}

/// One section of an AOT image: the code of the block at `addr`.
#[derive(Debug, Clone)]
pub struct AotSection {
    pub addr: u64,
    pub data: Vec<u8>,
}

/// The header fields of an AOT image that are checked before its code is
/// taken in.
#[derive(Debug, Clone, Copy, PartialEq, Eq, Structural)]
pub struct AotImageHeader {
    pub magic: u64,
    pub version: u64,
    pub section_count: u64,
}

/// `s` with the code of each section in turn stored under its address.
pub open spec fn put_sections(s: Seq<(u64, Seq<u8>)>, sections: Seq<AotSection>) -> Seq<(u64, Seq<u8>)>
    decreases sections.len(),
{
    if sections.len() == 0 {
        s
    } else {
        put(put_sections(s, sections.drop_last()), sections.last().addr, sections.last().data@)
    }
}

/// The source architecture of AOT code for guests of `guest`; PowerPC64
/// guests have none.
pub open spec fn aot_source_of(guest: GuestArch) -> Option<Architecture> {
    match guest {
        GuestArch::X86_64 => Some(Architecture::X86_64),
        GuestArch::Arm64 => Some(Architecture::ARM64),
        GuestArch::Riscv64 => Some(Architecture::RISCV64),
        GuestArch::PowerPC64 => None,
    }
}

/// The JIT and AOT state of the runtime: whether each compiler is present,
/// the compiled code per guest address, and the settings.
pub struct JitState {
    jit_available: bool,
    aot_compiler: Option<CrossArchAotCompiler>,
    cache: Vec<(u64, Vec<u8>)>,
    jit_config: JitConfig,
    aot_config: AotConfig,
}

impl JitState {
    /// The compiled code per guest address.
    pub closed spec fn code(&self) -> Seq<(u64, Seq<u8>)> {
        code_view(self.cache@)
    }

    /// No address has two code sequences.
    pub closed spec fn wf(&self) -> bool {
        unique(self.cache@)
    }

    pub closed spec fn has_jit(&self) -> bool {
        self.jit_available
    }

    pub closed spec fn aot(&self) -> Option<CrossArchAotConfig> {
        match self.aot_compiler {
            Some(c) => Some(c.cfg()),
            None => None,
        }
    }

    /// The counters of the AOT compiler, where there is one.
    pub closed spec fn aot_stats(&self) -> CrossArchAotStats {
        self.aot_compiler->0.stats_view()
    }

    pub closed spec fn jit_cfg(&self) -> JitConfig {
        self.jit_config
    }

    pub closed spec fn aot_cfg(&self) -> AotConfig {
        self.aot_config
    }

    /// A JIT where `jit_config` enables it, and an AOT compiler from the
    /// guest's architecture to the host's where `aot_config` enables it;
    /// the cache starts empty. With AOT enabled, a PowerPC64 guest is
    /// `NotSupported` and a host that code cannot be generated for is
    /// `UnsupportedArch`.
    pub fn new(
        jit_config: JitConfig,
        aot_config: AotConfig,
        guest_arch: GuestArch,
        host_arch: Option<Architecture>,
        host_name: &str,
    ) -> (r: Result<Self, VmError>)
        ensures
            match r {
                Ok(s) => {
                    &&& s.wf()
                    &&& s.code() == Seq::<(u64, Seq<u8>)>::empty()
                    &&& s.has_jit() == jit_config.enable_jit
                    &&& s.jit_cfg() == jit_config
                    &&& s.aot_cfg() == aot_config
                    &&& aot_config.enable_aot ==> aot_source_of(guest_arch) is Some && host_arch is Some
                    &&& s.aot() == if aot_config.enable_aot {
                        Some(
                            CrossArchAotConfig {
                                source_arch: aot_source_of(guest_arch)->0,
                                target_arch: host_arch->0,
                                optimization_level: 2,
                                enable_cross_arch_optimization: true,
                            },
                        )
                    } else {
                        None
                    }
                },
                Err(e) => {
                    &&& aot_config.enable_aot
                    &&& if aot_source_of(guest_arch) is None {
                        e matches VmError::NotSupported { feature, module } && feature@ == "PowerPC64 architecture"@
                            && module@ == "cross_arch_runtime"@
                    } else {
                        host_arch is None && (e matches VmError::UnsupportedArch { arch, supported } && arch@ == host_name@
                            && supported@.len() == 3 && supported@[0]@ == "x86_64"@ && supported@[1]@ == "arm64"@
                            && supported@[2]@ == "riscv64"@)
                    }
                },
            },
    {
        let mut aot_compiler: Option<CrossArchAotCompiler> = None;
        if aot_config.enable_aot {
            let source_arch = match guest_arch {
                GuestArch::X86_64 => Architecture::X86_64,
                GuestArch::Arm64 => Architecture::ARM64,
                GuestArch::Riscv64 => Architecture::RISCV64,
                GuestArch::PowerPC64 => {
                    return Err(
                        VmError::NotSupported {
                            feature: text("PowerPC64 architecture"),
                            module: text("cross_arch_runtime"),
                        },
                    );
                },
            };
            let target_arch = match host_arch {
                Some(a) => a,
                None => {
                    let mut supported: Vec<String> = Vec::new();
                    supported.push(text("x86_64"));
                    supported.push(text("arm64"));
                    supported.push(text("riscv64"));
                    return Err(VmError::UnsupportedArch { arch: text(host_name), supported });
                },
            };
            aot_compiler = Some(
                CrossArchAotCompiler::new(
                    CrossArchAotConfig {
                        source_arch,
                        target_arch,
                        optimization_level: 2,
                        enable_cross_arch_optimization: true,
                    },
                ),
            );
        }
        let s = JitState {
            jit_available: jit_config.enable_jit,
            aot_compiler,
            cache: Vec::new(),
            jit_config,
            aot_config,
        };
        assert(s.code() =~= Seq::<(u64, Seq<u8>)>::empty());
        Ok(s)
    }

    /// Stores `data` as the code of `addr`.
    fn store_code(&mut self, addr: u64, data: Vec<u8>)
        requires
            old(self).wf(),
        ensures
            final(self).wf(),
            final(self).code() == put(old(self).code(), addr, data@),
            final(self).has_jit() == old(self).has_jit(),
            final(self).aot() == old(self).aot(),
            final(self).jit_cfg() == old(self).jit_cfg(),
            final(self).aot_cfg() == old(self).aot_cfg(),
    {
        let ghost before = self.cache@;
        let ghost v = data@;
        proof {
            lemma_put(before, addr, data);
        }
        match find_key(&self.cache, addr) {
            Some(i) => {
                self.cache.set(i, (addr, data));
                proof {
                    lemma_code_view_update(before, i as int, addr, v);
                }
            },
            None => {
                self.cache.push((addr, data));
                proof {
                    lemma_code_view_push(before, addr, v);
                }
            },
        }
    }

    /// Records the code of a block at `start_pc` that the JIT compiled;
    /// `jit_succeeded` is whether it produced code. Without a JIT, or where
    /// it produced none, this is an `Internal` error.
    pub fn compile_ir_block(&mut self, start_pc: u64, jit_succeeded: bool) -> (r: Result<Vec<u8>, VmError>)
        requires
            old(self).wf(),
        ensures
            final(self).wf(),
            final(self).has_jit() == old(self).has_jit(),
            final(self).aot() == old(self).aot(),
            final(self).jit_cfg() == old(self).jit_cfg(),
            final(self).aot_cfg() == old(self).aot_cfg(),
            old(self).has_jit() && jit_succeeded ==> (r matches Ok(v) && v@ == jit_marker(start_pc)) && final(self).code()
                == put(old(self).code(), start_pc, jit_marker(start_pc)),
            !old(self).has_jit() ==> final(self).code() == old(self).code() && (r matches Err(VmError::Internal {
                message,
                module,
            }) && message@ == "JIT compiler not available"@ && module@ == "CrossArchRuntime"@),
            old(self).has_jit() && !jit_succeeded ==> final(self).code() == old(self).code() && (r matches Err(
                VmError::Internal { message, module },
            ) && message@ == "JIT compilation failed or timed out"@ && module@ == "CrossArchRuntime"@),
    {
        if !self.jit_available {
            return Err(
                VmError::Internal { message: text("JIT compiler not available"), module: text("CrossArchRuntime") },
            );
        }
        if !jit_succeeded {
            return Err(
                VmError::Internal {
                    message: text("JIT compilation failed or timed out"),
                    module: text("CrossArchRuntime"),
                },
            );
        }
        let mut code_bytes: Vec<u8> = Vec::new();
        push_le64(&mut code_bytes, start_pc);
        code_bytes.push(1);
        let mut stored: Vec<u8> = Vec::new();
        let mut i: usize = 0;
        while i < code_bytes.len()
            invariant
                i <= code_bytes@.len(),
                stored@ == code_bytes@.subrange(0, i as int),
            decreases code_bytes.len() - i,
        {
            stored.push(code_bytes[i]);
            i += 1;
        }
        assert(code_bytes@.subrange(0, code_bytes@.len() as int) =~= code_bytes@);
        assert(code_bytes@ =~= jit_marker(start_pc));
        self.store_code(start_pc, stored);
        Ok(code_bytes)
    }

    /// Of `hotspots`, those to hand to the JIT: with the JIT enabled, those
    /// without code yet, in order; otherwise none.
    pub fn jit_compile_candidates(&self, hotspots: &Vec<u64>) -> (r: Vec<u64>)
        requires
            self.wf(),
        ensures
            r@ == if self.jit_cfg().enable_jit {
                hotspots@.filter(|pc: u64| !has_key(self.code(), pc))
            } else {
                Seq::empty()
            },
    {
        let mut r: Vec<u64> = Vec::new();
        if !self.jit_config.enable_jit {
            return r;
        }
        let ghost keep = |pc: u64| !has_key(self.code(), pc);
        let mut k: usize = 0;
        while k < hotspots.len()
            invariant
                k <= hotspots@.len(),
                self.wf(),
                keep == (|pc: u64| !has_key(self.code(), pc)),
                r@ == hotspots@.subrange(0, k as int).filter(keep),
            decreases hotspots.len() - k,
        {
            let pc = hotspots[k];
            proof {
                let pre = hotspots@.subrange(0, k + 1);
                assert(pre.drop_last() =~= hotspots@.subrange(0, k as int));
                reveal(Seq::filter);
            }
            if !self.has_jit_code(pc) {
                r.push(pc);
            }
            k += 1;
        }
        assert(hotspots@.subrange(0, hotspots@.len() as int) =~= hotspots@);
        r
    }

    /// Hands the blocks of the hotspots, each with its address, to the AOT
    /// compiler, where AOT is enabled and the compiler is present; a block
    /// that fails to compile is passed over. It always succeeds: with AOT
    /// the compiler has counted each block that compiled and its code, and
    /// otherwise nothing changes. The JIT cache is not touched.
    pub fn check_and_compile_hotspots(&mut self, ir_blocks: &Vec<(u64, IRBlock)>) -> (r: Result<(), VmError>)
        requires
            old(self).wf(),
            old(self).aot_cfg().enable_aot && old(self).aot() is Some ==> {
                let cfg = old(self).aot()->0;
                &&& forall|i: int| 0 <= i < ir_blocks@.len() ==> #[trigger] block_compilable(cfg, ir_blocks@[i].1.ops@)
                &&& old(self).aot_stats().blocks_compiled + ir_blocks@.len() < usize::MAX
                &&& old(self).aot_stats().generated_code_size + compiled_size(cfg, ir_blocks@) <= usize::MAX
            },
        ensures
            r is Ok,
            final(self).wf(),
            final(self).code() == old(self).code(),
            final(self).has_jit() == old(self).has_jit(),
            final(self).aot() == old(self).aot(),
            final(self).jit_cfg() == old(self).jit_cfg(),
            final(self).aot_cfg() == old(self).aot_cfg(),
            if old(self).aot_cfg().enable_aot && old(self).aot() is Some {
                let cfg = old(self).aot()->0;
                &&& final(self).aot_stats().blocks_compiled == old(self).aot_stats().blocks_compiled + compiled_count(
                    cfg,
                    ir_blocks@,
                )
                &&& final(self).aot_stats().generated_code_size == old(self).aot_stats().generated_code_size
                    + compiled_size(cfg, ir_blocks@)
                &&& final(self).aot_stats().cross_arch_translations == old(self).aot_stats().cross_arch_translations
                &&& final(self).aot_stats().total_compilation_time_ms >= old(self).aot_stats().total_compilation_time_ms
            } else {
                final(self).aot_stats() == old(self).aot_stats()
            },
    {
        if !self.aot_config.enable_aot {
            return Ok(());
        }
        let taken = self.aot_compiler.take();
        match taken {
            None => {
                self.aot_compiler = None;
            },
            Some(mut compiler) => {
                let ghost cfg = compiler.cfg();
                let ghost base = compiler.stats_view();
                let ghost all = ir_blocks@;
                let mut k: usize = 0;
                while k < ir_blocks.len()
                    invariant
                        k <= all.len(),
                        all == ir_blocks@,
                        compiler.cfg() == cfg,
                        forall|i: int| 0 <= i < all.len() ==> #[trigger] block_compilable(cfg, all[i].1.ops@),
                        base.blocks_compiled + all.len() < usize::MAX,
                        base.generated_code_size + compiled_size(cfg, all) <= usize::MAX,
                        compiler.stats_view().blocks_compiled == base.blocks_compiled + compiled_count(
                            cfg,
                            all.subrange(0, k as int),
                        ),
                        compiler.stats_view().generated_code_size == base.generated_code_size + compiled_size(
                            cfg,
                            all.subrange(0, k as int),
                        ),
                        compiler.stats_view().cross_arch_translations == base.cross_arch_translations,
                        compiler.stats_view().total_compilation_time_ms >= base.total_compilation_time_ms,
                    decreases all.len() - k,
                {
                    let ghost pre = all.subrange(0, k + 1);
                    proof {
                        assert(pre.drop_last() =~= all.subrange(0, k as int));
                        assert(pre.last() == all[k as int]);
                        assert(block_compilable(cfg, all[k as int].1.ops@));
                        lemma_compiled_prefix(cfg, all, k as int);
                        lemma_compiled_prefix(cfg, all, k + 1);
                    }
                    let pc = ir_blocks[k].0;
                    let _ = compiler.compile_from_ir(pc, &ir_blocks[k].1);
                    k += 1;
                }
                assert(all.subrange(0, all.len() as int) =~= all);
                self.aot_compiler = Some(compiler);
            },
        }
        Ok(())
    }

    /// AOT compilation of hotspots takes place: AOT is enabled and its
    /// compiler is present.
    pub fn aot_compile_enabled(&self) -> (b: bool)
        ensures
            b == (self.aot_cfg().enable_aot && self.aot() is Some),
    {
        self.aot_config.enable_aot && self.aot_compiler.is_some()
    }

    /// Takes in the code of an AOT image after checking its header: the
    /// magic number and the version must be the expected ones and the
    /// section count must match the sections. The code of each section is
    /// then stored under its address, in order.
    pub fn load_aot_image(
        &mut self,
        header: AotImageHeader,
        sections: Vec<AotSection>,
        expected_magic: u64,
        expected_version: u64,
    ) -> (r: Result<(), VmError>)
        requires
            old(self).wf(),
        ensures
            final(self).wf(),
            final(self).has_jit() == old(self).has_jit(),
            final(self).aot() == old(self).aot(),
            final(self).jit_cfg() == old(self).jit_cfg(),
            final(self).aot_cfg() == old(self).aot_cfg(),
            header.magic != expected_magic ==> final(self).code() == old(self).code() && (r matches Err(VmError::Internal {
                message,
                module,
            }) && message@ == "Invalid AOT magic number"@ && module@ == "CrossArchRuntime"@),
            header.magic == expected_magic && header.version != expected_version ==> final(self).code() == old(
                self,
            ).code() && (r matches Err(VmError::Internal { message, module }) && message@ == "Unsupported AOT version: "@
                + dec(header.version as nat) && module@ == "CrossArchRuntime"@),
            header.magic == expected_magic && header.version == expected_version && sections@.len()
                != header.section_count ==> final(self).code() == old(self).code() && (r matches Err(
                VmError::Internal { message, module },
            ) && message@ == "Section count mismatch: expected "@ + dec(header.section_count as nat) + ", got "@ + dec(
                sections@.len(),
            ) && module@ == "CrossArchRuntime"@),
            header.magic == expected_magic && header.version == expected_version && sections@.len()
                == header.section_count ==> r is Ok && final(self).code() == put_sections(old(self).code(), sections@),
    {
        if header.magic != expected_magic {
            return Err(
                VmError::Internal { message: text("Invalid AOT magic number"), module: text("CrossArchRuntime") },
            );
        }
        if header.version != expected_version {
            let mut message = text("Unsupported AOT version: ");
            push_u64(&mut message, header.version);
            return Err(VmError::Internal { message, module: text("CrossArchRuntime") });
        }
        if sections.len() as u64 != header.section_count {
            let mut message = text("Section count mismatch: expected ");
            push_u64(&mut message, header.section_count);
            push_text(&mut message, ", got ");
            push_u64(&mut message, sections.len() as u64);
            return Err(VmError::Internal { message, module: text("CrossArchRuntime") });
        }
        let ghost start = self.code();
        let rest = sections;
        let ghost all = rest@;
        let mut k: usize = 0;
        let n = rest.len();
        while k < n
            invariant
                k <= n,
                n == rest@.len(),
                rest@ == all,
                self.wf(),
                self.code() == put_sections(start, all.subrange(0, k as int)),
                self.has_jit() == old(self).has_jit(),
                self.aot() == old(self).aot(),
                self.jit_cfg() == old(self).jit_cfg(),
                self.aot_cfg() == old(self).aot_cfg(),
            decreases n - k,
        {
            let addr = rest[k].addr;
            let data = copy_bytes(&rest[k].data);
            self.store_code(addr, data);
            assert(all.subrange(0, k + 1).drop_last() =~= all.subrange(0, k as int));
            k += 1;
        }
        assert(all.subrange(0, n as int) =~= all);
        Ok(())
    }

    /// Some code is stored for `pc`.
    pub fn has_jit_code(&self, pc: u64) -> (b: bool)
        requires
            self.wf(),
        ensures
            b == has_key(self.code(), pc),
    {
        proof {
            lemma_code_view_keys(self.cache@, pc);
        }
        find_key(&self.cache, pc).is_some()
    }

    /// The addresses with stored code, in the order they were first stored.
    pub fn cached_addresses(&self) -> (r: Vec<u64>)
        ensures
            r@ == self.code().map_values(|e: (u64, Seq<u8>)| e.0),
    {
        let mut r: Vec<u64> = Vec::new();
        let mut i: usize = 0;
        while i < self.cache.len()
            invariant
                i <= self.cache@.len(),
                r@ == self.code().subrange(0, i as int).map_values(|e: (u64, Seq<u8>)| e.0),
            decreases self.cache.len() - i,
        {
            r.push(self.cache[i].0);
            assert(r@ =~= self.code().subrange(0, i + 1).map_values(|e: (u64, Seq<u8>)| e.0));
            i += 1;
        }
        assert(self.code().subrange(0, self.cache@.len() as int) =~= self.code());
        r
    }

    /// The number of cached blocks and the bytes of code in all.
    pub fn cache_stats(&self) -> (s: JitCacheStats)
        requires
            code_size(self.code()) <= usize::MAX,
        ensures
            s.cached_blocks == self.code().len(),
            s.total_size == code_size(self.code()),
    {
        let ghost cv = self.code();
        let mut total: usize = 0;
        let mut i: usize = 0;
        while i < self.cache.len()
            invariant
                i <= self.cache@.len(),
                cv == code_view(self.cache@),
                total == code_size(cv.subrange(0, i as int)),
                code_size(cv) <= usize::MAX,
            decreases self.cache.len() - i,
        {
            proof {
                assert(cv.subrange(0, i + 1).drop_last() =~= cv.subrange(0, i as int));
                lemma_code_size_prefix(cv, i + 1, cv.len() as int);
                assert(cv.subrange(0, cv.len() as int) =~= cv);
                assert(cv[i as int].1 == self.cache@[i as int].1@);
            }
            total = total + self.cache[i].1.len();
            i += 1;
        }
        assert(cv.subrange(0, cv.len() as int) =~= cv);
        JitCacheStats { cached_blocks: self.cache.len(), total_size: total }
    }

    pub fn get_aot_stats(&self) -> (r: Option<&CrossArchAotStats>)
        ensures
            r is Some == self.aot() is Some,
            r matches Some(s) ==> *s == self.aot_stats(),
    {
        match &self.aot_compiler {
            Some(c) => Some(c.stats()),
            None => None,
        }
    }

    pub fn jit_config(&self) -> (c: &JitConfig)
        ensures
            *c == self.jit_cfg(),
    {
        &self.jit_config
    }

    pub fn aot_config(&self) -> (c: &AotConfig)
        ensures
            *c == self.aot_cfg(),
    {
        &self.aot_config
    }

    pub fn is_jit_enabled(&self) -> (b: bool)
        ensures
            b == self.jit_cfg().enable_jit,
    {
        self.jit_config.enable_jit
    }

    pub fn is_aot_enabled(&self) -> (b: bool)
        ensures
            b == self.aot_cfg().enable_aot,
    {
        self.aot_config.enable_aot
    }
}

/// A copy of `v`.
fn copy_bytes(v: &Vec<u8>) -> (r: Vec<u8>)
    ensures
        r@ == v@,
{
    let mut r: Vec<u8> = Vec::new();
    let mut i: usize = 0;
    while i < v.len()
        invariant
            i <= v@.len(),
            r@ == v@.subrange(0, i as int),
        decreases v.len() - i,
    {
        r.push(v[i]);
        i += 1;
    }
    assert(v@.subrange(0, v@.len() as int) =~= v@);
    r
}

proof fn lemma_code_view_keys(v: Seq<(u64, Vec<u8>)>, pc: u64)
    ensures
        has_key(code_view(v), pc) == has_key(v, pc),
        has_key(v, pc) ==> pos(code_view(v), pc) == pos(v, pc) || !unique(v),
{
    let c = code_view(v);
    if has_key(v, pc) {
        let i = pos(v, pc);
        assert(c[i].0 == pc);
    }
    if has_key(c, pc) {
        let i = pos(c, pc);
        assert(v[i].0 == pc);
    }
    if has_key(v, pc) && unique(v) {
        let i = pos(v, pc);
        let j = pos(c, pc);
        assert(v[j].0 == pc);
    }
}

proof fn lemma_code_view_update(v: Seq<(u64, Vec<u8>)>, i: int, addr: u64, data: Seq<u8>)
    requires
        unique(v),
        0 <= i < v.len(),
        v[i].0 == addr,
    ensures
        forall|d: Vec<u8>| d@ == data ==> code_view(v.update(i, (addr, d))) == put(code_view(v), addr, data),
{
    assert forall|d: Vec<u8>| d@ == data implies code_view(v.update(i, (addr, d))) == put(code_view(v), addr, data) by {
        let c = code_view(v);
        lemma_pos(v, i);
        lemma_code_view_keys(v, addr);
        assert(has_key(c, addr));
        assert(c[i].0 == addr);
        assert forall|a: int, b: int| 0 <= a < c.len() && 0 <= b < c.len() && a != b implies (#[trigger] c[a]).0
            != (#[trigger] c[b]).0 by {
            assert(v[a].0 != v[b].0);
        }
        lemma_pos(c, i);
        assert(code_view(v.update(i, (addr, d))) =~= c.update(i, (addr, data)));
    }
}

proof fn lemma_code_view_push(v: Seq<(u64, Vec<u8>)>, addr: u64, data: Seq<u8>)
    requires
        !has_key(v, addr),
    ensures
        forall|d: Vec<u8>| d@ == data ==> code_view(v.push((addr, d))) == put(code_view(v), addr, data),
{
    assert forall|d: Vec<u8>| d@ == data implies code_view(v.push((addr, d))) == put(code_view(v), addr, data) by {
        lemma_code_view_keys(v, addr);
        assert(code_view(v.push((addr, d))) =~= code_view(v).push((addr, data)));
    }
}

/// The counts after `record_execution` of each address of `addrs` in turn.
pub open spec fn record_all(s: Seq<(u64, u32)>, addrs: Seq<u64>) -> Seq<(u64, u32)>
    decreases addrs.len(),
{
    if addrs.len() == 0 {
        s
    } else {
        let t = record_all(s, addrs.drop_last());
        put(t, addrs.last(), (count_of(t, addrs.last()) + 1) as u32)
    }
}

/// How often `pc` occurs in `addrs`.
pub open spec fn occurrences(addrs: Seq<u64>, pc: u64) -> nat
    decreases addrs.len(),
{
    if addrs.len() == 0 {
        0
    } else {
        occurrences(addrs.drop_last(), pc) + if addrs.last() == pc { 1nat } else { 0nat }
    }
}

proof fn lemma_occurrences_bound(addrs: Seq<u64>, pc: u64)
    ensures
        occurrences(addrs, pc) <= addrs.len(),
    decreases addrs.len(),
{
    if addrs.len() > 0 {
        lemma_occurrences_bound(addrs.drop_last(), pc);
    }
}

/// Recording counts exactly: after `record_execution` of each address of
/// `addrs` in turn, the count of `pc` has grown by the number of times `pc`
/// occurs in `addrs`, whatever the other addresses are (while no count
/// overflows), so `pc` is hot once it has been recorded `threshold` times
/// from no count.
pub proof fn lemma_recorded_counts(s: Seq<(u64, u32)>, addrs: Seq<u64>, pc: u64)
    requires
        unique(s),
        count_of(s, pc) + addrs.len() <= u32::MAX,
    ensures
        unique(record_all(s, addrs)),
        count_of(record_all(s, addrs), pc) == count_of(s, pc) + occurrences(addrs, pc),
    decreases addrs.len(),
{
    if addrs.len() > 0 {
        let init = addrs.drop_last();
        lemma_recorded_counts(s, init, pc);
        lemma_occurrences_bound(init, pc);
        let t = record_all(s, init);
        let a = addrs.last();
        lemma_put(t, a, (count_of(t, a) + 1) as u32);
    }
}

} // verus!
