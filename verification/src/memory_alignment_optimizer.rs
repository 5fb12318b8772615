//! Memory-access optimizations for translated code: alignment analysis of
//! loads and stores, merging of adjacent accesses into wider ones, byte-order
//! conversion of data, and recognition of access patterns.

use vstd::prelude::*;
use crate::ir::{IROp, MemFlags, RegId};
use crate::keyed::{get, has_key, lemma_pos, lemma_put, pos, put, unique};

verus! {

/// Guest addresses, as plain integers.
pub type GuestAddr = u64;

/// Byte order.
#[derive(Debug, Clone, Copy, PartialEq, Eq, Structural)]
pub enum Endianness {
    LittleEndian,
    BigEndian,
}

/// The alignment of a memory access.
#[derive(Debug, Clone, Copy, PartialEq, Eq, Structural)]
pub struct AlignmentInfo {
    /// Alignment in bytes.
    pub alignment: usize,
    /// The access is aligned to its own size.
    pub is_natural: bool,
    /// Cycles lost to misalignment.
    pub penalty_cycles: u32,
}

/// How data of another byte order is converted.
#[derive(Debug, Clone, Copy, PartialEq, Eq, Structural)]
pub enum EndiannessConversionStrategy {
    /// No conversion.
    NoConversion,
    Software,
    Hardware,
    /// Software for up to 16 bytes, hardware above.
    Hybrid,
}

/// The shape of a sequence of memory accesses.
#[derive(Debug, Clone, Copy, PartialEq, Eq, Structural)]
pub enum MemoryAccessPattern {
    Sequential,
    Random,
    Strided { stride: usize },
    Indirect,
}

/// Greatest common divisor by Euclid's algorithm (`gcd(a, 0) == a`).
pub open spec fn gcd_spec(a: nat, b: nat) -> nat
    decreases b,
{
    if b == 0 {
        a
    } else {
        gcd_spec(b, a % b)
    }
}

/// Greatest common divisor.
pub fn gcd(a: usize, b: usize) -> (g: usize)
    ensures
        g == gcd_spec(a as nat, b as nat),
    decreases b,
{
    if b == 0 {
        a
    } else {
        gcd(b, a % b)
    }
}

/// `gcd_spec` divides both arguments.
pub proof fn lemma_gcd_divides(a: nat, b: nat)
    ensures
        gcd_spec(a, b) == 0 ==> a == 0 && b == 0,
        gcd_spec(a, b) > 0 ==> a % gcd_spec(a, b) == 0 && b % gcd_spec(a, b) == 0,
    decreases b,
{
    if b > 0 {
        lemma_gcd_divides(b, a % b);
        let g = gcd_spec(b, a % b);
        if g > 0 {
            let (ai, bi, gi) = (a as int, b as int, g as int);
            let q = ai / bi;
            let r = ai % bi;
            vstd::arithmetic::div_mod::lemma_fundamental_div_mod(ai, bi);
            vstd::arithmetic::div_mod::lemma_fundamental_div_mod(bi, gi);
            vstd::arithmetic::div_mod::lemma_fundamental_div_mod(r, gi);
            assert(bi % gi == 0 && r % gi == 0);
            let x = q * (bi / gi) + r / gi;
            assert(ai == x * gi) by (nonlinear_arith)
                requires
                    ai == bi * q + r,
                    bi == gi * (bi / gi),
                    r == gi * (r / gi),
                    x == q * (bi / gi) + r / gi,
            ;
            vstd::arithmetic::div_mod::lemma_mod_multiples_basic(x, gi);
        } else {
            assert(b == 0);
        }
    }
}

/// Every common divisor of `a` and `b` divides `gcd_spec(a, b)`, so the
/// result is the greatest one.
pub proof fn lemma_gcd_greatest(a: nat, b: nat, d: nat)
    requires
        d > 0,
        a % d == 0,
        b % d == 0,
    ensures
        gcd_spec(a, b) % d == 0,
    decreases b,
{
    if b > 0 {
        let (ai, bi, di) = (a as int, b as int, d as int);
        let q = ai / bi;
        let r = ai % bi;
        vstd::arithmetic::div_mod::lemma_fundamental_div_mod(ai, bi);
        vstd::arithmetic::div_mod::lemma_fundamental_div_mod(ai, di);
        vstd::arithmetic::div_mod::lemma_fundamental_div_mod(bi, di);
        let x = ai / di - q * (bi / di);
        assert(r == x * di) by (nonlinear_arith)
            requires
                ai == bi * q + r,
                ai == di * (ai / di),
                bi == di * (bi / di),
                x == ai / di - q * (bi / di),
        ;
        vstd::arithmetic::div_mod::lemma_mod_multiples_basic(x, di);
        lemma_gcd_greatest(b, a % b, d);
    }
}

/// Counters of the memory optimizer (all wrap around).
#[derive(Debug, Clone, Copy, PartialEq, Eq, Structural)]
pub struct MemoryOptimizationStats {
    pub alignment_optimizations: usize,
    pub endianness_conversions: usize,
    pub cycles_saved: u64,
    pub buffer_reuses: usize,
}

impl Default for MemoryOptimizationStats {
    fn default() -> (s: Self)
        ensures
            s == (MemoryOptimizationStats {
                alignment_optimizations: 0,
                endianness_conversions: 0,
                cycles_saved: 0,
                buffer_reuses: 0,
            }),
    {
        MemoryOptimizationStats { alignment_optimizations: 0, endianness_conversions: 0, cycles_saved: 0, buffer_reuses: 0 }
    }
}

pub open spec fn inc_usize(x: usize) -> usize {
    vstd::wrapping::usize_specs::wrapping_add(x, 1)
}

/// The magnitude of an offset, as `i64::unsigned_abs` gives it.
pub open spec fn offset_abs(o: i64) -> u64 {
    if o < 0 {
        (-(o as int)) as u64
    } else {
        o as u64
    }
}

/// The alignment of an access of `size` bytes at `offset` from a base: its
/// size for offset zero, else the greatest common divisor of the offset's
/// magnitude and the size.
pub open spec fn access_alignment(offset: i64, size: u8) -> usize {
    if offset == 0 {
        size as usize
    } else {
        gcd_spec((offset_abs(offset) as usize) as nat, size as nat) as usize
    }
}

/// The misalignment penalty of an access of `size` bytes.
pub open spec fn penalty_of(size: u8) -> u32 {
    if size == 1 {
        0
    } else if size == 2 {
        1
    } else if size == 4 {
        2
    } else if size == 8 {
        3
    } else {
        4
    }
}

pub open spec fn alignment_info(offset: i64, size: u8) -> AlignmentInfo {
    let a = access_alignment(offset, size);
    let natural = a == size as usize;
    AlignmentInfo { alignment: a, is_natural: natural, penalty_cycles: if natural { 0 } else { penalty_of(size) } }
}

/// The state of the memory optimizer.
pub struct MemOptView {
    pub source_endianness: Endianness,
    pub target_endianness: Endianness,
    pub conversion_strategy: EndiannessConversionStrategy,
    /// Alignment results cached by base register, offset and size.
    pub cache: Seq<((RegId, i64, u8), AlignmentInfo)>,
    pub buffer: Seq<u8>,
    pub stats: MemoryOptimizationStats,
}

/// The state and result of analysing an access at (`base`, `offset`,
/// `size`): a cached result for the same access is returned as it is;
/// otherwise the result is computed, cached and counted, and its penalty
/// added to the saved cycles.
pub open spec fn analyze_access(s: MemOptView, base: RegId, offset: i64, size: u8) -> (MemOptView, AlignmentInfo) {
    match get(s.cache, (base, offset, size)) {
        Some(info) => (s, info),
        None => {
            let info = alignment_info(offset, size);
            (
                MemOptView {
                    cache: put(s.cache, (base, offset, size), info),
                    stats: MemoryOptimizationStats {
                        alignment_optimizations: inc_usize(s.stats.alignment_optimizations),
                        cycles_saved: vstd::wrapping::u64_specs::wrapping_add(s.stats.cycles_saved, info.penalty_cycles as u64),
                        ..s.stats
                    },
                    ..s
                },
                info,
            )
        },
    }
}

/// The state and result of `analyze_alignment(op)`: loads and stores are
/// analysed by base, offset and size; any other operation is byte-aligned
/// with no penalty.
pub open spec fn analyze_op(s: MemOptView, op: IROp) -> (MemOptView, AlignmentInfo) {
    match op {
        IROp::Load { base, offset, size, .. } => analyze_access(s, base, offset, size),
        IROp::Store { base, offset, size, .. } => analyze_access(s, base, offset, size),
        _ => (s, AlignmentInfo { alignment: 1, is_natural: true, penalty_cycles: 0 }),
    }
}

/// The outcome of looking for a merge at the start of a sequence.
pub enum MergeOutcome {
    /// Nothing to merge.
    NoMerge,
    /// The replacement operations.
    Merged(Seq<IROp>),
    /// The offset difference overflows `i64`, which the merge cannot take.
    Overflow,
}

/// Two loads of four bytes as one load of eight, then a move and an
/// immediate add for the two destinations.
pub open spec fn widened_load(dst1: RegId, dst2: RegId, base: RegId, offset: i64) -> Seq<IROp> {
    seq![
        IROp::Load { dst: dst1, base, offset, size: 8, flags: MemFlags { volatile: false, atomic: false } },
        IROp::Mov { dst: dst1, src: dst1 },
        IROp::AddImm { dst: dst2, src: dst1, imm: 4 },
    ]
}

/// Two stores of four bytes as an add of the sources and one store of eight.
pub open spec fn widened_store(src1: RegId, src2: RegId, base: RegId, offset: i64) -> Seq<IROp> {
    seq![
        IROp::Add { dst: src1, src1, src2 },
        IROp::Store { src: src1, base, offset, size: 8, flags: MemFlags { volatile: false, atomic: false } },
    ]
}

/// Whether `o2 - o1` has a magnitude of `size`, or `None` when the
/// difference or its magnitude overflows `i64`.
pub open spec fn adjacent(o1: i64, o2: i64, size: u8) -> Option<bool> {
    let d = o2 - o1;
    if d <= i64::MIN || d > i64::MAX {
        None
    } else {
        Some(d == size as int || -d == size as int)
    }
}

/// The merge at the start of `ops`: two loads (or two stores) with the same
/// base and size whose offsets are `size` apart are merged when the size is
/// four.
pub open spec fn merge_at(ops: Seq<IROp>) -> MergeOutcome {
    if ops.len() < 2 {
        MergeOutcome::NoMerge
    } else {
        match (ops[0], ops[1]) {
            (
                IROp::Load { dst: d1, base: b1, offset: o1, size: s1, .. },
                IROp::Load { dst: d2, base: b2, offset: o2, size: s2, .. },
            ) => if b1 == b2 && s1 == s2 {
                match adjacent(o1, o2, s1) {
                    None => MergeOutcome::Overflow,
                    Some(true) => if s1 == 4 { MergeOutcome::Merged(widened_load(d1, d2, b1, o1)) } else { MergeOutcome::NoMerge },
                    Some(false) => MergeOutcome::NoMerge,
                }
            } else {
                MergeOutcome::NoMerge
            },
            (
                IROp::Store { src: r1, base: b1, offset: o1, size: s1, .. },
                IROp::Store { src: r2, base: b2, offset: o2, size: s2, .. },
            ) => if b1 == b2 && s1 == s2 {
                match adjacent(o1, o2, s1) {
                    None => MergeOutcome::Overflow,
                    Some(true) => if s1 == 4 { MergeOutcome::Merged(widened_store(r1, r2, b1, o1)) } else { MergeOutcome::NoMerge },
                    Some(false) => MergeOutcome::NoMerge,
                }
            } else {
                MergeOutcome::NoMerge
            },
            _ => MergeOutcome::NoMerge,
        }
    }
}

/// The merging walk from position `i`: at each position where the two
/// operations there merge, their replacement takes their place and the walk
/// moves on past both; otherwise the operation is kept and the walk moves
/// on by one. Every operation that is not part of a merged pair is kept, in
/// order. `None` when a difference of offsets overflows on the way.
pub open spec fn merge_walk(ops: Seq<IROp>, i: nat) -> Option<Seq<IROp>>
    decreases ops.len() - i,
{
    if i >= ops.len() {
        Some(Seq::empty())
    } else {
        match merge_at(ops.subrange(i as int, ops.len() as int)) {
            MergeOutcome::Overflow => None,
            MergeOutcome::Merged(m) => {
                let next: nat = if i + 2 >= ops.len() { ops.len() } else { i + 2 };
                match merge_walk(ops, next) {
                    Some(rest) => Some(m + rest),
                    None => None,
                }
            },
            MergeOutcome::NoMerge => match merge_walk(ops, i + 1) {
                Some(rest) => Some(seq![ops[i as int]] + rest),
                None => None,
            },
        }
    }
}

/// The byte-order conversion of `data` in software: blocks of 2, 4 or 8
/// bytes are reversed; anything else has each pair of bytes swapped, an odd
/// last byte staying where it is.
pub open spec fn swapped(data: Seq<u8>) -> Seq<u8> {
    if data.len() == 2 || data.len() == 4 || data.len() == 8 {
        data.reverse()
    } else {
        Seq::new(
            data.len(),
            |j: int|
                if j % 2 == 0 {
                    if j + 1 < data.len() { data[j + 1] } else { data[j] }
                } else {
                    data[j - 1]
                },
        )
    }
}

/// The conversion buffer after a software conversion of `data`: large
/// enough for the data, the converted bytes at its start.
pub open spec fn buffer_after(buffer: Seq<u8>, data: Seq<u8>) -> Seq<u8> {
    if buffer.len() < data.len() {
        swapped(data)
    } else {
        swapped(data) + buffer.subrange(data.len() as int, buffer.len() as int)
    }
}

/// The state and result of converting `data` to the target byte order (see
/// `EndiannessConversionStrategy`); hardware conversion is only counted.
pub open spec fn convert_spec(s: MemOptView, data: Seq<u8>) -> (MemOptView, Seq<u8>) {
    let soft = (
        MemOptView {
            buffer: buffer_after(s.buffer, data),
            stats: MemoryOptimizationStats {
                endianness_conversions: inc_usize(s.stats.endianness_conversions),
                buffer_reuses: inc_usize(s.stats.buffer_reuses),
                ..s.stats
            },
            ..s
        },
        swapped(data),
    );
    let hard = (
        MemOptView {
            stats: MemoryOptimizationStats { endianness_conversions: inc_usize(s.stats.endianness_conversions), ..s.stats },
            ..s
        },
        data,
    );
    if s.source_endianness == s.target_endianness {
        (s, data)
    } else {
        match s.conversion_strategy {
            EndiannessConversionStrategy::NoConversion => (s, data),
            EndiannessConversionStrategy::Software => soft,
            EndiannessConversionStrategy::Hardware => hard,
            EndiannessConversionStrategy::Hybrid => if data.len() <= 16 { soft } else { hard },
        }
    }
}

/// The offsets of the loads and stores among `ops`, in order.
pub open spec fn access_offsets(ops: Seq<IROp>) -> Seq<i64>
    decreases ops.len(),
{
    if ops.len() == 0 {
        Seq::empty()
    } else {
        let rest = access_offsets(ops.drop_last());
        match ops.last() {
            IROp::Load { offset, .. } => rest.push(offset),
            IROp::Store { offset, .. } => rest.push(offset),
            _ => rest,
        }
    }
}

/// The sizes of the loads and stores among `ops`, in order.
pub open spec fn access_sizes(ops: Seq<IROp>) -> Seq<u8>
    decreases ops.len(),
{
    if ops.len() == 0 {
        Seq::empty()
    } else {
        let rest = access_sizes(ops.drop_last());
        match ops.last() {
            IROp::Load { size, .. } => rest.push(size),
            IROp::Store { size, .. } => rest.push(size),
            _ => rest,
        }
    }
}

proof fn lemma_access_lens(ops: Seq<IROp>)
    ensures
        access_sizes(ops).len() == access_offsets(ops).len(),
    decreases ops.len(),
{
    if ops.len() > 0 {
        lemma_access_lens(ops.drop_last());
    }
}

/// Whether the differences of consecutive offsets from position `i` on all
/// equal `s` (`Some(false)` at the first that does not), or `None` when a
/// difference overflows before that.
pub open spec fn strides_equal(acc: Seq<i64>, i: nat, s: int) -> Option<bool>
    decreases acc.len() - i,
{
    if i >= acc.len() {
        Some(true)
    } else {
        let d = acc[i as int] - acc[i - 1];
        if d < i64::MIN || d > i64::MAX {
            None
        } else if d != s {
            Some(false)
        } else {
            strides_equal(acc, i + 1, s)
        }
    }
}

/// The access pattern of `ops`: fewer than three operations or three
/// accesses is random; equal differences of consecutive offsets are
/// sequential when the difference is one or the size of the first access
/// (each access then follows the one before), strided otherwise (by its
/// magnitude); anything else is random. `None` when a difference overflows.
pub open spec fn pattern_spec(ops: Seq<IROp>) -> Option<MemoryAccessPattern> {
    let acc = access_offsets(ops);
    if ops.len() < 3 || acc.len() < 3 {
        Some(MemoryAccessPattern::Random)
    } else {
        let d = acc[1] - acc[0];
        if d < i64::MIN || d > i64::MAX {
            None
        } else {
            match strides_equal(acc, 2, d) {
                None => None,
                Some(false) => Some(MemoryAccessPattern::Random),
                Some(true) => if d == 1 || d == access_sizes(ops)[0] {
                    Some(MemoryAccessPattern::Sequential)
                } else {
                    Some(MemoryAccessPattern::Strided { stride: (offset_abs(d as i64) as usize) })
                },
            }
        }
    }
}

/// Alignment, merging and byte-order conversion of memory accesses.
pub struct MemoryAlignmentOptimizer {
    source_endianness: Endianness,
    target_endianness: Endianness,
    conversion_strategy: EndiannessConversionStrategy,
    alignment_cache: Vec<((RegId, i64, u8), AlignmentInfo)>,
    conversion_buffer: Vec<u8>,
    stats: MemoryOptimizationStats,
}

impl View for MemoryAlignmentOptimizer {
    type V = MemOptView;

    closed spec fn view(&self) -> MemOptView {
        MemOptView {
            source_endianness: self.source_endianness,
            target_endianness: self.target_endianness,
            conversion_strategy: self.conversion_strategy,
            cache: self.alignment_cache@,
            buffer: self.conversion_buffer@,
            stats: self.stats,
        }
    }
}

/// The magnitude of an offset.
fn unsigned_abs(o: i64) -> (r: u64)
    ensures
        r == offset_abs(o),
{
    if o < 0 {
        let u = o as u64;
        let r = 0u64.wrapping_sub(u);
        assert(r == (-(o as int)) as u64) by (bit_vector)
            requires
                o < 0,
                u == o as u64,
                r == 0u64.wrapping_sub(u),
        ;
        r
    } else {
        o as u64
    }
}

impl MemoryAlignmentOptimizer {
    pub open spec fn wf(&self) -> bool {
        unique(self@.cache)
    }

    pub fn new(
        source_endianness: Endianness,
        target_endianness: Endianness,
        conversion_strategy: EndiannessConversionStrategy,
    ) -> (o: Self)
        ensures
            o.wf(),
            o@ == (MemOptView {
                source_endianness,
                target_endianness,
                conversion_strategy,
                cache: Seq::empty(),
                buffer: Seq::empty(),
                stats: MemoryOptimizationStats {
                    alignment_optimizations: 0,
                    endianness_conversions: 0,
                    cycles_saved: 0,
                    buffer_reuses: 0,
                },
            }),
    {
        let o = MemoryAlignmentOptimizer {
            source_endianness,
            target_endianness,
            conversion_strategy,
            alignment_cache: Vec::new(),
            conversion_buffer: Vec::new(),
            stats: MemoryOptimizationStats::default(),
        };
        assert(o@.cache =~= Seq::<((RegId, i64, u8), AlignmentInfo)>::empty());
        assert(o@.buffer =~= Seq::<u8>::empty());
        o
    }

    /// The alignment of `op` (see `analyze_op`).
    pub fn analyze_alignment(&mut self, op: &IROp) -> (info: AlignmentInfo)
        requires
            old(self).wf(),
        ensures
            final(self).wf(),
            (final(self)@, info) == analyze_op(old(self)@, *op),
    {
        match op {
            IROp::Load { base, offset, size, .. } => self.analyze_load_alignment(*base, *offset, *size),
            IROp::Store { base, offset, size, .. } => self.analyze_load_alignment(*base, *offset, *size),
            _ => AlignmentInfo { alignment: 1, is_natural: true, penalty_cycles: 0 },
        }
    }

    fn analyze_load_alignment(&mut self, base: RegId, offset: i64, size: u8) -> (info: AlignmentInfo)
        requires
            old(self).wf(),
        ensures
            final(self).wf(),
            (final(self)@, info) == analyze_access(old(self)@, base, offset, size),
    {
        let ghost s = self@;
        let key = (base, offset, size);
        let mut i: usize = 0;
        while i < self.alignment_cache.len()
            invariant
                self@ == s,
                key == (base, offset, size),
                unique(s.cache),
                i <= s.cache.len(),
                forall|j: int| 0 <= j < i ==> (#[trigger] s.cache[j]).0 != key,
            decreases self.alignment_cache.len() - i,
        {
            let entry_key = self.alignment_cache[i].0;
            assert(entry_key == s.cache[i as int].0);
            let k0: RegId = entry_key.0;
            let k1: i64 = entry_key.1;
            let k2: u8 = entry_key.2;
            if k0 == base && k1 == offset && k2 == size {
                assert(entry_key == (k0, k1, k2));
                assert(entry_key == key);
                proof {
                    lemma_pos(s.cache, i as int);
                }
                return self.alignment_cache[i].1;
            }
            assert(k0 != base || k1 != offset || k2 != size);
            assert(entry_key == (k0, k1, k2));
            assert(entry_key != key);
            i += 1;
        }
        let alignment: usize = if offset == 0 {
            size as usize
        } else {
            let offset_abs = unsigned_abs(offset) as usize;
            gcd(offset_abs, size as usize)
        };
        let is_natural = alignment == size as usize;
        let penalty_cycles: u32 = if is_natural {
            0
        } else if size == 1 {
            0
        } else if size == 2 {
            1
        } else if size == 4 {
            2
        } else if size == 8 {
            3
        } else {
            4
        };
        let info = AlignmentInfo { alignment, is_natural, penalty_cycles };
        proof {
            lemma_put(s.cache, key, info);
        }
        self.alignment_cache.push((key, info));
        assert(self.alignment_cache@ =~= put(s.cache, key, info));
        self.stats.alignment_optimizations = self.stats.alignment_optimizations.wrapping_add(1);
        self.stats.cycles_saved = self.stats.cycles_saved.wrapping_add(penalty_cycles as u64);
        info
    }

    /// The merge at the start of `ops` (see `merge_at`).
    fn try_merge_memory_accesses(ops: &[IROp]) -> (r: MergeResult)
        ensures
            match (r, merge_at(ops@)) {
                (MergeResult::NoMerge, MergeOutcome::NoMerge) => true,
                (MergeResult::Overflow, MergeOutcome::Overflow) => true,
                (MergeResult::Merged(v), MergeOutcome::Merged(m)) => v@ == m,
                _ => false,
            },
    {
        if ops.len() < 2 {
            return MergeResult::NoMerge;
        }
        match (ops[0], ops[1]) {
            (
                IROp::Load { dst: dst1, base: base1, offset: offset1, size: size1, .. },
                IROp::Load { dst: dst2, base: base2, offset: offset2, size: size2, .. },
            ) => {
                if base1 == base2 && size1 == size2 {
                    match Self::offsets_adjacent(offset1, offset2, size1) {
                        None => MergeResult::Overflow,
                        Some(true) => {
                            if size1 == 4 {
                                let v = vec![
                                    IROp::Load { dst: dst1, base: base1, offset: offset1, size: 8, flags: MemFlags { volatile: false, atomic: false } },
                                    IROp::Mov { dst: dst1, src: dst1 },
                                    IROp::AddImm { dst: dst2, src: dst1, imm: 4 },
                                ];
                                assert(v@ =~= widened_load(dst1, dst2, base1, offset1));
                                MergeResult::Merged(v)
                            } else {
                                MergeResult::NoMerge
                            }
                        },
                        Some(false) => MergeResult::NoMerge,
                    }
                } else {
                    MergeResult::NoMerge
                }
            },
            (
                IROp::Store { src: src1, base: base1, offset: offset1, size: size1, .. },
                IROp::Store { src: src2, base: base2, offset: offset2, size: size2, .. },
            ) => {
                if base1 == base2 && size1 == size2 {
                    match Self::offsets_adjacent(offset1, offset2, size1) {
                        None => MergeResult::Overflow,
                        Some(true) => {
                            if size1 == 4 {
                                let v = vec![
                                    IROp::Add { dst: src1, src1, src2 },
                                    IROp::Store { src: src1, base: base1, offset: offset1, size: 8, flags: MemFlags { volatile: false, atomic: false } },
                                ];
                                assert(v@ =~= widened_store(src1, src2, base1, offset1));
                                MergeResult::Merged(v)
                            } else {
                                MergeResult::NoMerge
                            }
                        },
                        Some(false) => MergeResult::NoMerge,
                    }
                } else {
                    MergeResult::NoMerge
                }
            },
            _ => MergeResult::NoMerge,
        }
    }

    /// `|o2 - o1| == size`, or `None` when that overflows `i64`.
    fn offsets_adjacent(o1: i64, o2: i64, size: u8) -> (r: Option<bool>)
        ensures
            r == adjacent(o1, o2, size),
    {
        let d = (o2 as i128) - (o1 as i128);
        if d <= i64::MIN as i128 || d > i64::MAX as i128 {
            None
        } else {
            Some(d == size as i128 || -d == size as i128)
        }
    }

    /// Merges adjacent accesses where possible (see `merge_walk`). Inputs on
    /// which a difference of offsets overflows are excluded.
    pub fn optimize_memory_sequence(&mut self, ops: &[IROp]) -> (v: Vec<IROp>)
        requires
            merge_walk(ops@, 0) is Some,
        ensures
            final(self)@ == old(self)@,
            v@ == merge_walk(ops@, 0)->Some_0,
    {
        let mut out: Vec<IROp> = Vec::new();
        let mut i: usize = 0;
        while i < ops.len()
            invariant
                i <= ops@.len() || merge_walk(ops@, i as nat) == Some(Seq::<IROp>::empty()),
                merge_walk(ops@, i as nat) is Some,
                merge_walk(ops@, 0)->Some_0 == out@ + merge_walk(ops@, i as nat)->Some_0,
            decreases ops.len() - i,
        {
            let rest = vstd::slice::slice_subrange(ops, i, ops.len());
            assert(rest@ == ops@.subrange(i as int, ops@.len() as int));
            let ghost i0 = i as nat;
            match Self::try_merge_memory_accesses(rest) {
                MergeResult::Merged(merged) => {
                    let ghost before = out@;
                    let ghost m = merged@;
                    let mut merged = merged;
                    out.append(&mut merged);
                    if 2 >= ops.len() - i {
                        i = ops.len();
                    } else {
                        i = i + 2;
                    }
                    assert(out@ =~= before + m);
                    proof {
                        assert(merge_walk(ops@, i0) == Some(m + merge_walk(ops@, i as nat)->Some_0));
                        let w = merge_walk(ops@, i as nat);
                        assert(before + (m + w->Some_0) =~= (before + m) + w->Some_0);
                    }
                },
                MergeResult::NoMerge => {
                    let ghost before = out@;
                    out.push(ops[i]);
                    proof {
                        assert(merge_walk(ops@, i0) == Some(seq![ops@[i as int]] + merge_walk(ops@, (i + 1) as nat)->Some_0));
                        let w = merge_walk(ops@, (i + 1) as nat);
                        assert(before + (seq![ops@[i as int]] + w->Some_0) =~= before.push(ops@[i as int]) + w->Some_0);
                    }
                    i = i + 1;
                },
                MergeResult::Overflow => {
                    assert(false);
                    return out;
                },
            }
        }
        assert(out@ + Seq::<IROp>::empty() =~= out@);
        out
    }

    /// Converts `data` to the target byte order (see `convert_spec`).
    pub fn handle_endianness_conversion(&mut self, data: &[u8]) -> (v: Vec<u8>)
        ensures
            (final(self)@, v@) == convert_spec(old(self)@, data@),
            final(self).wf() == old(self).wf(),
    {
        if self.source_endianness == self.target_endianness {
            return copy_bytes(data);
        }
        match self.conversion_strategy {
            EndiannessConversionStrategy::NoConversion => copy_bytes(data),
            EndiannessConversionStrategy::Software => self.software_endianness_swap(data),
            EndiannessConversionStrategy::Hardware => {
                self.stats.endianness_conversions = self.stats.endianness_conversions.wrapping_add(1);
                copy_bytes(data)
            },
            EndiannessConversionStrategy::Hybrid => {
                if data.len() <= 16 {
                    self.software_endianness_swap(data)
                } else {
                    self.stats.endianness_conversions = self.stats.endianness_conversions.wrapping_add(1);
                    copy_bytes(data)
                }
            },
        }
    }

    fn software_endianness_swap(&mut self, data: &[u8]) -> (v: Vec<u8>)
        ensures
            v@ == swapped(data@),
            final(self)@ == (MemOptView {
                buffer: buffer_after(old(self)@.buffer, data@),
                stats: MemoryOptimizationStats {
                    endianness_conversions: inc_usize(old(self)@.stats.endianness_conversions),
                    buffer_reuses: inc_usize(old(self)@.stats.buffer_reuses),
                    ..old(self)@.stats
                },
                ..old(self)@
            }),
    {
        let ghost b0 = self.conversion_buffer@;
        while self.conversion_buffer.len() < data.len()
            invariant
                self.conversion_buffer@.len() <= data@.len() || self.conversion_buffer@ == b0,
                self.conversion_buffer@.len() >= b0.len(),
                forall|j: int| 0 <= j < b0.len() ==> self.conversion_buffer@[j] == b0[j],
                self.source_endianness == old(self).source_endianness,
                self.target_endianness == old(self).target_endianness,
                self.conversion_strategy == old(self).conversion_strategy,
                self.alignment_cache == old(self).alignment_cache,
                self.stats == old(self).stats,
                b0 == old(self)@.buffer,
            decreases data.len() - self.conversion_buffer.len(),
        {
            self.conversion_buffer.push(0);
        }
        let n = data.len();
        let ghost b1 = self.conversion_buffer@;
        let mut i: usize = 0;
        while i < n
            invariant
                n == data@.len(),
                self.conversion_buffer@.len() == b1.len(),
                b1.len() >= n,
                i <= n,
                forall|j: int| 0 <= j < i ==> self.conversion_buffer@[j] == swapped(data@)[j],
                forall|j: int| n <= j < b1.len() ==> self.conversion_buffer@[j] == b1[j],
                self.source_endianness == old(self).source_endianness,
                self.target_endianness == old(self).target_endianness,
                self.conversion_strategy == old(self).conversion_strategy,
                self.alignment_cache == old(self).alignment_cache,
                self.stats == old(self).stats,
            decreases n - i,
        {
            let byte = if n == 2 || n == 4 || n == 8 {
                data[n - 1 - i]
            } else if i % 2 == 0 {
                if i + 1 < n {
                    data[i + 1]
                } else {
                    data[i]
                }
            } else {
                data[i - 1]
            };
            self.conversion_buffer.set(i, byte);
            i += 1;
        }
        self.stats.endianness_conversions = self.stats.endianness_conversions.wrapping_add(1);
        self.stats.buffer_reuses = self.stats.buffer_reuses.wrapping_add(1);
        let mut out: Vec<u8> = Vec::new();
        let mut k: usize = 0;
        while k < n
            invariant
                n == data@.len(),
                k <= n,
                n <= self.conversion_buffer@.len(),
                out@ == self.conversion_buffer@.subrange(0, k as int),
            decreases n - k,
        {
            out.push(self.conversion_buffer[k]);
            assert(out@ =~= self.conversion_buffer@.subrange(0, k + 1));
            k += 1;
        }
        assert(out@ =~= swapped(data@));
        assert(self.conversion_buffer@ =~= buffer_after(b0, data@));
        out
    }

    /// The access pattern of `ops` (see `pattern_spec`). Inputs on which a
    /// difference of offsets overflows are excluded.
    pub fn analyze_memory_pattern(&self, ops: &[IROp]) -> (p: MemoryAccessPattern)
        requires
            pattern_spec(ops@) is Some,
        ensures
            p == pattern_spec(ops@)->Some_0,
    {
        if ops.len() < 3 {
            return MemoryAccessPattern::Random;
        }
        let mut accesses: Vec<i64> = Vec::new();
        let mut sizes: Vec<u8> = Vec::new();
        let mut i: usize = 0;
        while i < ops.len()
            invariant
                i <= ops@.len(),
                accesses@ == access_offsets(ops@.subrange(0, i as int)),
                sizes@ == access_sizes(ops@.subrange(0, i as int)),
            decreases ops.len() - i,
        {
            assert(ops@.subrange(0, i + 1).drop_last() =~= ops@.subrange(0, i as int));
            match ops[i] {
                IROp::Load { offset, size, .. } => {
                    accesses.push(offset);
                    sizes.push(size);
                },
                IROp::Store { offset, size, .. } => {
                    accesses.push(offset);
                    sizes.push(size);
                },
                _ => {},
            }
            i += 1;
        }
        assert(ops@.subrange(0, ops@.len() as int) =~= ops@);
        proof {
            lemma_access_lens(ops@);
        }
        if accesses.len() < 3 {
            return MemoryAccessPattern::Random;
        }
        let ghost acc = accesses@;
        assert(acc == access_offsets(ops@));
        let stride: i64 = accesses[1] - accesses[0];
        let mut is_sequential = true;
        let mut k: usize = 2;
        while is_sequential && k < accesses.len()
            invariant
                acc == accesses@,
                acc.len() >= 3,
                2 <= k <= acc.len(),
                is_sequential ==> strides_equal(acc, 2, stride as int) == strides_equal(acc, k as nat, stride as int),
                !is_sequential ==> strides_equal(acc, 2, stride as int) == Some(false),
                strides_equal(acc, 2, stride as int) is Some,
            decreases (accesses.len() - k) as int + if is_sequential { 1int } else { 0int },
        {
            let d = accesses[k] - accesses[k - 1];
            if d != stride {
                is_sequential = false;
            } else {
                k += 1;
            }
        }
        if is_sequential {
            if stride == 1 || stride == sizes[0] as i64 {
                MemoryAccessPattern::Sequential
            } else {
                MemoryAccessPattern::Strided { stride: unsigned_abs(stride) as usize }
            }
        } else {
            MemoryAccessPattern::Random
        }
    }

    /// Every pattern's optimization keeps the operations as they are.
    pub fn optimize_for_pattern(&mut self, ops: &[IROp]) -> (v: Vec<IROp>)
        requires
            pattern_spec(ops@) is Some,
        ensures
            final(self)@ == old(self)@,
            v@ == ops@,
    {
        let pattern = self.analyze_memory_pattern(ops);
        match pattern {
            MemoryAccessPattern::Sequential => Self::add_prefetch_hints(ops),
            MemoryAccessPattern::Strided { stride } => Self::optimize_strided_access(ops, stride),
            _ => copy_ops(ops),
        }
    }

    fn add_prefetch_hints(ops: &[IROp]) -> (v: Vec<IROp>)
        ensures
            v@ == ops@,
    {
        copy_ops(ops)
    }

    fn optimize_strided_access(ops: &[IROp], stride: usize) -> (v: Vec<IROp>)
        ensures
            v@ == ops@,
    {
        if stride == 4 && ops.len() >= 4 {
            copy_ops(ops)
        } else {
            copy_ops(ops)
        }
    }

    pub fn get_stats(&self) -> (s: &MemoryOptimizationStats)
        ensures
            *s == self@.stats,
    {
        &self.stats
    }

    pub fn reset_stats(&mut self)
        ensures
            final(self)@ == (MemOptView {
                stats: MemoryOptimizationStats {
                    alignment_optimizations: 0,
                    endianness_conversions: 0,
                    cycles_saved: 0,
                    buffer_reuses: 0,
                },
                ..old(self)@
            }),
    {
        self.stats = MemoryOptimizationStats::default();
    }
}

/// The executable outcome of a merge attempt.
pub enum MergeResult {
    NoMerge,
    Merged(Vec<IROp>),
    Overflow,
}

fn copy_bytes(data: &[u8]) -> (v: Vec<u8>)
    ensures
        v@ == data@,
{
    let mut v: Vec<u8> = Vec::new();
    let mut i: usize = 0;
    while i < data.len()
        invariant
            i <= data@.len(),
            v@ == data@.subrange(0, i as int),
        decreases data.len() - i,
    {
        v.push(data[i]);
        assert(v@ =~= data@.subrange(0, i + 1));
        i += 1;
    }
    assert(data@.subrange(0, data@.len() as int) =~= data@);
    v
}

fn copy_ops(ops: &[IROp]) -> (v: Vec<IROp>)
    ensures
        v@ == ops@,
{
    crate::adaptive_optimizer::copy_ops(ops)
}

/// Extends IR operations with prefetch hints.
pub trait IROpExt: Sized {
    /// A prefetch of `addr` with hint `hint`.
    fn prefetch(addr: GuestAddr, hint: u8) -> Self;
}

/// The operation that encodes a prefetch: an immediate add into register
/// zero whose immediate has the hint in its top byte and the address below.
pub open spec fn prefetch_op(addr: GuestAddr, hint: u8) -> IROp {
    IROp::AddImm { dst: 0, src: 0, imm: (((hint as u64) << 56u64) | addr) as i64 }
}

impl IROpExt for IROp {
    fn prefetch(addr: GuestAddr, hint: u8) -> (op: Self) {
        IROp::AddImm { dst: 0, src: 0, imm: (((hint as u64) << 56) | addr) as i64 }
    }
}

/// Converting twice in software gives the data back.
pub proof fn lemma_swap_involution(data: Seq<u8>)
    ensures
        swapped(swapped(data)) == data,
{
    let s = swapped(data);
    if data.len() == 2 || data.len() == 4 || data.len() == 8 {
        assert(s.reverse() =~= data);
    } else {
        assert forall|j: int| 0 <= j < data.len() implies #[trigger] swapped(s)[j] == data[j] by {
            if j % 2 == 0 {
                if j + 1 < data.len() {
                    assert(s[j + 1] == data[j]);
                }
            } else {
                assert(s[j - 1] == data[j]);
            }
        }
        assert(swapped(s) =~= data);
    }
}

/// A software conversion keeps the length of the data.
pub proof fn lemma_swap_length(data: Seq<u8>)
    ensures
        swapped(data).len() == data.len(),
{
}

/// The computed alignment divides the access size (for a non-zero size).
pub proof fn lemma_alignment_divides_size(offset: i64, size: u8)
    requires
        size > 0,
        offset_abs(offset) <= usize::MAX,
    ensures
        access_alignment(offset, size) > 0,
        (size as int) % (access_alignment(offset, size) as int) == 0,
{
    if offset != 0 {
        let a = offset_abs(offset);
        assert((a as usize) as nat == a as nat);
        lemma_gcd_divides(a as nat, size as nat);
        let g = gcd_spec(a as nat, size as nat);
        assert(g > 0);
        assert(g <= size) by {
            if g > size {
                vstd::arithmetic::div_mod::lemma_small_mod(size as nat, g);
            }
        }
        assert((g as usize) as nat == g);
    } else {
        vstd::arithmetic::div_mod::lemma_mod_self_0(size as int);
    }
}

} // verus!
