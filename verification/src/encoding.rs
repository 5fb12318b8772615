//! What an encoder produces: target instructions, the errors it reports, and
//! the byte-level helpers shared by the per-architecture encoders.

use vstd::prelude::*;
use crate::encoder::ir_op_text;
use crate::ir::IROp;


verus! {

/// Instruction set architectures that the encoders target.
#[derive(Debug, Clone, Copy, PartialEq, Eq, Structural, Hash)]
pub enum Architecture {
    X86_64,
    ARM64,
    RISCV64,
}

/// One encoded target instruction.
#[derive(Debug, Clone)]
pub struct TargetInstruction {
    /// The machine-code bytes.
    pub bytes: Vec<u8>,
    /// The instruction length that the encoder reports.
    pub length: usize,
    /// Assembly text.
    pub mnemonic: String,
    pub is_control_flow: bool,
    pub is_memory_op: bool,
}

/// The mathematical content of a `TargetInstruction`.
pub struct InsnView {
    pub bytes: Seq<u8>,
    pub length: usize,
    pub mnemonic: Seq<char>,
    pub is_control_flow: bool,
    pub is_memory_op: bool,
}

impl View for TargetInstruction {
    type V = InsnView;

    open spec fn view(&self) -> InsnView {
        InsnView {
            bytes: self.bytes@,
            length: self.length,
            mnemonic: self.mnemonic@,
            is_control_flow: self.is_control_flow,
            is_memory_op: self.is_memory_op,
        }
    }
}

/// Errors of translation and encoding.
#[derive(Debug, Clone)]
pub enum TranslationError {
    /// The operation (or one of its parameters) has no encoding.
    UnsupportedOperation { op: String },
    /// An immediate does not fit the instruction's immediate field.
    ImmediateTooLarge { imm: i64 },
    /// A memory offset does not fit the addressing mode.
    InvalidOffset { offset: i64 },
    /// The source/target architecture pair is not supported.
    UnsupportedArchitecturePair,
    /// Any other failure, described in words.
    StringError(String),
}

/// How an encoding fails, as a contract states it.
pub enum EncodeFailure {
    /// `UnsupportedOperation` with exactly this text.
    Unsupported(Seq<char>),
    /// `UnsupportedOperation` whose text is the `Debug` rendering of this
    /// IR operation (see `ir_op_text`).
    UnsupportedOp(IROp),
    ImmediateTooLarge(i64),
    InvalidOffset(i64),
}

pub open spec fn failure_matches(e: TranslationError, f: EncodeFailure) -> bool {
    match f {
        EncodeFailure::Unsupported(t) => e matches TranslationError::UnsupportedOperation { op } && op@ == t,
        EncodeFailure::UnsupportedOp(o) => e matches TranslationError::UnsupportedOperation { op } && op@ == ir_op_text(o),
        EncodeFailure::ImmediateTooLarge(i) => e matches TranslationError::ImmediateTooLarge { imm } && imm == i,
        EncodeFailure::InvalidOffset(o) => e matches TranslationError::InvalidOffset { offset } && offset == o,
    }
}

/// The expected outcome of encoding one operation.
pub type EncodeOutcome = Result<Seq<InsnView>, EncodeFailure>;

pub open spec fn insns_view(v: Seq<TargetInstruction>) -> Seq<InsnView> {
    v.map_values(|i: TargetInstruction| i@)
}

/// `r` is the result that `o` describes.
pub open spec fn outcome_matches(r: Result<Vec<TargetInstruction>, TranslationError>, o: EncodeOutcome) -> bool {
    match (r, o) {
        (Ok(v), Ok(s)) => insns_view(v@) == s,
        (Err(e), Err(f)) => failure_matches(e, f),
        _ => false,
    }
}

/// `r` is the single-instruction result that `o` describes.
pub open spec fn single_matches(r: Result<TargetInstruction, TranslationError>, o: Result<InsnView, EncodeFailure>) -> bool {
    match (r, o) {
        (Ok(i), Ok(s)) => i@ == s,
        (Err(e), Err(f)) => failure_matches(e, f),
        _ => false,
    }
}

pub open spec fn lift_single(o: Result<InsnView, EncodeFailure>) -> EncodeOutcome {
    match o {
        Ok(i) => Ok(seq![i]),
        Err(f) => Err(f),
    }
}

/// Outcome of running two encodings one after the other and concatenating
/// their instructions; the first failure wins.
pub open spec fn then_outcome(a: EncodeOutcome, b: EncodeOutcome) -> EncodeOutcome {
    match a {
        Err(f) => Err(f),
        Ok(s) => match b {
            Err(f) => Err(f),
            Ok(t) => Ok(s + t),
        },
    }
}

/// Four lane encodings concatenated in order; the first failure wins.
pub open spec fn four_lanes(a: EncodeOutcome, b: EncodeOutcome, c: EncodeOutcome, d: EncodeOutcome) -> EncodeOutcome {
    then_outcome(then_outcome(then_outcome(a, b), c), d)
}

/// Little-endian bytes of a 32-bit word.
pub open spec fn le32(w: u32) -> Seq<u8> {
    seq![w as u8, (w >> 8u32) as u8, (w >> 16u32) as u8, (w >> 24u32) as u8]
}

/// The 32-bit word whose little-endian bytes are the first four of `b`:
/// what a processor fetches from them.
pub open spec fn fetched_word(b: Seq<u8>) -> u32 {
    (b[0] as u32) | ((b[1] as u32) << 8u32) | ((b[2] as u32) << 16u32) | ((b[3] as u32) << 24u32)
}

/// Fetching the little-endian bytes of a word gives the word.
pub proof fn lemma_fetched_le32(w: u32)
    ensures
        le32(w).len() == 4,
        fetched_word(le32(w)) == w,
{
    let b = le32(w);
    let (b0, b1, b2, b3) = (b[0], b[1], b[2], b[3]);
    assert(((b0 as u32) | ((b1 as u32) << 8u32) | ((b2 as u32) << 16u32) | ((b3 as u32) << 24u32)) == w) by (bit_vector)
        requires
            b0 == w as u8,
            b1 == (w >> 8u32) as u8,
            b2 == (w >> 16u32) as u8,
            b3 == (w >> 24u32) as u8,
    ;
}

/// Little-endian bytes of a 64-bit word.
pub open spec fn le64(w: u64) -> Seq<u8> {
    seq![
        w as u8,
        (w >> 8u64) as u8,
        (w >> 16u64) as u8,
        (w >> 24u64) as u8,
        (w >> 32u64) as u8,
        (w >> 40u64) as u8,
        (w >> 48u64) as u8,
        (w >> 56u64) as u8,
    ]
}

/// The 64-bit value whose little-endian bytes are the first eight of `b`.
pub open spec fn fetched_u64(b: Seq<u8>) -> u64 {
    (b[0] as u64) | ((b[1] as u64) << 8u64) | ((b[2] as u64) << 16u64) | ((b[3] as u64) << 24u64)
        | ((b[4] as u64) << 32u64) | ((b[5] as u64) << 40u64) | ((b[6] as u64) << 48u64) | ((b[7] as u64) << 56u64)
}

/// Reading back the little-endian bytes of a 64-bit value gives the value.
pub proof fn lemma_fetched_le64(w: u64)
    ensures
        le64(w).len() == 8,
        fetched_u64(le64(w)) == w,
{
    let b = le64(w);
    let (b0, b1, b2, b3, b4, b5, b6, b7) = (b[0], b[1], b[2], b[3], b[4], b[5], b[6], b[7]);
    assert(((b0 as u64) | ((b1 as u64) << 8u64) | ((b2 as u64) << 16u64) | ((b3 as u64) << 24u64)
        | ((b4 as u64) << 32u64) | ((b5 as u64) << 40u64) | ((b6 as u64) << 48u64) | ((b7 as u64) << 56u64)) == w)
        by (bit_vector)
        requires
            b0 == w as u8,
            b1 == (w >> 8u64) as u8,
            b2 == (w >> 16u64) as u8,
            b3 == (w >> 24u64) as u8,
            b4 == (w >> 32u64) as u8,
            b5 == (w >> 40u64) as u8,
            b6 == (w >> 48u64) as u8,
            b7 == (w >> 56u64) as u8,
    ;
}

pub fn le32_bytes(w: u32) -> (v: Vec<u8>)
    ensures
        v@ == le32(w),
{
    let v = vec![w as u8, (w >> 8u32) as u8, (w >> 16u32) as u8, (w >> 24u32) as u8];
    assert(v@ =~= le32(w));
    v
}

pub fn push_le32(v: &mut Vec<u8>, w: u32)
    ensures
        final(v)@ == old(v)@ + le32(w),
{
    v.push(w as u8);
    v.push((w >> 8u32) as u8);
    v.push((w >> 16u32) as u8);
    v.push((w >> 24u32) as u8);
    assert(v@ =~= old(v)@ + le32(w));
}

pub fn push_le64(v: &mut Vec<u8>, w: u64)
    ensures
        final(v)@ == old(v)@ + le64(w),
{
    v.push(w as u8);
    v.push((w >> 8u64) as u8);
    v.push((w >> 16u64) as u8);
    v.push((w >> 24u64) as u8);
    v.push((w >> 32u64) as u8);
    v.push((w >> 40u64) as u8);
    v.push((w >> 48u64) as u8);
    v.push((w >> 56u64) as u8);
    assert(v@ =~= old(v)@ + le64(w));
}

/// A fixed-width (4-byte, little-endian) instruction word.
pub open spec fn word_view(word: u32, mnemonic: Seq<char>, is_memory_op: bool) -> InsnView {
    InsnView {
        bytes: le32(word),
        length: 4,
        mnemonic,
        is_control_flow: false,
        is_memory_op,
    }
}

pub fn word_insn(word: u32, mnemonic: String, is_memory_op: bool) -> (r: TargetInstruction)
    ensures
        r@ == word_view(word, mnemonic@, is_memory_op),
{
    TargetInstruction {
        bytes: le32_bytes(word),
        length: 4,
        mnemonic,
        is_control_flow: false,
        is_memory_op,
    }
}

/// An equal copy of an instruction.
pub fn copy_insn(i: &TargetInstruction) -> (c: TargetInstruction)
    ensures
        c@ == i@,
{
    let bytes = i.bytes.clone();
    assert(bytes@ =~= i.bytes@);
    TargetInstruction {
        bytes,
        length: i.length,
        mnemonic: i.mnemonic.clone(),
        is_control_flow: i.is_control_flow,
        is_memory_op: i.is_memory_op,
    }
}

/// An equal copy of a sequence of instructions.
pub fn copy_insns(v: &Vec<TargetInstruction>) -> (c: Vec<TargetInstruction>)
    ensures
        insns_view(c@) == insns_view(v@),
{
    let mut c: Vec<TargetInstruction> = Vec::new();
    let mut i: usize = 0;
    while i < v.len()
        invariant
            i <= v@.len(),
            insns_view(c@) == insns_view(v@.subrange(0, i as int)),
        decreases v.len() - i,
    {
        let ghost before = insns_view(c@);
        c.push(copy_insn(&v[i]));
        assert(insns_view(c@) =~= before.push(v@[i as int]@));
        assert(v@.subrange(0, i + 1) =~= v@.subrange(0, i as int).push(v@[i as int]));
        assert(insns_view(v@.subrange(0, i + 1)) =~= insns_view(v@.subrange(0, i as int)).push(v@[i as int]@));
        i += 1;
    }
    assert(v@.subrange(0, v@.len() as int) =~= v@);
    c
}

/// A one-instruction result.
pub fn single(i: TargetInstruction) -> (v: Vec<TargetInstruction>)
    ensures
        insns_view(v@) == seq![i@],
{
    let ghost iv = i@;
    let mut v = Vec::new();
    v.push(i);
    assert(insns_view(v@) =~= seq![iv]);
    v
}

/// Moves the instructions of `w` to the end of `v`.
pub fn append_insns(v: &mut Vec<TargetInstruction>, w: Vec<TargetInstruction>)
    ensures
        insns_view(final(v)@) == insns_view(old(v)@) + insns_view(w@),
{
    let mut w = w;
    let ghost wv = w@;
    v.append(&mut w);
    assert(insns_view(v@) =~= insns_view(old(v)@) + insns_view(wv));
}

/// Encodes with `r` already computed as the first part; appends `s` after it.
pub(crate) fn then_result(
    r: Result<Vec<TargetInstruction>, TranslationError>,
    s: Result<Vec<TargetInstruction>, TranslationError>,
    Ghost(a): Ghost<EncodeOutcome>,
    Ghost(b): Ghost<EncodeOutcome>,
) -> (t: Result<Vec<TargetInstruction>, TranslationError>)
    requires
        outcome_matches(r, a),
        a is Ok ==> outcome_matches(s, b),
    ensures
        outcome_matches(t, then_outcome(a, b)),
{
    match r {
        Err(e) => Err(e),
        Ok(mut v) => match s {
            Err(e) => Err(e),
            Ok(w) => {
                append_insns(&mut v, w);
                Ok(v)
            },
        },
    }
}

} // verus!
