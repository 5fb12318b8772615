//! x86-64 encoder: IR operations to x86-64 machine code.

use vstd::prelude::*;
use crate::encoding::{
    append_insns, fetched_u64, fetched_word, four_lanes, insns_view, lemma_fetched_le32, lemma_fetched_le64, lift_single, outcome_matches, push_le32,
    push_le64, single, then_outcome,
    then_result, Architecture, EncodeFailure, EncodeOutcome, InsnView, TargetInstruction,
    TranslationError, le32, le64,
};
use crate::encoder::{ir_op_debug, ArchEncoder};
use crate::ir::{atomic_op_name, atomic_op_text, AtomicOp, GuestAddr, IROp, RegId};
use crate::text::{dec, dec_int, push_i64, push_text, push_u64, text, text_num};

verus! {

/// Encoder for x86-64 targets.
pub struct X86_64Encoder;

/// What `X86_64Encoder::encode_op` produces for `op`.
pub open spec fn x86_encode_spec(op: IROp) -> EncodeOutcome {
    match op {
        IROp::Add { dst, src1, src2 } => Ok(seq![encode_x86_add_spec(dst, src1, src2)]),
        IROp::Sub { dst, src1, src2 } => Ok(seq![encode_x86_sub_spec(dst, src1, src2)]),
        IROp::AddImm { dst, src, imm } => Ok(seq![encode_x86_add_imm_spec(dst, src, imm)]),
        IROp::MovImm { dst, imm } => Ok(seq![encode_x86_mov_imm_spec(dst, imm)]),
        IROp::Load { dst, base, offset, size, .. } => Ok(seq![encode_x86_load_spec(dst, base, offset, size)]),
        IROp::Store { src, base, offset, size, .. } => Ok(seq![encode_x86_store_spec(src, base, offset, size)]),
        IROp::VecAdd { dst, src1, src2, element_size } => encode_x86_simd_add_spec(dst, src1, src2, element_size),
        IROp::VecSub { dst, src1, src2, element_size } => encode_x86_simd_sub_spec(dst, src1, src2, element_size),
        IROp::VecMul { dst, src1, src2, element_size } => encode_x86_simd_mul_spec(dst, src1, src2, element_size),
        IROp::VecAddSat { dst, src1, src2, element_size, signed } => encode_x86_simd_addsat_spec(dst, src1, src2, element_size, signed),
        IROp::VecSubSat { dst, src1, src2, element_size, signed } => encode_x86_simd_subsat_spec(dst, src1, src2, element_size, signed),
        IROp::VecMulSat { dst, src1, src2, element_size, signed } => encode_x86_simd_mulsat_spec(dst, src1, src2, element_size, signed),
        IROp::Vec128Add { dst_lo, dst_hi, src1_lo, src1_hi, src2_lo, src2_hi, element_size, signed } => encode_x86_vec128_add_spec(dst_lo, dst_hi, src1_lo, src1_hi, src2_lo, src2_hi, element_size, signed),
        IROp::Vec256Add { dst0, dst1, dst2, dst3, src10, src11, src12, src13, src20, src21, src22, src23, element_size, signed } => encode_x86_vec256_add_spec(dst0, dst1, dst2, dst3, src10, src11, src12, src13, src20, src21, src22, src23, element_size, signed),
        IROp::Vec256Sub { dst0, dst1, dst2, dst3, src10, src11, src12, src13, src20, src21, src22, src23, element_size, signed } => encode_x86_vec256_sub_spec(dst0, dst1, dst2, dst3, src10, src11, src12, src13, src20, src21, src22, src23, element_size, signed),
        IROp::Vec256Mul { dst0, dst1, dst2, dst3, src10, src11, src12, src13, src20, src21, src22, src23, element_size, signed } => encode_x86_vec256_mul_spec(dst0, dst1, dst2, dst3, src10, src11, src12, src13, src20, src21, src22, src23, element_size, signed),
        IROp::Fadd { dst, src1, src2 } => Ok(seq![encode_x86_fadd_spec(dst, src1, src2)]),
        IROp::Fsub { dst, src1, src2 } => Ok(seq![encode_x86_fsub_spec(dst, src1, src2)]),
        IROp::Fmul { dst, src1, src2 } => Ok(seq![encode_x86_fmul_spec(dst, src1, src2)]),
        IROp::Fdiv { dst, src1, src2 } => Ok(seq![encode_x86_fdiv_spec(dst, src1, src2)]),
        IROp::FaddS { dst, src1, src2 } => Ok(seq![encode_x86_fadds_spec(dst, src1, src2)]),
        IROp::FsubS { dst, src1, src2 } => Ok(seq![encode_x86_fsubs_spec(dst, src1, src2)]),
        IROp::FmulS { dst, src1, src2 } => Ok(seq![encode_x86_fmuls_spec(dst, src1, src2)]),
        IROp::FdivS { dst, src1, src2 } => Ok(seq![encode_x86_fdivs_spec(dst, src1, src2)]),
        IROp::Fsqrt { dst, src } => Ok(seq![encode_x86_fsqrt_spec(dst, src)]),
        IROp::FsqrtS { dst, src } => Ok(seq![encode_x86_fsqrts_spec(dst, src)]),
        IROp::Fmadd { dst, src1, src2, src3 } => Ok(seq![encode_x86_fmadd_spec(dst, src1, src2, src3)]),
        IROp::Fmsub { dst, src1, src2, src3 } => Ok(seq![encode_x86_fmsub_spec(dst, src1, src2, src3)]),
        IROp::Fnmadd { dst, src1, src2, src3 } => Ok(seq![encode_x86_fnmadd_spec(dst, src1, src2, src3)]),
        IROp::Fnmsub { dst, src1, src2, src3 } => Ok(seq![encode_x86_fnmsub_spec(dst, src1, src2, src3)]),
        IROp::FmaddS { dst, src1, src2, src3 } => Ok(seq![encode_x86_fmadds_spec(dst, src1, src2, src3)]),
        IROp::FmsubS { dst, src1, src2, src3 } => Ok(seq![encode_x86_fmsubs_spec(dst, src1, src2, src3)]),
        IROp::FnmaddS { dst, src1, src2, src3 } => Ok(seq![encode_x86_fnmadds_spec(dst, src1, src2, src3)]),
        IROp::FnmsubS { dst, src1, src2, src3 } => Ok(seq![encode_x86_fnmsubs_spec(dst, src1, src2, src3)]),
        IROp::Feq { dst, src1, src2 } => Ok(seq![encode_x86_feq_spec(dst, src1, src2)]),
        IROp::Flt { dst, src1, src2 } => Ok(seq![encode_x86_flt_spec(dst, src1, src2)]),
        IROp::Fle { dst, src1, src2 } => Ok(seq![encode_x86_fle_spec(dst, src1, src2)]),
        IROp::FeqS { dst, src1, src2 } => Ok(seq![encode_x86_feqs_spec(dst, src1, src2)]),
        IROp::FltS { dst, src1, src2 } => Ok(seq![encode_x86_flts_spec(dst, src1, src2)]),
        IROp::FleS { dst, src1, src2 } => Ok(seq![encode_x86_fles_spec(dst, src1, src2)]),
        IROp::Fmin { dst, src1, src2 } => Ok(seq![encode_x86_fmin_spec(dst, src1, src2)]),
        IROp::Fmax { dst, src1, src2 } => Ok(seq![encode_x86_fmax_spec(dst, src1, src2)]),
        IROp::FminS { dst, src1, src2 } => Ok(seq![encode_x86_fmins_spec(dst, src1, src2)]),
        IROp::FmaxS { dst, src1, src2 } => Ok(seq![encode_x86_fmaxs_spec(dst, src1, src2)]),
        IROp::Fabs { dst, src } => Ok(seq![encode_x86_fabs_spec(dst, src)]),
        IROp::Fneg { dst, src } => Ok(seq![encode_x86_fneg_spec(dst, src)]),
        IROp::FabsS { dst, src } => Ok(seq![encode_x86_fabss_spec(dst, src)]),
        IROp::FnegS { dst, src } => Ok(seq![encode_x86_fnegs_spec(dst, src)]),
        IROp::Fcvtws { dst, src } => Ok(seq![encode_x86_cvttsd2si_spec(dst, src)]),
        IROp::Fcvtsw { dst, src } => Ok(seq![encode_x86_cvtsi2ss_spec(dst, src)]),
        IROp::Fcvtld { dst, src } => Ok(seq![encode_x86_cvttsd2si64_spec(dst, src)]),
        IROp::Fcvtdl { dst, src } => Ok(seq![encode_x86_cvtsi2sd64_spec(dst, src)]),
        IROp::Fcvtsd { dst, src } => Ok(seq![encode_x86_cvtsd2ss_spec(dst, src)]),
        IROp::Fcvtds { dst, src } => Ok(seq![encode_x86_cvtss2sd_spec(dst, src)]),
        IROp::Fload { dst, base, offset, size, .. } => Ok(seq![encode_x86_fload_spec(dst, base, offset, size)]),
        IROp::Fstore { src, base, offset, size, .. } => Ok(seq![encode_x86_fstore_spec(src, base, offset, size)]),
        IROp::Fsgnj { dst, src1, src2 } => Ok(seq![encode_x86_fsgnj_spec(dst, src1, src2)]),
        IROp::Fsgnjn { dst, src1, src2 } => Ok(seq![encode_x86_fsgnjn_spec(dst, src1, src2)]),
        IROp::Fsgnjx { dst, src1, src2 } => Ok(seq![encode_x86_fsgnjx_spec(dst, src1, src2)]),
        IROp::FsgnjS { dst, src1, src2 } => Ok(seq![encode_x86_fsgnjs_spec(dst, src1, src2)]),
        IROp::FsgnjnS { dst, src1, src2 } => Ok(seq![encode_x86_fsgnjns_spec(dst, src1, src2)]),
        IROp::FsgnjxS { dst, src1, src2 } => Ok(seq![encode_x86_fsgnjxs_spec(dst, src1, src2)]),
        IROp::Fclass { dst, src } => Ok(seq![encode_x86_fclass_spec(dst, src)]),
        IROp::FclassS { dst, src } => Ok(seq![encode_x86_fclasss_spec(dst, src)]),
        IROp::FmvXW { dst, src } => Ok(seq![encode_x86_fmvxw_spec(dst, src)]),
        IROp::FmvWX { dst, src } => Ok(seq![encode_x86_fmvwx_spec(dst, src)]),
        IROp::FmvXD { dst, src } => Ok(seq![encode_x86_fmvxd_spec(dst, src)]),
        IROp::FmvDX { dst, src } => Ok(seq![encode_x86_fmvdx_spec(dst, src)]),
        IROp::Fcvtwus { dst, src } => Ok(seq![encode_x86_cvttss2si_u_spec(dst, src)]),
        IROp::Fcvtlus { dst, src } => Ok(seq![encode_x86_cvttss2si64_u_spec(dst, src)]),
        IROp::Fcvtswu { dst, src } => Ok(seq![encode_x86_cvtsi2ss_u_spec(dst, src)]),
        IROp::Fcvtslu { dst, src } => Ok(seq![encode_x86_cvtsi2ss64_u_spec(dst, src)]),
        IROp::Fcvtwd { dst, src } => Ok(seq![encode_x86_cvttsd2si_spec(dst, src)]),
        IROp::Fcvtwud { dst, src } => Ok(seq![encode_x86_cvttsd2si_u_spec(dst, src)]),
        IROp::Fcvtlud { dst, src } => Ok(seq![encode_x86_cvttsd2si64_u_spec(dst, src)]),
        IROp::Fcvtdw { dst, src } => Ok(seq![encode_x86_cvtsi2sd_spec(dst, src)]),
        IROp::Fcvtdwu { dst, src } => Ok(seq![encode_x86_cvtsi2sd_u_spec(dst, src)]),
        IROp::Fcvtdlu { dst, src } => Ok(seq![encode_x86_cvtsi2sd64_u_spec(dst, src)]),
        IROp::AtomicRMW { dst, base, src, op, size } => encode_x86_atomic_rmw_spec(dst, base, src, op, size),
        IROp::AtomicCmpXchg { dst, base, expected, new, size } => encode_x86_atomic_compare_exchange_spec(dst, base, expected, new, size),
        _ => Err(EncodeFailure::UnsupportedOp(op)),
    }
}

impl ArchEncoder for X86_64Encoder {
    open spec fn encodable(&self, op: IROp) -> bool {
        true
    }

    fn architecture(&self) -> (a: Architecture)
        ensures
            a == Architecture::X86_64,
    {
        Architecture::X86_64
    }

    /// Encodes one IR operation; operations without an x86-64 encoding here
    /// fail with `UnsupportedOperation` carrying the operation's `Debug` text.
    #[verifier::rlimit(60)]
    fn encode_op(&self, op: &IROp, pc: GuestAddr) -> (r: Result<Vec<TargetInstruction>, TranslationError>)
        ensures
            outcome_matches(r, x86_encode_spec(*op)),
    {
        match *op {
            IROp::Add { dst, src1, src2 } => Ok(single(encode_x86_add(dst, src1, src2))),
            IROp::Sub { dst, src1, src2 } => Ok(single(encode_x86_sub(dst, src1, src2))),
            IROp::AddImm { dst, src, imm } => Ok(single(encode_x86_add_imm(dst, src, imm))),
            IROp::MovImm { dst, imm } => Ok(single(encode_x86_mov_imm(dst, imm))),
            IROp::Load { dst, base, offset, size, .. } => Ok(single(encode_x86_load(dst, base, offset, size))),
            IROp::Store { src, base, offset, size, .. } => Ok(single(encode_x86_store(src, base, offset, size))),
            IROp::VecAdd { dst, src1, src2, element_size } => encode_x86_simd_add(dst, src1, src2, element_size),
            IROp::VecSub { dst, src1, src2, element_size } => encode_x86_simd_sub(dst, src1, src2, element_size),
            IROp::VecMul { dst, src1, src2, element_size } => encode_x86_simd_mul(dst, src1, src2, element_size),
            IROp::VecAddSat { dst, src1, src2, element_size, signed } => encode_x86_simd_addsat(dst, src1, src2, element_size, signed),
            IROp::VecSubSat { dst, src1, src2, element_size, signed } => encode_x86_simd_subsat(dst, src1, src2, element_size, signed),
            IROp::VecMulSat { dst, src1, src2, element_size, signed } => encode_x86_simd_mulsat(dst, src1, src2, element_size, signed),
            IROp::Vec128Add { dst_lo, dst_hi, src1_lo, src1_hi, src2_lo, src2_hi, element_size, signed } => encode_x86_vec128_add(dst_lo, dst_hi, src1_lo, src1_hi, src2_lo, src2_hi, element_size, signed),
            IROp::Vec256Add { dst0, dst1, dst2, dst3, src10, src11, src12, src13, src20, src21, src22, src23, element_size, signed } => encode_x86_vec256_add(dst0, dst1, dst2, dst3, src10, src11, src12, src13, src20, src21, src22, src23, element_size, signed),
            IROp::Vec256Sub { dst0, dst1, dst2, dst3, src10, src11, src12, src13, src20, src21, src22, src23, element_size, signed } => encode_x86_vec256_sub(dst0, dst1, dst2, dst3, src10, src11, src12, src13, src20, src21, src22, src23, element_size, signed),
            IROp::Vec256Mul { dst0, dst1, dst2, dst3, src10, src11, src12, src13, src20, src21, src22, src23, element_size, signed } => encode_x86_vec256_mul(dst0, dst1, dst2, dst3, src10, src11, src12, src13, src20, src21, src22, src23, element_size, signed),
            IROp::Fadd { dst, src1, src2 } => Ok(single(encode_x86_fadd(dst, src1, src2))),
            IROp::Fsub { dst, src1, src2 } => Ok(single(encode_x86_fsub(dst, src1, src2))),
            IROp::Fmul { dst, src1, src2 } => Ok(single(encode_x86_fmul(dst, src1, src2))),
            IROp::Fdiv { dst, src1, src2 } => Ok(single(encode_x86_fdiv(dst, src1, src2))),
            IROp::FaddS { dst, src1, src2 } => Ok(single(encode_x86_fadds(dst, src1, src2))),
            IROp::FsubS { dst, src1, src2 } => Ok(single(encode_x86_fsubs(dst, src1, src2))),
            IROp::FmulS { dst, src1, src2 } => Ok(single(encode_x86_fmuls(dst, src1, src2))),
            IROp::FdivS { dst, src1, src2 } => Ok(single(encode_x86_fdivs(dst, src1, src2))),
            IROp::Fsqrt { dst, src } => Ok(single(encode_x86_fsqrt(dst, src))),
            IROp::FsqrtS { dst, src } => Ok(single(encode_x86_fsqrts(dst, src))),
            IROp::Fmadd { dst, src1, src2, src3 } => Ok(single(encode_x86_fmadd(dst, src1, src2, src3))),
            IROp::Fmsub { dst, src1, src2, src3 } => Ok(single(encode_x86_fmsub(dst, src1, src2, src3))),
            IROp::Fnmadd { dst, src1, src2, src3 } => Ok(single(encode_x86_fnmadd(dst, src1, src2, src3))),
            IROp::Fnmsub { dst, src1, src2, src3 } => Ok(single(encode_x86_fnmsub(dst, src1, src2, src3))),
            IROp::FmaddS { dst, src1, src2, src3 } => Ok(single(encode_x86_fmadds(dst, src1, src2, src3))),
            IROp::FmsubS { dst, src1, src2, src3 } => Ok(single(encode_x86_fmsubs(dst, src1, src2, src3))),
            IROp::FnmaddS { dst, src1, src2, src3 } => Ok(single(encode_x86_fnmadds(dst, src1, src2, src3))),
            IROp::FnmsubS { dst, src1, src2, src3 } => Ok(single(encode_x86_fnmsubs(dst, src1, src2, src3))),
            IROp::Feq { dst, src1, src2 } => Ok(single(encode_x86_feq(dst, src1, src2))),
            IROp::Flt { dst, src1, src2 } => Ok(single(encode_x86_flt(dst, src1, src2))),
            IROp::Fle { dst, src1, src2 } => Ok(single(encode_x86_fle(dst, src1, src2))),
            IROp::FeqS { dst, src1, src2 } => Ok(single(encode_x86_feqs(dst, src1, src2))),
            IROp::FltS { dst, src1, src2 } => Ok(single(encode_x86_flts(dst, src1, src2))),
            IROp::FleS { dst, src1, src2 } => Ok(single(encode_x86_fles(dst, src1, src2))),
            IROp::Fmin { dst, src1, src2 } => Ok(single(encode_x86_fmin(dst, src1, src2))),
            IROp::Fmax { dst, src1, src2 } => Ok(single(encode_x86_fmax(dst, src1, src2))),
            IROp::FminS { dst, src1, src2 } => Ok(single(encode_x86_fmins(dst, src1, src2))),
            IROp::FmaxS { dst, src1, src2 } => Ok(single(encode_x86_fmaxs(dst, src1, src2))),
            IROp::Fabs { dst, src } => Ok(single(encode_x86_fabs(dst, src))),
            IROp::Fneg { dst, src } => Ok(single(encode_x86_fneg(dst, src))),
            IROp::FabsS { dst, src } => Ok(single(encode_x86_fabss(dst, src))),
            IROp::FnegS { dst, src } => Ok(single(encode_x86_fnegs(dst, src))),
            IROp::Fcvtws { dst, src } => Ok(single(encode_x86_cvttsd2si(dst, src))),
            IROp::Fcvtsw { dst, src } => Ok(single(encode_x86_cvtsi2ss(dst, src))),
            IROp::Fcvtld { dst, src } => Ok(single(encode_x86_cvttsd2si64(dst, src))),
            IROp::Fcvtdl { dst, src } => Ok(single(encode_x86_cvtsi2sd64(dst, src))),
            IROp::Fcvtsd { dst, src } => Ok(single(encode_x86_cvtsd2ss(dst, src))),
            IROp::Fcvtds { dst, src } => Ok(single(encode_x86_cvtss2sd(dst, src))),
            IROp::Fload { dst, base, offset, size, .. } => Ok(single(encode_x86_fload(dst, base, offset, size))),
            IROp::Fstore { src, base, offset, size, .. } => Ok(single(encode_x86_fstore(src, base, offset, size))),
            IROp::Fsgnj { dst, src1, src2 } => Ok(single(encode_x86_fsgnj(dst, src1, src2))),
            IROp::Fsgnjn { dst, src1, src2 } => Ok(single(encode_x86_fsgnjn(dst, src1, src2))),
            IROp::Fsgnjx { dst, src1, src2 } => Ok(single(encode_x86_fsgnjx(dst, src1, src2))),
            IROp::FsgnjS { dst, src1, src2 } => Ok(single(encode_x86_fsgnjs(dst, src1, src2))),
            IROp::FsgnjnS { dst, src1, src2 } => Ok(single(encode_x86_fsgnjns(dst, src1, src2))),
            IROp::FsgnjxS { dst, src1, src2 } => Ok(single(encode_x86_fsgnjxs(dst, src1, src2))),
            IROp::Fclass { dst, src } => Ok(single(encode_x86_fclass(dst, src))),
            IROp::FclassS { dst, src } => Ok(single(encode_x86_fclasss(dst, src))),
            IROp::FmvXW { dst, src } => Ok(single(encode_x86_fmvxw(dst, src))),
            IROp::FmvWX { dst, src } => Ok(single(encode_x86_fmvwx(dst, src))),
            IROp::FmvXD { dst, src } => Ok(single(encode_x86_fmvxd(dst, src))),
            IROp::FmvDX { dst, src } => Ok(single(encode_x86_fmvdx(dst, src))),
            IROp::Fcvtwus { dst, src } => Ok(single(encode_x86_cvttss2si_u(dst, src))),
            IROp::Fcvtlus { dst, src } => Ok(single(encode_x86_cvttss2si64_u(dst, src))),
            IROp::Fcvtswu { dst, src } => Ok(single(encode_x86_cvtsi2ss_u(dst, src))),
            IROp::Fcvtslu { dst, src } => Ok(single(encode_x86_cvtsi2ss64_u(dst, src))),
            IROp::Fcvtwd { dst, src } => Ok(single(encode_x86_cvttsd2si(dst, src))),
            IROp::Fcvtwud { dst, src } => Ok(single(encode_x86_cvttsd2si_u(dst, src))),
            IROp::Fcvtlud { dst, src } => Ok(single(encode_x86_cvttsd2si64_u(dst, src))),
            IROp::Fcvtdw { dst, src } => Ok(single(encode_x86_cvtsi2sd(dst, src))),
            IROp::Fcvtdwu { dst, src } => Ok(single(encode_x86_cvtsi2sd_u(dst, src))),
            IROp::Fcvtdlu { dst, src } => Ok(single(encode_x86_cvtsi2sd64_u(dst, src))),
            IROp::AtomicRMW { dst, base, src, op, size } => encode_x86_atomic_rmw(dst, base, src, op, size),
            IROp::AtomicCmpXchg { dst, base, expected, new, size } => encode_x86_atomic_compare_exchange(dst, base, expected, new, size),
            _ => Err(TranslationError::UnsupportedOperation { op: ir_op_debug(op) }),
        }
    }
}

// ----- integer and memory operations -----

/// `ADD r/m64, r64` (REX.W 01 /r).
pub open spec fn encode_x86_add_spec(dst: RegId, src1: RegId, src2: RegId) -> InsnView {
    x86_alu_spec(0x01, "add"@, dst, src2)
}

/// `SUB r/m64, r64` (REX.W 29 /r).
pub open spec fn encode_x86_sub_spec(dst: RegId, src1: RegId, src2: RegId) -> InsnView {
    x86_alu_spec(0x29, "sub"@, dst, src2)
}

/// A REX.W register-register ALU instruction `opcode /r` in its
/// `op r/m64, r64` form: `dst` in the r/m field and `src` in the reg field.
pub open spec fn x86_alu_spec(opcode: u8, name: Seq<char>, dst: RegId, src: RegId) -> InsnView {
    InsnView {
        bytes: seq![0x48u8, opcode, (0xC0 | ((src & 7) << 3) | (dst & 7)) as u8],
        length: 3,
        mnemonic: name + " r"@ + dec(dst as nat) + ", r"@ + dec(src as nat),
        is_control_flow: false,
        is_memory_op: false,
    }
}

fn x86_alu(opcode: u8, name: &str, dst: RegId, src: RegId) -> (r: TargetInstruction)
    ensures
        r@ == x86_alu_spec(opcode, name@, dst, src),
{
    let mut m = text(name);
    push_text(&mut m, " r");
    push_u64(&mut m, dst as u64);
    push_text(&mut m, ", r");
    push_u64(&mut m, src as u64);
    let bytes: Vec<u8> = vec![0x48, opcode, (0xC0 | ((src & 7) << 3) | (dst & 7)) as u8];
    TargetInstruction { bytes, length: 3, mnemonic: m, is_control_flow: false, is_memory_op: false }
}

fn encode_x86_add(dst: RegId, src1: RegId, src2: RegId) -> (r: TargetInstruction)
    ensures
        r@ == encode_x86_add_spec(dst, src1, src2),
{
    x86_alu(0x01, "add", dst, src2)
}

fn encode_x86_sub(dst: RegId, src1: RegId, src2: RegId) -> (r: TargetInstruction)
    ensures
        r@ == encode_x86_sub_spec(dst, src1, src2),
{
    x86_alu(0x29, "sub", dst, src2)
}

/// `ADD r/m64, imm32` (REX.W 81 /0 id); the immediate is truncated to 32 bits.
pub open spec fn encode_x86_add_imm_spec(dst: RegId, src: RegId, imm: i64) -> InsnView {
    InsnView {
        bytes: seq![0x48u8, 0x81u8, (0xC0 | (dst & 7)) as u8] + le32(imm as i32 as u32),
        length: 7,
        mnemonic: "add r"@ + dec(dst as nat) + ", "@ + dec_int(imm as int),
        is_control_flow: false,
        is_memory_op: false,
    }
}

fn encode_x86_add_imm(dst: RegId, src: RegId, imm: i64) -> (r: TargetInstruction)
    ensures
        r@ == encode_x86_add_imm_spec(dst, src, imm),
{
    let mut bytes: Vec<u8> = vec![0x48, 0x81, (0xC0 | (dst & 7)) as u8];
    push_le32(&mut bytes, imm as i32 as u32);
    let mut m = text("add r");
    push_u64(&mut m, dst as u64);
    push_text(&mut m, ", ");
    push_i64(&mut m, imm);
    TargetInstruction { bytes, length: 7, mnemonic: m, is_control_flow: false, is_memory_op: false }
}

/// `MOV r64, imm64` (REX.W(+B) B8+r io).
pub open spec fn encode_x86_mov_imm_spec(dst: RegId, imm: u64) -> InsnView {
    InsnView {
        bytes: seq![0x48u8 | ((dst & 8) >> 3) as u8, 0xB8u8 | (dst & 7) as u8] + le64(imm),
        length: 10,
        mnemonic: "mov r"@ + dec(dst as nat) + ", "@ + dec(imm as nat),
        is_control_flow: false,
        is_memory_op: false,
    }
}

fn encode_x86_mov_imm(dst: RegId, imm: u64) -> (r: TargetInstruction)
    ensures
        r@ == encode_x86_mov_imm_spec(dst, imm),
{
    let mut bytes: Vec<u8> = vec![0x48u8 | ((dst & 8) >> 3) as u8, 0xB8u8 | (dst & 7) as u8];
    push_le64(&mut bytes, imm);
    let mut m = text("mov r");
    push_u64(&mut m, dst as u64);
    push_text(&mut m, ", ");
    push_u64(&mut m, imm);
    TargetInstruction { bytes, length: 10, mnemonic: m, is_control_flow: false, is_memory_op: false }
}

/// The ModR/M byte (and displacement) of a `[base + offset]` operand with
/// `reg` in the reg field: mod 00 without displacement when the offset is
/// zero, else mod 01 followed by the offset as a 32-bit little-endian value.
pub open spec fn x86_mem_operand(reg: RegId, reg_mask: u32, base: RegId, offset: i64) -> Seq<u8> {
    if offset == 0 {
        seq![(0x00 | ((reg & reg_mask) << 3) | (base & 7)) as u8]
    } else {
        seq![(0x40 | ((reg & reg_mask) << 3) | (base & 7)) as u8] + le32(offset as i32 as u32)
    }
}

fn push_x86_mem_operand(bytes: &mut Vec<u8>, reg: RegId, reg_mask: u32, base: RegId, offset: i64)
    ensures
        final(bytes)@ == old(bytes)@ + x86_mem_operand(reg, reg_mask, base, offset),
{
    if offset == 0 {
        bytes.push((0x00 | ((reg & reg_mask) << 3) | (base & 7)) as u8);
        assert(bytes@ =~= old(bytes)@ + x86_mem_operand(reg, reg_mask, base, offset));
    } else {
        bytes.push((0x40 | ((reg & reg_mask) << 3) | (base & 7)) as u8);
        push_le32(bytes, offset as i32 as u32);
        assert(bytes@ =~= old(bytes)@ + x86_mem_operand(reg, reg_mask, base, offset));
    }
}

/// `MOV r64, [base + offset]` (REX.W(+R) 8B /r).
pub open spec fn encode_x86_load_spec(dst: RegId, base: RegId, offset: i64, size: u8) -> InsnView {
    let bytes = seq![0x48u8 | ((dst & 8) >> 3) as u8, 0x8Bu8] + x86_mem_operand(dst, 7, base, offset);
    InsnView {
        bytes,
        length: bytes.len() as usize,
        mnemonic: "mov r"@ + dec(dst as nat) + ", [r"@ + dec(base as nat) + " + "@ + dec_int(offset as int) + "]"@,
        is_control_flow: false,
        is_memory_op: true,
    }
}

fn encode_x86_load(dst: RegId, base: RegId, offset: i64, size: u8) -> (r: TargetInstruction)
    ensures
        r@ == encode_x86_load_spec(dst, base, offset, size),
{
    let mut bytes: Vec<u8> = vec![0x48u8 | ((dst & 8) >> 3) as u8, 0x8B];
    push_x86_mem_operand(&mut bytes, dst, 7, base, offset);
    let mut m = text("mov r");
    push_u64(&mut m, dst as u64);
    push_text(&mut m, ", [r");
    push_u64(&mut m, base as u64);
    push_text(&mut m, " + ");
    push_i64(&mut m, offset);
    push_text(&mut m, "]");
    let len = bytes.len();
    TargetInstruction { bytes, length: len, mnemonic: m, is_control_flow: false, is_memory_op: true }
}

/// `MOV [base + offset], r64` (REX.W(+R) 89 /r).
pub open spec fn encode_x86_store_spec(src: RegId, base: RegId, offset: i64, size: u8) -> InsnView {
    let bytes = seq![0x48u8 | ((src & 8) >> 3) as u8, 0x89u8] + x86_mem_operand(src, 7, base, offset);
    InsnView {
        bytes,
        length: bytes.len() as usize,
        mnemonic: "mov [r"@ + dec(base as nat) + " + "@ + dec_int(offset as int) + "], r"@ + dec(src as nat),
        is_control_flow: false,
        is_memory_op: true,
    }
}

fn encode_x86_store(src: RegId, base: RegId, offset: i64, size: u8) -> (r: TargetInstruction)
    ensures
        r@ == encode_x86_store_spec(src, base, offset, size),
{
    let mut bytes: Vec<u8> = vec![0x48u8 | ((src & 8) >> 3) as u8, 0x89];
    push_x86_mem_operand(&mut bytes, src, 7, base, offset);
    let mut m = text("mov [r");
    push_u64(&mut m, base as u64);
    push_text(&mut m, " + ");
    push_i64(&mut m, offset);
    push_text(&mut m, "], r");
    push_u64(&mut m, src as u64);
    let len = bytes.len();
    TargetInstruction { bytes, length: len, mnemonic: m, is_control_flow: false, is_memory_op: true }
}

// ----- packed integer (SSE2) operations -----

/// A `66 0F <opcode...> /r` register-register instruction with `dst` in the
/// reg field and `src` in the r/m field.
pub open spec fn x86_sse_int_spec(opcode: Seq<u8>, mnemonic: Seq<char>, dst: RegId, src: RegId) -> InsnView {
    let bytes = seq![0x66u8, 0x0Fu8] + opcode + seq![(0xC0 | ((dst & 0xF) << 3) | (src & 0xF)) as u8];
    InsnView { bytes, length: bytes.len() as usize, mnemonic, is_control_flow: false, is_memory_op: false }
}

fn x86_sse_int(opcode: Vec<u8>, mnemonic: String, dst: RegId, src: RegId) -> (r: Vec<TargetInstruction>)
    requires
        opcode@.len() <= 2,
    ensures
        insns_view(r@) == seq![x86_sse_int_spec(opcode@, mnemonic@, dst, src)],
{
    let mut bytes: Vec<u8> = vec![0x66, 0x0F];
    let mut opcode = opcode;
    let ghost op_bytes = opcode@;
    bytes.append(&mut opcode);
    bytes.push((0xC0 | ((dst & 0xF) << 3) | (src & 0xF)) as u8);
    assert(bytes@ =~= seq![0x66u8, 0x0Fu8] + op_bytes + seq![(0xC0 | ((dst & 0xF) << 3) | (src & 0xF)) as u8]);
    let len = bytes.len();
    single(TargetInstruction { bytes, length: len, mnemonic, is_control_flow: false, is_memory_op: false })
}

/// Mnemonic `<name><element_size> xmmD, xmmS`.
pub open spec fn x86_sized_mnemonic(name: Seq<char>, element_size: u8, dst: RegId, src: RegId) -> Seq<char> {
    name + dec(element_size as nat) + " xmm"@ + dec(dst as nat) + ", xmm"@ + dec(src as nat)
}

fn x86_sized_mnemonic_text(name: &str, element_size: u8, dst: RegId, src: RegId) -> (s: String)
    ensures
        s@ == x86_sized_mnemonic(name@, element_size, dst, src),
{
    let mut m = text(name);
    push_u64(&mut m, element_size as u64);
    push_text(&mut m, " xmm");
    push_u64(&mut m, dst as u64);
    push_text(&mut m, ", xmm");
    push_u64(&mut m, src as u64);
    m
}

/// `PADDB/PADDW/PADDD/PADDQ` by element size.
pub open spec fn encode_x86_simd_add_spec(dst: RegId, src1: RegId, src2: RegId, element_size: u8) -> EncodeOutcome {
    let opcode: u8 = if element_size == 1 { 0xFC } else if element_size == 2 { 0xFD }
        else if element_size == 4 { 0xFE } else { 0xD4 };
    if element_size == 1 || element_size == 2 || element_size == 4 || element_size == 8 {
        Ok(seq![x86_sse_int_spec(seq![opcode], x86_sized_mnemonic("padd"@, element_size, dst, src2), dst, src2)])
    } else {
        Err(EncodeFailure::Unsupported("SIMD add with element_size "@ + dec(element_size as nat)))
    }
}

fn encode_x86_simd_add(dst: RegId, src1: RegId, src2: RegId, element_size: u8) -> (r: Result<Vec<TargetInstruction>, TranslationError>)
    ensures
        outcome_matches(r, encode_x86_simd_add_spec(dst, src1, src2, element_size)),
{
    let opcode: u8 = match element_size {
        1 => 0xFC,
        2 => 0xFD,
        4 => 0xFE,
        8 => 0xD4,
        _ => {
            return Err(TranslationError::UnsupportedOperation {
                op: text_num("SIMD add with element_size ", element_size as u64),
            });
        },
    };
    let m = x86_sized_mnemonic_text("padd", element_size, dst, src2);
    let opcode_bytes: Vec<u8> = vec![opcode];
    assert(opcode_bytes@ =~= seq![opcode]);
    Ok(x86_sse_int(opcode_bytes, m, dst, src2))
}

/// `PSUBB/PSUBW/PSUBD/PSUBQ` by element size.
pub open spec fn encode_x86_simd_sub_spec(dst: RegId, src1: RegId, src2: RegId, element_size: u8) -> EncodeOutcome {
    let opcode: u8 = if element_size == 1 { 0xF8 } else if element_size == 2 { 0xF9 }
        else if element_size == 4 { 0xFA } else { 0xFB };
    if element_size == 1 || element_size == 2 || element_size == 4 || element_size == 8 {
        Ok(seq![x86_sse_int_spec(seq![opcode], x86_sized_mnemonic("psub"@, element_size, dst, src2), dst, src2)])
    } else {
        Err(EncodeFailure::Unsupported("SIMD sub with element_size "@ + dec(element_size as nat)))
    }
}

fn encode_x86_simd_sub(dst: RegId, src1: RegId, src2: RegId, element_size: u8) -> (r: Result<Vec<TargetInstruction>, TranslationError>)
    ensures
        outcome_matches(r, encode_x86_simd_sub_spec(dst, src1, src2, element_size)),
{
    let opcode: u8 = match element_size {
        1 => 0xF8,
        2 => 0xF9,
        4 => 0xFA,
        8 => 0xFB,
        _ => {
            return Err(TranslationError::UnsupportedOperation {
                op: text_num("SIMD sub with element_size ", element_size as u64),
            });
        },
    };
    let m = x86_sized_mnemonic_text("psub", element_size, dst, src2);
    let opcode_bytes: Vec<u8> = vec![opcode];
    assert(opcode_bytes@ =~= seq![opcode]);
    Ok(x86_sse_int(opcode_bytes, m, dst, src2))
}

/// `PMULLW` (2), `PMULLD` (4, 0F 38 40) or `PMULUDQ` (8).
pub open spec fn encode_x86_simd_mul_spec(dst: RegId, src1: RegId, src2: RegId, element_size: u8) -> EncodeOutcome {
    let opcode: Seq<u8> = if element_size == 2 { seq![0xD5u8] } else if element_size == 4 { seq![0x38u8, 0x40u8] }
        else { seq![0xF4u8] };
    if element_size == 2 || element_size == 4 || element_size == 8 {
        Ok(seq![x86_sse_int_spec(opcode, x86_sized_mnemonic("pmul"@, element_size, dst, src2), dst, src2)])
    } else {
        Err(EncodeFailure::Unsupported("SIMD mul with element_size "@ + dec(element_size as nat)))
    }
}

fn encode_x86_simd_mul(dst: RegId, src1: RegId, src2: RegId, element_size: u8) -> (r: Result<Vec<TargetInstruction>, TranslationError>)
    ensures
        outcome_matches(r, encode_x86_simd_mul_spec(dst, src1, src2, element_size)),
{
    let opcode: Vec<u8> = match element_size {
        2 => {
            let v: Vec<u8> = vec![0xD5];
            assert(v@ =~= seq![0xD5u8]);
            v
        },
        4 => {
            let v: Vec<u8> = vec![0x38, 0x40];
            assert(v@ =~= seq![0x38u8, 0x40u8]);
            v
        },
        8 => {
            let v: Vec<u8> = vec![0xF4];
            assert(v@ =~= seq![0xF4u8]);
            v
        },
        _ => {
            return Err(TranslationError::UnsupportedOperation {
                op: text_num("SIMD mul with element_size ", element_size as u64),
            });
        },
    };
    let m = x86_sized_mnemonic_text("pmul", element_size, dst, src2);
    Ok(x86_sse_int(opcode, m, dst, src2))
}

/// Mnemonic `<name>s xmmD, xmmS` (signed) or `<name>us xmmD, xmmS`.
pub open spec fn x86_sat_mnemonic(name: Seq<char>, signed: bool, dst: RegId, src: RegId) -> Seq<char> {
    name + (if signed { "s"@ } else { "us"@ }) + " xmm"@ + dec(dst as nat) + ", xmm"@ + dec(src as nat)
}

fn x86_sat_mnemonic_text(name: &str, signed: bool, dst: RegId, src: RegId) -> (s: String)
    ensures
        s@ == x86_sat_mnemonic(name@, signed, dst, src),
{
    let mut m = text(name);
    if signed {
        push_text(&mut m, "s");
    } else {
        push_text(&mut m, "us");
    }
    push_text(&mut m, " xmm");
    push_u64(&mut m, dst as u64);
    push_text(&mut m, ", xmm");
    push_u64(&mut m, src as u64);
    m
}

/// `PADDSB/PADDSW` (signed) or `PADDUSB/PADDUSW` (unsigned).
pub open spec fn encode_x86_simd_addsat_spec(dst: RegId, src1: RegId, src2: RegId, element_size: u8, signed: bool) -> EncodeOutcome {
    let opcode: u8 = if signed {
        if element_size == 1 { 0xEC } else { 0xED }
    } else {
        if element_size == 1 { 0xDC } else { 0xDD }
    };
    if element_size == 1 || element_size == 2 {
        Ok(seq![x86_sse_int_spec(seq![opcode], x86_sat_mnemonic("padds"@, signed, dst, src2), dst, src2)])
    } else if signed {
        Err(EncodeFailure::Unsupported("SIMD signed add sat with element_size "@ + dec(element_size as nat)))
    } else {
        Err(EncodeFailure::Unsupported("SIMD unsigned add sat with element_size "@ + dec(element_size as nat)))
    }
}

fn encode_x86_simd_addsat(dst: RegId, src1: RegId, src2: RegId, element_size: u8, signed: bool) -> (r: Result<Vec<TargetInstruction>, TranslationError>)
    ensures
        outcome_matches(r, encode_x86_simd_addsat_spec(dst, src1, src2, element_size, signed)),
{
    let opcode: u8 = if signed {
        match element_size {
            1 => 0xEC,
            2 => 0xED,
            _ => {
                return Err(TranslationError::UnsupportedOperation {
                    op: text_num("SIMD signed add sat with element_size ", element_size as u64),
                });
            },
        }
    } else {
        match element_size {
            1 => 0xDC,
            2 => 0xDD,
            _ => {
                return Err(TranslationError::UnsupportedOperation {
                    op: text_num("SIMD unsigned add sat with element_size ", element_size as u64),
                });
            },
        }
    };
    let m = x86_sat_mnemonic_text("padds", signed, dst, src2);
    let opcode_bytes: Vec<u8> = vec![opcode];
    assert(opcode_bytes@ =~= seq![opcode]);
    Ok(x86_sse_int(opcode_bytes, m, dst, src2))
}

/// `PSUBSB/PSUBSW` (signed) or `PSUBUSB/PSUBUSW` (unsigned).
pub open spec fn encode_x86_simd_subsat_spec(dst: RegId, src1: RegId, src2: RegId, element_size: u8, signed: bool) -> EncodeOutcome {
    let opcode: u8 = if signed {
        if element_size == 1 { 0xE8 } else { 0xE9 }
    } else {
        if element_size == 1 { 0xD8 } else { 0xD9 }
    };
    if element_size == 1 || element_size == 2 {
        Ok(seq![x86_sse_int_spec(seq![opcode], x86_sat_mnemonic("psubs"@, signed, dst, src2), dst, src2)])
    } else if signed {
        Err(EncodeFailure::Unsupported("SIMD signed sub sat with element_size "@ + dec(element_size as nat)))
    } else {
        Err(EncodeFailure::Unsupported("SIMD unsigned sub sat with element_size "@ + dec(element_size as nat)))
    }
}

fn encode_x86_simd_subsat(dst: RegId, src1: RegId, src2: RegId, element_size: u8, signed: bool) -> (r: Result<Vec<TargetInstruction>, TranslationError>)
    ensures
        outcome_matches(r, encode_x86_simd_subsat_spec(dst, src1, src2, element_size, signed)),
{
    let opcode: u8 = if signed {
        match element_size {
            1 => 0xE8,
            2 => 0xE9,
            _ => {
                return Err(TranslationError::UnsupportedOperation {
                    op: text_num("SIMD signed sub sat with element_size ", element_size as u64),
                });
            },
        }
    } else {
        match element_size {
            1 => 0xD8,
            2 => 0xD9,
            _ => {
                return Err(TranslationError::UnsupportedOperation {
                    op: text_num("SIMD unsigned sub sat with element_size ", element_size as u64),
                });
            },
        }
    };
    let m = x86_sat_mnemonic_text("psubs", signed, dst, src2);
    let opcode_bytes: Vec<u8> = vec![opcode];
    assert(opcode_bytes@ =~= seq![opcode]);
    Ok(x86_sse_int(opcode_bytes, m, dst, src2))
}

/// Saturating multiply has no SSE2 form; it is encoded as the plain
/// multiply of the same element size.
pub open spec fn encode_x86_simd_mulsat_spec(dst: RegId, src1: RegId, src2: RegId, element_size: u8, signed: bool) -> EncodeOutcome {
    encode_x86_simd_mul_spec(dst, src1, src2, element_size)
}

fn encode_x86_simd_mulsat(dst: RegId, src1: RegId, src2: RegId, element_size: u8, signed: bool) -> (r: Result<Vec<TargetInstruction>, TranslationError>)
    ensures
        outcome_matches(r, encode_x86_simd_mulsat_spec(dst, src1, src2, element_size, signed)),
{
    let mut instructions: Vec<TargetInstruction> = Vec::new();
    match encode_x86_simd_mul(dst, src1, src2, element_size) {
        Ok(v) => {
            append_insns(&mut instructions, v);
            assert(insns_view(instructions@) =~= insns_view(v@));
            Ok(instructions)
        },
        Err(e) => Err(e),
    }
}

/// One lane of a wide vector addition: saturating when `signed`.
pub open spec fn x86_lane_add_spec(dst: RegId, src1: RegId, src2: RegId, element_size: u8, signed: bool) -> EncodeOutcome {
    if signed {
        encode_x86_simd_addsat_spec(dst, src1, src2, element_size, signed)
    } else {
        encode_x86_simd_add_spec(dst, src1, src2, element_size)
    }
}

fn x86_lane_add(dst: RegId, src1: RegId, src2: RegId, element_size: u8, signed: bool) -> (r: Result<Vec<TargetInstruction>, TranslationError>)
    ensures
        outcome_matches(r, x86_lane_add_spec(dst, src1, src2, element_size, signed)),
{
    if signed {
        encode_x86_simd_addsat(dst, src1, src2, element_size, signed)
    } else {
        encode_x86_simd_add(dst, src1, src2, element_size)
    }
}

/// A 128-bit add as two 64-bit lane adds (low half first).
pub open spec fn encode_x86_vec128_add_spec(
    dst_lo: RegId, dst_hi: RegId, src1_lo: RegId, src1_hi: RegId, src2_lo: RegId, src2_hi: RegId,
    element_size: u8, signed: bool,
) -> EncodeOutcome {
    then_outcome(
        x86_lane_add_spec(dst_lo, src1_lo, src2_lo, element_size, signed),
        x86_lane_add_spec(dst_hi, src1_hi, src2_hi, element_size, signed),
    )
}

fn encode_x86_vec128_add(
    dst_lo: RegId, dst_hi: RegId, src1_lo: RegId, src1_hi: RegId, src2_lo: RegId, src2_hi: RegId,
    element_size: u8, signed: bool,
) -> (r: Result<Vec<TargetInstruction>, TranslationError>)
    ensures
        outcome_matches(r, encode_x86_vec128_add_spec(dst_lo, dst_hi, src1_lo, src1_hi, src2_lo, src2_hi, element_size, signed)),
{
    let lo = x86_lane_add(dst_lo, src1_lo, src2_lo, element_size, signed);
    let hi = x86_lane_add(dst_hi, src1_hi, src2_hi, element_size, signed);
    then_result(lo, hi, Ghost(x86_lane_add_spec(dst_lo, src1_lo, src2_lo, element_size, signed)),
        Ghost(x86_lane_add_spec(dst_hi, src1_hi, src2_hi, element_size, signed)))
}

pub open spec fn encode_x86_vec256_add_spec(
    dst0: RegId, dst1: RegId, dst2: RegId, dst3: RegId,
    src10: RegId, src11: RegId, src12: RegId, src13: RegId,
    src20: RegId, src21: RegId, src22: RegId, src23: RegId,
    element_size: u8, signed: bool,
) -> EncodeOutcome {
    four_lanes(
        x86_lane_add_spec(dst0, src10, src20, element_size, signed),
        x86_lane_add_spec(dst1, src11, src21, element_size, signed),
        x86_lane_add_spec(dst2, src12, src22, element_size, signed),
        x86_lane_add_spec(dst3, src13, src23, element_size, signed),
    )
}

fn encode_x86_vec256_add(
    dst0: RegId, dst1: RegId, dst2: RegId, dst3: RegId,
    src10: RegId, src11: RegId, src12: RegId, src13: RegId,
    src20: RegId, src21: RegId, src22: RegId, src23: RegId,
    element_size: u8, signed: bool,
) -> (r: Result<Vec<TargetInstruction>, TranslationError>)
    ensures
        outcome_matches(r, encode_x86_vec256_add_spec(dst0, dst1, dst2, dst3, src10, src11, src12, src13, src20, src21, src22, src23, element_size, signed)),
{
    let ghost a = x86_lane_add_spec(dst0, src10, src20, element_size, signed);
    let ghost b = x86_lane_add_spec(dst1, src11, src21, element_size, signed);
    let ghost c = x86_lane_add_spec(dst2, src12, src22, element_size, signed);
    let ghost d = x86_lane_add_spec(dst3, src13, src23, element_size, signed);
    let r0 = x86_lane_add(dst0, src10, src20, element_size, signed);
    let r1 = x86_lane_add(dst1, src11, src21, element_size, signed);
    let r01 = then_result(r0, r1, Ghost(a), Ghost(b));
    let r2 = x86_lane_add(dst2, src12, src22, element_size, signed);
    let r012 = then_result(r01, r2, Ghost(then_outcome(a, b)), Ghost(c));
    let r3 = x86_lane_add(dst3, src13, src23, element_size, signed);
    then_result(r012, r3, Ghost(then_outcome(then_outcome(a, b), c)), Ghost(d))
}

pub open spec fn encode_x86_vec256_sub_spec(
    dst0: RegId, dst1: RegId, dst2: RegId, dst3: RegId,
    src10: RegId, src11: RegId, src12: RegId, src13: RegId,
    src20: RegId, src21: RegId, src22: RegId, src23: RegId,
    element_size: u8, signed: bool,
) -> EncodeOutcome {
    four_lanes(
        encode_x86_simd_sub_spec(dst0, src10, src20, element_size),
        encode_x86_simd_sub_spec(dst1, src11, src21, element_size),
        encode_x86_simd_sub_spec(dst2, src12, src22, element_size),
        encode_x86_simd_sub_spec(dst3, src13, src23, element_size),
    )
}

fn encode_x86_vec256_sub(
    dst0: RegId, dst1: RegId, dst2: RegId, dst3: RegId,
    src10: RegId, src11: RegId, src12: RegId, src13: RegId,
    src20: RegId, src21: RegId, src22: RegId, src23: RegId,
    element_size: u8, signed: bool,
) -> (r: Result<Vec<TargetInstruction>, TranslationError>)
    ensures
        outcome_matches(r, encode_x86_vec256_sub_spec(dst0, dst1, dst2, dst3, src10, src11, src12, src13, src20, src21, src22, src23, element_size, signed)),
{
    let ghost a = encode_x86_simd_sub_spec(dst0, src10, src20, element_size);
    let ghost b = encode_x86_simd_sub_spec(dst1, src11, src21, element_size);
    let ghost c = encode_x86_simd_sub_spec(dst2, src12, src22, element_size);
    let ghost d = encode_x86_simd_sub_spec(dst3, src13, src23, element_size);
    let r0 = encode_x86_simd_sub(dst0, src10, src20, element_size);
    let r1 = encode_x86_simd_sub(dst1, src11, src21, element_size);
    let r01 = then_result(r0, r1, Ghost(a), Ghost(b));
    let r2 = encode_x86_simd_sub(dst2, src12, src22, element_size);
    let r012 = then_result(r01, r2, Ghost(then_outcome(a, b)), Ghost(c));
    let r3 = encode_x86_simd_sub(dst3, src13, src23, element_size);
    then_result(r012, r3, Ghost(then_outcome(then_outcome(a, b), c)), Ghost(d))
}

pub open spec fn encode_x86_vec256_mul_spec(
    dst0: RegId, dst1: RegId, dst2: RegId, dst3: RegId,
    src10: RegId, src11: RegId, src12: RegId, src13: RegId,
    src20: RegId, src21: RegId, src22: RegId, src23: RegId,
    element_size: u8, signed: bool,
) -> EncodeOutcome {
    four_lanes(
        encode_x86_simd_mul_spec(dst0, src10, src20, element_size),
        encode_x86_simd_mul_spec(dst1, src11, src21, element_size),
        encode_x86_simd_mul_spec(dst2, src12, src22, element_size),
        encode_x86_simd_mul_spec(dst3, src13, src23, element_size),
    )
}

fn encode_x86_vec256_mul(
    dst0: RegId, dst1: RegId, dst2: RegId, dst3: RegId,
    src10: RegId, src11: RegId, src12: RegId, src13: RegId,
    src20: RegId, src21: RegId, src22: RegId, src23: RegId,
    element_size: u8, signed: bool,
) -> (r: Result<Vec<TargetInstruction>, TranslationError>)
    ensures
        outcome_matches(r, encode_x86_vec256_mul_spec(dst0, dst1, dst2, dst3, src10, src11, src12, src13, src20, src21, src22, src23, element_size, signed)),
{
    let ghost a = encode_x86_simd_mul_spec(dst0, src10, src20, element_size);
    let ghost b = encode_x86_simd_mul_spec(dst1, src11, src21, element_size);
    let ghost c = encode_x86_simd_mul_spec(dst2, src12, src22, element_size);
    let ghost d = encode_x86_simd_mul_spec(dst3, src13, src23, element_size);
    let r0 = encode_x86_simd_mul(dst0, src10, src20, element_size);
    let r1 = encode_x86_simd_mul(dst1, src11, src21, element_size);
    let r01 = then_result(r0, r1, Ghost(a), Ghost(b));
    let r2 = encode_x86_simd_mul(dst2, src12, src22, element_size);
    let r012 = then_result(r01, r2, Ghost(then_outcome(a, b)), Ghost(c));
    let r3 = encode_x86_simd_mul(dst3, src13, src23, element_size);
    then_result(r012, r3, Ghost(then_outcome(then_outcome(a, b), c)), Ghost(d))
}

// ----- scalar floating-point memory operations -----

/// `MOVSD`/`MOVSS xmm, [base + offset]` (F2/F3 0F 10). When the offset is
/// not zero a mod-01 byte and the 32-bit offset follow the ModR/M byte.
pub open spec fn encode_x86_fload_spec(dst: RegId, base: RegId, offset: i64, size: u8) -> InsnView {
    let prefix: u8 = if size == 8 { 0xF2 } else { 0xF3 };
    let bytes = seq![prefix, 0x0Fu8, 0x10u8, (0x00 | ((dst & 0xF) << 3) | (base & 7)) as u8]
        + (if offset != 0 { seq![0x40u8] + le32(offset as i32 as u32) } else { seq![] });
    InsnView {
        bytes,
        length: bytes.len() as usize,
        mnemonic: "movs"@ + (if size == 8 { "d"@ } else { "s"@ }) + " xmm"@ + dec(dst as nat) + ", [r"@
            + dec(base as nat) + " + "@ + dec_int(offset as int) + "]"@,
        is_control_flow: false,
        is_memory_op: true,
    }
}

fn encode_x86_fload(dst: RegId, base: RegId, offset: i64, size: u8) -> (r: TargetInstruction)
    ensures
        r@ == encode_x86_fload_spec(dst, base, offset, size),
{
    let prefix: u8 = if size == 8 { 0xF2 } else { 0xF3 };
    let mut bytes: Vec<u8> = vec![prefix, 0x0F, 0x10, (0x00 | ((dst & 0xF) << 3) | (base & 7)) as u8];
    let ghost head = bytes@;
    if offset != 0 {
        bytes.push(0x40);
        push_le32(&mut bytes, offset as i32 as u32);
    }
    assert(bytes@ =~= head + (if offset != 0 { seq![0x40u8] + le32(offset as i32 as u32) } else { seq![] }));
    let mut m = text("movs");
    if size == 8 {
        push_text(&mut m, "d");
    } else {
        push_text(&mut m, "s");
    }
    push_text(&mut m, " xmm");
    push_u64(&mut m, dst as u64);
    push_text(&mut m, ", [r");
    push_u64(&mut m, base as u64);
    push_text(&mut m, " + ");
    push_i64(&mut m, offset);
    push_text(&mut m, "]");
    let len = bytes.len();
    TargetInstruction { bytes, length: len, mnemonic: m, is_control_flow: false, is_memory_op: true }
}

/// `MOVSD`/`MOVSS [base + offset], xmm` (F2/F3 0F 11).
pub open spec fn encode_x86_fstore_spec(src: RegId, base: RegId, offset: i64, size: u8) -> InsnView {
    let prefix: u8 = if size == 8 { 0xF2 } else { 0xF3 };
    let bytes = seq![prefix, 0x0Fu8, 0x11u8, (0x00 | ((src & 0xF) << 3) | (base & 7)) as u8]
        + (if offset != 0 { seq![0x40u8] + le32(offset as i32 as u32) } else { seq![] });
    InsnView {
        bytes,
        length: bytes.len() as usize,
        mnemonic: "movs"@ + (if size == 8 { "d"@ } else { "s"@ }) + " [r"@ + dec(base as nat) + " + "@
            + dec_int(offset as int) + "], xmm"@ + dec(src as nat),
        is_control_flow: false,
        is_memory_op: true,
    }
}

fn encode_x86_fstore(src: RegId, base: RegId, offset: i64, size: u8) -> (r: TargetInstruction)
    ensures
        r@ == encode_x86_fstore_spec(src, base, offset, size),
{
    let prefix: u8 = if size == 8 { 0xF2 } else { 0xF3 };
    let mut bytes: Vec<u8> = vec![prefix, 0x0F, 0x11, (0x00 | ((src & 0xF) << 3) | (base & 7)) as u8];
    let ghost head = bytes@;
    if offset != 0 {
        bytes.push(0x40);
        push_le32(&mut bytes, offset as i32 as u32);
    }
    assert(bytes@ =~= head + (if offset != 0 { seq![0x40u8] + le32(offset as i32 as u32) } else { seq![] }));
    let mut m = text("movs");
    if size == 8 {
        push_text(&mut m, "d");
    } else {
        push_text(&mut m, "s");
    }
    push_text(&mut m, " [r");
    push_u64(&mut m, base as u64);
    push_text(&mut m, " + ");
    push_i64(&mut m, offset);
    push_text(&mut m, "], xmm");
    push_u64(&mut m, src as u64);
    let len = bytes.len();
    TargetInstruction { bytes, length: len, mnemonic: m, is_control_flow: false, is_memory_op: true }
}

// ----- atomic operations -----

/// The ALU instruction that an atomic read-modify-write applies between its
/// load and its locked store, or `None` for operations without one.
pub open spec fn x86_rmw_alu_spec(dst: RegId, src: RegId, op: AtomicOp) -> Option<InsnView> {
    match op {
        AtomicOp::Add => Some(encode_x86_add_spec(dst, dst, src)),
        AtomicOp::Sub => Some(encode_x86_sub_spec(dst, dst, src)),
        AtomicOp::And => Some(x86_alu_spec(0x21, "and"@, dst, src)),
        AtomicOp::Or => Some(x86_alu_spec(0x09, "or"@, dst, src)),
        AtomicOp::Xor => Some(x86_alu_spec(0x31, "xor"@, dst, src)),
        AtomicOp::Xchg => Some(x86_alu_spec(0x87, "xchg"@, dst, src)),
        _ => None,
    }
}

/// The store of an atomic read-modify-write, with the LOCK prefix (F0) in
/// front of the plain store.
pub open spec fn x86_locked_store_spec(src: RegId, base: RegId, size: u8) -> InsnView {
    let plain = encode_x86_store_spec(src, base, 0, size);
    InsnView {
        bytes: seq![0xF0u8] + plain.bytes,
        length: (plain.length + 1) as usize,
        mnemonic: plain.mnemonic,
        is_control_flow: plain.is_control_flow,
        is_memory_op: plain.is_memory_op,
    }
}

/// Load, ALU operation, LOCK-prefixed store back.
pub open spec fn encode_x86_atomic_rmw_spec(dst: RegId, base: RegId, src: RegId, op: AtomicOp, size: u8) -> EncodeOutcome {
    match x86_rmw_alu_spec(dst, src, op) {
        Some(alu) => Ok(seq![encode_x86_load_spec(dst, base, 0, size), alu, x86_locked_store_spec(dst, base, size)]),
        None => Err(EncodeFailure::Unsupported("Atomic RMW operation "@ + atomic_op_text(op))),
    }
}

fn encode_x86_atomic_rmw(dst: RegId, base: RegId, src: RegId, op: AtomicOp, size: u8) -> (r: Result<Vec<TargetInstruction>, TranslationError>)
    ensures
        outcome_matches(r, encode_x86_atomic_rmw_spec(dst, base, src, op, size)),
{
    let mut instructions: Vec<TargetInstruction> = Vec::new();
    let load = encode_x86_load(dst, base, 0, size);
    let ghost load_v = load@;
    instructions.push(load);
    let alu = match op {
        AtomicOp::Add => encode_x86_add(dst, dst, src),
        AtomicOp::Sub => encode_x86_sub(dst, dst, src),
        AtomicOp::And => x86_alu(0x21, "and", dst, src),
        AtomicOp::Or => x86_alu(0x09, "or", dst, src),
        AtomicOp::Xor => x86_alu(0x31, "xor", dst, src),
        AtomicOp::Xchg => x86_alu(0x87, "xchg", dst, src),
        _ => {
            let mut t = text("Atomic RMW operation ");
            push_text(&mut t, atomic_op_name(op));
            return Err(TranslationError::UnsupportedOperation { op: t });
        },
    };
    let ghost alu_v = alu@;
    instructions.push(alu);
    let mut store = encode_x86_store(dst, base, 0, size);
    assert(store.length == 3);
    store.bytes.insert(0, 0xF0);
    store.length = store.length + 1;
    let ghost store_v = store@;
    assert(store_v.bytes =~= x86_locked_store_spec(dst, base, size).bytes);
    instructions.push(store);
    assert(insns_view(instructions@) =~= seq![load_v, alu_v, store_v]);
    Ok(instructions)
}

/// `MOV RAX, expected` (the register number as an immediate), `LOCK`-less
/// `CMPXCHG [base], new`, then `MOV dst, 0`.
pub open spec fn encode_x86_atomic_compare_exchange_spec(dst: RegId, base: RegId, expected: RegId, new: RegId, size: u8) -> EncodeOutcome {
    Ok(seq![
        encode_x86_mov_imm_spec(0, expected as u64),
        InsnView {
            bytes: seq![0x48u8, 0x0Fu8, 0xB1u8, (0x00 | ((new & 7) << 3) | (base & 7)) as u8],
            length: 4,
            mnemonic: "cmpxchg [r"@ + dec(base as nat) + "], r"@ + dec(new as nat),
            is_control_flow: false,
            is_memory_op: true,
        },
        encode_x86_mov_imm_spec(dst, 0),
    ])
}

fn encode_x86_atomic_compare_exchange(dst: RegId, base: RegId, expected: RegId, new: RegId, size: u8) -> (r: Result<Vec<TargetInstruction>, TranslationError>)
    ensures
        outcome_matches(r, encode_x86_atomic_compare_exchange_spec(dst, base, expected, new, size)),
{
    let mut instructions: Vec<TargetInstruction> = Vec::new();
    let first = encode_x86_mov_imm(0, expected as u64);
    let ghost v0 = first@;
    instructions.push(first);
    let mut m = text("cmpxchg [r");
    push_u64(&mut m, base as u64);
    push_text(&mut m, "], r");
    push_u64(&mut m, new as u64);
    let bytes: Vec<u8> = vec![0x48, 0x0F, 0xB1, (0x00 | ((new & 7) << 3) | (base & 7)) as u8];
    let exchange = TargetInstruction { bytes, length: 4, mnemonic: m, is_control_flow: false, is_memory_op: true };
    let ghost v1 = exchange@;
    instructions.push(exchange);
    let last = encode_x86_mov_imm(dst, 0);
    let ghost v2 = last@;
    instructions.push(last);
    assert(insns_view(instructions@) =~= seq![v0, v1, v2]);
    Ok(instructions)
}

// ----- scalar floating-point and conversion instructions -----

pub open spec fn encode_x86_fadd_spec(dst: RegId, src1: RegId, src2: RegId) -> InsnView {
    InsnView {
        bytes: seq![0xF2u8, 0x0Fu8, 0x58u8, (0xC0 | ((dst & 0xF) << 3) | (src2 & 0xF)) as u8],
        length: 4,
        mnemonic: "addsd xmm"@ + dec(dst as nat) + ", xmm"@ + dec(src2 as nat),
        is_control_flow: false,
        is_memory_op: false,
    }
}

fn encode_x86_fadd(dst: RegId, src1: RegId, src2: RegId) -> (r: TargetInstruction)
    ensures
        r@ == encode_x86_fadd_spec(dst, src1, src2),
{
    let mut m = text("addsd xmm");
    push_u64(&mut m, dst as u64);
    push_text(&mut m, ", xmm");
    push_u64(&mut m, src2 as u64);
    let bytes: Vec<u8> = vec![0xF2, 0x0F, 0x58, (0xC0 | ((dst & 0xF) << 3) | (src2 & 0xF)) as u8];
    TargetInstruction { bytes, length: 4, mnemonic: m, is_control_flow: false, is_memory_op: false }
}

pub open spec fn encode_x86_fsub_spec(dst: RegId, src1: RegId, src2: RegId) -> InsnView {
    InsnView {
        bytes: seq![0xF2u8, 0x0Fu8, 0x5Cu8, (0xC0 | ((dst & 0xF) << 3) | (src2 & 0xF)) as u8],
        length: 4,
        mnemonic: "subsd xmm"@ + dec(dst as nat) + ", xmm"@ + dec(src2 as nat),
        is_control_flow: false,
        is_memory_op: false,
    }
}

fn encode_x86_fsub(dst: RegId, src1: RegId, src2: RegId) -> (r: TargetInstruction)
    ensures
        r@ == encode_x86_fsub_spec(dst, src1, src2),
{
    let mut m = text("subsd xmm");
    push_u64(&mut m, dst as u64);
    push_text(&mut m, ", xmm");
    push_u64(&mut m, src2 as u64);
    let bytes: Vec<u8> = vec![0xF2, 0x0F, 0x5C, (0xC0 | ((dst & 0xF) << 3) | (src2 & 0xF)) as u8];
    TargetInstruction { bytes, length: 4, mnemonic: m, is_control_flow: false, is_memory_op: false }
}

pub open spec fn encode_x86_fmul_spec(dst: RegId, src1: RegId, src2: RegId) -> InsnView {
    InsnView {
        bytes: seq![0xF2u8, 0x0Fu8, 0x59u8, (0xC0 | ((dst & 0xF) << 3) | (src2 & 0xF)) as u8],
        length: 4,
        mnemonic: "mulsd xmm"@ + dec(dst as nat) + ", xmm"@ + dec(src2 as nat),
        is_control_flow: false,
        is_memory_op: false,
    }
}

fn encode_x86_fmul(dst: RegId, src1: RegId, src2: RegId) -> (r: TargetInstruction)
    ensures
        r@ == encode_x86_fmul_spec(dst, src1, src2),
{
    let mut m = text("mulsd xmm");
    push_u64(&mut m, dst as u64);
    push_text(&mut m, ", xmm");
    push_u64(&mut m, src2 as u64);
    let bytes: Vec<u8> = vec![0xF2, 0x0F, 0x59, (0xC0 | ((dst & 0xF) << 3) | (src2 & 0xF)) as u8];
    TargetInstruction { bytes, length: 4, mnemonic: m, is_control_flow: false, is_memory_op: false }
}

pub open spec fn encode_x86_fdiv_spec(dst: RegId, src1: RegId, src2: RegId) -> InsnView {
    InsnView {
        bytes: seq![0xF2u8, 0x0Fu8, 0x5Eu8, (0xC0 | ((dst & 0xF) << 3) | (src2 & 0xF)) as u8],
        length: 4,
        mnemonic: "divsd xmm"@ + dec(dst as nat) + ", xmm"@ + dec(src2 as nat),
        is_control_flow: false,
        is_memory_op: false,
    }
}

fn encode_x86_fdiv(dst: RegId, src1: RegId, src2: RegId) -> (r: TargetInstruction)
    ensures
        r@ == encode_x86_fdiv_spec(dst, src1, src2),
{
    let mut m = text("divsd xmm");
    push_u64(&mut m, dst as u64);
    push_text(&mut m, ", xmm");
    push_u64(&mut m, src2 as u64);
    let bytes: Vec<u8> = vec![0xF2, 0x0F, 0x5E, (0xC0 | ((dst & 0xF) << 3) | (src2 & 0xF)) as u8];
    TargetInstruction { bytes, length: 4, mnemonic: m, is_control_flow: false, is_memory_op: false }
}

pub open spec fn encode_x86_fadds_spec(dst: RegId, src1: RegId, src2: RegId) -> InsnView {
    InsnView {
        bytes: seq![0xF3u8, 0x0Fu8, 0x58u8, (0xC0 | ((dst & 0xF) << 3) | (src2 & 0xF)) as u8],
        length: 4,
        mnemonic: "addss xmm"@ + dec(dst as nat) + ", xmm"@ + dec(src2 as nat),
        is_control_flow: false,
        is_memory_op: false,
    }
}

fn encode_x86_fadds(dst: RegId, src1: RegId, src2: RegId) -> (r: TargetInstruction)
    ensures
        r@ == encode_x86_fadds_spec(dst, src1, src2),
{
    let mut m = text("addss xmm");
    push_u64(&mut m, dst as u64);
    push_text(&mut m, ", xmm");
    push_u64(&mut m, src2 as u64);
    let bytes: Vec<u8> = vec![0xF3, 0x0F, 0x58, (0xC0 | ((dst & 0xF) << 3) | (src2 & 0xF)) as u8];
    TargetInstruction { bytes, length: 4, mnemonic: m, is_control_flow: false, is_memory_op: false }
}

pub open spec fn encode_x86_fsubs_spec(dst: RegId, src1: RegId, src2: RegId) -> InsnView {
    InsnView {
        bytes: seq![0xF3u8, 0x0Fu8, 0x5Cu8, (0xC0 | ((dst & 0xF) << 3) | (src2 & 0xF)) as u8],
        length: 4,
        mnemonic: "subss xmm"@ + dec(dst as nat) + ", xmm"@ + dec(src2 as nat),
        is_control_flow: false,
        is_memory_op: false,
    }
}

fn encode_x86_fsubs(dst: RegId, src1: RegId, src2: RegId) -> (r: TargetInstruction)
    ensures
        r@ == encode_x86_fsubs_spec(dst, src1, src2),
{
    let mut m = text("subss xmm");
    push_u64(&mut m, dst as u64);
    push_text(&mut m, ", xmm");
    push_u64(&mut m, src2 as u64);
    let bytes: Vec<u8> = vec![0xF3, 0x0F, 0x5C, (0xC0 | ((dst & 0xF) << 3) | (src2 & 0xF)) as u8];
    TargetInstruction { bytes, length: 4, mnemonic: m, is_control_flow: false, is_memory_op: false }
}

pub open spec fn encode_x86_fmuls_spec(dst: RegId, src1: RegId, src2: RegId) -> InsnView {
    InsnView {
        bytes: seq![0xF3u8, 0x0Fu8, 0x59u8, (0xC0 | ((dst & 0xF) << 3) | (src2 & 0xF)) as u8],
        length: 4,
        mnemonic: "mulss xmm"@ + dec(dst as nat) + ", xmm"@ + dec(src2 as nat),
        is_control_flow: false,
        is_memory_op: false,
    }
}

fn encode_x86_fmuls(dst: RegId, src1: RegId, src2: RegId) -> (r: TargetInstruction)
    ensures
        r@ == encode_x86_fmuls_spec(dst, src1, src2),
{
    let mut m = text("mulss xmm");
    push_u64(&mut m, dst as u64);
    push_text(&mut m, ", xmm");
    push_u64(&mut m, src2 as u64);
    let bytes: Vec<u8> = vec![0xF3, 0x0F, 0x59, (0xC0 | ((dst & 0xF) << 3) | (src2 & 0xF)) as u8];
    TargetInstruction { bytes, length: 4, mnemonic: m, is_control_flow: false, is_memory_op: false }
}

pub open spec fn encode_x86_fdivs_spec(dst: RegId, src1: RegId, src2: RegId) -> InsnView {
    InsnView {
        bytes: seq![0xF3u8, 0x0Fu8, 0x5Eu8, (0xC0 | ((dst & 0xF) << 3) | (src2 & 0xF)) as u8],
        length: 4,
        mnemonic: "divss xmm"@ + dec(dst as nat) + ", xmm"@ + dec(src2 as nat),
        is_control_flow: false,
        is_memory_op: false,
    }
}

fn encode_x86_fdivs(dst: RegId, src1: RegId, src2: RegId) -> (r: TargetInstruction)
    ensures
        r@ == encode_x86_fdivs_spec(dst, src1, src2),
{
    let mut m = text("divss xmm");
    push_u64(&mut m, dst as u64);
    push_text(&mut m, ", xmm");
    push_u64(&mut m, src2 as u64);
    let bytes: Vec<u8> = vec![0xF3, 0x0F, 0x5E, (0xC0 | ((dst & 0xF) << 3) | (src2 & 0xF)) as u8];
    TargetInstruction { bytes, length: 4, mnemonic: m, is_control_flow: false, is_memory_op: false }
}

pub open spec fn encode_x86_fsqrt_spec(dst: RegId, src: RegId) -> InsnView {
    InsnView {
        bytes: seq![0xF2u8, 0x0Fu8, 0x51u8, (0xC0 | ((dst & 0xF) << 3) | (src & 0xF)) as u8],
        length: 4,
        mnemonic: "sqrtsd xmm"@ + dec(dst as nat) + ", xmm"@ + dec(src as nat),
        is_control_flow: false,
        is_memory_op: false,
    }
}

fn encode_x86_fsqrt(dst: RegId, src: RegId) -> (r: TargetInstruction)
    ensures
        r@ == encode_x86_fsqrt_spec(dst, src),
{
    let mut m = text("sqrtsd xmm");
    push_u64(&mut m, dst as u64);
    push_text(&mut m, ", xmm");
    push_u64(&mut m, src as u64);
    let bytes: Vec<u8> = vec![0xF2, 0x0F, 0x51, (0xC0 | ((dst & 0xF) << 3) | (src & 0xF)) as u8];
    TargetInstruction { bytes, length: 4, mnemonic: m, is_control_flow: false, is_memory_op: false }
}

pub open spec fn encode_x86_fsqrts_spec(dst: RegId, src: RegId) -> InsnView {
    InsnView {
        bytes: seq![0xF3u8, 0x0Fu8, 0x51u8, (0xC0 | ((dst & 0xF) << 3) | (src & 0xF)) as u8],
        length: 4,
        mnemonic: "sqrtss xmm"@ + dec(dst as nat) + ", xmm"@ + dec(src as nat),
        is_control_flow: false,
        is_memory_op: false,
    }
}

fn encode_x86_fsqrts(dst: RegId, src: RegId) -> (r: TargetInstruction)
    ensures
        r@ == encode_x86_fsqrts_spec(dst, src),
{
    let mut m = text("sqrtss xmm");
    push_u64(&mut m, dst as u64);
    push_text(&mut m, ", xmm");
    push_u64(&mut m, src as u64);
    let bytes: Vec<u8> = vec![0xF3, 0x0F, 0x51, (0xC0 | ((dst & 0xF) << 3) | (src & 0xF)) as u8];
    TargetInstruction { bytes, length: 4, mnemonic: m, is_control_flow: false, is_memory_op: false }
}

pub open spec fn encode_x86_fmadd_spec(dst: RegId, src1: RegId, src2: RegId, src3: RegId) -> InsnView {
    InsnView {
        bytes: seq![0xC4u8, 0xE2u8, 0xF1u8, 0xB9u8, (0xC0 | ((dst & 0xF) << 3) | (src3 & 0xF)) as u8],
        length: 5,
        mnemonic: "vfmadd231sd xmm"@ + dec(dst as nat) + ", xmm"@ + dec(src2 as nat) + ", xmm"@ + dec(src3 as nat),
        is_control_flow: false,
        is_memory_op: false,
    }
}

fn encode_x86_fmadd(dst: RegId, src1: RegId, src2: RegId, src3: RegId) -> (r: TargetInstruction)
    ensures
        r@ == encode_x86_fmadd_spec(dst, src1, src2, src3),
{
    let mut m = text("vfmadd231sd xmm");
    push_u64(&mut m, dst as u64);
    push_text(&mut m, ", xmm");
    push_u64(&mut m, src2 as u64);
    push_text(&mut m, ", xmm");
    push_u64(&mut m, src3 as u64);
    let bytes: Vec<u8> = vec![0xC4, 0xE2, 0xF1, 0xB9, (0xC0 | ((dst & 0xF) << 3) | (src3 & 0xF)) as u8];
    TargetInstruction { bytes, length: 5, mnemonic: m, is_control_flow: false, is_memory_op: false }
}

pub open spec fn encode_x86_fmsub_spec(dst: RegId, src1: RegId, src2: RegId, src3: RegId) -> InsnView {
    InsnView {
        bytes: seq![0xC4u8, 0xE2u8, 0xF1u8, 0xBBu8, (0xC0 | ((dst & 0xF) << 3) | (src3 & 0xF)) as u8],
        length: 5,
        mnemonic: "vfmsub231sd xmm"@ + dec(dst as nat) + ", xmm"@ + dec(src2 as nat) + ", xmm"@ + dec(src3 as nat),
        is_control_flow: false,
        is_memory_op: false,
    }
}

fn encode_x86_fmsub(dst: RegId, src1: RegId, src2: RegId, src3: RegId) -> (r: TargetInstruction)
    ensures
        r@ == encode_x86_fmsub_spec(dst, src1, src2, src3),
{
    let mut m = text("vfmsub231sd xmm");
    push_u64(&mut m, dst as u64);
    push_text(&mut m, ", xmm");
    push_u64(&mut m, src2 as u64);
    push_text(&mut m, ", xmm");
    push_u64(&mut m, src3 as u64);
    let bytes: Vec<u8> = vec![0xC4, 0xE2, 0xF1, 0xBB, (0xC0 | ((dst & 0xF) << 3) | (src3 & 0xF)) as u8];
    TargetInstruction { bytes, length: 5, mnemonic: m, is_control_flow: false, is_memory_op: false }
}

pub open spec fn encode_x86_fnmadd_spec(dst: RegId, src1: RegId, src2: RegId, src3: RegId) -> InsnView {
    InsnView {
        bytes: seq![0xC4u8, 0xE2u8, 0xF1u8, 0xBDu8, (0xC0 | ((dst & 0xF) << 3) | (src3 & 0xF)) as u8],
        length: 5,
        mnemonic: "vfnmadd231sd xmm"@ + dec(dst as nat) + ", xmm"@ + dec(src2 as nat) + ", xmm"@ + dec(src3 as nat),
        is_control_flow: false,
        is_memory_op: false,
    }
}

fn encode_x86_fnmadd(dst: RegId, src1: RegId, src2: RegId, src3: RegId) -> (r: TargetInstruction)
    ensures
        r@ == encode_x86_fnmadd_spec(dst, src1, src2, src3),
{
    let mut m = text("vfnmadd231sd xmm");
    push_u64(&mut m, dst as u64);
    push_text(&mut m, ", xmm");
    push_u64(&mut m, src2 as u64);
    push_text(&mut m, ", xmm");
    push_u64(&mut m, src3 as u64);
    let bytes: Vec<u8> = vec![0xC4, 0xE2, 0xF1, 0xBD, (0xC0 | ((dst & 0xF) << 3) | (src3 & 0xF)) as u8];
    TargetInstruction { bytes, length: 5, mnemonic: m, is_control_flow: false, is_memory_op: false }
}

pub open spec fn encode_x86_fnmsub_spec(dst: RegId, src1: RegId, src2: RegId, src3: RegId) -> InsnView {
    InsnView {
        bytes: seq![0xC4u8, 0xE2u8, 0xF1u8, 0xBFu8, (0xC0 | ((dst & 0xF) << 3) | (src3 & 0xF)) as u8],
        length: 5,
        mnemonic: "vfnmsub231sd xmm"@ + dec(dst as nat) + ", xmm"@ + dec(src2 as nat) + ", xmm"@ + dec(src3 as nat),
        is_control_flow: false,
        is_memory_op: false,
    }
}

fn encode_x86_fnmsub(dst: RegId, src1: RegId, src2: RegId, src3: RegId) -> (r: TargetInstruction)
    ensures
        r@ == encode_x86_fnmsub_spec(dst, src1, src2, src3),
{
    let mut m = text("vfnmsub231sd xmm");
    push_u64(&mut m, dst as u64);
    push_text(&mut m, ", xmm");
    push_u64(&mut m, src2 as u64);
    push_text(&mut m, ", xmm");
    push_u64(&mut m, src3 as u64);
    let bytes: Vec<u8> = vec![0xC4, 0xE2, 0xF1, 0xBF, (0xC0 | ((dst & 0xF) << 3) | (src3 & 0xF)) as u8];
    TargetInstruction { bytes, length: 5, mnemonic: m, is_control_flow: false, is_memory_op: false }
}

pub open spec fn encode_x86_fmadds_spec(dst: RegId, src1: RegId, src2: RegId, src3: RegId) -> InsnView {
    InsnView {
        bytes: seq![0xC4u8, 0xE2u8, 0x71u8, 0xB9u8, (0xC0 | ((dst & 0xF) << 3) | (src3 & 0xF)) as u8],
        length: 5,
        mnemonic: "vfmadd231ss xmm"@ + dec(dst as nat) + ", xmm"@ + dec(src2 as nat) + ", xmm"@ + dec(src3 as nat),
        is_control_flow: false,
        is_memory_op: false,
    }
}

fn encode_x86_fmadds(dst: RegId, src1: RegId, src2: RegId, src3: RegId) -> (r: TargetInstruction)
    ensures
        r@ == encode_x86_fmadds_spec(dst, src1, src2, src3),
{
    let mut m = text("vfmadd231ss xmm");
    push_u64(&mut m, dst as u64);
    push_text(&mut m, ", xmm");
    push_u64(&mut m, src2 as u64);
    push_text(&mut m, ", xmm");
    push_u64(&mut m, src3 as u64);
    let bytes: Vec<u8> = vec![0xC4, 0xE2, 0x71, 0xB9, (0xC0 | ((dst & 0xF) << 3) | (src3 & 0xF)) as u8];
    TargetInstruction { bytes, length: 5, mnemonic: m, is_control_flow: false, is_memory_op: false }
}

pub open spec fn encode_x86_fmsubs_spec(dst: RegId, src1: RegId, src2: RegId, src3: RegId) -> InsnView {
    InsnView {
        bytes: seq![0xC4u8, 0xE2u8, 0x71u8, 0xBBu8, (0xC0 | ((dst & 0xF) << 3) | (src3 & 0xF)) as u8],
        length: 5,
        mnemonic: "vfmsub231ss xmm"@ + dec(dst as nat) + ", xmm"@ + dec(src2 as nat) + ", xmm"@ + dec(src3 as nat),
        is_control_flow: false,
        is_memory_op: false,
    }
}

fn encode_x86_fmsubs(dst: RegId, src1: RegId, src2: RegId, src3: RegId) -> (r: TargetInstruction)
    ensures
        r@ == encode_x86_fmsubs_spec(dst, src1, src2, src3),
{
    let mut m = text("vfmsub231ss xmm");
    push_u64(&mut m, dst as u64);
    push_text(&mut m, ", xmm");
    push_u64(&mut m, src2 as u64);
    push_text(&mut m, ", xmm");
    push_u64(&mut m, src3 as u64);
    let bytes: Vec<u8> = vec![0xC4, 0xE2, 0x71, 0xBB, (0xC0 | ((dst & 0xF) << 3) | (src3 & 0xF)) as u8];
    TargetInstruction { bytes, length: 5, mnemonic: m, is_control_flow: false, is_memory_op: false }
}

pub open spec fn encode_x86_fnmadds_spec(dst: RegId, src1: RegId, src2: RegId, src3: RegId) -> InsnView {
    InsnView {
        bytes: seq![0xC4u8, 0xE2u8, 0x71u8, 0xBDu8, (0xC0 | ((dst & 0xF) << 3) | (src3 & 0xF)) as u8],
        length: 5,
        mnemonic: "vfnmadd231ss xmm"@ + dec(dst as nat) + ", xmm"@ + dec(src2 as nat) + ", xmm"@ + dec(src3 as nat),
        is_control_flow: false,
        is_memory_op: false,
    }
}

fn encode_x86_fnmadds(dst: RegId, src1: RegId, src2: RegId, src3: RegId) -> (r: TargetInstruction)
    ensures
        r@ == encode_x86_fnmadds_spec(dst, src1, src2, src3),
{
    let mut m = text("vfnmadd231ss xmm");
    push_u64(&mut m, dst as u64);
    push_text(&mut m, ", xmm");
    push_u64(&mut m, src2 as u64);
    push_text(&mut m, ", xmm");
    push_u64(&mut m, src3 as u64);
    let bytes: Vec<u8> = vec![0xC4, 0xE2, 0x71, 0xBD, (0xC0 | ((dst & 0xF) << 3) | (src3 & 0xF)) as u8];
    TargetInstruction { bytes, length: 5, mnemonic: m, is_control_flow: false, is_memory_op: false }
}

pub open spec fn encode_x86_fnmsubs_spec(dst: RegId, src1: RegId, src2: RegId, src3: RegId) -> InsnView {
    InsnView {
        bytes: seq![0xC4u8, 0xE2u8, 0x71u8, 0xBFu8, (0xC0 | ((dst & 0xF) << 3) | (src3 & 0xF)) as u8],
        length: 5,
        mnemonic: "vfnmsub231ss xmm"@ + dec(dst as nat) + ", xmm"@ + dec(src2 as nat) + ", xmm"@ + dec(src3 as nat),
        is_control_flow: false,
        is_memory_op: false,
    }
}

fn encode_x86_fnmsubs(dst: RegId, src1: RegId, src2: RegId, src3: RegId) -> (r: TargetInstruction)
    ensures
        r@ == encode_x86_fnmsubs_spec(dst, src1, src2, src3),
{
    let mut m = text("vfnmsub231ss xmm");
    push_u64(&mut m, dst as u64);
    push_text(&mut m, ", xmm");
    push_u64(&mut m, src2 as u64);
    push_text(&mut m, ", xmm");
    push_u64(&mut m, src3 as u64);
    let bytes: Vec<u8> = vec![0xC4, 0xE2, 0x71, 0xBF, (0xC0 | ((dst & 0xF) << 3) | (src3 & 0xF)) as u8];
    TargetInstruction { bytes, length: 5, mnemonic: m, is_control_flow: false, is_memory_op: false }
}

pub open spec fn encode_x86_feq_spec(dst: RegId, src1: RegId, src2: RegId) -> InsnView {
    InsnView {
        bytes: seq![0x66u8, 0x0Fu8, 0xC2u8, (0xC0 | ((dst & 0xF) << 3) | (src2 & 0xF)) as u8, 0x00u8],
        length: 5,
        mnemonic: "cmpeqsd xmm"@ + dec(dst as nat) + ", xmm"@ + dec(src2 as nat),
        is_control_flow: false,
        is_memory_op: false,
    }
}

fn encode_x86_feq(dst: RegId, src1: RegId, src2: RegId) -> (r: TargetInstruction)
    ensures
        r@ == encode_x86_feq_spec(dst, src1, src2),
{
    let mut m = text("cmpeqsd xmm");
    push_u64(&mut m, dst as u64);
    push_text(&mut m, ", xmm");
    push_u64(&mut m, src2 as u64);
    let bytes: Vec<u8> = vec![0x66, 0x0F, 0xC2, (0xC0 | ((dst & 0xF) << 3) | (src2 & 0xF)) as u8, 0x00];
    TargetInstruction { bytes, length: 5, mnemonic: m, is_control_flow: false, is_memory_op: false }
}

pub open spec fn encode_x86_flt_spec(dst: RegId, src1: RegId, src2: RegId) -> InsnView {
    InsnView {
        bytes: seq![0x66u8, 0x0Fu8, 0xC2u8, (0xC0 | ((dst & 0xF) << 3) | (src2 & 0xF)) as u8, 0x01u8],
        length: 5,
        mnemonic: "cmpltsd xmm"@ + dec(dst as nat) + ", xmm"@ + dec(src2 as nat),
        is_control_flow: false,
        is_memory_op: false,
    }
}

fn encode_x86_flt(dst: RegId, src1: RegId, src2: RegId) -> (r: TargetInstruction)
    ensures
        r@ == encode_x86_flt_spec(dst, src1, src2),
{
    let mut m = text("cmpltsd xmm");
    push_u64(&mut m, dst as u64);
    push_text(&mut m, ", xmm");
    push_u64(&mut m, src2 as u64);
    let bytes: Vec<u8> = vec![0x66, 0x0F, 0xC2, (0xC0 | ((dst & 0xF) << 3) | (src2 & 0xF)) as u8, 0x01];
    TargetInstruction { bytes, length: 5, mnemonic: m, is_control_flow: false, is_memory_op: false }
}

pub open spec fn encode_x86_fle_spec(dst: RegId, src1: RegId, src2: RegId) -> InsnView {
    InsnView {
        bytes: seq![0x66u8, 0x0Fu8, 0xC2u8, (0xC0 | ((dst & 0xF) << 3) | (src2 & 0xF)) as u8, 0x02u8],
        length: 5,
        mnemonic: "cmplesd xmm"@ + dec(dst as nat) + ", xmm"@ + dec(src2 as nat),
        is_control_flow: false,
        is_memory_op: false,
    }
}

fn encode_x86_fle(dst: RegId, src1: RegId, src2: RegId) -> (r: TargetInstruction)
    ensures
        r@ == encode_x86_fle_spec(dst, src1, src2),
{
    let mut m = text("cmplesd xmm");
    push_u64(&mut m, dst as u64);
    push_text(&mut m, ", xmm");
    push_u64(&mut m, src2 as u64);
    let bytes: Vec<u8> = vec![0x66, 0x0F, 0xC2, (0xC0 | ((dst & 0xF) << 3) | (src2 & 0xF)) as u8, 0x02];
    TargetInstruction { bytes, length: 5, mnemonic: m, is_control_flow: false, is_memory_op: false }
}

pub open spec fn encode_x86_feqs_spec(dst: RegId, src1: RegId, src2: RegId) -> InsnView {
    InsnView {
        bytes: seq![0xF3u8, 0x0Fu8, 0xC2u8, (0xC0 | ((dst & 0xF) << 3) | (src2 & 0xF)) as u8, 0x00u8],
        length: 5,
        mnemonic: "cmpeqss xmm"@ + dec(dst as nat) + ", xmm"@ + dec(src2 as nat),
        is_control_flow: false,
        is_memory_op: false,
    }
}

fn encode_x86_feqs(dst: RegId, src1: RegId, src2: RegId) -> (r: TargetInstruction)
    ensures
        r@ == encode_x86_feqs_spec(dst, src1, src2),
{
    let mut m = text("cmpeqss xmm");
    push_u64(&mut m, dst as u64);
    push_text(&mut m, ", xmm");
    push_u64(&mut m, src2 as u64);
    let bytes: Vec<u8> = vec![0xF3, 0x0F, 0xC2, (0xC0 | ((dst & 0xF) << 3) | (src2 & 0xF)) as u8, 0x00];
    TargetInstruction { bytes, length: 5, mnemonic: m, is_control_flow: false, is_memory_op: false }
}

pub open spec fn encode_x86_flts_spec(dst: RegId, src1: RegId, src2: RegId) -> InsnView {
    InsnView {
        bytes: seq![0xF3u8, 0x0Fu8, 0xC2u8, (0xC0 | ((dst & 0xF) << 3) | (src2 & 0xF)) as u8, 0x01u8],
        length: 5,
        mnemonic: "cmpltss xmm"@ + dec(dst as nat) + ", xmm"@ + dec(src2 as nat),
        is_control_flow: false,
        is_memory_op: false,
    }
}

fn encode_x86_flts(dst: RegId, src1: RegId, src2: RegId) -> (r: TargetInstruction)
    ensures
        r@ == encode_x86_flts_spec(dst, src1, src2),
{
    let mut m = text("cmpltss xmm");
    push_u64(&mut m, dst as u64);
    push_text(&mut m, ", xmm");
    push_u64(&mut m, src2 as u64);
    let bytes: Vec<u8> = vec![0xF3, 0x0F, 0xC2, (0xC0 | ((dst & 0xF) << 3) | (src2 & 0xF)) as u8, 0x01];
    TargetInstruction { bytes, length: 5, mnemonic: m, is_control_flow: false, is_memory_op: false }
}

pub open spec fn encode_x86_fles_spec(dst: RegId, src1: RegId, src2: RegId) -> InsnView {
    InsnView {
        bytes: seq![0xF3u8, 0x0Fu8, 0xC2u8, (0xC0 | ((dst & 0xF) << 3) | (src2 & 0xF)) as u8, 0x02u8],
        length: 5,
        mnemonic: "cmpless xmm"@ + dec(dst as nat) + ", xmm"@ + dec(src2 as nat),
        is_control_flow: false,
        is_memory_op: false,
    }
}

fn encode_x86_fles(dst: RegId, src1: RegId, src2: RegId) -> (r: TargetInstruction)
    ensures
        r@ == encode_x86_fles_spec(dst, src1, src2),
{
    let mut m = text("cmpless xmm");
    push_u64(&mut m, dst as u64);
    push_text(&mut m, ", xmm");
    push_u64(&mut m, src2 as u64);
    let bytes: Vec<u8> = vec![0xF3, 0x0F, 0xC2, (0xC0 | ((dst & 0xF) << 3) | (src2 & 0xF)) as u8, 0x02];
    TargetInstruction { bytes, length: 5, mnemonic: m, is_control_flow: false, is_memory_op: false }
}

pub open spec fn encode_x86_fmin_spec(dst: RegId, src1: RegId, src2: RegId) -> InsnView {
    InsnView {
        bytes: seq![0xF2u8, 0x0Fu8, 0x5Du8, (0xC0 | ((dst & 0xF) << 3) | (src2 & 0xF)) as u8],
        length: 4,
        mnemonic: "minsd xmm"@ + dec(dst as nat) + ", xmm"@ + dec(src2 as nat),
        is_control_flow: false,
        is_memory_op: false,
    }
}

fn encode_x86_fmin(dst: RegId, src1: RegId, src2: RegId) -> (r: TargetInstruction)
    ensures
        r@ == encode_x86_fmin_spec(dst, src1, src2),
{
    let mut m = text("minsd xmm");
    push_u64(&mut m, dst as u64);
    push_text(&mut m, ", xmm");
    push_u64(&mut m, src2 as u64);
    let bytes: Vec<u8> = vec![0xF2, 0x0F, 0x5D, (0xC0 | ((dst & 0xF) << 3) | (src2 & 0xF)) as u8];
    TargetInstruction { bytes, length: 4, mnemonic: m, is_control_flow: false, is_memory_op: false }
}

pub open spec fn encode_x86_fmax_spec(dst: RegId, src1: RegId, src2: RegId) -> InsnView {
    InsnView {
        bytes: seq![0xF2u8, 0x0Fu8, 0x5Fu8, (0xC0 | ((dst & 0xF) << 3) | (src2 & 0xF)) as u8],
        length: 4,
        mnemonic: "maxsd xmm"@ + dec(dst as nat) + ", xmm"@ + dec(src2 as nat),
        is_control_flow: false,
        is_memory_op: false,
    }
}

fn encode_x86_fmax(dst: RegId, src1: RegId, src2: RegId) -> (r: TargetInstruction)
    ensures
        r@ == encode_x86_fmax_spec(dst, src1, src2),
{
    let mut m = text("maxsd xmm");
    push_u64(&mut m, dst as u64);
    push_text(&mut m, ", xmm");
    push_u64(&mut m, src2 as u64);
    let bytes: Vec<u8> = vec![0xF2, 0x0F, 0x5F, (0xC0 | ((dst & 0xF) << 3) | (src2 & 0xF)) as u8];
    TargetInstruction { bytes, length: 4, mnemonic: m, is_control_flow: false, is_memory_op: false }
}

pub open spec fn encode_x86_fmins_spec(dst: RegId, src1: RegId, src2: RegId) -> InsnView {
    InsnView {
        bytes: seq![0xF3u8, 0x0Fu8, 0x5Du8, (0xC0 | ((dst & 0xF) << 3) | (src2 & 0xF)) as u8],
        length: 4,
        mnemonic: "minss xmm"@ + dec(dst as nat) + ", xmm"@ + dec(src2 as nat),
        is_control_flow: false,
        is_memory_op: false,
    }
}

fn encode_x86_fmins(dst: RegId, src1: RegId, src2: RegId) -> (r: TargetInstruction)
    ensures
        r@ == encode_x86_fmins_spec(dst, src1, src2),
{
    let mut m = text("minss xmm");
    push_u64(&mut m, dst as u64);
    push_text(&mut m, ", xmm");
    push_u64(&mut m, src2 as u64);
    let bytes: Vec<u8> = vec![0xF3, 0x0F, 0x5D, (0xC0 | ((dst & 0xF) << 3) | (src2 & 0xF)) as u8];
    TargetInstruction { bytes, length: 4, mnemonic: m, is_control_flow: false, is_memory_op: false }
}

pub open spec fn encode_x86_fmaxs_spec(dst: RegId, src1: RegId, src2: RegId) -> InsnView {
    InsnView {
        bytes: seq![0xF3u8, 0x0Fu8, 0x5Fu8, (0xC0 | ((dst & 0xF) << 3) | (src2 & 0xF)) as u8],
        length: 4,
        mnemonic: "maxss xmm"@ + dec(dst as nat) + ", xmm"@ + dec(src2 as nat),
        is_control_flow: false,
        is_memory_op: false,
    }
}

fn encode_x86_fmaxs(dst: RegId, src1: RegId, src2: RegId) -> (r: TargetInstruction)
    ensures
        r@ == encode_x86_fmaxs_spec(dst, src1, src2),
{
    let mut m = text("maxss xmm");
    push_u64(&mut m, dst as u64);
    push_text(&mut m, ", xmm");
    push_u64(&mut m, src2 as u64);
    let bytes: Vec<u8> = vec![0xF3, 0x0F, 0x5F, (0xC0 | ((dst & 0xF) << 3) | (src2 & 0xF)) as u8];
    TargetInstruction { bytes, length: 4, mnemonic: m, is_control_flow: false, is_memory_op: false }
}

pub open spec fn encode_x86_fabs_spec(dst: RegId, src: RegId) -> InsnView {
    InsnView {
        bytes: seq![0x66u8, 0x0Fu8, 0x54u8, (0xC0 | ((dst & 0xF) << 3) | (src & 0xF)) as u8],
        length: 4,
        mnemonic: "andpd xmm"@ + dec(dst as nat) + ", xmm"@ + dec(src as nat),
        is_control_flow: false,
        is_memory_op: false,
    }
}

fn encode_x86_fabs(dst: RegId, src: RegId) -> (r: TargetInstruction)
    ensures
        r@ == encode_x86_fabs_spec(dst, src),
{
    let mut m = text("andpd xmm");
    push_u64(&mut m, dst as u64);
    push_text(&mut m, ", xmm");
    push_u64(&mut m, src as u64);
    let bytes: Vec<u8> = vec![0x66, 0x0F, 0x54, (0xC0 | ((dst & 0xF) << 3) | (src & 0xF)) as u8];
    TargetInstruction { bytes, length: 4, mnemonic: m, is_control_flow: false, is_memory_op: false }
}

pub open spec fn encode_x86_fneg_spec(dst: RegId, src: RegId) -> InsnView {
    InsnView {
        bytes: seq![0x66u8, 0x0Fu8, 0x57u8, (0xC0 | ((dst & 0xF) << 3) | (src & 0xF)) as u8],
        length: 4,
        mnemonic: "xorpd xmm"@ + dec(dst as nat) + ", xmm"@ + dec(src as nat),
        is_control_flow: false,
        is_memory_op: false,
    }
}

fn encode_x86_fneg(dst: RegId, src: RegId) -> (r: TargetInstruction)
    ensures
        r@ == encode_x86_fneg_spec(dst, src),
{
    let mut m = text("xorpd xmm");
    push_u64(&mut m, dst as u64);
    push_text(&mut m, ", xmm");
    push_u64(&mut m, src as u64);
    let bytes: Vec<u8> = vec![0x66, 0x0F, 0x57, (0xC0 | ((dst & 0xF) << 3) | (src & 0xF)) as u8];
    TargetInstruction { bytes, length: 4, mnemonic: m, is_control_flow: false, is_memory_op: false }
}

pub open spec fn encode_x86_fabss_spec(dst: RegId, src: RegId) -> InsnView {
    InsnView {
        bytes: seq![0x0Fu8, 0x54u8, (0xC0 | ((dst & 0xF) << 3) | (src & 0xF)) as u8],
        length: 4,
        mnemonic: "andps xmm"@ + dec(dst as nat) + ", xmm"@ + dec(src as nat),
        is_control_flow: false,
        is_memory_op: false,
    }
}

fn encode_x86_fabss(dst: RegId, src: RegId) -> (r: TargetInstruction)
    ensures
        r@ == encode_x86_fabss_spec(dst, src),
{
    let mut m = text("andps xmm");
    push_u64(&mut m, dst as u64);
    push_text(&mut m, ", xmm");
    push_u64(&mut m, src as u64);
    let bytes: Vec<u8> = vec![0x0F, 0x54, (0xC0 | ((dst & 0xF) << 3) | (src & 0xF)) as u8];
    TargetInstruction { bytes, length: 4, mnemonic: m, is_control_flow: false, is_memory_op: false }
}

pub open spec fn encode_x86_fnegs_spec(dst: RegId, src: RegId) -> InsnView {
    InsnView {
        bytes: seq![0x0Fu8, 0x57u8, (0xC0 | ((dst & 0xF) << 3) | (src & 0xF)) as u8],
        length: 4,
        mnemonic: "xorps xmm"@ + dec(dst as nat) + ", xmm"@ + dec(src as nat),
        is_control_flow: false,
        is_memory_op: false,
    }
}

fn encode_x86_fnegs(dst: RegId, src: RegId) -> (r: TargetInstruction)
    ensures
        r@ == encode_x86_fnegs_spec(dst, src),
{
    let mut m = text("xorps xmm");
    push_u64(&mut m, dst as u64);
    push_text(&mut m, ", xmm");
    push_u64(&mut m, src as u64);
    let bytes: Vec<u8> = vec![0x0F, 0x57, (0xC0 | ((dst & 0xF) << 3) | (src & 0xF)) as u8];
    TargetInstruction { bytes, length: 4, mnemonic: m, is_control_flow: false, is_memory_op: false }
}

pub open spec fn encode_x86_cvttsd2si_spec(dst: RegId, src: RegId) -> InsnView {
    InsnView {
        bytes: seq![0xF2u8, 0x0Fu8, 0x2Cu8, (0xC0 | ((dst & 7) << 3) | (src & 0xF)) as u8],
        length: 4,
        mnemonic: "cvttsd2si r"@ + dec(dst as nat) + ", xmm"@ + dec(src as nat),
        is_control_flow: false,
        is_memory_op: false,
    }
}

fn encode_x86_cvttsd2si(dst: RegId, src: RegId) -> (r: TargetInstruction)
    ensures
        r@ == encode_x86_cvttsd2si_spec(dst, src),
{
    let mut m = text("cvttsd2si r");
    push_u64(&mut m, dst as u64);
    push_text(&mut m, ", xmm");
    push_u64(&mut m, src as u64);
    let bytes: Vec<u8> = vec![0xF2, 0x0F, 0x2C, (0xC0 | ((dst & 7) << 3) | (src & 0xF)) as u8];
    TargetInstruction { bytes, length: 4, mnemonic: m, is_control_flow: false, is_memory_op: false }
}

pub open spec fn encode_x86_cvtsi2ss_spec(dst: RegId, src: RegId) -> InsnView {
    InsnView {
        bytes: seq![0xF3u8, 0x0Fu8, 0x2Au8, (0xC0 | ((dst & 0xF) << 3) | (src & 7)) as u8],
        length: 4,
        mnemonic: "cvtsi2ss xmm"@ + dec(dst as nat) + ", r"@ + dec(src as nat),
        is_control_flow: false,
        is_memory_op: false,
    }
}

fn encode_x86_cvtsi2ss(dst: RegId, src: RegId) -> (r: TargetInstruction)
    ensures
        r@ == encode_x86_cvtsi2ss_spec(dst, src),
{
    let mut m = text("cvtsi2ss xmm");
    push_u64(&mut m, dst as u64);
    push_text(&mut m, ", r");
    push_u64(&mut m, src as u64);
    let bytes: Vec<u8> = vec![0xF3, 0x0F, 0x2A, (0xC0 | ((dst & 0xF) << 3) | (src & 7)) as u8];
    TargetInstruction { bytes, length: 4, mnemonic: m, is_control_flow: false, is_memory_op: false }
}

pub open spec fn encode_x86_cvttsd2si64_spec(dst: RegId, src: RegId) -> InsnView {
    InsnView {
        bytes: seq![0xF2u8, 0x48u8, 0x0Fu8, 0x2Cu8, (0xC0 | ((dst & 7) << 3) | (src & 0xF)) as u8],
        length: 5,
        mnemonic: "cvttsd2si r"@ + dec(dst as nat) + ", xmm"@ + dec(src as nat),
        is_control_flow: false,
        is_memory_op: false,
    }
}

fn encode_x86_cvttsd2si64(dst: RegId, src: RegId) -> (r: TargetInstruction)
    ensures
        r@ == encode_x86_cvttsd2si64_spec(dst, src),
{
    let mut m = text("cvttsd2si r");
    push_u64(&mut m, dst as u64);
    push_text(&mut m, ", xmm");
    push_u64(&mut m, src as u64);
    let bytes: Vec<u8> = vec![0xF2, 0x48, 0x0F, 0x2C, (0xC0 | ((dst & 7) << 3) | (src & 0xF)) as u8];
    TargetInstruction { bytes, length: 5, mnemonic: m, is_control_flow: false, is_memory_op: false }
}

pub open spec fn encode_x86_cvtsi2sd64_spec(dst: RegId, src: RegId) -> InsnView {
    InsnView {
        bytes: seq![0xF2u8, 0x48u8, 0x0Fu8, 0x2Au8, (0xC0 | ((dst & 0xF) << 3) | (src & 7)) as u8],
        length: 5,
        mnemonic: "cvtsi2sd xmm"@ + dec(dst as nat) + ", r"@ + dec(src as nat),
        is_control_flow: false,
        is_memory_op: false,
    }
}

fn encode_x86_cvtsi2sd64(dst: RegId, src: RegId) -> (r: TargetInstruction)
    ensures
        r@ == encode_x86_cvtsi2sd64_spec(dst, src),
{
    let mut m = text("cvtsi2sd xmm");
    push_u64(&mut m, dst as u64);
    push_text(&mut m, ", r");
    push_u64(&mut m, src as u64);
    let bytes: Vec<u8> = vec![0xF2, 0x48, 0x0F, 0x2A, (0xC0 | ((dst & 0xF) << 3) | (src & 7)) as u8];
    TargetInstruction { bytes, length: 5, mnemonic: m, is_control_flow: false, is_memory_op: false }
}

pub open spec fn encode_x86_cvtsd2ss_spec(dst: RegId, src: RegId) -> InsnView {
    InsnView {
        bytes: seq![0xF2u8, 0x0Fu8, 0x5Au8, (0xC0 | ((dst & 0xF) << 3) | (src & 0xF)) as u8],
        length: 4,
        mnemonic: "cvtsd2ss xmm"@ + dec(dst as nat) + ", xmm"@ + dec(src as nat),
        is_control_flow: false,
        is_memory_op: false,
    }
}

fn encode_x86_cvtsd2ss(dst: RegId, src: RegId) -> (r: TargetInstruction)
    ensures
        r@ == encode_x86_cvtsd2ss_spec(dst, src),
{
    let mut m = text("cvtsd2ss xmm");
    push_u64(&mut m, dst as u64);
    push_text(&mut m, ", xmm");
    push_u64(&mut m, src as u64);
    let bytes: Vec<u8> = vec![0xF2, 0x0F, 0x5A, (0xC0 | ((dst & 0xF) << 3) | (src & 0xF)) as u8];
    TargetInstruction { bytes, length: 4, mnemonic: m, is_control_flow: false, is_memory_op: false }
}

pub open spec fn encode_x86_cvtss2sd_spec(dst: RegId, src: RegId) -> InsnView {
    InsnView {
        bytes: seq![0xF3u8, 0x0Fu8, 0x5Au8, (0xC0 | ((dst & 0xF) << 3) | (src & 0xF)) as u8],
        length: 4,
        mnemonic: "cvtss2sd xmm"@ + dec(dst as nat) + ", xmm"@ + dec(src as nat),
        is_control_flow: false,
        is_memory_op: false,
    }
}

fn encode_x86_cvtss2sd(dst: RegId, src: RegId) -> (r: TargetInstruction)
    ensures
        r@ == encode_x86_cvtss2sd_spec(dst, src),
{
    let mut m = text("cvtss2sd xmm");
    push_u64(&mut m, dst as u64);
    push_text(&mut m, ", xmm");
    push_u64(&mut m, src as u64);
    let bytes: Vec<u8> = vec![0xF3, 0x0F, 0x5A, (0xC0 | ((dst & 0xF) << 3) | (src & 0xF)) as u8];
    TargetInstruction { bytes, length: 4, mnemonic: m, is_control_flow: false, is_memory_op: false }
}

pub open spec fn encode_x86_fsgnj_spec(dst: RegId, src1: RegId, src2: RegId) -> InsnView {
    InsnView {
        bytes: seq![0x66u8, 0x0Fu8, 0x38u8, 0x15u8, (0xC0 | ((dst & 0xF) << 3) | (src2 & 0xF)) as u8],
        length: 5,
        mnemonic: "blendvpd xmm"@ + dec(dst as nat) + ", xmm"@ + dec(src1 as nat) + ", xmm"@ + dec(src2 as nat),
        is_control_flow: false,
        is_memory_op: false,
    }
}

fn encode_x86_fsgnj(dst: RegId, src1: RegId, src2: RegId) -> (r: TargetInstruction)
    ensures
        r@ == encode_x86_fsgnj_spec(dst, src1, src2),
{
    let mut m = text("blendvpd xmm");
    push_u64(&mut m, dst as u64);
    push_text(&mut m, ", xmm");
    push_u64(&mut m, src1 as u64);
    push_text(&mut m, ", xmm");
    push_u64(&mut m, src2 as u64);
    let bytes: Vec<u8> = vec![0x66, 0x0F, 0x38, 0x15, (0xC0 | ((dst & 0xF) << 3) | (src2 & 0xF)) as u8];
    TargetInstruction { bytes, length: 5, mnemonic: m, is_control_flow: false, is_memory_op: false }
}

pub open spec fn encode_x86_fsgnjn_spec(dst: RegId, src1: RegId, src2: RegId) -> InsnView {
    InsnView {
        bytes: seq![0x66u8, 0x0Fu8, 0x57u8, (0xC0 | ((dst & 0xF) << 3) | (src2 & 0xF)) as u8],
        length: 4,
        mnemonic: "xorpd xmm"@ + dec(dst as nat) + ", xmm"@ + dec(src2 as nat),
        is_control_flow: false,
        is_memory_op: false,
    }
}

fn encode_x86_fsgnjn(dst: RegId, src1: RegId, src2: RegId) -> (r: TargetInstruction)
    ensures
        r@ == encode_x86_fsgnjn_spec(dst, src1, src2),
{
    let mut m = text("xorpd xmm");
    push_u64(&mut m, dst as u64);
    push_text(&mut m, ", xmm");
    push_u64(&mut m, src2 as u64);
    let bytes: Vec<u8> = vec![0x66, 0x0F, 0x57, (0xC0 | ((dst & 0xF) << 3) | (src2 & 0xF)) as u8];
    TargetInstruction { bytes, length: 4, mnemonic: m, is_control_flow: false, is_memory_op: false }
}

pub open spec fn encode_x86_fsgnjx_spec(dst: RegId, src1: RegId, src2: RegId) -> InsnView {
    InsnView {
        bytes: seq![0x66u8, 0x0Fu8, 0x57u8, (0xC0 | ((dst & 0xF) << 3) | (src2 & 0xF)) as u8],
        length: 4,
        mnemonic: "xorpd xmm"@ + dec(dst as nat) + ", xmm"@ + dec(src2 as nat),
        is_control_flow: false,
        is_memory_op: false,
    }
}

fn encode_x86_fsgnjx(dst: RegId, src1: RegId, src2: RegId) -> (r: TargetInstruction)
    ensures
        r@ == encode_x86_fsgnjx_spec(dst, src1, src2),
{
    let mut m = text("xorpd xmm");
    push_u64(&mut m, dst as u64);
    push_text(&mut m, ", xmm");
    push_u64(&mut m, src2 as u64);
    let bytes: Vec<u8> = vec![0x66, 0x0F, 0x57, (0xC0 | ((dst & 0xF) << 3) | (src2 & 0xF)) as u8];
    TargetInstruction { bytes, length: 4, mnemonic: m, is_control_flow: false, is_memory_op: false }
}

pub open spec fn encode_x86_fsgnjs_spec(dst: RegId, src1: RegId, src2: RegId) -> InsnView {
    InsnView {
        bytes: seq![0xF3u8, 0x0Fu8, 0x38u8, 0x15u8, (0xC0 | ((dst & 0xF) << 3) | (src2 & 0xF)) as u8],
        length: 5,
        mnemonic: "blendvps xmm"@ + dec(dst as nat) + ", xmm"@ + dec(src1 as nat) + ", xmm"@ + dec(src2 as nat),
        is_control_flow: false,
        is_memory_op: false,
    }
}

fn encode_x86_fsgnjs(dst: RegId, src1: RegId, src2: RegId) -> (r: TargetInstruction)
    ensures
        r@ == encode_x86_fsgnjs_spec(dst, src1, src2),
{
    let mut m = text("blendvps xmm");
    push_u64(&mut m, dst as u64);
    push_text(&mut m, ", xmm");
    push_u64(&mut m, src1 as u64);
    push_text(&mut m, ", xmm");
    push_u64(&mut m, src2 as u64);
    let bytes: Vec<u8> = vec![0xF3, 0x0F, 0x38, 0x15, (0xC0 | ((dst & 0xF) << 3) | (src2 & 0xF)) as u8];
    TargetInstruction { bytes, length: 5, mnemonic: m, is_control_flow: false, is_memory_op: false }
}

pub open spec fn encode_x86_fsgnjns_spec(dst: RegId, src1: RegId, src2: RegId) -> InsnView {
    InsnView {
        bytes: seq![0x0Fu8, 0x57u8, (0xC0 | ((dst & 0xF) << 3) | (src2 & 0xF)) as u8],
        length: 4,
        mnemonic: "xorps xmm"@ + dec(dst as nat) + ", xmm"@ + dec(src2 as nat),
        is_control_flow: false,
        is_memory_op: false,
    }
}

fn encode_x86_fsgnjns(dst: RegId, src1: RegId, src2: RegId) -> (r: TargetInstruction)
    ensures
        r@ == encode_x86_fsgnjns_spec(dst, src1, src2),
{
    let mut m = text("xorps xmm");
    push_u64(&mut m, dst as u64);
    push_text(&mut m, ", xmm");
    push_u64(&mut m, src2 as u64);
    let bytes: Vec<u8> = vec![0x0F, 0x57, (0xC0 | ((dst & 0xF) << 3) | (src2 & 0xF)) as u8];
    TargetInstruction { bytes, length: 4, mnemonic: m, is_control_flow: false, is_memory_op: false }
}

pub open spec fn encode_x86_fsgnjxs_spec(dst: RegId, src1: RegId, src2: RegId) -> InsnView {
    InsnView {
        bytes: seq![0x0Fu8, 0x57u8, (0xC0 | ((dst & 0xF) << 3) | (src2 & 0xF)) as u8],
        length: 4,
        mnemonic: "xorps xmm"@ + dec(dst as nat) + ", xmm"@ + dec(src2 as nat),
        is_control_flow: false,
        is_memory_op: false,
    }
}

fn encode_x86_fsgnjxs(dst: RegId, src1: RegId, src2: RegId) -> (r: TargetInstruction)
    ensures
        r@ == encode_x86_fsgnjxs_spec(dst, src1, src2),
{
    let mut m = text("xorps xmm");
    push_u64(&mut m, dst as u64);
    push_text(&mut m, ", xmm");
    push_u64(&mut m, src2 as u64);
    let bytes: Vec<u8> = vec![0x0F, 0x57, (0xC0 | ((dst & 0xF) << 3) | (src2 & 0xF)) as u8];
    TargetInstruction { bytes, length: 4, mnemonic: m, is_control_flow: false, is_memory_op: false }
}

pub open spec fn encode_x86_fclass_spec(dst: RegId, src: RegId) -> InsnView {
    InsnView {
        bytes: seq![0x66u8, 0x0Fu8, 0xC2u8, (0xC0 | ((dst & 0xF) << 3) | (src & 0xF)) as u8, 0x03u8],
        length: 5,
        mnemonic: "cmpunordsd xmm"@ + dec(dst as nat) + ", xmm"@ + dec(src as nat),
        is_control_flow: false,
        is_memory_op: false,
    }
}

fn encode_x86_fclass(dst: RegId, src: RegId) -> (r: TargetInstruction)
    ensures
        r@ == encode_x86_fclass_spec(dst, src),
{
    let mut m = text("cmpunordsd xmm");
    push_u64(&mut m, dst as u64);
    push_text(&mut m, ", xmm");
    push_u64(&mut m, src as u64);
    let bytes: Vec<u8> = vec![0x66, 0x0F, 0xC2, (0xC0 | ((dst & 0xF) << 3) | (src & 0xF)) as u8, 0x03];
    TargetInstruction { bytes, length: 5, mnemonic: m, is_control_flow: false, is_memory_op: false }
}

pub open spec fn encode_x86_fclasss_spec(dst: RegId, src: RegId) -> InsnView {
    InsnView {
        bytes: seq![0xF3u8, 0x0Fu8, 0xC2u8, (0xC0 | ((dst & 0xF) << 3) | (src & 0xF)) as u8, 0x03u8],
        length: 5,
        mnemonic: "cmpunordss xmm"@ + dec(dst as nat) + ", xmm"@ + dec(src as nat),
        is_control_flow: false,
        is_memory_op: false,
    }
}

fn encode_x86_fclasss(dst: RegId, src: RegId) -> (r: TargetInstruction)
    ensures
        r@ == encode_x86_fclasss_spec(dst, src),
{
    let mut m = text("cmpunordss xmm");
    push_u64(&mut m, dst as u64);
    push_text(&mut m, ", xmm");
    push_u64(&mut m, src as u64);
    let bytes: Vec<u8> = vec![0xF3, 0x0F, 0xC2, (0xC0 | ((dst & 0xF) << 3) | (src & 0xF)) as u8, 0x03];
    TargetInstruction { bytes, length: 5, mnemonic: m, is_control_flow: false, is_memory_op: false }
}

pub open spec fn encode_x86_fmvxw_spec(dst: RegId, src: RegId) -> InsnView {
    InsnView {
        bytes: seq![0x66u8, 0x0Fu8, 0x7Eu8, (0xC0 | ((dst & 7) << 3) | (src & 0xF)) as u8],
        length: 4,
        mnemonic: "movd r"@ + dec(dst as nat) + ", xmm"@ + dec(src as nat),
        is_control_flow: false,
        is_memory_op: false,
    }
}

fn encode_x86_fmvxw(dst: RegId, src: RegId) -> (r: TargetInstruction)
    ensures
        r@ == encode_x86_fmvxw_spec(dst, src),
{
    let mut m = text("movd r");
    push_u64(&mut m, dst as u64);
    push_text(&mut m, ", xmm");
    push_u64(&mut m, src as u64);
    let bytes: Vec<u8> = vec![0x66, 0x0F, 0x7E, (0xC0 | ((dst & 7) << 3) | (src & 0xF)) as u8];
    TargetInstruction { bytes, length: 4, mnemonic: m, is_control_flow: false, is_memory_op: false }
}

pub open spec fn encode_x86_fmvwx_spec(dst: RegId, src: RegId) -> InsnView {
    InsnView {
        bytes: seq![0x66u8, 0x0Fu8, 0x6Eu8, (0xC0 | ((dst & 0xF) << 3) | (src & 7)) as u8],
        length: 4,
        mnemonic: "movd xmm"@ + dec(dst as nat) + ", r"@ + dec(src as nat),
        is_control_flow: false,
        is_memory_op: false,
    }
}

fn encode_x86_fmvwx(dst: RegId, src: RegId) -> (r: TargetInstruction)
    ensures
        r@ == encode_x86_fmvwx_spec(dst, src),
{
    let mut m = text("movd xmm");
    push_u64(&mut m, dst as u64);
    push_text(&mut m, ", r");
    push_u64(&mut m, src as u64);
    let bytes: Vec<u8> = vec![0x66, 0x0F, 0x6E, (0xC0 | ((dst & 0xF) << 3) | (src & 7)) as u8];
    TargetInstruction { bytes, length: 4, mnemonic: m, is_control_flow: false, is_memory_op: false }
}

pub open spec fn encode_x86_fmvxd_spec(dst: RegId, src: RegId) -> InsnView {
    InsnView {
        bytes: seq![0x66u8, 0x48u8, 0x0Fu8, 0x7Eu8, (0xC0 | ((dst & 7) << 3) | (src & 0xF)) as u8],
        length: 5,
        mnemonic: "movq r"@ + dec(dst as nat) + ", xmm"@ + dec(src as nat),
        is_control_flow: false,
        is_memory_op: false,
    }
}

fn encode_x86_fmvxd(dst: RegId, src: RegId) -> (r: TargetInstruction)
    ensures
        r@ == encode_x86_fmvxd_spec(dst, src),
{
    let mut m = text("movq r");
    push_u64(&mut m, dst as u64);
    push_text(&mut m, ", xmm");
    push_u64(&mut m, src as u64);
    let bytes: Vec<u8> = vec![0x66, 0x48, 0x0F, 0x7E, (0xC0 | ((dst & 7) << 3) | (src & 0xF)) as u8];
    TargetInstruction { bytes, length: 5, mnemonic: m, is_control_flow: false, is_memory_op: false }
}

pub open spec fn encode_x86_fmvdx_spec(dst: RegId, src: RegId) -> InsnView {
    InsnView {
        bytes: seq![0x66u8, 0x48u8, 0x0Fu8, 0x6Eu8, (0xC0 | ((dst & 0xF) << 3) | (src & 7)) as u8],
        length: 5,
        mnemonic: "movq xmm"@ + dec(dst as nat) + ", r"@ + dec(src as nat),
        is_control_flow: false,
        is_memory_op: false,
    }
}

fn encode_x86_fmvdx(dst: RegId, src: RegId) -> (r: TargetInstruction)
    ensures
        r@ == encode_x86_fmvdx_spec(dst, src),
{
    let mut m = text("movq xmm");
    push_u64(&mut m, dst as u64);
    push_text(&mut m, ", r");
    push_u64(&mut m, src as u64);
    let bytes: Vec<u8> = vec![0x66, 0x48, 0x0F, 0x6E, (0xC0 | ((dst & 0xF) << 3) | (src & 7)) as u8];
    TargetInstruction { bytes, length: 5, mnemonic: m, is_control_flow: false, is_memory_op: false }
}

pub open spec fn encode_x86_cvttss2si_u_spec(dst: RegId, src: RegId) -> InsnView {
    InsnView {
        bytes: seq![0xF3u8, 0x0Fu8, 0x2Cu8, (0xC0 | ((dst & 7) << 3) | (src & 0xF)) as u8],
        length: 4,
        mnemonic: "cvttss2si r"@ + dec(dst as nat) + ", xmm"@ + dec(src as nat),
        is_control_flow: false,
        is_memory_op: false,
    }
}

fn encode_x86_cvttss2si_u(dst: RegId, src: RegId) -> (r: TargetInstruction)
    ensures
        r@ == encode_x86_cvttss2si_u_spec(dst, src),
{
    let mut m = text("cvttss2si r");
    push_u64(&mut m, dst as u64);
    push_text(&mut m, ", xmm");
    push_u64(&mut m, src as u64);
    let bytes: Vec<u8> = vec![0xF3, 0x0F, 0x2C, (0xC0 | ((dst & 7) << 3) | (src & 0xF)) as u8];
    TargetInstruction { bytes, length: 4, mnemonic: m, is_control_flow: false, is_memory_op: false }
}

pub open spec fn encode_x86_cvttss2si64_u_spec(dst: RegId, src: RegId) -> InsnView {
    InsnView {
        bytes: seq![0xF3u8, 0x48u8, 0x0Fu8, 0x2Cu8, (0xC0 | ((dst & 7) << 3) | (src & 0xF)) as u8],
        length: 5,
        mnemonic: "cvttss2si r"@ + dec(dst as nat) + ", xmm"@ + dec(src as nat),
        is_control_flow: false,
        is_memory_op: false,
    }
}

fn encode_x86_cvttss2si64_u(dst: RegId, src: RegId) -> (r: TargetInstruction)
    ensures
        r@ == encode_x86_cvttss2si64_u_spec(dst, src),
{
    let mut m = text("cvttss2si r");
    push_u64(&mut m, dst as u64);
    push_text(&mut m, ", xmm");
    push_u64(&mut m, src as u64);
    let bytes: Vec<u8> = vec![0xF3, 0x48, 0x0F, 0x2C, (0xC0 | ((dst & 7) << 3) | (src & 0xF)) as u8];
    TargetInstruction { bytes, length: 5, mnemonic: m, is_control_flow: false, is_memory_op: false }
}

pub open spec fn encode_x86_cvtsi2ss_u_spec(dst: RegId, src: RegId) -> InsnView {
    InsnView {
        bytes: seq![0xF3u8, 0x0Fu8, 0x2Au8, (0xC0 | ((dst & 0xF) << 3) | (src & 7)) as u8],
        length: 4,
        mnemonic: "cvtsi2ss xmm"@ + dec(dst as nat) + ", r"@ + dec(src as nat),
        is_control_flow: false,
        is_memory_op: false,
    }
}

fn encode_x86_cvtsi2ss_u(dst: RegId, src: RegId) -> (r: TargetInstruction)
    ensures
        r@ == encode_x86_cvtsi2ss_u_spec(dst, src),
{
    let mut m = text("cvtsi2ss xmm");
    push_u64(&mut m, dst as u64);
    push_text(&mut m, ", r");
    push_u64(&mut m, src as u64);
    let bytes: Vec<u8> = vec![0xF3, 0x0F, 0x2A, (0xC0 | ((dst & 0xF) << 3) | (src & 7)) as u8];
    TargetInstruction { bytes, length: 4, mnemonic: m, is_control_flow: false, is_memory_op: false }
}

pub open spec fn encode_x86_cvtsi2ss64_u_spec(dst: RegId, src: RegId) -> InsnView {
    InsnView {
        bytes: seq![0xF3u8, 0x48u8, 0x0Fu8, 0x2Au8, (0xC0 | ((dst & 0xF) << 3) | (src & 7)) as u8],
        length: 5,
        mnemonic: "cvtsi2ss xmm"@ + dec(dst as nat) + ", r"@ + dec(src as nat),
        is_control_flow: false,
        is_memory_op: false,
    }
}

fn encode_x86_cvtsi2ss64_u(dst: RegId, src: RegId) -> (r: TargetInstruction)
    ensures
        r@ == encode_x86_cvtsi2ss64_u_spec(dst, src),
{
    let mut m = text("cvtsi2ss xmm");
    push_u64(&mut m, dst as u64);
    push_text(&mut m, ", r");
    push_u64(&mut m, src as u64);
    let bytes: Vec<u8> = vec![0xF3, 0x48, 0x0F, 0x2A, (0xC0 | ((dst & 0xF) << 3) | (src & 7)) as u8];
    TargetInstruction { bytes, length: 5, mnemonic: m, is_control_flow: false, is_memory_op: false }
}

pub open spec fn encode_x86_cvttsd2si_u_spec(dst: RegId, src: RegId) -> InsnView {
    InsnView {
        bytes: seq![0xF2u8, 0x0Fu8, 0x2Cu8, (0xC0 | ((dst & 7) << 3) | (src & 0xF)) as u8],
        length: 4,
        mnemonic: "cvttsd2si r"@ + dec(dst as nat) + ", xmm"@ + dec(src as nat),
        is_control_flow: false,
        is_memory_op: false,
    }
}

fn encode_x86_cvttsd2si_u(dst: RegId, src: RegId) -> (r: TargetInstruction)
    ensures
        r@ == encode_x86_cvttsd2si_u_spec(dst, src),
{
    let mut m = text("cvttsd2si r");
    push_u64(&mut m, dst as u64);
    push_text(&mut m, ", xmm");
    push_u64(&mut m, src as u64);
    let bytes: Vec<u8> = vec![0xF2, 0x0F, 0x2C, (0xC0 | ((dst & 7) << 3) | (src & 0xF)) as u8];
    TargetInstruction { bytes, length: 4, mnemonic: m, is_control_flow: false, is_memory_op: false }
}

pub open spec fn encode_x86_cvttsd2si64_u_spec(dst: RegId, src: RegId) -> InsnView {
    InsnView {
        bytes: seq![0xF2u8, 0x48u8, 0x0Fu8, 0x2Cu8, (0xC0 | ((dst & 7) << 3) | (src & 0xF)) as u8],
        length: 5,
        mnemonic: "cvttsd2si r"@ + dec(dst as nat) + ", xmm"@ + dec(src as nat),
        is_control_flow: false,
        is_memory_op: false,
    }
}

fn encode_x86_cvttsd2si64_u(dst: RegId, src: RegId) -> (r: TargetInstruction)
    ensures
        r@ == encode_x86_cvttsd2si64_u_spec(dst, src),
{
    let mut m = text("cvttsd2si r");
    push_u64(&mut m, dst as u64);
    push_text(&mut m, ", xmm");
    push_u64(&mut m, src as u64);
    let bytes: Vec<u8> = vec![0xF2, 0x48, 0x0F, 0x2C, (0xC0 | ((dst & 7) << 3) | (src & 0xF)) as u8];
    TargetInstruction { bytes, length: 5, mnemonic: m, is_control_flow: false, is_memory_op: false }
}

pub open spec fn encode_x86_cvtsi2sd_spec(dst: RegId, src: RegId) -> InsnView {
    InsnView {
        bytes: seq![0xF2u8, 0x0Fu8, 0x2Au8, (0xC0 | ((dst & 0xF) << 3) | (src & 7)) as u8],
        length: 4,
        mnemonic: "cvtsi2sd xmm"@ + dec(dst as nat) + ", r"@ + dec(src as nat),
        is_control_flow: false,
        is_memory_op: false,
    }
}

fn encode_x86_cvtsi2sd(dst: RegId, src: RegId) -> (r: TargetInstruction)
    ensures
        r@ == encode_x86_cvtsi2sd_spec(dst, src),
{
    let mut m = text("cvtsi2sd xmm");
    push_u64(&mut m, dst as u64);
    push_text(&mut m, ", r");
    push_u64(&mut m, src as u64);
    let bytes: Vec<u8> = vec![0xF2, 0x0F, 0x2A, (0xC0 | ((dst & 0xF) << 3) | (src & 7)) as u8];
    TargetInstruction { bytes, length: 4, mnemonic: m, is_control_flow: false, is_memory_op: false }
}

pub open spec fn encode_x86_cvtsi2sd_u_spec(dst: RegId, src: RegId) -> InsnView {
    InsnView {
        bytes: seq![0xF2u8, 0x0Fu8, 0x2Au8, (0xC0 | ((dst & 0xF) << 3) | (src & 7)) as u8],
        length: 4,
        mnemonic: "cvtsi2sd xmm"@ + dec(dst as nat) + ", r"@ + dec(src as nat),
        is_control_flow: false,
        is_memory_op: false,
    }
}

fn encode_x86_cvtsi2sd_u(dst: RegId, src: RegId) -> (r: TargetInstruction)
    ensures
        r@ == encode_x86_cvtsi2sd_u_spec(dst, src),
{
    let mut m = text("cvtsi2sd xmm");
    push_u64(&mut m, dst as u64);
    push_text(&mut m, ", r");
    push_u64(&mut m, src as u64);
    let bytes: Vec<u8> = vec![0xF2, 0x0F, 0x2A, (0xC0 | ((dst & 0xF) << 3) | (src & 7)) as u8];
    TargetInstruction { bytes, length: 4, mnemonic: m, is_control_flow: false, is_memory_op: false }
}

pub open spec fn encode_x86_cvtsi2sd64_u_spec(dst: RegId, src: RegId) -> InsnView {
    InsnView {
        bytes: seq![0xF2u8, 0x48u8, 0x0Fu8, 0x2Au8, (0xC0 | ((dst & 0xF) << 3) | (src & 7)) as u8],
        length: 5,
        mnemonic: "cvtsi2sd xmm"@ + dec(dst as nat) + ", r"@ + dec(src as nat),
        is_control_flow: false,
        is_memory_op: false,
    }
}

fn encode_x86_cvtsi2sd64_u(dst: RegId, src: RegId) -> (r: TargetInstruction)
    ensures
        r@ == encode_x86_cvtsi2sd64_u_spec(dst, src),
{
    let mut m = text("cvtsi2sd xmm");
    push_u64(&mut m, dst as u64);
    push_text(&mut m, ", r");
    push_u64(&mut m, src as u64);
    let bytes: Vec<u8> = vec![0xF2, 0x48, 0x0F, 0x2A, (0xC0 | ((dst & 0xF) << 3) | (src & 7)) as u8];
    TargetInstruction { bytes, length: 5, mnemonic: m, is_control_flow: false, is_memory_op: false }
}

/// `m` is the ModR/M byte of a register-direct operand: mod = 0b11, the reg
/// field holds `reg` and the r/m field `rm` (register numbers modulo 8).
pub open spec fn x86_modrm_direct(m: u8, reg: u32, rm: u32) -> bool {
    &&& m >> 6u8 == 3
    &&& ((m >> 3u8) & 7u8) as u32 == reg & 7
    &&& (m & 7u8) as u32 == rm & 7
}

proof fn lemma_x86_modrm_fields(reg: u32, rm: u32)
    by (bit_vector)
    ensures
        x86_modrm_direct((0xC0 | ((reg & 7) << 3) | (rm & 7)) as u8, reg, rm),
        x86_modrm_direct((0xC0 | (rm & 7)) as u8, 0, rm),
{
}

/// The x86-64 bytes of the integer addition and subtraction, against the
/// Intel opcode tables: `Add` is `REX.W 01 /r` (ADD r/m64, r64) and `Sub` is
/// `REX.W 29 /r` (SUB r/m64, r64), each with a register-direct ModR/M byte
/// whose r/m field is `dst` and whose reg field is `src2`, so the machine
/// computes `dst = dst + src2` (or `dst - src2`).
#[verifier::spinoff_prover]
pub proof fn lemma_x86_add_sub_bytes(dst: RegId, src1: RegId, src2: RegId)
    ensures
        x86_encode_spec(IROp::Add { dst, src1, src2 }) matches Ok(s) && s.len() == 1 && s[0].length == 3
            && s[0].bytes.len() == 3 && s[0].bytes[0] == 0x48 && s[0].bytes[1] == 0x01
            && x86_modrm_direct(s[0].bytes[2], src2, dst),
        x86_encode_spec(IROp::Sub { dst, src1, src2 }) matches Ok(s) && s.len() == 1 && s[0].length == 3
            && s[0].bytes.len() == 3 && s[0].bytes[0] == 0x48 && s[0].bytes[1] == 0x29
            && x86_modrm_direct(s[0].bytes[2], src2, dst),
{
    lemma_x86_modrm_fields(src2, dst);
}

/// The x86-64 bytes of an addition of an immediate: `REX.W 81 /0 id`
/// (ADD r/m64, imm32) with a register-direct ModR/M byte on `dst` and the
/// low 32 bits of the immediate in little-endian order.
#[verifier::spinoff_prover]
pub proof fn lemma_x86_add_imm_bytes(dst: RegId, src: RegId, imm: i64)
    ensures
        x86_encode_spec(IROp::AddImm { dst, src, imm }) matches Ok(s) && s.len() == 1 && s[0].length == 7
            && s[0].bytes.len() == 7 && s[0].bytes[0] == 0x48 && s[0].bytes[1] == 0x81
            && x86_modrm_direct(s[0].bytes[2], 0, dst)
            && fetched_word(s[0].bytes.subrange(3, 7)) == imm as i32 as u32,
{
    lemma_x86_modrm_fields(0, dst);
    lemma_fetched_le32(imm as i32 as u32);
    let addi = encode_x86_add_imm_spec(dst, src, imm);
    assert(addi.bytes.subrange(3, 7) =~= le32(imm as i32 as u32));
    assert(addi.bytes.len() == 7);
    assert(addi.bytes[0] == 0x48 && addi.bytes[1] == 0x81 && addi.bytes[2] == (0xC0 | (dst & 7)) as u8);
    assert(x86_encode_spec(IROp::AddImm { dst, src, imm }) == Ok::<Seq<InsnView>, EncodeFailure>(seq![addi]));
}

proof fn lemma_x86_mov_prefix_fields(dst: u32)
    by (bit_vector)
    ensures
        (0x48u8 | ((dst & 8) >> 3) as u8) & 0xF8u8 == 0x48u8,
        ((0x48u8 | ((dst & 8) >> 3) as u8) & 1u8) as u32 == (dst >> 3u32) & 1,
        (0xB8u8 | (dst & 7) as u8) & 0xF8u8 == 0xB8u8,
        ((0xB8u8 | (dst & 7) as u8) & 7u8) as u32 == dst & 7,
{
}

/// The x86-64 bytes of an immediate move: `MOV r64, imm64` (`REX.W B8+rd
/// io`): a REX prefix 0100_100B whose B bit is bit 3 of `dst`, the opcode
/// B8 plus the low three bits of `dst`, then the eight bytes of `imm` in
/// little-endian order.
#[verifier::spinoff_prover]
pub proof fn lemma_x86_mov_imm_bytes(dst: RegId, imm: u64)
    ensures
        x86_encode_spec(IROp::MovImm { dst, imm }) matches Ok(s) && s.len() == 1 && s[0].length == 10
            && s[0].bytes.len() == 10 && s[0].bytes[0] & 0xF8u8 == 0x48u8
            && (s[0].bytes[0] & 1u8) as u32 == (dst >> 3u32) & 1 && s[0].bytes[1] & 0xF8u8 == 0xB8u8
            && (s[0].bytes[1] & 7u8) as u32 == dst & 7 && fetched_u64(s[0].bytes.subrange(2, 10)) == imm,
{
    lemma_x86_mov_prefix_fields(dst);
    lemma_fetched_le64(imm);
    let mov = encode_x86_mov_imm_spec(dst, imm);
    assert(mov.bytes.subrange(2, 10) =~= le64(imm));
    assert(mov.bytes.len() == 10);
    assert(x86_encode_spec(IROp::MovImm { dst, imm }) == Ok::<Seq<InsnView>, EncodeFailure>(seq![mov]));
}

proof fn lemma_x86_sse_modrm(reg: u32, rm: u32)
    by (bit_vector)
    requires
        reg < 8,
        rm < 8,
    ensures
        x86_modrm_direct((0xC0 | ((reg & 0xF) << 3) | (rm & 0xF)) as u8, reg, rm),
{
}

/// The x86-64 bytes of the double-precision arithmetic, against the Intel
/// tables: `F2 0F 58 /r` ADDSD, `F2 0F 5C /r` SUBSD, `F2 0F 59 /r` MULSD and
/// `F2 0F 5E /r` DIVSD, with a register-direct ModR/M byte whose reg field
/// is `dst` and whose r/m field is `src2`, so the machine computes
/// `dst = dst op src2`. Left out: registers 8 and above, whose numbers this
/// encoder puts into the ModR/M byte without a REX prefix.
#[verifier::spinoff_prover]
pub proof fn lemma_x86_scalar_double_bytes(dst: RegId, src1: RegId, src2: RegId)
    requires
        dst < 8,
        src2 < 8,
    ensures
        forall|k: int| #![trigger x86_sse_double(k, dst, src1, src2)] 0 <= k < 4 ==> {
            let b = x86_sse_double(k, dst, src1, src2);
            &&& b.len() == 4
            &&& b[0] == 0xF2 && b[1] == 0x0F
            &&& b[2] == (if k == 0 { 0x58u8 } else if k == 1 { 0x5Cu8 } else if k == 2 { 0x59u8 } else { 0x5Eu8 })
            &&& x86_modrm_direct(b[3], dst, src2)
        },
{
    lemma_x86_sse_modrm(dst, src2);
    assert forall|k: int| #![trigger x86_sse_double(k, dst, src1, src2)] 0 <= k < 4 implies {
        let b = x86_sse_double(k, dst, src1, src2);
        &&& b.len() == 4
        &&& b[0] == 0xF2 && b[1] == 0x0F
        &&& b[2] == (if k == 0 { 0x58u8 } else if k == 1 { 0x5Cu8 } else if k == 2 { 0x59u8 } else { 0x5Eu8 })
        &&& x86_modrm_direct(b[3], dst, src2)
    } by {
        let op = if k == 0 {
            IROp::Fadd { dst, src1, src2 }
        } else if k == 1 {
            IROp::Fsub { dst, src1, src2 }
        } else if k == 2 {
            IROp::Fmul { dst, src1, src2 }
        } else {
            IROp::Fdiv { dst, src1, src2 }
        };
        assert(x86_encode_spec(op) matches Ok(s) && s.len() == 1);
    }
}

/// The bytes that `Fadd`, `Fsub`, `Fmul` and `Fdiv` (for `k` = 0, 1, 2, 3)
/// encode to, as one instruction.
pub open spec fn x86_sse_double(k: int, dst: RegId, src1: RegId, src2: RegId) -> Seq<u8> {
    let op = if k == 0 {
        IROp::Fadd { dst, src1, src2 }
    } else if k == 1 {
        IROp::Fsub { dst, src1, src2 }
    } else if k == 2 {
        IROp::Fmul { dst, src1, src2 }
    } else {
        IROp::Fdiv { dst, src1, src2 }
    };
    match x86_encode_spec(op) {
        Ok(s) => if s.len() == 1 { s[0].bytes } else { Seq::empty() },
        Err(_) => Seq::empty(),
    }
}

} // verus!
