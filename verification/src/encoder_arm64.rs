//! ARM64 encoder: IR operations to A64 machine code.

use vstd::prelude::*;
use crate::encoding::{
    append_insns, fetched_word, lemma_fetched_le32, four_lanes, insns_view, lift_single, outcome_matches, single, single_matches, then_outcome,
    then_result, word_insn, word_view, Architecture, EncodeFailure, EncodeOutcome, InsnView,
    TargetInstruction, TranslationError,
};
use crate::encoder::{ir_op_debug, ArchEncoder};
use crate::ir::{atomic_op_name, atomic_op_text, AtomicOp, GuestAddr, IROp, MemFlags, RegId};
use crate::text::{dec, dec_int, push_i64, push_text, push_u64, text, text_num};

verus! {

/// Encoder for ARM64 targets.
pub struct Arm64Encoder;

/// What `Arm64Encoder::encode_op` produces for `op`.
pub open spec fn arm64_encode_spec(op: IROp) -> EncodeOutcome {
    match op {
        IROp::Add { dst, src1, src2 } => Ok(seq![encode_arm64_add_spec(dst, src1, src2)]),
        IROp::Sub { dst, src1, src2 } => Ok(seq![encode_arm64_sub_spec(dst, src1, src2)]),
        IROp::AddImm { dst, src, imm } => lift_single(encode_arm64_add_imm_spec(dst, src, imm)),
        IROp::MovImm { dst, imm } => encode_arm64_mov_imm_spec(dst, imm),
        IROp::Load { dst, base, offset, size, .. } => lift_single(encode_arm64_load_spec(dst, base, offset, size)),
        IROp::Store { src, base, offset, size, .. } => lift_single(encode_arm64_store_spec(src, base, offset, size)),
        IROp::VecAdd { dst, src1, src2, element_size } => encode_arm64_simd_add_spec(dst, src1, src2, element_size),
        IROp::VecSub { dst, src1, src2, element_size } => encode_arm64_simd_sub_spec(dst, src1, src2, element_size),
        IROp::VecMul { dst, src1, src2, element_size } => encode_arm64_simd_mul_spec(dst, src1, src2, element_size),
        IROp::VecAddSat { dst, src1, src2, element_size, signed } => encode_arm64_simd_addsat_spec(dst, src1, src2, element_size, signed),
        IROp::VecSubSat { dst, src1, src2, element_size, signed } => encode_arm64_simd_subsat_spec(dst, src1, src2, element_size, signed),
        IROp::VecMulSat { dst, src1, src2, element_size, signed } => encode_arm64_simd_mulsat_spec(dst, src1, src2, element_size, signed),
        IROp::Vec128Add { dst_lo, dst_hi, src1_lo, src1_hi, src2_lo, src2_hi, element_size, signed } => encode_arm64_vec128_add_spec(dst_lo, dst_hi, src1_lo, src1_hi, src2_lo, src2_hi, element_size, signed),
        IROp::Vec256Add { dst0, dst1, dst2, dst3, src10, src11, src12, src13, src20, src21, src22, src23, element_size, signed } => encode_arm64_vec256_add_spec(dst0, dst1, dst2, dst3, src10, src11, src12, src13, src20, src21, src22, src23, element_size, signed),
        IROp::Vec256Sub { dst0, dst1, dst2, dst3, src10, src11, src12, src13, src20, src21, src22, src23, element_size, signed } => encode_arm64_vec256_sub_spec(dst0, dst1, dst2, dst3, src10, src11, src12, src13, src20, src21, src22, src23, element_size, signed),
        IROp::Vec256Mul { dst0, dst1, dst2, dst3, src10, src11, src12, src13, src20, src21, src22, src23, element_size, signed } => encode_arm64_vec256_mul_spec(dst0, dst1, dst2, dst3, src10, src11, src12, src13, src20, src21, src22, src23, element_size, signed),
        IROp::Fadd { dst, src1, src2 } => Ok(seq![encode_arm64_fadd_spec(dst, src1, src2)]),
        IROp::Fsub { dst, src1, src2 } => Ok(seq![encode_arm64_fsub_spec(dst, src1, src2)]),
        IROp::Fmul { dst, src1, src2 } => Ok(seq![encode_arm64_fmul_spec(dst, src1, src2)]),
        IROp::Fdiv { dst, src1, src2 } => Ok(seq![encode_arm64_fdiv_spec(dst, src1, src2)]),
        IROp::FaddS { dst, src1, src2 } => Ok(seq![encode_arm64_fadds_spec(dst, src1, src2)]),
        IROp::FsubS { dst, src1, src2 } => Ok(seq![encode_arm64_fsubs_spec(dst, src1, src2)]),
        IROp::FmulS { dst, src1, src2 } => Ok(seq![encode_arm64_fmuls_spec(dst, src1, src2)]),
        IROp::FdivS { dst, src1, src2 } => Ok(seq![encode_arm64_fdivs_spec(dst, src1, src2)]),
        IROp::Fsqrt { dst, src } => Ok(seq![encode_arm64_fsqrt_spec(dst, src)]),
        IROp::FsqrtS { dst, src } => Ok(seq![encode_arm64_fsqrts_spec(dst, src)]),
        IROp::Fmadd { dst, src1, src2, src3 } => Ok(seq![encode_arm64_fmadd_spec(dst, src1, src2, src3)]),
        IROp::Fmsub { dst, src1, src2, src3 } => Ok(seq![encode_arm64_fmsub_spec(dst, src1, src2, src3)]),
        IROp::Fnmadd { dst, src1, src2, src3 } => Ok(seq![encode_arm64_fnmadd_spec(dst, src1, src2, src3)]),
        IROp::Fnmsub { dst, src1, src2, src3 } => Ok(seq![encode_arm64_fnmsub_spec(dst, src1, src2, src3)]),
        IROp::FmaddS { dst, src1, src2, src3 } => Ok(seq![encode_arm64_fmadds_spec(dst, src1, src2, src3)]),
        IROp::FmsubS { dst, src1, src2, src3 } => Ok(seq![encode_arm64_fmsubs_spec(dst, src1, src2, src3)]),
        IROp::FnmaddS { dst, src1, src2, src3 } => Ok(seq![encode_arm64_fnmadds_spec(dst, src1, src2, src3)]),
        IROp::FnmsubS { dst, src1, src2, src3 } => Ok(seq![encode_arm64_fnmsubs_spec(dst, src1, src2, src3)]),
        IROp::Feq { dst, src1, src2 } => Ok(seq![encode_arm64_fcompare_spec(dst, src1, src2)]),
        IROp::Flt { dst, src1, src2 } => Ok(seq![encode_arm64_fcomparelt_spec(dst, src1, src2)]),
        IROp::Fle { dst, src1, src2 } => Ok(seq![encode_arm64_fcomparele_spec(dst, src1, src2)]),
        IROp::FeqS { dst, src1, src2 } => Ok(seq![encode_arm64_fcompares_spec(dst, src1, src2)]),
        IROp::FltS { dst, src1, src2 } => Ok(seq![encode_arm64_fcomparelts_spec(dst, src1, src2)]),
        IROp::FleS { dst, src1, src2 } => Ok(seq![encode_arm64_fcompareles_spec(dst, src1, src2)]),
        IROp::Fmin { dst, src1, src2 } => Ok(seq![encode_arm64_fmin_spec(dst, src1, src2)]),
        IROp::Fmax { dst, src1, src2 } => Ok(seq![encode_arm64_fmax_spec(dst, src1, src2)]),
        IROp::FminS { dst, src1, src2 } => Ok(seq![encode_arm64_fmins_spec(dst, src1, src2)]),
        IROp::FmaxS { dst, src1, src2 } => Ok(seq![encode_arm64_fmaxs_spec(dst, src1, src2)]),
        IROp::Fabs { dst, src } => Ok(seq![encode_arm64_fabs_spec(dst, src)]),
        IROp::Fneg { dst, src } => Ok(seq![encode_arm64_fneg_spec(dst, src)]),
        IROp::FabsS { dst, src } => Ok(seq![encode_arm64_fabss_spec(dst, src)]),
        IROp::FnegS { dst, src } => Ok(seq![encode_arm64_fnegs_spec(dst, src)]),
        IROp::Fcvtws { dst, src } => Ok(seq![encode_arm64_fcvtzs_spec(dst, src)]),
        IROp::Fcvtsw { dst, src } => Ok(seq![encode_arm64_scvtf_spec(dst, src)]),
        IROp::Fcvtld { dst, src } => Ok(seq![encode_arm64_fcvtzs64_spec(dst, src)]),
        IROp::Fcvtdl { dst, src } => Ok(seq![encode_arm64_scvtf64_spec(dst, src)]),
        IROp::Fcvtsd { dst, src } => Ok(seq![encode_arm64_fcvts_spec(dst, src)]),
        IROp::Fcvtds { dst, src } => Ok(seq![encode_arm64_fcvtd_spec(dst, src)]),
        IROp::Fload { dst, base, offset, size, .. } => lift_single(encode_arm64_fload_spec(dst, base, offset, size)),
        IROp::Fstore { src, base, offset, size, .. } => lift_single(encode_arm64_fstore_spec(src, base, offset, size)),
        IROp::Fsgnj { dst, src1, src2 } => Ok(seq![encode_arm64_fsgnj_spec(dst, src1, src2)]),
        IROp::Fsgnjn { dst, src1, src2 } => Ok(seq![encode_arm64_fsgnjn_spec(dst, src1, src2)]),
        IROp::Fsgnjx { dst, src1, src2 } => Ok(seq![encode_arm64_fsgnjx_spec(dst, src1, src2)]),
        IROp::FsgnjS { dst, src1, src2 } => Ok(seq![encode_arm64_fsgnjs_spec(dst, src1, src2)]),
        IROp::FsgnjnS { dst, src1, src2 } => Ok(seq![encode_arm64_fsgnjns_spec(dst, src1, src2)]),
        IROp::FsgnjxS { dst, src1, src2 } => Ok(seq![encode_arm64_fsgnjxs_spec(dst, src1, src2)]),
        IROp::Fclass { dst, src } => Ok(seq![encode_arm64_fclass_spec(dst, src)]),
        IROp::FclassS { dst, src } => Ok(seq![encode_arm64_fclasss_spec(dst, src)]),
        IROp::FmvXW { dst, src } => Ok(seq![encode_arm64_fmvxw_spec(dst, src)]),
        IROp::FmvWX { dst, src } => Ok(seq![encode_arm64_fmvwx_spec(dst, src)]),
        IROp::FmvXD { dst, src } => Ok(seq![encode_arm64_fmvxd_spec(dst, src)]),
        IROp::FmvDX { dst, src } => Ok(seq![encode_arm64_fmvdx_spec(dst, src)]),
        IROp::Fcvtwus { dst, src } => Ok(seq![encode_arm64_fcvtzus_spec(dst, src)]),
        IROp::Fcvtlus { dst, src } => Ok(seq![encode_arm64_fcvtzus64_spec(dst, src)]),
        IROp::Fcvtswu { dst, src } => Ok(seq![encode_arm64_ucvtf_spec(dst, src)]),
        IROp::Fcvtslu { dst, src } => Ok(seq![encode_arm64_ucvtf64_spec(dst, src)]),
        IROp::Fcvtwd { dst, src } => Ok(seq![encode_arm64_fcvtzs_spec(dst, src)]),
        IROp::Fcvtwud { dst, src } => Ok(seq![encode_arm64_fcvtzus_spec(dst, src)]),
        IROp::Fcvtlud { dst, src } => Ok(seq![encode_arm64_fcvtzus64_spec(dst, src)]),
        IROp::Fcvtdw { dst, src } => Ok(seq![encode_arm64_scvtf_spec(dst, src)]),
        IROp::Fcvtdwu { dst, src } => Ok(seq![encode_arm64_ucvtf_spec(dst, src)]),
        IROp::Fcvtdlu { dst, src } => Ok(seq![encode_arm64_ucvtf64_spec(dst, src)]),
        IROp::AtomicRMW { dst, base, src, op, size } => encode_arm64_atomic_rmw_spec(dst, base, src, op, size),
        IROp::AtomicCmpXchg { dst, base, expected, new, size } => encode_arm64_atomic_compare_exchange_spec(dst, base, expected, new, size),
        IROp::AtomicLoadReserve { dst, base, offset, size, .. } => lift_single(encode_arm64_ldxr_spec(dst, base, offset, size)),
        IROp::AtomicStoreCond { src, base, offset, size, dst_flag, .. } => encode_arm64_stxr_spec(src, base, offset, size, dst_flag),
        _ => Err(EncodeFailure::UnsupportedOp(op)),
    }
}

/// Operations whose scaled-offset check would divide by a zero access size
/// are not encodable.
pub open spec fn arm64_encodable(op: IROp) -> bool {
    match op {
        IROp::Load { offset, size, .. } => arm64_offset_checkable(offset, size),
        IROp::Store { offset, size, .. } => arm64_offset_checkable(offset, size),
        IROp::Fload { offset, size, .. } => arm64_offset_checkable(offset, size),
        IROp::Fstore { offset, size, .. } => arm64_offset_checkable(offset, size),
        _ => true,
    }
}

impl ArchEncoder for Arm64Encoder {
    open spec fn encodable(&self, op: IROp) -> bool {
        arm64_encodable(op)
    }

    fn architecture(&self) -> (a: Architecture)
        ensures
            a == Architecture::ARM64,
    {
        Architecture::ARM64
    }

    /// Encodes one IR operation; operations without an ARM64 encoding here
    /// fail with `UnsupportedOperation` carrying the operation's `Debug` text.
    #[verifier::rlimit(60)]
    fn encode_op(&self, op: &IROp, pc: GuestAddr) -> (r: Result<Vec<TargetInstruction>, TranslationError>)
        ensures
            outcome_matches(r, arm64_encode_spec(*op)),
    {
        match *op {
            IROp::Add { dst, src1, src2 } => Ok(single(encode_arm64_add(dst, src1, src2))),
            IROp::Sub { dst, src1, src2 } => Ok(single(encode_arm64_sub(dst, src1, src2))),
            IROp::AddImm { dst, src, imm } => match encode_arm64_add_imm(dst, src, imm) {
                Ok(i) => Ok(single(i)),
                Err(e) => Err(e),
            },
            IROp::MovImm { dst, imm } => encode_arm64_mov_imm(dst, imm),
            IROp::Load { dst, base, offset, size, .. } => match encode_arm64_load(dst, base, offset, size) {
                Ok(i) => Ok(single(i)),
                Err(e) => Err(e),
            },
            IROp::Store { src, base, offset, size, .. } => match encode_arm64_store(src, base, offset, size) {
                Ok(i) => Ok(single(i)),
                Err(e) => Err(e),
            },
            IROp::VecAdd { dst, src1, src2, element_size } => encode_arm64_simd_add(dst, src1, src2, element_size),
            IROp::VecSub { dst, src1, src2, element_size } => encode_arm64_simd_sub(dst, src1, src2, element_size),
            IROp::VecMul { dst, src1, src2, element_size } => encode_arm64_simd_mul(dst, src1, src2, element_size),
            IROp::VecAddSat { dst, src1, src2, element_size, signed } => encode_arm64_simd_addsat(dst, src1, src2, element_size, signed),
            IROp::VecSubSat { dst, src1, src2, element_size, signed } => encode_arm64_simd_subsat(dst, src1, src2, element_size, signed),
            IROp::VecMulSat { dst, src1, src2, element_size, signed } => encode_arm64_simd_mulsat(dst, src1, src2, element_size, signed),
            IROp::Vec128Add { dst_lo, dst_hi, src1_lo, src1_hi, src2_lo, src2_hi, element_size, signed } => encode_arm64_vec128_add(dst_lo, dst_hi, src1_lo, src1_hi, src2_lo, src2_hi, element_size, signed),
            IROp::Vec256Add { dst0, dst1, dst2, dst3, src10, src11, src12, src13, src20, src21, src22, src23, element_size, signed } => encode_arm64_vec256_add(dst0, dst1, dst2, dst3, src10, src11, src12, src13, src20, src21, src22, src23, element_size, signed),
            IROp::Vec256Sub { dst0, dst1, dst2, dst3, src10, src11, src12, src13, src20, src21, src22, src23, element_size, signed } => encode_arm64_vec256_sub(dst0, dst1, dst2, dst3, src10, src11, src12, src13, src20, src21, src22, src23, element_size, signed),
            IROp::Vec256Mul { dst0, dst1, dst2, dst3, src10, src11, src12, src13, src20, src21, src22, src23, element_size, signed } => encode_arm64_vec256_mul(dst0, dst1, dst2, dst3, src10, src11, src12, src13, src20, src21, src22, src23, element_size, signed),
            IROp::Fadd { dst, src1, src2 } => Ok(single(encode_arm64_fadd(dst, src1, src2))),
            IROp::Fsub { dst, src1, src2 } => Ok(single(encode_arm64_fsub(dst, src1, src2))),
            IROp::Fmul { dst, src1, src2 } => Ok(single(encode_arm64_fmul(dst, src1, src2))),
            IROp::Fdiv { dst, src1, src2 } => Ok(single(encode_arm64_fdiv(dst, src1, src2))),
            IROp::FaddS { dst, src1, src2 } => Ok(single(encode_arm64_fadds(dst, src1, src2))),
            IROp::FsubS { dst, src1, src2 } => Ok(single(encode_arm64_fsubs(dst, src1, src2))),
            IROp::FmulS { dst, src1, src2 } => Ok(single(encode_arm64_fmuls(dst, src1, src2))),
            IROp::FdivS { dst, src1, src2 } => Ok(single(encode_arm64_fdivs(dst, src1, src2))),
            IROp::Fsqrt { dst, src } => Ok(single(encode_arm64_fsqrt(dst, src))),
            IROp::FsqrtS { dst, src } => Ok(single(encode_arm64_fsqrts(dst, src))),
            IROp::Fmadd { dst, src1, src2, src3 } => Ok(single(encode_arm64_fmadd(dst, src1, src2, src3))),
            IROp::Fmsub { dst, src1, src2, src3 } => Ok(single(encode_arm64_fmsub(dst, src1, src2, src3))),
            IROp::Fnmadd { dst, src1, src2, src3 } => Ok(single(encode_arm64_fnmadd(dst, src1, src2, src3))),
            IROp::Fnmsub { dst, src1, src2, src3 } => Ok(single(encode_arm64_fnmsub(dst, src1, src2, src3))),
            IROp::FmaddS { dst, src1, src2, src3 } => Ok(single(encode_arm64_fmadds(dst, src1, src2, src3))),
            IROp::FmsubS { dst, src1, src2, src3 } => Ok(single(encode_arm64_fmsubs(dst, src1, src2, src3))),
            IROp::FnmaddS { dst, src1, src2, src3 } => Ok(single(encode_arm64_fnmadds(dst, src1, src2, src3))),
            IROp::FnmsubS { dst, src1, src2, src3 } => Ok(single(encode_arm64_fnmsubs(dst, src1, src2, src3))),
            IROp::Feq { dst, src1, src2 } => Ok(single(encode_arm64_fcompare(dst, src1, src2))),
            IROp::Flt { dst, src1, src2 } => Ok(single(encode_arm64_fcomparelt(dst, src1, src2))),
            IROp::Fle { dst, src1, src2 } => Ok(single(encode_arm64_fcomparele(dst, src1, src2))),
            IROp::FeqS { dst, src1, src2 } => Ok(single(encode_arm64_fcompares(dst, src1, src2))),
            IROp::FltS { dst, src1, src2 } => Ok(single(encode_arm64_fcomparelts(dst, src1, src2))),
            IROp::FleS { dst, src1, src2 } => Ok(single(encode_arm64_fcompareles(dst, src1, src2))),
            IROp::Fmin { dst, src1, src2 } => Ok(single(encode_arm64_fmin(dst, src1, src2))),
            IROp::Fmax { dst, src1, src2 } => Ok(single(encode_arm64_fmax(dst, src1, src2))),
            IROp::FminS { dst, src1, src2 } => Ok(single(encode_arm64_fmins(dst, src1, src2))),
            IROp::FmaxS { dst, src1, src2 } => Ok(single(encode_arm64_fmaxs(dst, src1, src2))),
            IROp::Fabs { dst, src } => Ok(single(encode_arm64_fabs(dst, src))),
            IROp::Fneg { dst, src } => Ok(single(encode_arm64_fneg(dst, src))),
            IROp::FabsS { dst, src } => Ok(single(encode_arm64_fabss(dst, src))),
            IROp::FnegS { dst, src } => Ok(single(encode_arm64_fnegs(dst, src))),
            IROp::Fcvtws { dst, src } => Ok(single(encode_arm64_fcvtzs(dst, src))),
            IROp::Fcvtsw { dst, src } => Ok(single(encode_arm64_scvtf(dst, src))),
            IROp::Fcvtld { dst, src } => Ok(single(encode_arm64_fcvtzs64(dst, src))),
            IROp::Fcvtdl { dst, src } => Ok(single(encode_arm64_scvtf64(dst, src))),
            IROp::Fcvtsd { dst, src } => Ok(single(encode_arm64_fcvts(dst, src))),
            IROp::Fcvtds { dst, src } => Ok(single(encode_arm64_fcvtd(dst, src))),
            IROp::Fload { dst, base, offset, size, .. } => match encode_arm64_fload(dst, base, offset, size) {
                Ok(i) => Ok(single(i)),
                Err(e) => Err(e),
            },
            IROp::Fstore { src, base, offset, size, .. } => match encode_arm64_fstore(src, base, offset, size) {
                Ok(i) => Ok(single(i)),
                Err(e) => Err(e),
            },
            IROp::Fsgnj { dst, src1, src2 } => Ok(single(encode_arm64_fsgnj(dst, src1, src2))),
            IROp::Fsgnjn { dst, src1, src2 } => Ok(single(encode_arm64_fsgnjn(dst, src1, src2))),
            IROp::Fsgnjx { dst, src1, src2 } => Ok(single(encode_arm64_fsgnjx(dst, src1, src2))),
            IROp::FsgnjS { dst, src1, src2 } => Ok(single(encode_arm64_fsgnjs(dst, src1, src2))),
            IROp::FsgnjnS { dst, src1, src2 } => Ok(single(encode_arm64_fsgnjns(dst, src1, src2))),
            IROp::FsgnjxS { dst, src1, src2 } => Ok(single(encode_arm64_fsgnjxs(dst, src1, src2))),
            IROp::Fclass { dst, src } => Ok(single(encode_arm64_fclass(dst, src))),
            IROp::FclassS { dst, src } => Ok(single(encode_arm64_fclasss(dst, src))),
            IROp::FmvXW { dst, src } => Ok(single(encode_arm64_fmvxw(dst, src))),
            IROp::FmvWX { dst, src } => Ok(single(encode_arm64_fmvwx(dst, src))),
            IROp::FmvXD { dst, src } => Ok(single(encode_arm64_fmvxd(dst, src))),
            IROp::FmvDX { dst, src } => Ok(single(encode_arm64_fmvdx(dst, src))),
            IROp::Fcvtwus { dst, src } => Ok(single(encode_arm64_fcvtzus(dst, src))),
            IROp::Fcvtlus { dst, src } => Ok(single(encode_arm64_fcvtzus64(dst, src))),
            IROp::Fcvtswu { dst, src } => Ok(single(encode_arm64_ucvtf(dst, src))),
            IROp::Fcvtslu { dst, src } => Ok(single(encode_arm64_ucvtf64(dst, src))),
            IROp::Fcvtwd { dst, src } => Ok(single(encode_arm64_fcvtzs(dst, src))),
            IROp::Fcvtwud { dst, src } => Ok(single(encode_arm64_fcvtzus(dst, src))),
            IROp::Fcvtlud { dst, src } => Ok(single(encode_arm64_fcvtzus64(dst, src))),
            IROp::Fcvtdw { dst, src } => Ok(single(encode_arm64_scvtf(dst, src))),
            IROp::Fcvtdwu { dst, src } => Ok(single(encode_arm64_ucvtf(dst, src))),
            IROp::Fcvtdlu { dst, src } => Ok(single(encode_arm64_ucvtf64(dst, src))),
            IROp::AtomicRMW { dst, base, src, op, size } => encode_arm64_atomic_rmw(dst, base, src, op, size),
            IROp::AtomicCmpXchg { dst, base, expected, new, size } => encode_arm64_atomic_compare_exchange(dst, base, expected, new, size),
            IROp::AtomicLoadReserve { dst, base, offset, size, .. } => match encode_arm64_ldxr(dst, base, offset, size) {
                Ok(i) => Ok(single(i)),
                Err(e) => Err(e),
            },
            IROp::AtomicStoreCond { src, base, offset, size, dst_flag, .. } => encode_arm64_stxr(src, base, offset, size, dst_flag),
            _ => Err(TranslationError::UnsupportedOperation { op: ir_op_debug(op) }),
        }
    }
}

// ----- integer and memory operations -----

/// `ADD Xd, Xn, #imm12`; immediates outside `0..4096` are refused.
pub open spec fn encode_arm64_add_imm_spec(dst: RegId, src: RegId, imm: i64) -> Result<InsnView, EncodeFailure> {
    if 0 <= imm && imm < 4096 {
        Ok(word_view(
            0x91000000u32 | ((dst & 0x1F) as u32) | (((src & 0x1F) as u32) << 5u32) | (((imm as u32) & 0xFFF) << 10u32),
            "add x"@ + dec(dst as nat) + ", x"@ + dec(src as nat) + ", #"@ + dec_int(imm as int),
            false,
        ))
    } else {
        Err(EncodeFailure::ImmediateTooLarge(imm))
    }
}

fn encode_arm64_add_imm(dst: RegId, src: RegId, imm: i64) -> (r: Result<TargetInstruction, TranslationError>)
    ensures
        single_matches(r, encode_arm64_add_imm_spec(dst, src, imm)),
{
    let imm12: u32 = if imm >= 0 && imm < 4096 {
        imm as u32
    } else {
        return Err(TranslationError::ImmediateTooLarge { imm });
    };
    let word: u32 = 0x91000000 | ((dst & 0x1F) as u32) | (((src & 0x1F) as u32) << 5) | ((imm12 & 0xFFF) << 10);
    let mut m = text("add x");
    push_u64(&mut m, dst as u64);
    push_text(&mut m, ", x");
    push_u64(&mut m, src as u64);
    push_text(&mut m, ", #");
    push_i64(&mut m, imm);
    Ok(word_insn(word, m, false))
}

/// `MOVZ Xd, #imm16` (the low 16 bits of `imm`).
pub open spec fn arm64_movz_spec(dst: RegId, imm16: u64) -> InsnView {
    word_view(
        0xD2800000u32 | ((dst & 0x1F) as u32) | (((imm16 & 0xFFFF) as u32) << 5u32),
        "movz x"@ + dec(dst as nat) + ", #"@ + dec(imm16 as nat),
        false,
    )
}

/// The `MOVK Xd, #bits, LSL #(16*shift)` for one 16-bit chunk of `imm`,
/// omitted when that chunk is zero.
pub open spec fn arm64_movk_spec(dst: RegId, imm: u64, shift: u64) -> Seq<InsnView> {
    let bits = (imm >> (shift * 16)) & 0xFFFF;
    if bits != 0 {
        seq![word_view(
            0xF2800000u32 | ((dst & 0x1F) as u32) | ((bits as u32) << 5u32) | ((shift as u32) << 21u32),
            "movk x"@ + dec(dst as nat) + ", #"@ + dec(bits as nat) + ", LSL #"@ + dec((shift * 16) as nat),
            false,
        )]
    } else {
        seq![]
    }
}

/// `MOVZ` alone when `imm` fits in 16 bits; otherwise `MOVZ` of the low
/// chunk followed by a `MOVK` for each non-zero higher chunk.
pub open spec fn encode_arm64_mov_imm_spec(dst: RegId, imm: u64) -> EncodeOutcome {
    if imm & 0xFFFF == imm {
        Ok(seq![arm64_movz_spec(dst, imm)])
    } else {
        Ok(seq![arm64_movz_spec(dst, imm & 0xFFFF)] + arm64_movk_spec(dst, imm, 1) + arm64_movk_spec(dst, imm, 2)
            + arm64_movk_spec(dst, imm, 3))
    }
}

fn arm64_movz(dst: RegId, imm16: u64) -> (r: TargetInstruction)
    ensures
        r@ == arm64_movz_spec(dst, imm16),
{
    let word: u32 = 0xD2800000 | ((dst & 0x1F) as u32) | (((imm16 & 0xFFFF) as u32) << 5);
    let mut m = text("movz x");
    push_u64(&mut m, dst as u64);
    push_text(&mut m, ", #");
    push_u64(&mut m, imm16);
    word_insn(word, m, false)
}

fn push_arm64_movk(instructions: &mut Vec<TargetInstruction>, dst: RegId, imm: u64, shift: u64)
    requires
        1 <= shift <= 3,
    ensures
        insns_view(final(instructions)@) == insns_view(old(instructions)@) + arm64_movk_spec(dst, imm, shift),
{
    let bits = (imm >> (shift * 16)) & 0xFFFF;
    if bits != 0 {
        let word: u32 = 0xF2800000 | ((dst & 0x1F) as u32) | ((bits as u32) << 5) | ((shift as u32) << 21);
        let mut m = text("movk x");
        push_u64(&mut m, dst as u64);
        push_text(&mut m, ", #");
        push_u64(&mut m, bits);
        push_text(&mut m, ", LSL #");
        push_u64(&mut m, shift * 16);
        let i = word_insn(word, m, false);
        append_insns(instructions, single(i));
    } else {
        assert(insns_view(instructions@) =~= insns_view(old(instructions)@) + arm64_movk_spec(dst, imm, shift));
    }
}

fn encode_arm64_mov_imm(dst: RegId, imm: u64) -> (r: Result<Vec<TargetInstruction>, TranslationError>)
    ensures
        outcome_matches(r, encode_arm64_mov_imm_spec(dst, imm)),
{
    if imm & 0xFFFF == imm {
        Ok(single(arm64_movz(dst, imm)))
    } else {
        let mut instructions = single(arm64_movz(dst, imm & 0xFFFF));
        push_arm64_movk(&mut instructions, dst, imm, 1);
        push_arm64_movk(&mut instructions, dst, imm, 2);
        push_arm64_movk(&mut instructions, dst, imm, 3);
        Ok(instructions)
    }
}

/// A scaled unsigned 12-bit offset is accepted when the offset is in
/// `0..32768` and a multiple of the access size.
pub open spec fn arm64_offset_ok(offset: i64, size: u8) -> bool {
    0 <= offset && offset < 32768 && (offset as int) % (size as int) == 0
}

/// An offset that the scaled-offset check can examine without dividing by
/// a zero access size.
pub open spec fn arm64_offset_checkable(offset: i64, size: u8) -> bool {
    !(0 <= offset && offset < 32768 && size == 0)
}

/// `LDR/STR`-style word `opcode | Rt | Rn << 5 | (offset/size) << 10`.
pub open spec fn arm64_ldst_word(opcode: u32, rt: RegId, base: RegId, offset: i64, size: u8) -> u32 {
    opcode | ((rt & 0x1F) as u32) | (((base & 0x1F) as u32) << 5u32)
        | ((((offset as int) / (size as int)) as u32 & 0xFFF) << 10u32)
}

fn arm64_ldst_check(offset: i64, size: u8) -> (r: Result<u32, TranslationError>)
    requires
        arm64_offset_checkable(offset, size),
    ensures
        match r {
            Ok(imm12) => arm64_offset_ok(offset, size) && imm12 == ((offset as int) / (size as int)) as u32,
            Err(e) => !arm64_offset_ok(offset, size) && (e matches TranslationError::InvalidOffset { offset: o } && o == offset),
        },
{
    if offset < 0 || offset >= 32768 || (offset % (size as i64)) != 0 {
        return Err(TranslationError::InvalidOffset { offset });
    }
    Ok((offset / (size as i64)) as u32)
}

/// `LDR Xt, [Xn, #offset]`.
pub open spec fn encode_arm64_load_spec(dst: RegId, base: RegId, offset: i64, size: u8) -> Result<InsnView, EncodeFailure> {
    if arm64_offset_ok(offset, size) {
        Ok(word_view(
            arm64_ldst_word(0xF9400000, dst, base, offset, size),
            "ldr x"@ + dec(dst as nat) + ", [x"@ + dec(base as nat) + ", #"@ + dec_int(offset as int) + "]"@,
            true,
        ))
    } else {
        Err(EncodeFailure::InvalidOffset(offset))
    }
}

fn encode_arm64_load(dst: RegId, base: RegId, offset: i64, size: u8) -> (r: Result<TargetInstruction, TranslationError>)
    requires
        arm64_offset_checkable(offset, size),
    ensures
        single_matches(r, encode_arm64_load_spec(dst, base, offset, size)),
{
    let imm12 = match arm64_ldst_check(offset, size) {
        Ok(v) => v,
        Err(e) => return Err(e),
    };
    let word: u32 = 0xF9400000 | ((dst & 0x1F) as u32) | (((base & 0x1F) as u32) << 5) | ((imm12 & 0xFFF) << 10);
    let mut m = text("ldr x");
    push_u64(&mut m, dst as u64);
    push_text(&mut m, ", [x");
    push_u64(&mut m, base as u64);
    push_text(&mut m, ", #");
    push_i64(&mut m, offset);
    push_text(&mut m, "]");
    Ok(word_insn(word, m, true))
}

/// `STR Xt, [Xn, #offset]`.
pub open spec fn encode_arm64_store_spec(src: RegId, base: RegId, offset: i64, size: u8) -> Result<InsnView, EncodeFailure> {
    if arm64_offset_ok(offset, size) {
        Ok(word_view(
            arm64_ldst_word(0xF9000000, src, base, offset, size),
            "str x"@ + dec(src as nat) + ", [x"@ + dec(base as nat) + ", #"@ + dec_int(offset as int) + "]"@,
            true,
        ))
    } else {
        Err(EncodeFailure::InvalidOffset(offset))
    }
}

fn encode_arm64_store(src: RegId, base: RegId, offset: i64, size: u8) -> (r: Result<TargetInstruction, TranslationError>)
    requires
        arm64_offset_checkable(offset, size),
    ensures
        single_matches(r, encode_arm64_store_spec(src, base, offset, size)),
{
    let imm12 = match arm64_ldst_check(offset, size) {
        Ok(v) => v,
        Err(e) => return Err(e),
    };
    let word: u32 = 0xF9000000 | ((src & 0x1F) as u32) | (((base & 0x1F) as u32) << 5) | ((imm12 & 0xFFF) << 10);
    let mut m = text("str x");
    push_u64(&mut m, src as u64);
    push_text(&mut m, ", [x");
    push_u64(&mut m, base as u64);
    push_text(&mut m, ", #");
    push_i64(&mut m, offset);
    push_text(&mut m, "]");
    Ok(word_insn(word, m, true))
}

// ----- floating-point memory operations -----

/// `LDR Dt/St, [Xn, #offset]` for 8-byte / other sizes.
pub open spec fn encode_arm64_fload_spec(dst: RegId, base: RegId, offset: i64, size: u8) -> Result<InsnView, EncodeFailure> {
    if arm64_offset_ok(offset, size) {
        Ok(word_view(
            arm64_ldst_word(if size == 8 { 0xFD400000u32 } else { 0xBD400000u32 }, dst, base, offset, size),
            "ldr "@ + (if size == 8 { "d"@ } else { "s"@ }) + dec(dst as nat) + ", [x"@ + dec(base as nat) + ", #"@
                + dec_int(offset as int) + "]"@,
            true,
        ))
    } else {
        Err(EncodeFailure::InvalidOffset(offset))
    }
}

fn encode_arm64_fload(dst: RegId, base: RegId, offset: i64, size: u8) -> (r: Result<TargetInstruction, TranslationError>)
    requires
        arm64_offset_checkable(offset, size),
    ensures
        single_matches(r, encode_arm64_fload_spec(dst, base, offset, size)),
{
    let imm12 = match arm64_ldst_check(offset, size) {
        Ok(v) => v,
        Err(e) => return Err(e),
    };
    let opcode: u32 = if size == 8 { 0xFD400000 } else { 0xBD400000 };
    let word: u32 = opcode | ((dst & 0x1F) as u32) | (((base & 0x1F) as u32) << 5) | ((imm12 & 0xFFF) << 10);
    let mut m = text("ldr ");
    if size == 8 {
        push_text(&mut m, "d");
    } else {
        push_text(&mut m, "s");
    }
    push_u64(&mut m, dst as u64);
    push_text(&mut m, ", [x");
    push_u64(&mut m, base as u64);
    push_text(&mut m, ", #");
    push_i64(&mut m, offset);
    push_text(&mut m, "]");
    Ok(word_insn(word, m, true))
}

/// `STR Dt/St, [Xn, #offset]` for 8-byte / other sizes.
pub open spec fn encode_arm64_fstore_spec(src: RegId, base: RegId, offset: i64, size: u8) -> Result<InsnView, EncodeFailure> {
    if arm64_offset_ok(offset, size) {
        Ok(word_view(
            arm64_ldst_word(if size == 8 { 0xFD000000u32 } else { 0xBD000000u32 }, src, base, offset, size),
            "str "@ + (if size == 8 { "d"@ } else { "s"@ }) + dec(src as nat) + ", [x"@ + dec(base as nat) + ", #"@
                + dec_int(offset as int) + "]"@,
            true,
        ))
    } else {
        Err(EncodeFailure::InvalidOffset(offset))
    }
}

fn encode_arm64_fstore(src: RegId, base: RegId, offset: i64, size: u8) -> (r: Result<TargetInstruction, TranslationError>)
    requires
        arm64_offset_checkable(offset, size),
    ensures
        single_matches(r, encode_arm64_fstore_spec(src, base, offset, size)),
{
    let imm12 = match arm64_ldst_check(offset, size) {
        Ok(v) => v,
        Err(e) => return Err(e),
    };
    let opcode: u32 = if size == 8 { 0xFD000000 } else { 0xBD000000 };
    let word: u32 = opcode | ((src & 0x1F) as u32) | (((base & 0x1F) as u32) << 5) | ((imm12 & 0xFFF) << 10);
    let mut m = text("str ");
    if size == 8 {
        push_text(&mut m, "d");
    } else {
        push_text(&mut m, "s");
    }
    push_u64(&mut m, src as u64);
    push_text(&mut m, ", [x");
    push_u64(&mut m, base as u64);
    push_text(&mut m, ", #");
    push_i64(&mut m, offset);
    push_text(&mut m, "]");
    Ok(word_insn(word, m, true))
}

// ----- vector (NEON) operations -----

/// The 2-bit size field for element sizes 1, 2, 4 and 8 bytes.
pub open spec fn arm64_size_bits(element_size: u8) -> u32 {
    if element_size == 1 { 0 } else if element_size == 2 { 1 } else if element_size == 4 { 2 } else { 3 }
}

pub open spec fn arm64_size_ok(element_size: u8) -> bool {
    element_size == 1 || element_size == 2 || element_size == 4 || element_size == 8
}

fn arm64_size_field(element_size: u8) -> (r: Option<u32>)
    ensures
        r == (if arm64_size_ok(element_size) { Some(arm64_size_bits(element_size)) } else { None::<u32> }),
{
    match element_size {
        1 => Some(0),
        2 => Some(1),
        4 => Some(2),
        8 => Some(3),
        _ => None,
    }
}

/// A three-register vector word `opcode | size << 22 | Rd | Rn << 5 | Rm << 16`.
pub open spec fn arm64_vec_word(opcode: u32, size: u32, dst: RegId, src1: RegId, src2: RegId) -> u32 {
    opcode | (size << 22u32) | ((dst & 0x1F) as u32) | (((src1 & 0x1F) as u32) << 5u32) | (((src2 & 0x1F) as u32) << 16u32)
}

/// Mnemonic `<name> vD.<es>b, vN.<es>b, vM.<es>b`.
pub open spec fn arm64_vec_mnemonic(name: Seq<char>, dst: RegId, src1: RegId, src2: RegId, es: u8) -> Seq<char> {
    name + " v"@ + dec(dst as nat) + "."@ + dec(es as nat) + "b, v"@ + dec(src1 as nat) + "."@ + dec(es as nat)
        + "b, v"@ + dec(src2 as nat) + "."@ + dec(es as nat) + "b"@
}

fn arm64_vec_insn(opcode: u32, size: u32, name: &str, dst: RegId, src1: RegId, src2: RegId, es: u8) -> (r: Vec<TargetInstruction>)
    requires
        size < 4,
    ensures
        insns_view(r@) == seq![word_view(arm64_vec_word(opcode, size, dst, src1, src2), arm64_vec_mnemonic(name@, dst, src1, src2, es), false)],
{
    let word: u32 = opcode | (size << 22) | ((dst & 0x1F) as u32) | (((src1 & 0x1F) as u32) << 5) | (((src2 & 0x1F) as u32) << 16);
    let mut m = text(name);
    push_text(&mut m, " v");
    push_u64(&mut m, dst as u64);
    push_text(&mut m, ".");
    push_u64(&mut m, es as u64);
    push_text(&mut m, "b, v");
    push_u64(&mut m, src1 as u64);
    push_text(&mut m, ".");
    push_u64(&mut m, es as u64);
    push_text(&mut m, "b, v");
    push_u64(&mut m, src2 as u64);
    push_text(&mut m, ".");
    push_u64(&mut m, es as u64);
    push_text(&mut m, "b");
    single(word_insn(word, m, false))
}

/// `ADD Vd.T, Vn.T, Vm.T`.
pub open spec fn encode_arm64_simd_add_spec(dst: RegId, src1: RegId, src2: RegId, element_size: u8) -> EncodeOutcome {
    if arm64_size_ok(element_size) {
        Ok(seq![word_view(arm64_vec_word(0x4E208400, arm64_size_bits(element_size), dst, src1, src2),
            arm64_vec_mnemonic("add"@, dst, src1, src2, element_size), false)])
    } else {
        Err(EncodeFailure::Unsupported("ARM64 SIMD add with element_size "@ + dec(element_size as nat)))
    }
}

fn encode_arm64_simd_add(dst: RegId, src1: RegId, src2: RegId, element_size: u8) -> (r: Result<Vec<TargetInstruction>, TranslationError>)
    ensures
        outcome_matches(r, encode_arm64_simd_add_spec(dst, src1, src2, element_size)),
{
    match arm64_size_field(element_size) {
        Some(size) => Ok(arm64_vec_insn(0x4E208400, size, "add", dst, src1, src2, element_size)),
        None => Err(TranslationError::UnsupportedOperation {
            op: text_num("ARM64 SIMD add with element_size ", element_size as u64),
        }),
    }
}

/// `SUB Vd.T, Vn.T, Vm.T`.
pub open spec fn encode_arm64_simd_sub_spec(dst: RegId, src1: RegId, src2: RegId, element_size: u8) -> EncodeOutcome {
    if arm64_size_ok(element_size) {
        Ok(seq![word_view(arm64_vec_word(0x4E208C00, arm64_size_bits(element_size), dst, src1, src2),
            arm64_vec_mnemonic("sub"@, dst, src1, src2, element_size), false)])
    } else {
        Err(EncodeFailure::Unsupported("ARM64 SIMD sub with element_size "@ + dec(element_size as nat)))
    }
}

fn encode_arm64_simd_sub(dst: RegId, src1: RegId, src2: RegId, element_size: u8) -> (r: Result<Vec<TargetInstruction>, TranslationError>)
    ensures
        outcome_matches(r, encode_arm64_simd_sub_spec(dst, src1, src2, element_size)),
{
    match arm64_size_field(element_size) {
        Some(size) => Ok(arm64_vec_insn(0x4E208C00, size, "sub", dst, src1, src2, element_size)),
        None => Err(TranslationError::UnsupportedOperation {
            op: text_num("ARM64 SIMD sub with element_size ", element_size as u64),
        }),
    }
}

/// `MUL Vd.T, Vn.T, Vm.T` for 2- and 4-byte elements.
pub open spec fn encode_arm64_simd_mul_spec(dst: RegId, src1: RegId, src2: RegId, element_size: u8) -> EncodeOutcome {
    if element_size == 2 || element_size == 4 {
        Ok(seq![word_view(arm64_vec_word(0x4E209C00, arm64_size_bits(element_size), dst, src1, src2),
            arm64_vec_mnemonic("mul"@, dst, src1, src2, element_size), false)])
    } else {
        Err(EncodeFailure::Unsupported("ARM64 SIMD mul with element_size "@ + dec(element_size as nat)))
    }
}

fn encode_arm64_simd_mul(dst: RegId, src1: RegId, src2: RegId, element_size: u8) -> (r: Result<Vec<TargetInstruction>, TranslationError>)
    ensures
        outcome_matches(r, encode_arm64_simd_mul_spec(dst, src1, src2, element_size)),
{
    let size: u32 = match element_size {
        2 => 1,
        4 => 2,
        _ => {
            return Err(TranslationError::UnsupportedOperation {
                op: text_num("ARM64 SIMD mul with element_size ", element_size as u64),
            });
        },
    };
    Ok(arm64_vec_insn(0x4E209C00, size, "mul", dst, src1, src2, element_size))
}

/// Mnemonic `<prefix><name> vD, vN, vM`.
pub open spec fn arm64_vec3_mnemonic(name: Seq<char>, dst: RegId, src1: RegId, src2: RegId) -> Seq<char> {
    name + " v"@ + dec(dst as nat) + ", v"@ + dec(src1 as nat) + ", v"@ + dec(src2 as nat)
}

fn arm64_vec3_insn(opcode: u32, size: u32, prefix: &str, name: &str, dst: RegId, src1: RegId, src2: RegId) -> (r: Vec<TargetInstruction>)
    requires
        size < 4,
    ensures
        insns_view(r@) == seq![word_view(arm64_vec_word(opcode, size, dst, src1, src2), arm64_vec3_mnemonic(prefix@ + name@, dst, src1, src2), false)],
{
    let word: u32 = opcode | (size << 22) | ((dst & 0x1F) as u32) | (((src1 & 0x1F) as u32) << 5) | (((src2 & 0x1F) as u32) << 16);
    let mut m = text(prefix);
    push_text(&mut m, name);
    push_text(&mut m, " v");
    push_u64(&mut m, dst as u64);
    push_text(&mut m, ", v");
    push_u64(&mut m, src1 as u64);
    push_text(&mut m, ", v");
    push_u64(&mut m, src2 as u64);
    single(word_insn(word, m, false))
}

/// `SQADD` (signed) or `UQADD` (unsigned).
pub open spec fn encode_arm64_simd_addsat_spec(dst: RegId, src1: RegId, src2: RegId, element_size: u8, signed: bool) -> EncodeOutcome {
    if arm64_size_ok(element_size) {
        Ok(seq![word_view(
            arm64_vec_word(if signed { 0x4E200C00u32 } else { 0x4E202C00u32 }, arm64_size_bits(element_size), dst, src1, src2),
            arm64_vec3_mnemonic((if signed { "sq"@ } else { "uq"@ }) + "add"@, dst, src1, src2), false)])
    } else {
        Err(EncodeFailure::Unsupported("ARM64 SIMD add sat with element_size "@ + dec(element_size as nat)))
    }
}

fn encode_arm64_simd_addsat(dst: RegId, src1: RegId, src2: RegId, element_size: u8, signed: bool) -> (r: Result<Vec<TargetInstruction>, TranslationError>)
    ensures
        outcome_matches(r, encode_arm64_simd_addsat_spec(dst, src1, src2, element_size, signed)),
{
    match arm64_size_field(element_size) {
        Some(size) => {
            let opcode: u32 = if signed { 0x4E200C00 } else { 0x4E202C00 };
            let prefix = if signed { "sq" } else { "uq" };
            Ok(arm64_vec3_insn(opcode, size, prefix, "add", dst, src1, src2))
        },
        None => Err(TranslationError::UnsupportedOperation {
            op: text_num("ARM64 SIMD add sat with element_size ", element_size as u64),
        }),
    }
}

/// `SQSUB` (signed) or `UQSUB` (unsigned).
pub open spec fn encode_arm64_simd_subsat_spec(dst: RegId, src1: RegId, src2: RegId, element_size: u8, signed: bool) -> EncodeOutcome {
    if arm64_size_ok(element_size) {
        Ok(seq![word_view(
            arm64_vec_word(if signed { 0x4E202C00u32 } else { 0x4E203C00u32 }, arm64_size_bits(element_size), dst, src1, src2),
            arm64_vec3_mnemonic((if signed { "sq"@ } else { "uq"@ }) + "sub"@, dst, src1, src2), false)])
    } else {
        Err(EncodeFailure::Unsupported("ARM64 SIMD sub sat with element_size "@ + dec(element_size as nat)))
    }
}

fn encode_arm64_simd_subsat(dst: RegId, src1: RegId, src2: RegId, element_size: u8, signed: bool) -> (r: Result<Vec<TargetInstruction>, TranslationError>)
    ensures
        outcome_matches(r, encode_arm64_simd_subsat_spec(dst, src1, src2, element_size, signed)),
{
    match arm64_size_field(element_size) {
        Some(size) => {
            let opcode: u32 = if signed { 0x4E202C00 } else { 0x4E203C00 };
            let prefix = if signed { "sq" } else { "uq" };
            Ok(arm64_vec3_insn(opcode, size, prefix, "sub", dst, src1, src2))
        },
        None => Err(TranslationError::UnsupportedOperation {
            op: text_num("ARM64 SIMD sub sat with element_size ", element_size as u64),
        }),
    }
}

/// `SQDMULH` (signed) or plain `MUL` (unsigned) for 2- and 4-byte elements;
/// the mnemonic says `sqdmulh` in both cases.
pub open spec fn encode_arm64_simd_mulsat_spec(dst: RegId, src1: RegId, src2: RegId, element_size: u8, signed: bool) -> EncodeOutcome {
    if element_size == 2 || element_size == 4 {
        Ok(seq![word_view(
            arm64_vec_word(if signed { 0x4E20B400u32 } else { 0x4E209C00u32 }, arm64_size_bits(element_size), dst, src1, src2),
            arm64_vec3_mnemonic(""@ + "sqdmulh"@, dst, src1, src2), false)])
    } else {
        Err(EncodeFailure::Unsupported("ARM64 SIMD mul sat with element_size "@ + dec(element_size as nat)))
    }
}

fn encode_arm64_simd_mulsat(dst: RegId, src1: RegId, src2: RegId, element_size: u8, signed: bool) -> (r: Result<Vec<TargetInstruction>, TranslationError>)
    ensures
        outcome_matches(r, encode_arm64_simd_mulsat_spec(dst, src1, src2, element_size, signed)),
{
    let size: u32 = match element_size {
        2 => 1,
        4 => 2,
        _ => {
            return Err(TranslationError::UnsupportedOperation {
                op: text_num("ARM64 SIMD mul sat with element_size ", element_size as u64),
            });
        },
    };
    let opcode: u32 = if signed { 0x4E20B400 } else { 0x4E209C00 };
    Ok(arm64_vec3_insn(opcode, size, "", "sqdmulh", dst, src1, src2))
}

/// A 128-bit add as two lane adds (low half first).
pub open spec fn encode_arm64_vec128_add_spec(
    dst_lo: RegId, dst_hi: RegId, src1_lo: RegId, src1_hi: RegId, src2_lo: RegId, src2_hi: RegId,
    element_size: u8, signed: bool,
) -> EncodeOutcome {
    then_outcome(
        encode_arm64_simd_add_spec(dst_lo, src1_lo, src2_lo, element_size),
        encode_arm64_simd_add_spec(dst_hi, src1_hi, src2_hi, element_size),
    )
}

fn encode_arm64_vec128_add(
    dst_lo: RegId, dst_hi: RegId, src1_lo: RegId, src1_hi: RegId, src2_lo: RegId, src2_hi: RegId,
    element_size: u8, signed: bool,
) -> (r: Result<Vec<TargetInstruction>, TranslationError>)
    ensures
        outcome_matches(r, encode_arm64_vec128_add_spec(dst_lo, dst_hi, src1_lo, src1_hi, src2_lo, src2_hi, element_size, signed)),
{
    let lo = encode_arm64_simd_add(dst_lo, src1_lo, src2_lo, element_size);
    let hi = encode_arm64_simd_add(dst_hi, src1_hi, src2_hi, element_size);
    then_result(lo, hi, Ghost(encode_arm64_simd_add_spec(dst_lo, src1_lo, src2_lo, element_size)),
        Ghost(encode_arm64_simd_add_spec(dst_hi, src1_hi, src2_hi, element_size)))
}

// ----- atomic operations -----

/// The LSE opcode of an atomic read-modify-write (`LDADD`, `LDCLR`,
/// `LDSET`, `LDEOR`), by operation; `Or` uses the `LDADD` opcode.
pub open spec fn arm64_rmw_opcode(op: AtomicOp) -> Option<u32> {
    match op {
        AtomicOp::Add => Some(0x38E00000u32),
        AtomicOp::And => Some(0x38A00000u32),
        AtomicOp::Or => Some(0x38E00000u32),
        AtomicOp::Xor => Some(0x38C00000u32),
        _ => None,
    }
}

/// The access-size field (bits 31:30) for sizes 1, 2, 4 and 8 bytes.
pub open spec fn arm64_access_size_word(size: u8) -> u32 {
    arm64_size_bits(size) << 30u32
}

pub open spec fn encode_arm64_atomic_rmw_spec(dst: RegId, base: RegId, src: RegId, op: AtomicOp, size: u8) -> EncodeOutcome {
    match arm64_rmw_opcode(op) {
        None => Err(EncodeFailure::Unsupported("ARM64 atomic RMW operation "@ + atomic_op_text(op))),
        Some(opcode) => if arm64_size_ok(size) {
            Ok(seq![word_view(
                opcode | arm64_access_size_word(size) | ((dst & 0x1F) as u32) | (((base & 0x1F) as u32) << 5u32)
                    | (((src & 0x1F) as u32) << 16u32),
                "ldadd x"@ + dec(dst as nat) + ", x"@ + dec(src as nat) + ", [x"@ + dec(base as nat) + "]"@,
                true,
            )])
        } else {
            Err(EncodeFailure::Unsupported("ARM64 atomic RMW with size "@ + dec(size as nat)))
        },
    }
}

fn encode_arm64_atomic_rmw(dst: RegId, base: RegId, src: RegId, op: AtomicOp, size: u8) -> (r: Result<Vec<TargetInstruction>, TranslationError>)
    ensures
        outcome_matches(r, encode_arm64_atomic_rmw_spec(dst, base, src, op, size)),
{
    let opcode: u32 = match op {
        AtomicOp::Add => 0x38E00000,
        AtomicOp::And => 0x38A00000,
        AtomicOp::Or => 0x38E00000,
        AtomicOp::Xor => 0x38C00000,
        _ => {
            let mut t = text("ARM64 atomic RMW operation ");
            push_text(&mut t, atomic_op_name(op));
            return Err(TranslationError::UnsupportedOperation { op: t });
        },
    };
    let size_bits = match arm64_size_field(size) {
        Some(b) => b,
        None => {
            return Err(TranslationError::UnsupportedOperation {
                op: text_num("ARM64 atomic RMW with size ", size as u64),
            });
        },
    };
    let word: u32 = opcode | (size_bits << 30) | ((dst & 0x1F) as u32) | (((base & 0x1F) as u32) << 5)
        | (((src & 0x1F) as u32) << 16);
    let mut m = text("ldadd x");
    push_u64(&mut m, dst as u64);
    push_text(&mut m, ", x");
    push_u64(&mut m, src as u64);
    push_text(&mut m, ", [x");
    push_u64(&mut m, base as u64);
    push_text(&mut m, "]");
    Ok(single(word_insn(word, m, true)))
}

/// `CAS`: expected in Rs (16), new in Rt (0, OR-ed with Rd), base in Rn.
pub open spec fn encode_arm64_atomic_compare_exchange_spec(dst: RegId, base: RegId, expected: RegId, new: RegId, size: u8) -> EncodeOutcome {
    if arm64_size_ok(size) {
        Ok(seq![word_view(
            0x48E00000u32 | arm64_access_size_word(size) | ((dst & 0x1F) as u32) | (((base & 0x1F) as u32) << 5u32)
                | (((expected & 0x1F) as u32) << 16u32) | (((new & 0x1F) as u32) << 0u32),
            "cas x"@ + dec(new as nat) + ", x"@ + dec(expected as nat) + ", [x"@ + dec(base as nat) + "]"@,
            true,
        )])
    } else {
        Err(EncodeFailure::Unsupported("ARM64 atomic CMPXCHG with size "@ + dec(size as nat)))
    }
}

fn encode_arm64_atomic_compare_exchange(dst: RegId, base: RegId, expected: RegId, new: RegId, size: u8) -> (r: Result<Vec<TargetInstruction>, TranslationError>)
    ensures
        outcome_matches(r, encode_arm64_atomic_compare_exchange_spec(dst, base, expected, new, size)),
{
    let size_bits = match arm64_size_field(size) {
        Some(b) => b,
        None => {
            return Err(TranslationError::UnsupportedOperation {
                op: text_num("ARM64 atomic CMPXCHG with size ", size as u64),
            });
        },
    };
    let word: u32 = 0x48E00000 | (size_bits << 30) | ((dst & 0x1F) as u32) | (((base & 0x1F) as u32) << 5)
        | (((expected & 0x1F) as u32) << 16) | (((new & 0x1F) as u32) << 0);
    let mut m = text("cas x");
    push_u64(&mut m, new as u64);
    push_text(&mut m, ", x");
    push_u64(&mut m, expected as u64);
    push_text(&mut m, ", [x");
    push_u64(&mut m, base as u64);
    push_text(&mut m, "]");
    Ok(single(word_insn(word, m, true)))
}

/// `LDXR Xt, [Xn]`; only a zero offset is encodable.
pub open spec fn encode_arm64_ldxr_spec(dst: RegId, base: RegId, offset: i64, size: u8) -> Result<InsnView, EncodeFailure> {
    if offset != 0 {
        Err(EncodeFailure::InvalidOffset(offset))
    } else if arm64_size_ok(size) {
        Ok(word_view(
            0x085F8000u32 | arm64_access_size_word(size) | ((dst & 0x1F) as u32) | (((base & 0x1F) as u32) << 5u32),
            "ldxr x"@ + dec(dst as nat) + ", [x"@ + dec(base as nat) + "]"@,
            true,
        ))
    } else {
        Err(EncodeFailure::Unsupported("ARM64 LDXR with size "@ + dec(size as nat)))
    }
}

fn encode_arm64_ldxr(dst: RegId, base: RegId, offset: i64, size: u8) -> (r: Result<TargetInstruction, TranslationError>)
    ensures
        single_matches(r, encode_arm64_ldxr_spec(dst, base, offset, size)),
{
    if offset != 0 {
        return Err(TranslationError::InvalidOffset { offset });
    }
    let size_bits = match arm64_size_field(size) {
        Some(b) => b,
        None => {
            return Err(TranslationError::UnsupportedOperation {
                op: text_num("ARM64 LDXR with size ", size as u64),
            });
        },
    };
    let word: u32 = 0x085F8000 | (size_bits << 30) | ((dst & 0x1F) as u32) | (((base & 0x1F) as u32) << 5);
    let mut m = text("ldxr x");
    push_u64(&mut m, dst as u64);
    push_text(&mut m, ", [x");
    push_u64(&mut m, base as u64);
    push_text(&mut m, "]");
    Ok(word_insn(word, m, true))
}

/// `STXR Ws, Xt, [Xn]` with the status register `dst_flag`; only a zero
/// offset is encodable.
pub open spec fn encode_arm64_stxr_spec(src: RegId, base: RegId, offset: i64, size: u8, dst_flag: RegId) -> EncodeOutcome {
    if offset != 0 {
        Err(EncodeFailure::InvalidOffset(offset))
    } else if arm64_size_ok(size) {
        Ok(seq![word_view(
            0x08008000u32 | arm64_access_size_word(size) | ((dst_flag & 0x1F) as u32) | (((base & 0x1F) as u32) << 5u32)
                | (((src & 0x1F) as u32) << 16u32),
            "stxr w"@ + dec(dst_flag as nat) + ", x"@ + dec(src as nat) + ", [x"@ + dec(base as nat) + "]"@,
            true,
        )])
    } else {
        Err(EncodeFailure::Unsupported("ARM64 STXR with size "@ + dec(size as nat)))
    }
}

fn encode_arm64_stxr(src: RegId, base: RegId, offset: i64, size: u8, dst_flag: RegId) -> (r: Result<Vec<TargetInstruction>, TranslationError>)
    ensures
        outcome_matches(r, encode_arm64_stxr_spec(src, base, offset, size, dst_flag)),
{
    if offset != 0 {
        return Err(TranslationError::InvalidOffset { offset });
    }
    let size_bits = match arm64_size_field(size) {
        Some(b) => b,
        None => {
            return Err(TranslationError::UnsupportedOperation {
                op: text_num("ARM64 STXR with size ", size as u64),
            });
        },
    };
    let word: u32 = 0x08008000 | (size_bits << 30) | ((dst_flag & 0x1F) as u32) | (((base & 0x1F) as u32) << 5)
        | (((src & 0x1F) as u32) << 16);
    let mut m = text("stxr w");
    push_u64(&mut m, dst_flag as u64);
    push_text(&mut m, ", x");
    push_u64(&mut m, src as u64);
    push_text(&mut m, ", [x");
    push_u64(&mut m, base as u64);
    push_text(&mut m, "]");
    Ok(single(word_insn(word, m, true)))
}

/// A 256-bit operation as four lane operations in order; the first failure wins.
pub open spec fn encode_arm64_vec256_add_spec(
    dst0: RegId, dst1: RegId, dst2: RegId, dst3: RegId,
    src10: RegId, src11: RegId, src12: RegId, src13: RegId,
    src20: RegId, src21: RegId, src22: RegId, src23: RegId,
    element_size: u8, signed: bool,
) -> EncodeOutcome {
    four_lanes(
        encode_arm64_simd_add_spec(dst0, src10, src20, element_size),
        encode_arm64_simd_add_spec(dst1, src11, src21, element_size),
        encode_arm64_simd_add_spec(dst2, src12, src22, element_size),
        encode_arm64_simd_add_spec(dst3, src13, src23, element_size),
    )
}

fn encode_arm64_vec256_add(
    dst0: RegId, dst1: RegId, dst2: RegId, dst3: RegId,
    src10: RegId, src11: RegId, src12: RegId, src13: RegId,
    src20: RegId, src21: RegId, src22: RegId, src23: RegId,
    element_size: u8, signed: bool,
) -> (r: Result<Vec<TargetInstruction>, TranslationError>)
    ensures
        outcome_matches(r, encode_arm64_vec256_add_spec(dst0, dst1, dst2, dst3, src10, src11, src12, src13, src20, src21, src22, src23, element_size, signed)),
{
    let ghost a = encode_arm64_simd_add_spec(dst0, src10, src20, element_size);
    let ghost b = encode_arm64_simd_add_spec(dst1, src11, src21, element_size);
    let ghost c = encode_arm64_simd_add_spec(dst2, src12, src22, element_size);
    let ghost d = encode_arm64_simd_add_spec(dst3, src13, src23, element_size);
    let r0 = encode_arm64_simd_add(dst0, src10, src20, element_size);
    let r1 = encode_arm64_simd_add(dst1, src11, src21, element_size);
    let r01 = then_result(r0, r1, Ghost(a), Ghost(b));
    let r2 = encode_arm64_simd_add(dst2, src12, src22, element_size);
    let r012 = then_result(r01, r2, Ghost(then_outcome(a, b)), Ghost(c));
    let r3 = encode_arm64_simd_add(dst3, src13, src23, element_size);
    then_result(r012, r3, Ghost(then_outcome(then_outcome(a, b), c)), Ghost(d))
}

/// A 256-bit operation as four lane operations in order; the first failure wins.
pub open spec fn encode_arm64_vec256_sub_spec(
    dst0: RegId, dst1: RegId, dst2: RegId, dst3: RegId,
    src10: RegId, src11: RegId, src12: RegId, src13: RegId,
    src20: RegId, src21: RegId, src22: RegId, src23: RegId,
    element_size: u8, signed: bool,
) -> EncodeOutcome {
    four_lanes(
        encode_arm64_simd_sub_spec(dst0, src10, src20, element_size),
        encode_arm64_simd_sub_spec(dst1, src11, src21, element_size),
        encode_arm64_simd_sub_spec(dst2, src12, src22, element_size),
        encode_arm64_simd_sub_spec(dst3, src13, src23, element_size),
    )
}

fn encode_arm64_vec256_sub(
    dst0: RegId, dst1: RegId, dst2: RegId, dst3: RegId,
    src10: RegId, src11: RegId, src12: RegId, src13: RegId,
    src20: RegId, src21: RegId, src22: RegId, src23: RegId,
    element_size: u8, signed: bool,
) -> (r: Result<Vec<TargetInstruction>, TranslationError>)
    ensures
        outcome_matches(r, encode_arm64_vec256_sub_spec(dst0, dst1, dst2, dst3, src10, src11, src12, src13, src20, src21, src22, src23, element_size, signed)),
{
    let ghost a = encode_arm64_simd_sub_spec(dst0, src10, src20, element_size);
    let ghost b = encode_arm64_simd_sub_spec(dst1, src11, src21, element_size);
    let ghost c = encode_arm64_simd_sub_spec(dst2, src12, src22, element_size);
    let ghost d = encode_arm64_simd_sub_spec(dst3, src13, src23, element_size);
    let r0 = encode_arm64_simd_sub(dst0, src10, src20, element_size);
    let r1 = encode_arm64_simd_sub(dst1, src11, src21, element_size);
    let r01 = then_result(r0, r1, Ghost(a), Ghost(b));
    let r2 = encode_arm64_simd_sub(dst2, src12, src22, element_size);
    let r012 = then_result(r01, r2, Ghost(then_outcome(a, b)), Ghost(c));
    let r3 = encode_arm64_simd_sub(dst3, src13, src23, element_size);
    then_result(r012, r3, Ghost(then_outcome(then_outcome(a, b), c)), Ghost(d))
}

/// A 256-bit operation as four lane operations in order; the first failure wins.
pub open spec fn encode_arm64_vec256_mul_spec(
    dst0: RegId, dst1: RegId, dst2: RegId, dst3: RegId,
    src10: RegId, src11: RegId, src12: RegId, src13: RegId,
    src20: RegId, src21: RegId, src22: RegId, src23: RegId,
    element_size: u8, signed: bool,
) -> EncodeOutcome {
    four_lanes(
        encode_arm64_simd_mul_spec(dst0, src10, src20, element_size),
        encode_arm64_simd_mul_spec(dst1, src11, src21, element_size),
        encode_arm64_simd_mul_spec(dst2, src12, src22, element_size),
        encode_arm64_simd_mul_spec(dst3, src13, src23, element_size),
    )
}

fn encode_arm64_vec256_mul(
    dst0: RegId, dst1: RegId, dst2: RegId, dst3: RegId,
    src10: RegId, src11: RegId, src12: RegId, src13: RegId,
    src20: RegId, src21: RegId, src22: RegId, src23: RegId,
    element_size: u8, signed: bool,
) -> (r: Result<Vec<TargetInstruction>, TranslationError>)
    ensures
        outcome_matches(r, encode_arm64_vec256_mul_spec(dst0, dst1, dst2, dst3, src10, src11, src12, src13, src20, src21, src22, src23, element_size, signed)),
{
    let ghost a = encode_arm64_simd_mul_spec(dst0, src10, src20, element_size);
    let ghost b = encode_arm64_simd_mul_spec(dst1, src11, src21, element_size);
    let ghost c = encode_arm64_simd_mul_spec(dst2, src12, src22, element_size);
    let ghost d = encode_arm64_simd_mul_spec(dst3, src13, src23, element_size);
    let r0 = encode_arm64_simd_mul(dst0, src10, src20, element_size);
    let r1 = encode_arm64_simd_mul(dst1, src11, src21, element_size);
    let r01 = then_result(r0, r1, Ghost(a), Ghost(b));
    let r2 = encode_arm64_simd_mul(dst2, src12, src22, element_size);
    let r012 = then_result(r01, r2, Ghost(then_outcome(a, b)), Ghost(c));
    let r3 = encode_arm64_simd_mul(dst3, src13, src23, element_size);
    then_result(r012, r3, Ghost(then_outcome(then_outcome(a, b), c)), Ghost(d))
}

// ----- scalar and floating-point register instructions -----

pub open spec fn encode_arm64_add_spec(dst: RegId, src1: RegId, src2: RegId) -> InsnView {
    word_view(
        0x8B000000u32 | ((dst & 0x1Fu32) as u32) | (((src1 & 0x1Fu32) as u32) << 5u32) | (((src2 & 0x1Fu32) as u32) << 16u32),
        "add x"@ + dec(dst as nat) + ", x"@ + dec(src1 as nat) + ", x"@ + dec(src2 as nat),
        false,
    )
}

fn encode_arm64_add(dst: RegId, src1: RegId, src2: RegId) -> (r: TargetInstruction)
    ensures
        r@ == encode_arm64_add_spec(dst, src1, src2),
{
    let mut m = text("add x");
    push_u64(&mut m, dst as u64);
    push_text(&mut m, ", x");
    push_u64(&mut m, src1 as u64);
    push_text(&mut m, ", x");
    push_u64(&mut m, src2 as u64);
    word_insn(0x8B000000 | ((dst & 0x1F) as u32) | (((src1 & 0x1F) as u32) << 5) | (((src2 & 0x1F) as u32) << 16), m, false)
}

pub open spec fn encode_arm64_sub_spec(dst: RegId, src1: RegId, src2: RegId) -> InsnView {
    word_view(
        0xCB000000u32 | ((dst & 0x1Fu32) as u32) | (((src1 & 0x1Fu32) as u32) << 5u32) | (((src2 & 0x1Fu32) as u32) << 16u32),
        "sub x"@ + dec(dst as nat) + ", x"@ + dec(src1 as nat) + ", x"@ + dec(src2 as nat),
        false,
    )
}

fn encode_arm64_sub(dst: RegId, src1: RegId, src2: RegId) -> (r: TargetInstruction)
    ensures
        r@ == encode_arm64_sub_spec(dst, src1, src2),
{
    let mut m = text("sub x");
    push_u64(&mut m, dst as u64);
    push_text(&mut m, ", x");
    push_u64(&mut m, src1 as u64);
    push_text(&mut m, ", x");
    push_u64(&mut m, src2 as u64);
    word_insn(0xCB000000 | ((dst & 0x1F) as u32) | (((src1 & 0x1F) as u32) << 5) | (((src2 & 0x1F) as u32) << 16), m, false)
}

pub open spec fn encode_arm64_fadd_spec(dst: RegId, src1: RegId, src2: RegId) -> InsnView {
    word_view(
        0x4E60D400u32 | ((dst & 0x1Fu32) as u32) | (((src1 & 0x1Fu32) as u32) << 5u32) | (((src2 & 0x1Fu32) as u32) << 16u32),
        "fadd d"@ + dec(dst as nat) + ", d"@ + dec(src1 as nat) + ", d"@ + dec(src2 as nat),
        false,
    )
}

fn encode_arm64_fadd(dst: RegId, src1: RegId, src2: RegId) -> (r: TargetInstruction)
    ensures
        r@ == encode_arm64_fadd_spec(dst, src1, src2),
{
    let mut m = text("fadd d");
    push_u64(&mut m, dst as u64);
    push_text(&mut m, ", d");
    push_u64(&mut m, src1 as u64);
    push_text(&mut m, ", d");
    push_u64(&mut m, src2 as u64);
    word_insn(0x4E60D400 | ((dst & 0x1F) as u32) | (((src1 & 0x1F) as u32) << 5) | (((src2 & 0x1F) as u32) << 16), m, false)
}

pub open spec fn encode_arm64_fsub_spec(dst: RegId, src1: RegId, src2: RegId) -> InsnView {
    word_view(
        0x4E60D800u32 | ((dst & 0x1Fu32) as u32) | (((src1 & 0x1Fu32) as u32) << 5u32) | (((src2 & 0x1Fu32) as u32) << 16u32),
        "fsub d"@ + dec(dst as nat) + ", d"@ + dec(src1 as nat) + ", d"@ + dec(src2 as nat),
        false,
    )
}

fn encode_arm64_fsub(dst: RegId, src1: RegId, src2: RegId) -> (r: TargetInstruction)
    ensures
        r@ == encode_arm64_fsub_spec(dst, src1, src2),
{
    let mut m = text("fsub d");
    push_u64(&mut m, dst as u64);
    push_text(&mut m, ", d");
    push_u64(&mut m, src1 as u64);
    push_text(&mut m, ", d");
    push_u64(&mut m, src2 as u64);
    word_insn(0x4E60D800 | ((dst & 0x1F) as u32) | (((src1 & 0x1F) as u32) << 5) | (((src2 & 0x1F) as u32) << 16), m, false)
}

pub open spec fn encode_arm64_fmul_spec(dst: RegId, src1: RegId, src2: RegId) -> InsnView {
    word_view(
        0x4E60DC00u32 | ((dst & 0x1Fu32) as u32) | (((src1 & 0x1Fu32) as u32) << 5u32) | (((src2 & 0x1Fu32) as u32) << 16u32),
        "fmul d"@ + dec(dst as nat) + ", d"@ + dec(src1 as nat) + ", d"@ + dec(src2 as nat),
        false,
    )
}

fn encode_arm64_fmul(dst: RegId, src1: RegId, src2: RegId) -> (r: TargetInstruction)
    ensures
        r@ == encode_arm64_fmul_spec(dst, src1, src2),
{
    let mut m = text("fmul d");
    push_u64(&mut m, dst as u64);
    push_text(&mut m, ", d");
    push_u64(&mut m, src1 as u64);
    push_text(&mut m, ", d");
    push_u64(&mut m, src2 as u64);
    word_insn(0x4E60DC00 | ((dst & 0x1F) as u32) | (((src1 & 0x1F) as u32) << 5) | (((src2 & 0x1F) as u32) << 16), m, false)
}

pub open spec fn encode_arm64_fdiv_spec(dst: RegId, src1: RegId, src2: RegId) -> InsnView {
    word_view(
        0x4E60E400u32 | ((dst & 0x1Fu32) as u32) | (((src1 & 0x1Fu32) as u32) << 5u32) | (((src2 & 0x1Fu32) as u32) << 16u32),
        "fdiv d"@ + dec(dst as nat) + ", d"@ + dec(src1 as nat) + ", d"@ + dec(src2 as nat),
        false,
    )
}

fn encode_arm64_fdiv(dst: RegId, src1: RegId, src2: RegId) -> (r: TargetInstruction)
    ensures
        r@ == encode_arm64_fdiv_spec(dst, src1, src2),
{
    let mut m = text("fdiv d");
    push_u64(&mut m, dst as u64);
    push_text(&mut m, ", d");
    push_u64(&mut m, src1 as u64);
    push_text(&mut m, ", d");
    push_u64(&mut m, src2 as u64);
    word_insn(0x4E60E400 | ((dst & 0x1F) as u32) | (((src1 & 0x1F) as u32) << 5) | (((src2 & 0x1F) as u32) << 16), m, false)
}

pub open spec fn encode_arm64_fadds_spec(dst: RegId, src1: RegId, src2: RegId) -> InsnView {
    word_view(
        0x4E20D400u32 | ((dst & 0x1Fu32) as u32) | (((src1 & 0x1Fu32) as u32) << 5u32) | (((src2 & 0x1Fu32) as u32) << 16u32),
        "fadd s"@ + dec(dst as nat) + ", s"@ + dec(src1 as nat) + ", s"@ + dec(src2 as nat),
        false,
    )
}

fn encode_arm64_fadds(dst: RegId, src1: RegId, src2: RegId) -> (r: TargetInstruction)
    ensures
        r@ == encode_arm64_fadds_spec(dst, src1, src2),
{
    let mut m = text("fadd s");
    push_u64(&mut m, dst as u64);
    push_text(&mut m, ", s");
    push_u64(&mut m, src1 as u64);
    push_text(&mut m, ", s");
    push_u64(&mut m, src2 as u64);
    word_insn(0x4E20D400 | ((dst & 0x1F) as u32) | (((src1 & 0x1F) as u32) << 5) | (((src2 & 0x1F) as u32) << 16), m, false)
}

pub open spec fn encode_arm64_fsubs_spec(dst: RegId, src1: RegId, src2: RegId) -> InsnView {
    word_view(
        0x4E20D800u32 | ((dst & 0x1Fu32) as u32) | (((src1 & 0x1Fu32) as u32) << 5u32) | (((src2 & 0x1Fu32) as u32) << 16u32),
        "fsub s"@ + dec(dst as nat) + ", s"@ + dec(src1 as nat) + ", s"@ + dec(src2 as nat),
        false,
    )
}

fn encode_arm64_fsubs(dst: RegId, src1: RegId, src2: RegId) -> (r: TargetInstruction)
    ensures
        r@ == encode_arm64_fsubs_spec(dst, src1, src2),
{
    let mut m = text("fsub s");
    push_u64(&mut m, dst as u64);
    push_text(&mut m, ", s");
    push_u64(&mut m, src1 as u64);
    push_text(&mut m, ", s");
    push_u64(&mut m, src2 as u64);
    word_insn(0x4E20D800 | ((dst & 0x1F) as u32) | (((src1 & 0x1F) as u32) << 5) | (((src2 & 0x1F) as u32) << 16), m, false)
}

pub open spec fn encode_arm64_fmuls_spec(dst: RegId, src1: RegId, src2: RegId) -> InsnView {
    word_view(
        0x4E20DC00u32 | ((dst & 0x1Fu32) as u32) | (((src1 & 0x1Fu32) as u32) << 5u32) | (((src2 & 0x1Fu32) as u32) << 16u32),
        "fmul s"@ + dec(dst as nat) + ", s"@ + dec(src1 as nat) + ", s"@ + dec(src2 as nat),
        false,
    )
}

fn encode_arm64_fmuls(dst: RegId, src1: RegId, src2: RegId) -> (r: TargetInstruction)
    ensures
        r@ == encode_arm64_fmuls_spec(dst, src1, src2),
{
    let mut m = text("fmul s");
    push_u64(&mut m, dst as u64);
    push_text(&mut m, ", s");
    push_u64(&mut m, src1 as u64);
    push_text(&mut m, ", s");
    push_u64(&mut m, src2 as u64);
    word_insn(0x4E20DC00 | ((dst & 0x1F) as u32) | (((src1 & 0x1F) as u32) << 5) | (((src2 & 0x1F) as u32) << 16), m, false)
}

pub open spec fn encode_arm64_fdivs_spec(dst: RegId, src1: RegId, src2: RegId) -> InsnView {
    word_view(
        0x4E20E400u32 | ((dst & 0x1Fu32) as u32) | (((src1 & 0x1Fu32) as u32) << 5u32) | (((src2 & 0x1Fu32) as u32) << 16u32),
        "fdiv s"@ + dec(dst as nat) + ", s"@ + dec(src1 as nat) + ", s"@ + dec(src2 as nat),
        false,
    )
}

fn encode_arm64_fdivs(dst: RegId, src1: RegId, src2: RegId) -> (r: TargetInstruction)
    ensures
        r@ == encode_arm64_fdivs_spec(dst, src1, src2),
{
    let mut m = text("fdiv s");
    push_u64(&mut m, dst as u64);
    push_text(&mut m, ", s");
    push_u64(&mut m, src1 as u64);
    push_text(&mut m, ", s");
    push_u64(&mut m, src2 as u64);
    word_insn(0x4E20E400 | ((dst & 0x1F) as u32) | (((src1 & 0x1F) as u32) << 5) | (((src2 & 0x1F) as u32) << 16), m, false)
}

pub open spec fn encode_arm64_fsqrt_spec(dst: RegId, src: RegId) -> InsnView {
    word_view(
        0x4EE1E800u32 | ((dst & 0x1Fu32) as u32) | (((src & 0x1Fu32) as u32) << 5u32),
        "fsqrt d"@ + dec(dst as nat) + ", d"@ + dec(src as nat),
        false,
    )
}

fn encode_arm64_fsqrt(dst: RegId, src: RegId) -> (r: TargetInstruction)
    ensures
        r@ == encode_arm64_fsqrt_spec(dst, src),
{
    let mut m = text("fsqrt d");
    push_u64(&mut m, dst as u64);
    push_text(&mut m, ", d");
    push_u64(&mut m, src as u64);
    word_insn(0x4EE1E800 | ((dst & 0x1F) as u32) | (((src & 0x1F) as u32) << 5), m, false)
}

pub open spec fn encode_arm64_fsqrts_spec(dst: RegId, src: RegId) -> InsnView {
    word_view(
        0x4EA1E800u32 | ((dst & 0x1Fu32) as u32) | (((src & 0x1Fu32) as u32) << 5u32),
        "fsqrt s"@ + dec(dst as nat) + ", s"@ + dec(src as nat),
        false,
    )
}

fn encode_arm64_fsqrts(dst: RegId, src: RegId) -> (r: TargetInstruction)
    ensures
        r@ == encode_arm64_fsqrts_spec(dst, src),
{
    let mut m = text("fsqrt s");
    push_u64(&mut m, dst as u64);
    push_text(&mut m, ", s");
    push_u64(&mut m, src as u64);
    word_insn(0x4EA1E800 | ((dst & 0x1F) as u32) | (((src & 0x1F) as u32) << 5), m, false)
}

pub open spec fn encode_arm64_fmadd_spec(dst: RegId, src1: RegId, src2: RegId, src3: RegId) -> InsnView {
    word_view(
        0x4F60E800u32 | ((dst & 0x1Fu32) as u32) | (((src1 & 0x1Fu32) as u32) << 5u32) | (((src2 & 0x1Fu32) as u32) << 16u32) | (((src3 & 0x1Fu32) as u32) << 10u32),
        "fmadd d"@ + dec(dst as nat) + ", d"@ + dec(src1 as nat) + ", d"@ + dec(src2 as nat) + ", d"@ + dec(src3 as nat),
        false,
    )
}

fn encode_arm64_fmadd(dst: RegId, src1: RegId, src2: RegId, src3: RegId) -> (r: TargetInstruction)
    ensures
        r@ == encode_arm64_fmadd_spec(dst, src1, src2, src3),
{
    let mut m = text("fmadd d");
    push_u64(&mut m, dst as u64);
    push_text(&mut m, ", d");
    push_u64(&mut m, src1 as u64);
    push_text(&mut m, ", d");
    push_u64(&mut m, src2 as u64);
    push_text(&mut m, ", d");
    push_u64(&mut m, src3 as u64);
    word_insn(0x4F60E800 | ((dst & 0x1F) as u32) | (((src1 & 0x1F) as u32) << 5) | (((src2 & 0x1F) as u32) << 16) | (((src3 & 0x1F) as u32) << 10), m, false)
}

pub open spec fn encode_arm64_fmsub_spec(dst: RegId, src1: RegId, src2: RegId, src3: RegId) -> InsnView {
    word_view(
        0x4F60E800u32 | ((dst & 0x1Fu32) as u32) | (((src1 & 0x1Fu32) as u32) << 5u32) | (((src2 & 0x1Fu32) as u32) << 16u32) | (((src3 & 0x1Fu32) as u32) << 10u32) | (1u32 << 15u32),
        "fmsub d"@ + dec(dst as nat) + ", d"@ + dec(src1 as nat) + ", d"@ + dec(src2 as nat) + ", d"@ + dec(src3 as nat),
        false,
    )
}

fn encode_arm64_fmsub(dst: RegId, src1: RegId, src2: RegId, src3: RegId) -> (r: TargetInstruction)
    ensures
        r@ == encode_arm64_fmsub_spec(dst, src1, src2, src3),
{
    let mut m = text("fmsub d");
    push_u64(&mut m, dst as u64);
    push_text(&mut m, ", d");
    push_u64(&mut m, src1 as u64);
    push_text(&mut m, ", d");
    push_u64(&mut m, src2 as u64);
    push_text(&mut m, ", d");
    push_u64(&mut m, src3 as u64);
    word_insn(0x4F60E800 | ((dst & 0x1F) as u32) | (((src1 & 0x1F) as u32) << 5) | (((src2 & 0x1F) as u32) << 16) | (((src3 & 0x1F) as u32) << 10) | (1 << 15), m, false)
}

pub open spec fn encode_arm64_fnmadd_spec(dst: RegId, src1: RegId, src2: RegId, src3: RegId) -> InsnView {
    word_view(
        0x4F60E800u32 | ((dst & 0x1Fu32) as u32) | (((src1 & 0x1Fu32) as u32) << 5u32) | (((src2 & 0x1Fu32) as u32) << 16u32) | (((src3 & 0x1Fu32) as u32) << 10u32) | (1u32 << 30u32),
        "fnmadd d"@ + dec(dst as nat) + ", d"@ + dec(src1 as nat) + ", d"@ + dec(src2 as nat) + ", d"@ + dec(src3 as nat),
        false,
    )
}

fn encode_arm64_fnmadd(dst: RegId, src1: RegId, src2: RegId, src3: RegId) -> (r: TargetInstruction)
    ensures
        r@ == encode_arm64_fnmadd_spec(dst, src1, src2, src3),
{
    let mut m = text("fnmadd d");
    push_u64(&mut m, dst as u64);
    push_text(&mut m, ", d");
    push_u64(&mut m, src1 as u64);
    push_text(&mut m, ", d");
    push_u64(&mut m, src2 as u64);
    push_text(&mut m, ", d");
    push_u64(&mut m, src3 as u64);
    word_insn(0x4F60E800 | ((dst & 0x1F) as u32) | (((src1 & 0x1F) as u32) << 5) | (((src2 & 0x1F) as u32) << 16) | (((src3 & 0x1F) as u32) << 10) | (1 << 30), m, false)
}

pub open spec fn encode_arm64_fnmsub_spec(dst: RegId, src1: RegId, src2: RegId, src3: RegId) -> InsnView {
    word_view(
        0x4F60E800u32 | ((dst & 0x1Fu32) as u32) | (((src1 & 0x1Fu32) as u32) << 5u32) | (((src2 & 0x1Fu32) as u32) << 16u32) | (((src3 & 0x1Fu32) as u32) << 10u32) | (1u32 << 30u32) | (1u32 << 15u32),
        "fnmsub d"@ + dec(dst as nat) + ", d"@ + dec(src1 as nat) + ", d"@ + dec(src2 as nat) + ", d"@ + dec(src3 as nat),
        false,
    )
}

fn encode_arm64_fnmsub(dst: RegId, src1: RegId, src2: RegId, src3: RegId) -> (r: TargetInstruction)
    ensures
        r@ == encode_arm64_fnmsub_spec(dst, src1, src2, src3),
{
    let mut m = text("fnmsub d");
    push_u64(&mut m, dst as u64);
    push_text(&mut m, ", d");
    push_u64(&mut m, src1 as u64);
    push_text(&mut m, ", d");
    push_u64(&mut m, src2 as u64);
    push_text(&mut m, ", d");
    push_u64(&mut m, src3 as u64);
    word_insn(0x4F60E800 | ((dst & 0x1F) as u32) | (((src1 & 0x1F) as u32) << 5) | (((src2 & 0x1F) as u32) << 16) | (((src3 & 0x1F) as u32) << 10) | (1 << 30) | (1 << 15), m, false)
}

pub open spec fn encode_arm64_fmadds_spec(dst: RegId, src1: RegId, src2: RegId, src3: RegId) -> InsnView {
    word_view(
        0x4F20E800u32 | ((dst & 0x1Fu32) as u32) | (((src1 & 0x1Fu32) as u32) << 5u32) | (((src2 & 0x1Fu32) as u32) << 16u32) | (((src3 & 0x1Fu32) as u32) << 10u32),
        "fmadd s"@ + dec(dst as nat) + ", s"@ + dec(src1 as nat) + ", s"@ + dec(src2 as nat) + ", s"@ + dec(src3 as nat),
        false,
    )
}

fn encode_arm64_fmadds(dst: RegId, src1: RegId, src2: RegId, src3: RegId) -> (r: TargetInstruction)
    ensures
        r@ == encode_arm64_fmadds_spec(dst, src1, src2, src3),
{
    let mut m = text("fmadd s");
    push_u64(&mut m, dst as u64);
    push_text(&mut m, ", s");
    push_u64(&mut m, src1 as u64);
    push_text(&mut m, ", s");
    push_u64(&mut m, src2 as u64);
    push_text(&mut m, ", s");
    push_u64(&mut m, src3 as u64);
    word_insn(0x4F20E800 | ((dst & 0x1F) as u32) | (((src1 & 0x1F) as u32) << 5) | (((src2 & 0x1F) as u32) << 16) | (((src3 & 0x1F) as u32) << 10), m, false)
}

pub open spec fn encode_arm64_fmsubs_spec(dst: RegId, src1: RegId, src2: RegId, src3: RegId) -> InsnView {
    word_view(
        0x4F20E800u32 | ((dst & 0x1Fu32) as u32) | (((src1 & 0x1Fu32) as u32) << 5u32) | (((src2 & 0x1Fu32) as u32) << 16u32) | (((src3 & 0x1Fu32) as u32) << 10u32) | (1u32 << 15u32),
        "fmsub s"@ + dec(dst as nat) + ", s"@ + dec(src1 as nat) + ", s"@ + dec(src2 as nat) + ", s"@ + dec(src3 as nat),
        false,
    )
}

fn encode_arm64_fmsubs(dst: RegId, src1: RegId, src2: RegId, src3: RegId) -> (r: TargetInstruction)
    ensures
        r@ == encode_arm64_fmsubs_spec(dst, src1, src2, src3),
{
    let mut m = text("fmsub s");
    push_u64(&mut m, dst as u64);
    push_text(&mut m, ", s");
    push_u64(&mut m, src1 as u64);
    push_text(&mut m, ", s");
    push_u64(&mut m, src2 as u64);
    push_text(&mut m, ", s");
    push_u64(&mut m, src3 as u64);
    word_insn(0x4F20E800 | ((dst & 0x1F) as u32) | (((src1 & 0x1F) as u32) << 5) | (((src2 & 0x1F) as u32) << 16) | (((src3 & 0x1F) as u32) << 10) | (1 << 15), m, false)
}

pub open spec fn encode_arm64_fnmadds_spec(dst: RegId, src1: RegId, src2: RegId, src3: RegId) -> InsnView {
    word_view(
        0x4F20E800u32 | ((dst & 0x1Fu32) as u32) | (((src1 & 0x1Fu32) as u32) << 5u32) | (((src2 & 0x1Fu32) as u32) << 16u32) | (((src3 & 0x1Fu32) as u32) << 10u32) | (1u32 << 30u32),
        "fnmadd s"@ + dec(dst as nat) + ", s"@ + dec(src1 as nat) + ", s"@ + dec(src2 as nat) + ", s"@ + dec(src3 as nat),
        false,
    )
}

fn encode_arm64_fnmadds(dst: RegId, src1: RegId, src2: RegId, src3: RegId) -> (r: TargetInstruction)
    ensures
        r@ == encode_arm64_fnmadds_spec(dst, src1, src2, src3),
{
    let mut m = text("fnmadd s");
    push_u64(&mut m, dst as u64);
    push_text(&mut m, ", s");
    push_u64(&mut m, src1 as u64);
    push_text(&mut m, ", s");
    push_u64(&mut m, src2 as u64);
    push_text(&mut m, ", s");
    push_u64(&mut m, src3 as u64);
    word_insn(0x4F20E800 | ((dst & 0x1F) as u32) | (((src1 & 0x1F) as u32) << 5) | (((src2 & 0x1F) as u32) << 16) | (((src3 & 0x1F) as u32) << 10) | (1 << 30), m, false)
}

pub open spec fn encode_arm64_fnmsubs_spec(dst: RegId, src1: RegId, src2: RegId, src3: RegId) -> InsnView {
    word_view(
        0x4F20E800u32 | ((dst & 0x1Fu32) as u32) | (((src1 & 0x1Fu32) as u32) << 5u32) | (((src2 & 0x1Fu32) as u32) << 16u32) | (((src3 & 0x1Fu32) as u32) << 10u32) | (1u32 << 30u32) | (1u32 << 15u32),
        "fnmsub s"@ + dec(dst as nat) + ", s"@ + dec(src1 as nat) + ", s"@ + dec(src2 as nat) + ", s"@ + dec(src3 as nat),
        false,
    )
}

fn encode_arm64_fnmsubs(dst: RegId, src1: RegId, src2: RegId, src3: RegId) -> (r: TargetInstruction)
    ensures
        r@ == encode_arm64_fnmsubs_spec(dst, src1, src2, src3),
{
    let mut m = text("fnmsub s");
    push_u64(&mut m, dst as u64);
    push_text(&mut m, ", s");
    push_u64(&mut m, src1 as u64);
    push_text(&mut m, ", s");
    push_u64(&mut m, src2 as u64);
    push_text(&mut m, ", s");
    push_u64(&mut m, src3 as u64);
    word_insn(0x4F20E800 | ((dst & 0x1F) as u32) | (((src1 & 0x1F) as u32) << 5) | (((src2 & 0x1F) as u32) << 16) | (((src3 & 0x1F) as u32) << 10) | (1 << 30) | (1 << 15), m, false)
}

pub open spec fn encode_arm64_fcompare_spec(dst: RegId, src1: RegId, src2: RegId) -> InsnView {
    word_view(
        0x4E60E200u32 | (((src1 & 0x1Fu32) as u32) << 5u32) | (((src2 & 0x1Fu32) as u32) << 16u32),
        "fcmp d"@ + dec(src1 as nat) + ", d"@ + dec(src2 as nat),
        false,
    )
}

fn encode_arm64_fcompare(dst: RegId, src1: RegId, src2: RegId) -> (r: TargetInstruction)
    ensures
        r@ == encode_arm64_fcompare_spec(dst, src1, src2),
{
    let mut m = text("fcmp d");
    push_u64(&mut m, src1 as u64);
    push_text(&mut m, ", d");
    push_u64(&mut m, src2 as u64);
    word_insn(0x4E60E200 | (((src1 & 0x1F) as u32) << 5) | (((src2 & 0x1F) as u32) << 16), m, false)
}

pub open spec fn encode_arm64_fcomparelt_spec(dst: RegId, src1: RegId, src2: RegId) -> InsnView {
    word_view(
        0x4E60E200u32 | (((src1 & 0x1Fu32) as u32) << 5u32) | (((src2 & 0x1Fu32) as u32) << 16u32),
        "fcmplt d"@ + dec(src1 as nat) + ", d"@ + dec(src2 as nat),
        false,
    )
}

fn encode_arm64_fcomparelt(dst: RegId, src1: RegId, src2: RegId) -> (r: TargetInstruction)
    ensures
        r@ == encode_arm64_fcomparelt_spec(dst, src1, src2),
{
    let mut m = text("fcmplt d");
    push_u64(&mut m, src1 as u64);
    push_text(&mut m, ", d");
    push_u64(&mut m, src2 as u64);
    word_insn(0x4E60E200 | (((src1 & 0x1F) as u32) << 5) | (((src2 & 0x1F) as u32) << 16), m, false)
}

pub open spec fn encode_arm64_fcomparele_spec(dst: RegId, src1: RegId, src2: RegId) -> InsnView {
    word_view(
        0x4E60E200u32 | (((src1 & 0x1Fu32) as u32) << 5u32) | (((src2 & 0x1Fu32) as u32) << 16u32),
        "fcmple d"@ + dec(src1 as nat) + ", d"@ + dec(src2 as nat),
        false,
    )
}

fn encode_arm64_fcomparele(dst: RegId, src1: RegId, src2: RegId) -> (r: TargetInstruction)
    ensures
        r@ == encode_arm64_fcomparele_spec(dst, src1, src2),
{
    let mut m = text("fcmple d");
    push_u64(&mut m, src1 as u64);
    push_text(&mut m, ", d");
    push_u64(&mut m, src2 as u64);
    word_insn(0x4E60E200 | (((src1 & 0x1F) as u32) << 5) | (((src2 & 0x1F) as u32) << 16), m, false)
}

pub open spec fn encode_arm64_fcompares_spec(dst: RegId, src1: RegId, src2: RegId) -> InsnView {
    word_view(
        0x4E20E200u32 | (((src1 & 0x1Fu32) as u32) << 5u32) | (((src2 & 0x1Fu32) as u32) << 16u32),
        "fcmp s"@ + dec(src1 as nat) + ", s"@ + dec(src2 as nat),
        false,
    )
}

fn encode_arm64_fcompares(dst: RegId, src1: RegId, src2: RegId) -> (r: TargetInstruction)
    ensures
        r@ == encode_arm64_fcompares_spec(dst, src1, src2),
{
    let mut m = text("fcmp s");
    push_u64(&mut m, src1 as u64);
    push_text(&mut m, ", s");
    push_u64(&mut m, src2 as u64);
    word_insn(0x4E20E200 | (((src1 & 0x1F) as u32) << 5) | (((src2 & 0x1F) as u32) << 16), m, false)
}

pub open spec fn encode_arm64_fcomparelts_spec(dst: RegId, src1: RegId, src2: RegId) -> InsnView {
    word_view(
        0x4E20E200u32 | (((src1 & 0x1Fu32) as u32) << 5u32) | (((src2 & 0x1Fu32) as u32) << 16u32),
        "fcmplt s"@ + dec(src1 as nat) + ", s"@ + dec(src2 as nat),
        false,
    )
}

fn encode_arm64_fcomparelts(dst: RegId, src1: RegId, src2: RegId) -> (r: TargetInstruction)
    ensures
        r@ == encode_arm64_fcomparelts_spec(dst, src1, src2),
{
    let mut m = text("fcmplt s");
    push_u64(&mut m, src1 as u64);
    push_text(&mut m, ", s");
    push_u64(&mut m, src2 as u64);
    word_insn(0x4E20E200 | (((src1 & 0x1F) as u32) << 5) | (((src2 & 0x1F) as u32) << 16), m, false)
}

pub open spec fn encode_arm64_fcompareles_spec(dst: RegId, src1: RegId, src2: RegId) -> InsnView {
    word_view(
        0x4E20E200u32 | (((src1 & 0x1Fu32) as u32) << 5u32) | (((src2 & 0x1Fu32) as u32) << 16u32),
        "fcmple s"@ + dec(src1 as nat) + ", s"@ + dec(src2 as nat),
        false,
    )
}

fn encode_arm64_fcompareles(dst: RegId, src1: RegId, src2: RegId) -> (r: TargetInstruction)
    ensures
        r@ == encode_arm64_fcompareles_spec(dst, src1, src2),
{
    let mut m = text("fcmple s");
    push_u64(&mut m, src1 as u64);
    push_text(&mut m, ", s");
    push_u64(&mut m, src2 as u64);
    word_insn(0x4E20E200 | (((src1 & 0x1F) as u32) << 5) | (((src2 & 0x1F) as u32) << 16), m, false)
}

pub open spec fn encode_arm64_fmin_spec(dst: RegId, src1: RegId, src2: RegId) -> InsnView {
    word_view(
        0x4E60E400u32 | ((dst & 0x1Fu32) as u32) | (((src1 & 0x1Fu32) as u32) << 5u32) | (((src2 & 0x1Fu32) as u32) << 16u32),
        "fmin d"@ + dec(dst as nat) + ", d"@ + dec(src1 as nat) + ", d"@ + dec(src2 as nat),
        false,
    )
}

fn encode_arm64_fmin(dst: RegId, src1: RegId, src2: RegId) -> (r: TargetInstruction)
    ensures
        r@ == encode_arm64_fmin_spec(dst, src1, src2),
{
    let mut m = text("fmin d");
    push_u64(&mut m, dst as u64);
    push_text(&mut m, ", d");
    push_u64(&mut m, src1 as u64);
    push_text(&mut m, ", d");
    push_u64(&mut m, src2 as u64);
    word_insn(0x4E60E400 | ((dst & 0x1F) as u32) | (((src1 & 0x1F) as u32) << 5) | (((src2 & 0x1F) as u32) << 16), m, false)
}

pub open spec fn encode_arm64_fmax_spec(dst: RegId, src1: RegId, src2: RegId) -> InsnView {
    word_view(
        0x4E60E500u32 | ((dst & 0x1Fu32) as u32) | (((src1 & 0x1Fu32) as u32) << 5u32) | (((src2 & 0x1Fu32) as u32) << 16u32),
        "fmax d"@ + dec(dst as nat) + ", d"@ + dec(src1 as nat) + ", d"@ + dec(src2 as nat),
        false,
    )
}

fn encode_arm64_fmax(dst: RegId, src1: RegId, src2: RegId) -> (r: TargetInstruction)
    ensures
        r@ == encode_arm64_fmax_spec(dst, src1, src2),
{
    let mut m = text("fmax d");
    push_u64(&mut m, dst as u64);
    push_text(&mut m, ", d");
    push_u64(&mut m, src1 as u64);
    push_text(&mut m, ", d");
    push_u64(&mut m, src2 as u64);
    word_insn(0x4E60E500 | ((dst & 0x1F) as u32) | (((src1 & 0x1F) as u32) << 5) | (((src2 & 0x1F) as u32) << 16), m, false)
}

pub open spec fn encode_arm64_fmins_spec(dst: RegId, src1: RegId, src2: RegId) -> InsnView {
    word_view(
        0x4E20E400u32 | ((dst & 0x1Fu32) as u32) | (((src1 & 0x1Fu32) as u32) << 5u32) | (((src2 & 0x1Fu32) as u32) << 16u32),
        "fmin s"@ + dec(dst as nat) + ", s"@ + dec(src1 as nat) + ", s"@ + dec(src2 as nat),
        false,
    )
}

fn encode_arm64_fmins(dst: RegId, src1: RegId, src2: RegId) -> (r: TargetInstruction)
    ensures
        r@ == encode_arm64_fmins_spec(dst, src1, src2),
{
    let mut m = text("fmin s");
    push_u64(&mut m, dst as u64);
    push_text(&mut m, ", s");
    push_u64(&mut m, src1 as u64);
    push_text(&mut m, ", s");
    push_u64(&mut m, src2 as u64);
    word_insn(0x4E20E400 | ((dst & 0x1F) as u32) | (((src1 & 0x1F) as u32) << 5) | (((src2 & 0x1F) as u32) << 16), m, false)
}

pub open spec fn encode_arm64_fmaxs_spec(dst: RegId, src1: RegId, src2: RegId) -> InsnView {
    word_view(
        0x4E20E500u32 | ((dst & 0x1Fu32) as u32) | (((src1 & 0x1Fu32) as u32) << 5u32) | (((src2 & 0x1Fu32) as u32) << 16u32),
        "fmax s"@ + dec(dst as nat) + ", s"@ + dec(src1 as nat) + ", s"@ + dec(src2 as nat),
        false,
    )
}

fn encode_arm64_fmaxs(dst: RegId, src1: RegId, src2: RegId) -> (r: TargetInstruction)
    ensures
        r@ == encode_arm64_fmaxs_spec(dst, src1, src2),
{
    let mut m = text("fmax s");
    push_u64(&mut m, dst as u64);
    push_text(&mut m, ", s");
    push_u64(&mut m, src1 as u64);
    push_text(&mut m, ", s");
    push_u64(&mut m, src2 as u64);
    word_insn(0x4E20E500 | ((dst & 0x1F) as u32) | (((src1 & 0x1F) as u32) << 5) | (((src2 & 0x1F) as u32) << 16), m, false)
}

pub open spec fn encode_arm64_fabs_spec(dst: RegId, src: RegId) -> InsnView {
    word_view(
        0x4EE0E800u32 | ((dst & 0x1Fu32) as u32) | (((src & 0x1Fu32) as u32) << 5u32),
        "fabs d"@ + dec(dst as nat) + ", d"@ + dec(src as nat),
        false,
    )
}

fn encode_arm64_fabs(dst: RegId, src: RegId) -> (r: TargetInstruction)
    ensures
        r@ == encode_arm64_fabs_spec(dst, src),
{
    let mut m = text("fabs d");
    push_u64(&mut m, dst as u64);
    push_text(&mut m, ", d");
    push_u64(&mut m, src as u64);
    word_insn(0x4EE0E800 | ((dst & 0x1F) as u32) | (((src & 0x1F) as u32) << 5), m, false)
}

pub open spec fn encode_arm64_fneg_spec(dst: RegId, src: RegId) -> InsnView {
    word_view(
        0x4EE0E900u32 | ((dst & 0x1Fu32) as u32) | (((src & 0x1Fu32) as u32) << 5u32),
        "fneg d"@ + dec(dst as nat) + ", d"@ + dec(src as nat),
        false,
    )
}

fn encode_arm64_fneg(dst: RegId, src: RegId) -> (r: TargetInstruction)
    ensures
        r@ == encode_arm64_fneg_spec(dst, src),
{
    let mut m = text("fneg d");
    push_u64(&mut m, dst as u64);
    push_text(&mut m, ", d");
    push_u64(&mut m, src as u64);
    word_insn(0x4EE0E900 | ((dst & 0x1F) as u32) | (((src & 0x1F) as u32) << 5), m, false)
}

pub open spec fn encode_arm64_fabss_spec(dst: RegId, src: RegId) -> InsnView {
    word_view(
        0x4EA0E800u32 | ((dst & 0x1Fu32) as u32) | (((src & 0x1Fu32) as u32) << 5u32),
        "fabs s"@ + dec(dst as nat) + ", s"@ + dec(src as nat),
        false,
    )
}

fn encode_arm64_fabss(dst: RegId, src: RegId) -> (r: TargetInstruction)
    ensures
        r@ == encode_arm64_fabss_spec(dst, src),
{
    let mut m = text("fabs s");
    push_u64(&mut m, dst as u64);
    push_text(&mut m, ", s");
    push_u64(&mut m, src as u64);
    word_insn(0x4EA0E800 | ((dst & 0x1F) as u32) | (((src & 0x1F) as u32) << 5), m, false)
}

pub open spec fn encode_arm64_fnegs_spec(dst: RegId, src: RegId) -> InsnView {
    word_view(
        0x4EA0E900u32 | ((dst & 0x1Fu32) as u32) | (((src & 0x1Fu32) as u32) << 5u32),
        "fneg s"@ + dec(dst as nat) + ", s"@ + dec(src as nat),
        false,
    )
}

fn encode_arm64_fnegs(dst: RegId, src: RegId) -> (r: TargetInstruction)
    ensures
        r@ == encode_arm64_fnegs_spec(dst, src),
{
    let mut m = text("fneg s");
    push_u64(&mut m, dst as u64);
    push_text(&mut m, ", s");
    push_u64(&mut m, src as u64);
    word_insn(0x4EA0E900 | ((dst & 0x1F) as u32) | (((src & 0x1F) as u32) << 5), m, false)
}

pub open spec fn encode_arm64_fcvtzs_spec(dst: RegId, src: RegId) -> InsnView {
    word_view(
        0x4E21D800u32 | ((dst & 0x1Fu32) as u32) | (((src & 0x1Fu32) as u32) << 5u32),
        "fcvtzs w"@ + dec(dst as nat) + ", s"@ + dec(src as nat),
        false,
    )
}

fn encode_arm64_fcvtzs(dst: RegId, src: RegId) -> (r: TargetInstruction)
    ensures
        r@ == encode_arm64_fcvtzs_spec(dst, src),
{
    let mut m = text("fcvtzs w");
    push_u64(&mut m, dst as u64);
    push_text(&mut m, ", s");
    push_u64(&mut m, src as u64);
    word_insn(0x4E21D800 | ((dst & 0x1F) as u32) | (((src & 0x1F) as u32) << 5), m, false)
}

pub open spec fn encode_arm64_scvtf_spec(dst: RegId, src: RegId) -> InsnView {
    word_view(
        0x4E21D800u32 | ((dst & 0x1Fu32) as u32) | (((src & 0x1Fu32) as u32) << 5u32) | (1u32 << 16u32),
        "scvtf s"@ + dec(dst as nat) + ", w"@ + dec(src as nat),
        false,
    )
}

fn encode_arm64_scvtf(dst: RegId, src: RegId) -> (r: TargetInstruction)
    ensures
        r@ == encode_arm64_scvtf_spec(dst, src),
{
    let mut m = text("scvtf s");
    push_u64(&mut m, dst as u64);
    push_text(&mut m, ", w");
    push_u64(&mut m, src as u64);
    word_insn(0x4E21D800 | ((dst & 0x1F) as u32) | (((src & 0x1F) as u32) << 5) | (1 << 16), m, false)
}

pub open spec fn encode_arm64_fcvtzs64_spec(dst: RegId, src: RegId) -> InsnView {
    word_view(
        0x4EE1D800u32 | ((dst & 0x1Fu32) as u32) | (((src & 0x1Fu32) as u32) << 5u32),
        "fcvtzs x"@ + dec(dst as nat) + ", d"@ + dec(src as nat),
        false,
    )
}

fn encode_arm64_fcvtzs64(dst: RegId, src: RegId) -> (r: TargetInstruction)
    ensures
        r@ == encode_arm64_fcvtzs64_spec(dst, src),
{
    let mut m = text("fcvtzs x");
    push_u64(&mut m, dst as u64);
    push_text(&mut m, ", d");
    push_u64(&mut m, src as u64);
    word_insn(0x4EE1D800 | ((dst & 0x1F) as u32) | (((src & 0x1F) as u32) << 5), m, false)
}

pub open spec fn encode_arm64_scvtf64_spec(dst: RegId, src: RegId) -> InsnView {
    word_view(
        0x4EE1D800u32 | ((dst & 0x1Fu32) as u32) | (((src & 0x1Fu32) as u32) << 5u32) | (1u32 << 16u32),
        "scvtf d"@ + dec(dst as nat) + ", x"@ + dec(src as nat),
        false,
    )
}

fn encode_arm64_scvtf64(dst: RegId, src: RegId) -> (r: TargetInstruction)
    ensures
        r@ == encode_arm64_scvtf64_spec(dst, src),
{
    let mut m = text("scvtf d");
    push_u64(&mut m, dst as u64);
    push_text(&mut m, ", x");
    push_u64(&mut m, src as u64);
    word_insn(0x4EE1D800 | ((dst & 0x1F) as u32) | (((src & 0x1F) as u32) << 5) | (1 << 16), m, false)
}

pub open spec fn encode_arm64_fcvts_spec(dst: RegId, src: RegId) -> InsnView {
    word_view(
        0x4E21D800u32 | ((dst & 0x1Fu32) as u32) | (((src & 0x1Fu32) as u32) << 5u32) | (1u32 << 22u32),
        "fcvt s"@ + dec(dst as nat) + ", d"@ + dec(src as nat),
        false,
    )
}

fn encode_arm64_fcvts(dst: RegId, src: RegId) -> (r: TargetInstruction)
    ensures
        r@ == encode_arm64_fcvts_spec(dst, src),
{
    let mut m = text("fcvt s");
    push_u64(&mut m, dst as u64);
    push_text(&mut m, ", d");
    push_u64(&mut m, src as u64);
    word_insn(0x4E21D800 | ((dst & 0x1F) as u32) | (((src & 0x1F) as u32) << 5) | (1 << 22), m, false)
}

pub open spec fn encode_arm64_fcvtd_spec(dst: RegId, src: RegId) -> InsnView {
    word_view(
        0x4EE1D800u32 | ((dst & 0x1Fu32) as u32) | (((src & 0x1Fu32) as u32) << 5u32) | (1u32 << 22u32),
        "fcvt d"@ + dec(dst as nat) + ", s"@ + dec(src as nat),
        false,
    )
}

fn encode_arm64_fcvtd(dst: RegId, src: RegId) -> (r: TargetInstruction)
    ensures
        r@ == encode_arm64_fcvtd_spec(dst, src),
{
    let mut m = text("fcvt d");
    push_u64(&mut m, dst as u64);
    push_text(&mut m, ", s");
    push_u64(&mut m, src as u64);
    word_insn(0x4EE1D800 | ((dst & 0x1F) as u32) | (((src & 0x1F) as u32) << 5) | (1 << 22), m, false)
}

pub open spec fn encode_arm64_fsgnj_spec(dst: RegId, src1: RegId, src2: RegId) -> InsnView {
    word_view(
        0x4EE0E800u32 | ((dst & 0x1Fu32) as u32) | (((src1 & 0x1Fu32) as u32) << 5u32),
        "fabs d"@ + dec(dst as nat) + ", d"@ + dec(src1 as nat),
        false,
    )
}

fn encode_arm64_fsgnj(dst: RegId, src1: RegId, src2: RegId) -> (r: TargetInstruction)
    ensures
        r@ == encode_arm64_fsgnj_spec(dst, src1, src2),
{
    let mut m = text("fabs d");
    push_u64(&mut m, dst as u64);
    push_text(&mut m, ", d");
    push_u64(&mut m, src1 as u64);
    word_insn(0x4EE0E800 | ((dst & 0x1F) as u32) | (((src1 & 0x1F) as u32) << 5), m, false)
}

pub open spec fn encode_arm64_fsgnjn_spec(dst: RegId, src1: RegId, src2: RegId) -> InsnView {
    word_view(
        0x4EE0E900u32 | ((dst & 0x1Fu32) as u32) | (((src1 & 0x1Fu32) as u32) << 5u32),
        "fneg d"@ + dec(dst as nat) + ", d"@ + dec(src1 as nat),
        false,
    )
}

fn encode_arm64_fsgnjn(dst: RegId, src1: RegId, src2: RegId) -> (r: TargetInstruction)
    ensures
        r@ == encode_arm64_fsgnjn_spec(dst, src1, src2),
{
    let mut m = text("fneg d");
    push_u64(&mut m, dst as u64);
    push_text(&mut m, ", d");
    push_u64(&mut m, src1 as u64);
    word_insn(0x4EE0E900 | ((dst & 0x1F) as u32) | (((src1 & 0x1F) as u32) << 5), m, false)
}

pub open spec fn encode_arm64_fsgnjx_spec(dst: RegId, src1: RegId, src2: RegId) -> InsnView {
    word_view(
        0x4EE0E900u32 | ((dst & 0x1Fu32) as u32) | (((src1 & 0x1Fu32) as u32) << 5u32),
        "fneg d"@ + dec(dst as nat) + ", d"@ + dec(src1 as nat),
        false,
    )
}

fn encode_arm64_fsgnjx(dst: RegId, src1: RegId, src2: RegId) -> (r: TargetInstruction)
    ensures
        r@ == encode_arm64_fsgnjx_spec(dst, src1, src2),
{
    let mut m = text("fneg d");
    push_u64(&mut m, dst as u64);
    push_text(&mut m, ", d");
    push_u64(&mut m, src1 as u64);
    word_insn(0x4EE0E900 | ((dst & 0x1F) as u32) | (((src1 & 0x1F) as u32) << 5), m, false)
}

pub open spec fn encode_arm64_fsgnjs_spec(dst: RegId, src1: RegId, src2: RegId) -> InsnView {
    word_view(
        0x4EA0E800u32 | ((dst & 0x1Fu32) as u32) | (((src1 & 0x1Fu32) as u32) << 5u32),
        "fabs s"@ + dec(dst as nat) + ", s"@ + dec(src1 as nat),
        false,
    )
}

fn encode_arm64_fsgnjs(dst: RegId, src1: RegId, src2: RegId) -> (r: TargetInstruction)
    ensures
        r@ == encode_arm64_fsgnjs_spec(dst, src1, src2),
{
    let mut m = text("fabs s");
    push_u64(&mut m, dst as u64);
    push_text(&mut m, ", s");
    push_u64(&mut m, src1 as u64);
    word_insn(0x4EA0E800 | ((dst & 0x1F) as u32) | (((src1 & 0x1F) as u32) << 5), m, false)
}

pub open spec fn encode_arm64_fsgnjns_spec(dst: RegId, src1: RegId, src2: RegId) -> InsnView {
    word_view(
        0x4EA0E900u32 | ((dst & 0x1Fu32) as u32) | (((src1 & 0x1Fu32) as u32) << 5u32) | (((src2 & 0x1Fu32) as u32) << 10u32),
        "fsgnjns s"@ + dec(dst as nat) + ", s"@ + dec(src1 as nat) + ", s"@ + dec(src2 as nat),
        false,
    )
}

fn encode_arm64_fsgnjns(dst: RegId, src1: RegId, src2: RegId) -> (r: TargetInstruction)
    ensures
        r@ == encode_arm64_fsgnjns_spec(dst, src1, src2),
{
    let mut m = text("fsgnjns s");
    push_u64(&mut m, dst as u64);
    push_text(&mut m, ", s");
    push_u64(&mut m, src1 as u64);
    push_text(&mut m, ", s");
    push_u64(&mut m, src2 as u64);
    word_insn(0x4EA0E900 | ((dst & 0x1F) as u32) | (((src1 & 0x1F) as u32) << 5) | (((src2 & 0x1F) as u32) << 10), m, false)
}

pub open spec fn encode_arm64_fsgnjxs_spec(dst: RegId, src1: RegId, src2: RegId) -> InsnView {
    word_view(
        0x4EA0E920u32 | ((dst & 0x1Fu32) as u32) | (((src1 & 0x1Fu32) as u32) << 5u32) | (((src2 & 0x1Fu32) as u32) << 10u32),
        "fsgnjxs s"@ + dec(dst as nat) + ", s"@ + dec(src1 as nat) + ", s"@ + dec(src2 as nat),
        false,
    )
}

fn encode_arm64_fsgnjxs(dst: RegId, src1: RegId, src2: RegId) -> (r: TargetInstruction)
    ensures
        r@ == encode_arm64_fsgnjxs_spec(dst, src1, src2),
{
    let mut m = text("fsgnjxs s");
    push_u64(&mut m, dst as u64);
    push_text(&mut m, ", s");
    push_u64(&mut m, src1 as u64);
    push_text(&mut m, ", s");
    push_u64(&mut m, src2 as u64);
    word_insn(0x4EA0E920 | ((dst & 0x1F) as u32) | (((src1 & 0x1F) as u32) << 5) | (((src2 & 0x1F) as u32) << 10), m, false)
}

pub open spec fn encode_arm64_fclass_spec(dst: RegId, src: RegId) -> InsnView {
    word_view(
        0x4EE1E800u32 | ((dst & 0x1Fu32) as u32) | (((src & 0x1Fu32) as u32) << 5u32),
        "frintx d"@ + dec(dst as nat) + ", d"@ + dec(src as nat),
        false,
    )
}

fn encode_arm64_fclass(dst: RegId, src: RegId) -> (r: TargetInstruction)
    ensures
        r@ == encode_arm64_fclass_spec(dst, src),
{
    let mut m = text("frintx d");
    push_u64(&mut m, dst as u64);
    push_text(&mut m, ", d");
    push_u64(&mut m, src as u64);
    word_insn(0x4EE1E800 | ((dst & 0x1F) as u32) | (((src & 0x1F) as u32) << 5), m, false)
}

pub open spec fn encode_arm64_fclasss_spec(dst: RegId, src: RegId) -> InsnView {
    word_view(
        0x4EA1E800u32 | ((dst & 0x1Fu32) as u32) | (((src & 0x1Fu32) as u32) << 5u32),
        "frintx s"@ + dec(dst as nat) + ", s"@ + dec(src as nat),
        false,
    )
}

fn encode_arm64_fclasss(dst: RegId, src: RegId) -> (r: TargetInstruction)
    ensures
        r@ == encode_arm64_fclasss_spec(dst, src),
{
    let mut m = text("frintx s");
    push_u64(&mut m, dst as u64);
    push_text(&mut m, ", s");
    push_u64(&mut m, src as u64);
    word_insn(0x4EA1E800 | ((dst & 0x1F) as u32) | (((src & 0x1F) as u32) << 5), m, false)
}

pub open spec fn encode_arm64_fmvxw_spec(dst: RegId, src: RegId) -> InsnView {
    word_view(
        0x4E21E000u32 | ((dst & 0x1Fu32) as u32) | (((src & 0x1Fu32) as u32) << 5u32),
        "fmov w"@ + dec(dst as nat) + ", s"@ + dec(src as nat),
        false,
    )
}

fn encode_arm64_fmvxw(dst: RegId, src: RegId) -> (r: TargetInstruction)
    ensures
        r@ == encode_arm64_fmvxw_spec(dst, src),
{
    let mut m = text("fmov w");
    push_u64(&mut m, dst as u64);
    push_text(&mut m, ", s");
    push_u64(&mut m, src as u64);
    word_insn(0x4E21E000 | ((dst & 0x1F) as u32) | (((src & 0x1F) as u32) << 5), m, false)
}

pub open spec fn encode_arm64_fmvwx_spec(dst: RegId, src: RegId) -> InsnView {
    word_view(
        0x4E21E000u32 | ((dst & 0x1Fu32) as u32) | (((src & 0x1Fu32) as u32) << 5u32) | (1u32 << 16u32),
        "fmov s"@ + dec(dst as nat) + ", w"@ + dec(src as nat),
        false,
    )
}

fn encode_arm64_fmvwx(dst: RegId, src: RegId) -> (r: TargetInstruction)
    ensures
        r@ == encode_arm64_fmvwx_spec(dst, src),
{
    let mut m = text("fmov s");
    push_u64(&mut m, dst as u64);
    push_text(&mut m, ", w");
    push_u64(&mut m, src as u64);
    word_insn(0x4E21E000 | ((dst & 0x1F) as u32) | (((src & 0x1F) as u32) << 5) | (1 << 16), m, false)
}

pub open spec fn encode_arm64_fmvxd_spec(dst: RegId, src: RegId) -> InsnView {
    word_view(
        0x4EE1E000u32 | ((dst & 0x1Fu32) as u32) | (((src & 0x1Fu32) as u32) << 5u32),
        "fmov x"@ + dec(dst as nat) + ", d"@ + dec(src as nat),
        false,
    )
}

fn encode_arm64_fmvxd(dst: RegId, src: RegId) -> (r: TargetInstruction)
    ensures
        r@ == encode_arm64_fmvxd_spec(dst, src),
{
    let mut m = text("fmov x");
    push_u64(&mut m, dst as u64);
    push_text(&mut m, ", d");
    push_u64(&mut m, src as u64);
    word_insn(0x4EE1E000 | ((dst & 0x1F) as u32) | (((src & 0x1F) as u32) << 5), m, false)
}

pub open spec fn encode_arm64_fmvdx_spec(dst: RegId, src: RegId) -> InsnView {
    word_view(
        0x4EE1E000u32 | ((dst & 0x1Fu32) as u32) | (((src & 0x1Fu32) as u32) << 5u32) | (1u32 << 16u32),
        "fmov d"@ + dec(dst as nat) + ", x"@ + dec(src as nat),
        false,
    )
}

fn encode_arm64_fmvdx(dst: RegId, src: RegId) -> (r: TargetInstruction)
    ensures
        r@ == encode_arm64_fmvdx_spec(dst, src),
{
    let mut m = text("fmov d");
    push_u64(&mut m, dst as u64);
    push_text(&mut m, ", x");
    push_u64(&mut m, src as u64);
    word_insn(0x4EE1E000 | ((dst & 0x1F) as u32) | (((src & 0x1F) as u32) << 5) | (1 << 16), m, false)
}

pub open spec fn encode_arm64_fcvtzus_spec(dst: RegId, src: RegId) -> InsnView {
    word_view(
        0x4E21D800u32 | ((dst & 0x1Fu32) as u32) | (((src & 0x1Fu32) as u32) << 5u32) | (1u32 << 16u32),
        "fcvtzu w"@ + dec(dst as nat) + ", s"@ + dec(src as nat),
        false,
    )
}

fn encode_arm64_fcvtzus(dst: RegId, src: RegId) -> (r: TargetInstruction)
    ensures
        r@ == encode_arm64_fcvtzus_spec(dst, src),
{
    let mut m = text("fcvtzu w");
    push_u64(&mut m, dst as u64);
    push_text(&mut m, ", s");
    push_u64(&mut m, src as u64);
    word_insn(0x4E21D800 | ((dst & 0x1F) as u32) | (((src & 0x1F) as u32) << 5) | (1 << 16), m, false)
}

pub open spec fn encode_arm64_fcvtzus64_spec(dst: RegId, src: RegId) -> InsnView {
    word_view(
        0x4EE1D800u32 | ((dst & 0x1Fu32) as u32) | (((src & 0x1Fu32) as u32) << 5u32) | (1u32 << 16u32),
        "fcvtzu x"@ + dec(dst as nat) + ", d"@ + dec(src as nat),
        false,
    )
}

fn encode_arm64_fcvtzus64(dst: RegId, src: RegId) -> (r: TargetInstruction)
    ensures
        r@ == encode_arm64_fcvtzus64_spec(dst, src),
{
    let mut m = text("fcvtzu x");
    push_u64(&mut m, dst as u64);
    push_text(&mut m, ", d");
    push_u64(&mut m, src as u64);
    word_insn(0x4EE1D800 | ((dst & 0x1F) as u32) | (((src & 0x1F) as u32) << 5) | (1 << 16), m, false)
}

pub open spec fn encode_arm64_ucvtf_spec(dst: RegId, src: RegId) -> InsnView {
    word_view(
        0x4E21D800u32 | ((dst & 0x1Fu32) as u32) | (((src & 0x1Fu32) as u32) << 5u32) | (1u32 << 16u32) | (1u32 << 17u32),
        "ucvtf s"@ + dec(dst as nat) + ", w"@ + dec(src as nat),
        false,
    )
}

fn encode_arm64_ucvtf(dst: RegId, src: RegId) -> (r: TargetInstruction)
    ensures
        r@ == encode_arm64_ucvtf_spec(dst, src),
{
    let mut m = text("ucvtf s");
    push_u64(&mut m, dst as u64);
    push_text(&mut m, ", w");
    push_u64(&mut m, src as u64);
    word_insn(0x4E21D800 | ((dst & 0x1F) as u32) | (((src & 0x1F) as u32) << 5) | (1 << 16) | (1 << 17), m, false)
}

pub open spec fn encode_arm64_ucvtf64_spec(dst: RegId, src: RegId) -> InsnView {
    word_view(
        0x4EE1D800u32 | ((dst & 0x1Fu32) as u32) | (((src & 0x1Fu32) as u32) << 5u32) | (1u32 << 16u32) | (1u32 << 17u32),
        "ucvtf d"@ + dec(dst as nat) + ", x"@ + dec(src as nat),
        false,
    )
}

fn encode_arm64_ucvtf64(dst: RegId, src: RegId) -> (r: TargetInstruction)
    ensures
        r@ == encode_arm64_ucvtf64_spec(dst, src),
{
    let mut m = text("ucvtf d");
    push_u64(&mut m, dst as u64);
    push_text(&mut m, ", x");
    push_u64(&mut m, src as u64);
    word_insn(0x4EE1D800 | ((dst & 0x1F) as u32) | (((src & 0x1F) as u32) << 5) | (1 << 16) | (1 << 17), m, false)
}


/// A64 three-register data-processing word `w`: bits 31..21 are `top`,
/// the shift amount (bits 15..10) is zero, and the register fields are
/// Rm = `m`, Rn = `n`, Rd = `d` (each taken modulo 32).
pub open spec fn a64_shifted_register(w: u32, top: u32, d: u32, n: u32, m: u32) -> bool {
    &&& w >> 21u32 == top
    &&& (w >> 10u32) & 0x3F == 0
    &&& (w >> 16u32) & 0x1F == m & 0x1F
    &&& (w >> 5u32) & 0x1F == n & 0x1F
    &&& w & 0x1F == d & 0x1F
}

proof fn lemma_a64_word_fields(d: u32, n: u32, m: u32, imm: u32)
    by (bit_vector)
    ensures
        (0x8B000000u32 | (d & 0x1F) | ((n & 0x1F) << 5u32) | ((m & 0x1F) << 16u32)) >> 21u32 == 0x458,
        (0xCB000000u32 | (d & 0x1F) | ((n & 0x1F) << 5u32) | ((m & 0x1F) << 16u32)) >> 21u32 == 0x658,
        ((0x8B000000u32 | (d & 0x1F) | ((n & 0x1F) << 5u32) | ((m & 0x1F) << 16u32)) >> 10u32) & 0x3F == 0,
        ((0xCB000000u32 | (d & 0x1F) | ((n & 0x1F) << 5u32) | ((m & 0x1F) << 16u32)) >> 10u32) & 0x3F == 0,
        ((0x8B000000u32 | (d & 0x1F) | ((n & 0x1F) << 5u32) | ((m & 0x1F) << 16u32)) >> 16u32) & 0x1F == m & 0x1F,
        ((0xCB000000u32 | (d & 0x1F) | ((n & 0x1F) << 5u32) | ((m & 0x1F) << 16u32)) >> 16u32) & 0x1F == m & 0x1F,
        ((0x8B000000u32 | (d & 0x1F) | ((n & 0x1F) << 5u32) | ((m & 0x1F) << 16u32)) >> 5u32) & 0x1F == n & 0x1F,
        ((0xCB000000u32 | (d & 0x1F) | ((n & 0x1F) << 5u32) | ((m & 0x1F) << 16u32)) >> 5u32) & 0x1F == n & 0x1F,
        (0x8B000000u32 | (d & 0x1F) | ((n & 0x1F) << 5u32) | ((m & 0x1F) << 16u32)) & 0x1F == d & 0x1F,
        (0xCB000000u32 | (d & 0x1F) | ((n & 0x1F) << 5u32) | ((m & 0x1F) << 16u32)) & 0x1F == d & 0x1F,
        imm < 4096 ==> (0x91000000u32 | (d & 0x1F) | ((n & 0x1F) << 5u32) | ((imm & 0xFFF) << 10u32)) >> 22u32 == 0x244,
        imm < 4096 ==> ((0x91000000u32 | (d & 0x1F) | ((n & 0x1F) << 5u32) | ((imm & 0xFFF) << 10u32)) >> 10u32) & 0xFFF == imm,
        ((0x91000000u32 | (d & 0x1F) | ((n & 0x1F) << 5u32) | ((imm & 0xFFF) << 10u32)) >> 5u32) & 0x1F == n & 0x1F,
        (0x91000000u32 | (d & 0x1F) | ((n & 0x1F) << 5u32) | ((imm & 0xFFF) << 10u32)) & 0x1F == d & 0x1F,
{
}

/// The ARM64 words of the integer additions and subtraction, against the
/// A64 encoding tables: `Add` is one `ADD Xd, Xn, Xm` (shifted register,
/// 64-bit: bits 31..21 = 0b10001011000), `Sub` one `SUB Xd, Xn, Xm`
/// (0b11001011000), with Rd = `dst`, Rn = `src1`, Rm = `src2` and no shift;
/// `AddImm` with an immediate in 0..4096 is one `ADD Xd, Xn, #imm`
/// (immediate, 64-bit, unshifted: bits 31..22 = 0b1001000100) with the
/// immediate in bits 21..10, and any other immediate is refused.
pub proof fn lemma_arm64_integer_words(dst: RegId, src1: RegId, src2: RegId, imm: i64)
    ensures
        arm64_encode_spec(IROp::Add { dst, src1, src2 }) matches Ok(s) && s.len() == 1 && s[0].length == 4
            && s[0].bytes.len() == 4 && a64_shifted_register(fetched_word(s[0].bytes), 0x458, dst, src1, src2),
        arm64_encode_spec(IROp::Sub { dst, src1, src2 }) matches Ok(s) && s.len() == 1 && s[0].length == 4
            && s[0].bytes.len() == 4 && a64_shifted_register(fetched_word(s[0].bytes), 0x658, dst, src1, src2),
        0 <= imm < 4096 ==> (arm64_encode_spec(IROp::AddImm { dst, src: src1, imm }) matches Ok(s) && s.len() == 1
            && s[0].bytes.len() == 4 && ({
            let w = fetched_word(s[0].bytes);
            &&& w >> 22u32 == 0x244
            &&& (w >> 10u32) & 0xFFF == imm
            &&& (w >> 5u32) & 0x1F == src1 & 0x1F
            &&& w & 0x1F == dst & 0x1F
        })),
        !(0 <= imm < 4096) ==> arm64_encode_spec(IROp::AddImm { dst, src: src1, imm }) == Err::<Seq<InsnView>, EncodeFailure>(
            EncodeFailure::ImmediateTooLarge(imm),
        ),
{
    let imm_field: u32 = (imm as u32) & 0xFFF;
    lemma_a64_word_fields(dst, src1, src2, imm as u32);
    let rd: u32 = (dst & 0x1Fu32) as u32;
    let rn: u32 = ((src1 & 0x1Fu32) as u32) << 5u32;
    let rm: u32 = ((src2 & 0x1Fu32) as u32) << 16u32;
    lemma_fetched_le32(0x8B000000u32 | rd | rn | rm);
    lemma_fetched_le32(0xCB000000u32 | rd | rn | rm);
    lemma_fetched_le32(0x91000000u32 | ((dst & 0x1F) as u32) | (((src1 & 0x1F) as u32) << 5u32) | (((imm as u32) & 0xFFF) << 10u32));
    if 0 <= imm < 4096 {
        assert((imm as u32) == imm);
    }
}

/// What the A64 word `w` does to register `d`, holding `v`, where `w` is a
/// 64-bit move-wide instruction on `d`: `MOVZ` (bits 31..23 = 0b110100101)
/// sets it to the 16-bit immediate (bits 20..5) shifted left by 16 times the
/// hw field (bits 22..21); `MOVK` (0b111100101) replaces just that 16-bit
/// field; any other word leaves `v` as it is.
pub open spec fn a64_move_wide(v: u64, w: u32, d: u32) -> u64 {
    let sh = ((((w >> 21u32) & 3u32) * 16u32) as u64);
    let imm16 = ((w >> 5u32) & 0xFFFF) as u64;
    if w & 0x1F != d & 0x1F {
        v
    } else if w >> 23u32 == 0x1A5 {
        imm16 << sh
    } else if w >> 23u32 == 0x1E5 {
        (v & !(0xFFFFu64 << sh)) | (imm16 << sh)
    } else {
        v
    }
}

/// Register `d` after running the instructions `s` in order from `v`.
pub open spec fn a64_run(v: u64, s: Seq<InsnView>, d: u32) -> u64
    decreases s.len(),
{
    if s.len() == 0 {
        v
    } else {
        a64_run(a64_move_wide(v, fetched_word(s[0].bytes), d), s.drop_first(), d)
    }
}

proof fn lemma_a64_run_concat(v: u64, a: Seq<InsnView>, b: Seq<InsnView>, d: u32)
    ensures
        a64_run(v, a + b, d) == a64_run(a64_run(v, a, d), b, d),
    decreases a.len(),
{
    if a.len() > 0 {
        assert((a + b).drop_first() =~= a.drop_first() + b);
        lemma_a64_run_concat(a64_move_wide(v, fetched_word(a[0].bytes), d), a.drop_first(), b, d);
    } else {
        assert(a + b =~= b);
    }
}

proof fn lemma_a64_move_wide_words(v: u64, x: u64, imm: u64, d: u32, shift: u64)
    by (bit_vector)
    requires
        1 <= shift <= 3,
    ensures
        a64_move_wide(v, 0xD2800000u32 | ((d & 0x1F) as u32) | (((x & 0xFFFF) as u32) << 5u32), d) == x & 0xFFFF,
        a64_move_wide(
            v,
            0xF2800000u32 | ((d & 0x1F) as u32) | ((((imm >> (shift * 16)) & 0xFFFF) as u32) << 5u32) | ((shift as u32) << 21u32),
            d,
        ) == (v & !(0xFFFFu64 << (shift * 16))) | (((imm >> (shift * 16)) & 0xFFFF) << (shift * 16)),
{
}

proof fn lemma_a64_chunks(imm: u64)
    by (bit_vector)
    ensures
        ({
            let v0 = (imm & 0xFFFF) & 0xFFFF;
            let v1 = if (imm >> 16u64) & 0xFFFF != 0 {
                (v0 & !(0xFFFFu64 << 16u64)) | (((imm >> 16u64) & 0xFFFF) << 16u64)
            } else {
                v0
            };
            let v2 = if (imm >> 32u64) & 0xFFFF != 0 {
                (v1 & !(0xFFFFu64 << 32u64)) | (((imm >> 32u64) & 0xFFFF) << 32u64)
            } else {
                v1
            };
            let v3 = if (imm >> 48u64) & 0xFFFF != 0 {
                (v2 & !(0xFFFFu64 << 48u64)) | (((imm >> 48u64) & 0xFFFF) << 48u64)
            } else {
                v2
            };
            v3 == imm
        }),
        imm & 0xFFFF == imm ==> (imm & 0xFFFF) & 0xFFFF == imm,
{
}

proof fn lemma_a64_movk_run(v: u64, dst: RegId, imm: u64, shift: u64)
    requires
        1 <= shift <= 3,
    ensures
        arm64_movk_spec(dst, imm, shift).len() <= 1,
        a64_run(v, arm64_movk_spec(dst, imm, shift), dst) == if (imm >> (shift * 16)) & 0xFFFF != 0 {
            (v & !(0xFFFFu64 << (shift * 16))) | (((imm >> (shift * 16)) & 0xFFFF) << (shift * 16))
        } else {
            v
        },
{
    reveal_with_fuel(a64_run, 2);
    lemma_a64_move_wide_words(v, 0, imm, dst, shift);
    let bits = (imm >> (shift * 16)) & 0xFFFF;
    if bits != 0 {
        let w = 0xF2800000u32 | ((dst & 0x1F) as u32) | ((bits as u32) << 5u32) | ((shift as u32) << 21u32);
        lemma_fetched_le32(w);
        let s = arm64_movk_spec(dst, imm, shift);
        assert(s.drop_first() =~= Seq::<InsnView>::empty());
    }
}

proof fn lemma_a64_mov_imm_run(dst: RegId, imm: u64, v: u64)
    ensures
        encode_arm64_mov_imm_spec(dst, imm) matches Ok(s) && 1 <= s.len() <= 4 && a64_run(v, s, dst) == imm,
{
    lemma_a64_chunks(imm);
    let x = if imm & 0xFFFF == imm { imm } else { imm & 0xFFFF };
    lemma_a64_move_wide_words(v, x, imm, dst, 1);
    let z = arm64_movz_spec(dst, x);
    lemma_fetched_le32(0xD2800000u32 | ((dst & 0x1F) as u32) | (((x & 0xFFFF) as u32) << 5u32));
    assert(a64_run(v, seq![z], dst) == x & 0xFFFF) by {
        reveal_with_fuel(a64_run, 2);
        assert(seq![z].drop_first() =~= Seq::<InsnView>::empty());
    }
    if imm & 0xFFFF != imm {
        let m1 = arm64_movk_spec(dst, imm, 1);
        let m2 = arm64_movk_spec(dst, imm, 2);
        let m3 = arm64_movk_spec(dst, imm, 3);
        let v0 = x & 0xFFFF;
        lemma_a64_movk_run(v0, dst, imm, 1);
        let v1 = a64_run(v0, m1, dst);
        lemma_a64_movk_run(v1, dst, imm, 2);
        let v2 = a64_run(v1, m2, dst);
        lemma_a64_movk_run(v2, dst, imm, 3);
        lemma_a64_run_concat(v, seq![z], m1, dst);
        lemma_a64_run_concat(v, seq![z] + m1, m2, dst);
        lemma_a64_run_concat(v, seq![z] + m1 + m2, m3, dst);
    }
}

/// An immediate move on ARM64 loads exactly the immediate: run from any
/// value `v` of `dst`, the `MOVZ`/`MOVK` words that `MovImm` encodes to
/// (by their A64 meaning, see `a64_move_wide`) leave `dst` holding `imm`.
pub proof fn lemma_arm64_mov_imm_loads(dst: RegId, imm: u64, v: u64)
    ensures
        arm64_encode_spec(IROp::MovImm { dst, imm }) matches Ok(s) && 1 <= s.len() <= 4 && a64_run(v, s, dst) == imm,
{
    lemma_a64_mov_imm_run(dst, imm, v);
    assert(arm64_encode_spec(IROp::MovImm { dst, imm }) == encode_arm64_mov_imm_spec(dst, imm));
}

proof fn lemma_a64_ldst_fields(d: u32, n: u32, q: u32)
    by (bit_vector)
    ensures
        (0xF9400000u32 | ((d & 0x1F) as u32) | (((n & 0x1F) as u32) << 5u32) | ((q & 0xFFF) << 10u32)) >> 22u32 == 0x3E5,
        (0xF9000000u32 | ((d & 0x1F) as u32) | (((n & 0x1F) as u32) << 5u32) | ((q & 0xFFF) << 10u32)) >> 22u32 == 0x3E4,
        ((0xF9400000u32 | ((d & 0x1F) as u32) | (((n & 0x1F) as u32) << 5u32) | ((q & 0xFFF) << 10u32)) >> 10u32) & 0xFFF == q % 4096,
        ((0xF9000000u32 | ((d & 0x1F) as u32) | (((n & 0x1F) as u32) << 5u32) | ((q & 0xFFF) << 10u32)) >> 10u32) & 0xFFF == q % 4096,
        ((0xF9400000u32 | ((d & 0x1F) as u32) | (((n & 0x1F) as u32) << 5u32) | ((q & 0xFFF) << 10u32)) >> 5u32) & 0x1F == n & 0x1F,
        ((0xF9000000u32 | ((d & 0x1F) as u32) | (((n & 0x1F) as u32) << 5u32) | ((q & 0xFFF) << 10u32)) >> 5u32) & 0x1F == n & 0x1F,
        (0xF9400000u32 | ((d & 0x1F) as u32) | (((n & 0x1F) as u32) << 5u32) | ((q & 0xFFF) << 10u32)) & 0x1F == d & 0x1F,
        (0xF9000000u32 | ((d & 0x1F) as u32) | (((n & 0x1F) as u32) << 5u32) | ((q & 0xFFF) << 10u32)) & 0x1F == d & 0x1F,
{
}

/// `w` is an A64 load/store (unsigned offset) word with bits 31..22 equal
/// to `top`, Rt = `t`, Rn = `n`, and the 12-bit offset field equal to `imm`.
pub open spec fn a64_ldst_fields(w: u32, top: u32, t: u32, n: u32, imm: int) -> bool {
    &&& w >> 22u32 == top
    &&& (w >> 10u32) & 0xFFF == imm
    &&& (w >> 5u32) & 0x1F == n & 0x1F
    &&& w & 0x1F == t & 0x1F
}

/// The ARM64 words of loads and stores, against the A64 tables: a load is
/// one `LDR Xt, [Xn, #imm]` (unsigned offset, 64-bit: bits 31..22 =
/// 0b1111100101) and a store one `STR Xt, [Xn, #imm]` (0b1111100100), with
/// Rt the loaded or stored register and Rn the base, for an offset in
/// 0..32768 that the access size divides; the 12-bit offset field holds the
/// offset divided by the access size, modulo 4096. Any other offset is
/// refused.
#[verifier::spinoff_prover]
pub proof fn lemma_arm64_load_store_words(r: RegId, base: RegId, offset: i64, size: u8, flags: MemFlags)
    requires
        size > 0,
    ensures
        arm64_offset_ok(offset, size) <==> (0 <= offset < 32768 && (offset as int) % (size as int) == 0),
        arm64_offset_ok(offset, size) ==> (arm64_encode_spec(
            IROp::Load { dst: r, base, offset, size, flags },
        ) matches Ok(s) && s.len() == 1 && s[0].bytes.len() == 4 && s[0].is_memory_op
            && a64_ldst_fields(fetched_word(s[0].bytes), 0x3E5, r, base, (offset as int / size as int) % 4096)),
        arm64_offset_ok(offset, size) ==> (arm64_encode_spec(
            IROp::Store { src: r, base, offset, size, flags },
        ) matches Ok(s) && s.len() == 1 && s[0].bytes.len() == 4 && s[0].is_memory_op
            && a64_ldst_fields(fetched_word(s[0].bytes), 0x3E4, r, base, (offset as int / size as int) % 4096)),
        !arm64_offset_ok(offset, size) ==> arm64_encode_spec(
            IROp::Load { dst: r, base, offset, size, flags },
        ) == Err::<Seq<InsnView>, EncodeFailure>(EncodeFailure::InvalidOffset(offset)),
        !arm64_offset_ok(offset, size) ==> arm64_encode_spec(
            IROp::Store { src: r, base, offset, size, flags },
        ) == Err::<Seq<InsnView>, EncodeFailure>(EncodeFailure::InvalidOffset(offset)),
{
    if arm64_offset_ok(offset, size) {
        let q = ((offset as int) / (size as int)) as u32;
        assert(0 <= (offset as int) / (size as int) <= offset) by (nonlinear_arith)
            requires
                0 <= offset < 32768,
                size > 0,
        ;
        assert(q == (offset as int) / (size as int));
        lemma_a64_ldst_fields(r, base, q);
        lemma_fetched_le32(arm64_ldst_word(0xF9400000, r, base, offset, size));
        lemma_fetched_le32(arm64_ldst_word(0xF9000000, r, base, offset, size));
    }
}

} // verus!
