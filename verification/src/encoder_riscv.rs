//! RISC-V64 encoder: IR operations to RV64 machine code.

use vstd::prelude::*;
use crate::encoding::{
    append_insns, fetched_word, four_lanes, insns_view, lemma_fetched_le32, lift_single, outcome_matches, single,
    single_matches, then_outcome,
    then_result, word_insn, word_view, Architecture, EncodeFailure, EncodeOutcome, InsnView,
    TargetInstruction, TranslationError,
};
use crate::encoder::{ir_op_debug, ArchEncoder};
use crate::ir::{atomic_op_name, atomic_op_text, AtomicOp, GuestAddr, IROp, MemFlags, RegId};
use crate::text::{dec, dec_int, push_i64, push_text, push_u64, text, text_num};

verus! {

/// Encoder for RISC-V64 targets.
pub struct Riscv64Encoder;

/// What `Riscv64Encoder::encode_op` produces for `op`.
pub open spec fn riscv_encode_spec(op: IROp) -> EncodeOutcome {
    match op {
        IROp::Add { dst, src1, src2 } => Ok(seq![encode_riscv_add_spec(dst, src1, src2)]),
        IROp::Sub { dst, src1, src2 } => Ok(seq![encode_riscv_sub_spec(dst, src1, src2)]),
        IROp::AddImm { dst, src, imm } => lift_single(encode_riscv_addi_spec(dst, src, imm)),
        IROp::MovImm { dst, imm } => encode_riscv_mov_imm_spec(dst, imm),
        IROp::Load { dst, base, offset, size, .. } => lift_single(encode_riscv_load_spec(dst, base, offset, size)),
        IROp::Store { src, base, offset, size, .. } => lift_single(encode_riscv_store_spec(src, base, offset, size)),
        IROp::VecAdd { dst, src1, src2, element_size } => encode_riscv_simd_add_spec(dst, src1, src2, element_size),
        IROp::VecSub { dst, src1, src2, element_size } => encode_riscv_simd_sub_spec(dst, src1, src2, element_size),
        IROp::VecMul { dst, src1, src2, element_size } => encode_riscv_simd_mul_spec(dst, src1, src2, element_size),
        IROp::VecAddSat { dst, src1, src2, element_size, signed } => encode_riscv_simd_addsat_spec(dst, src1, src2, element_size, signed),
        IROp::VecSubSat { dst, src1, src2, element_size, signed } => encode_riscv_simd_subsat_spec(dst, src1, src2, element_size, signed),
        IROp::VecMulSat { dst, src1, src2, element_size, signed } => encode_riscv_simd_mulsat_spec(dst, src1, src2, element_size, signed),
        IROp::Vec128Add { dst_lo, dst_hi, src1_lo, src1_hi, src2_lo, src2_hi, element_size, signed } => encode_riscv_vec128_add_spec(dst_lo, dst_hi, src1_lo, src1_hi, src2_lo, src2_hi, element_size, signed),
        IROp::Vec256Add { dst0, dst1, dst2, dst3, src10, src11, src12, src13, src20, src21, src22, src23, element_size, signed } => encode_riscv_vec256_add_spec(dst0, dst1, dst2, dst3, src10, src11, src12, src13, src20, src21, src22, src23, element_size, signed),
        IROp::Vec256Sub { dst0, dst1, dst2, dst3, src10, src11, src12, src13, src20, src21, src22, src23, element_size, signed } => encode_riscv_vec256_sub_spec(dst0, dst1, dst2, dst3, src10, src11, src12, src13, src20, src21, src22, src23, element_size, signed),
        IROp::Vec256Mul { dst0, dst1, dst2, dst3, src10, src11, src12, src13, src20, src21, src22, src23, element_size, signed } => encode_riscv_vec256_mul_spec(dst0, dst1, dst2, dst3, src10, src11, src12, src13, src20, src21, src22, src23, element_size, signed),
        IROp::Fadd { dst, src1, src2 } => Ok(seq![encode_riscv_fadd_spec(dst, src1, src2)]),
        IROp::Fsub { dst, src1, src2 } => Ok(seq![encode_riscv_fsub_spec(dst, src1, src2)]),
        IROp::Fmul { dst, src1, src2 } => Ok(seq![encode_riscv_fmul_spec(dst, src1, src2)]),
        IROp::Fdiv { dst, src1, src2 } => Ok(seq![encode_riscv_fdiv_spec(dst, src1, src2)]),
        IROp::FaddS { dst, src1, src2 } => Ok(seq![encode_riscv_fadds_spec(dst, src1, src2)]),
        IROp::FsubS { dst, src1, src2 } => Ok(seq![encode_riscv_fsubs_spec(dst, src1, src2)]),
        IROp::FmulS { dst, src1, src2 } => Ok(seq![encode_riscv_fmuls_spec(dst, src1, src2)]),
        IROp::FdivS { dst, src1, src2 } => Ok(seq![encode_riscv_fdivs_spec(dst, src1, src2)]),
        IROp::Fsqrt { dst, src } => Ok(seq![encode_riscv_fsqrt_spec(dst, src)]),
        IROp::FsqrtS { dst, src } => Ok(seq![encode_riscv_fsqrts_spec(dst, src)]),
        IROp::Fmadd { dst, src1, src2, src3 } => Ok(seq![encode_riscv_fmadd_spec(dst, src1, src2, src3)]),
        IROp::Fmsub { dst, src1, src2, src3 } => Ok(seq![encode_riscv_fmsub_spec(dst, src1, src2, src3)]),
        IROp::Fnmadd { dst, src1, src2, src3 } => Ok(seq![encode_riscv_fnmadd_spec(dst, src1, src2, src3)]),
        IROp::Fnmsub { dst, src1, src2, src3 } => Ok(seq![encode_riscv_fnmsub_spec(dst, src1, src2, src3)]),
        IROp::FmaddS { dst, src1, src2, src3 } => Ok(seq![encode_riscv_fmadds_spec(dst, src1, src2, src3)]),
        IROp::FmsubS { dst, src1, src2, src3 } => Ok(seq![encode_riscv_fmsubs_spec(dst, src1, src2, src3)]),
        IROp::FnmaddS { dst, src1, src2, src3 } => Ok(seq![encode_riscv_fnmadds_spec(dst, src1, src2, src3)]),
        IROp::FnmsubS { dst, src1, src2, src3 } => Ok(seq![encode_riscv_fnmsubs_spec(dst, src1, src2, src3)]),
        IROp::Feq { dst, src1, src2 } => Ok(seq![encode_riscv_feq_spec(dst, src1, src2)]),
        IROp::Flt { dst, src1, src2 } => Ok(seq![encode_riscv_flt_spec(dst, src1, src2)]),
        IROp::Fle { dst, src1, src2 } => Ok(seq![encode_riscv_fle_spec(dst, src1, src2)]),
        IROp::FeqS { dst, src1, src2 } => Ok(seq![encode_riscv_feqs_spec(dst, src1, src2)]),
        IROp::FltS { dst, src1, src2 } => Ok(seq![encode_riscv_flts_spec(dst, src1, src2)]),
        IROp::FleS { dst, src1, src2 } => Ok(seq![encode_riscv_fles_spec(dst, src1, src2)]),
        IROp::Fmin { dst, src1, src2 } => Ok(seq![encode_riscv_fmin_spec(dst, src1, src2)]),
        IROp::Fmax { dst, src1, src2 } => Ok(seq![encode_riscv_fmax_spec(dst, src1, src2)]),
        IROp::FminS { dst, src1, src2 } => Ok(seq![encode_riscv_fmins_spec(dst, src1, src2)]),
        IROp::FmaxS { dst, src1, src2 } => Ok(seq![encode_riscv_fmaxs_spec(dst, src1, src2)]),
        IROp::Fabs { dst, src } => Ok(seq![encode_riscv_fabs_spec(dst, src)]),
        IROp::Fneg { dst, src } => Ok(seq![encode_riscv_fneg_spec(dst, src)]),
        IROp::FabsS { dst, src } => Ok(seq![encode_riscv_fabss_spec(dst, src)]),
        IROp::FnegS { dst, src } => Ok(seq![encode_riscv_fnegs_spec(dst, src)]),
        IROp::Fcvtws { dst, src } => Ok(seq![encode_riscv_fcvtws_spec(dst, src)]),
        IROp::Fcvtsw { dst, src } => Ok(seq![encode_riscv_fcvtsw_spec(dst, src)]),
        IROp::Fcvtld { dst, src } => Ok(seq![encode_riscv_fcvtld_spec(dst, src)]),
        IROp::Fcvtdl { dst, src } => Ok(seq![encode_riscv_fcvtdl_spec(dst, src)]),
        IROp::Fcvtsd { dst, src } => Ok(seq![encode_riscv_fcvtsd_spec(dst, src)]),
        IROp::Fcvtds { dst, src } => Ok(seq![encode_riscv_fcvtds_spec(dst, src)]),
        IROp::Fload { dst, base, offset, size, .. } => lift_single(encode_riscv_fload_spec(dst, base, offset, size)),
        IROp::Fstore { src, base, offset, size, .. } => lift_single(encode_riscv_fstore_spec(src, base, offset, size)),
        IROp::Fsgnj { dst, src1, src2 } => Ok(seq![encode_riscv_fsgnj_spec(dst, src1, src2)]),
        IROp::Fsgnjn { dst, src1, src2 } => Ok(seq![encode_riscv_fsgnjn_spec(dst, src1, src2)]),
        IROp::Fsgnjx { dst, src1, src2 } => Ok(seq![encode_riscv_fsgnjx_spec(dst, src1, src2)]),
        IROp::FsgnjS { dst, src1, src2 } => Ok(seq![encode_riscv_fsgnjs_spec(dst, src1, src2)]),
        IROp::FsgnjnS { dst, src1, src2 } => Ok(seq![encode_riscv_fsgnjns_spec(dst, src1, src2)]),
        IROp::FsgnjxS { dst, src1, src2 } => Ok(seq![encode_riscv_fsgnjxs_spec(dst, src1, src2)]),
        IROp::Fclass { dst, src } => Ok(seq![encode_riscv_fclass_spec(dst, src)]),
        IROp::FclassS { dst, src } => Ok(seq![encode_riscv_fclasss_spec(dst, src)]),
        IROp::FmvXW { dst, src } => Ok(seq![encode_riscv_fmvxw_spec(dst, src)]),
        IROp::FmvWX { dst, src } => Ok(seq![encode_riscv_fmvwx_spec(dst, src)]),
        IROp::FmvXD { dst, src } => Ok(seq![encode_riscv_fmvxd_spec(dst, src)]),
        IROp::FmvDX { dst, src } => Ok(seq![encode_riscv_fmvdx_spec(dst, src)]),
        IROp::Fcvtwus { dst, src } => Ok(seq![encode_riscv_fcvtwus_spec(dst, src)]),
        IROp::Fcvtlus { dst, src } => Ok(seq![encode_riscv_fcvtlus_spec(dst, src)]),
        IROp::Fcvtswu { dst, src } => Ok(seq![encode_riscv_fcvtswu_spec(dst, src)]),
        IROp::Fcvtslu { dst, src } => Ok(seq![encode_riscv_fcvtslu_spec(dst, src)]),
        IROp::Fcvtwd { dst, src } => Ok(seq![encode_riscv_fcvtwd_spec(dst, src)]),
        IROp::Fcvtwud { dst, src } => Ok(seq![encode_riscv_fcvtwud_spec(dst, src)]),
        IROp::Fcvtlud { dst, src } => Ok(seq![encode_riscv_fcvtlud_spec(dst, src)]),
        IROp::Fcvtdw { dst, src } => Ok(seq![encode_riscv_fcvtdw_spec(dst, src)]),
        IROp::Fcvtdwu { dst, src } => Ok(seq![encode_riscv_fcvtdwu_spec(dst, src)]),
        IROp::Fcvtdlu { dst, src } => Ok(seq![encode_riscv_fcvtdlu_spec(dst, src)]),
        IROp::AtomicRMW { dst, base, src, op, size } => encode_riscv_atomic_rmw_spec(dst, base, src, op, size),
        IROp::AtomicCmpXchg { dst, base, expected, new, size } => encode_riscv_atomic_compare_exchange_spec(dst, base, expected, new, size),
        IROp::AtomicLoadReserve { dst, base, offset, size, .. } => lift_single(encode_riscv_lr_spec(dst, base, offset, size)),
        IROp::AtomicStoreCond { src, base, offset, size, dst_flag, .. } => encode_riscv_sc_spec(src, base, offset, size, dst_flag),
        _ => Err(EncodeFailure::UnsupportedOp(op)),
    }
}

impl ArchEncoder for Riscv64Encoder {
    open spec fn encodable(&self, op: IROp) -> bool {
        true
    }

    fn architecture(&self) -> (a: Architecture)
        ensures
            a == Architecture::RISCV64,
    {
        Architecture::RISCV64
    }

    /// Encodes one IR operation; operations without a RISC-V encoding here
    /// fail with `UnsupportedOperation` carrying the operation's `Debug` text.
    #[verifier::rlimit(60)]
    fn encode_op(&self, op: &IROp, pc: GuestAddr) -> (r: Result<Vec<TargetInstruction>, TranslationError>)
        ensures
            outcome_matches(r, riscv_encode_spec(*op)),
    {
        match *op {
            IROp::Add { dst, src1, src2 } => Ok(single(encode_riscv_add(dst, src1, src2))),
            IROp::Sub { dst, src1, src2 } => Ok(single(encode_riscv_sub(dst, src1, src2))),
            IROp::AddImm { dst, src, imm } => match encode_riscv_addi(dst, src, imm) {
                Ok(i) => Ok(single(i)),
                Err(e) => Err(e),
            },
            IROp::MovImm { dst, imm } => encode_riscv_mov_imm(dst, imm),
            IROp::Load { dst, base, offset, size, .. } => match encode_riscv_load(dst, base, offset, size) {
                Ok(i) => Ok(single(i)),
                Err(e) => Err(e),
            },
            IROp::Store { src, base, offset, size, .. } => match encode_riscv_store(src, base, offset, size) {
                Ok(i) => Ok(single(i)),
                Err(e) => Err(e),
            },
            IROp::VecAdd { dst, src1, src2, element_size } => encode_riscv_simd_add(dst, src1, src2, element_size),
            IROp::VecSub { dst, src1, src2, element_size } => encode_riscv_simd_sub(dst, src1, src2, element_size),
            IROp::VecMul { dst, src1, src2, element_size } => encode_riscv_simd_mul(dst, src1, src2, element_size),
            IROp::VecAddSat { dst, src1, src2, element_size, signed } => encode_riscv_simd_addsat(dst, src1, src2, element_size, signed),
            IROp::VecSubSat { dst, src1, src2, element_size, signed } => encode_riscv_simd_subsat(dst, src1, src2, element_size, signed),
            IROp::VecMulSat { dst, src1, src2, element_size, signed } => encode_riscv_simd_mulsat(dst, src1, src2, element_size, signed),
            IROp::Vec128Add { dst_lo, dst_hi, src1_lo, src1_hi, src2_lo, src2_hi, element_size, signed } => encode_riscv_vec128_add(dst_lo, dst_hi, src1_lo, src1_hi, src2_lo, src2_hi, element_size, signed),
            IROp::Vec256Add { dst0, dst1, dst2, dst3, src10, src11, src12, src13, src20, src21, src22, src23, element_size, signed } => encode_riscv_vec256_add(dst0, dst1, dst2, dst3, src10, src11, src12, src13, src20, src21, src22, src23, element_size, signed),
            IROp::Vec256Sub { dst0, dst1, dst2, dst3, src10, src11, src12, src13, src20, src21, src22, src23, element_size, signed } => encode_riscv_vec256_sub(dst0, dst1, dst2, dst3, src10, src11, src12, src13, src20, src21, src22, src23, element_size, signed),
            IROp::Vec256Mul { dst0, dst1, dst2, dst3, src10, src11, src12, src13, src20, src21, src22, src23, element_size, signed } => encode_riscv_vec256_mul(dst0, dst1, dst2, dst3, src10, src11, src12, src13, src20, src21, src22, src23, element_size, signed),
            IROp::Fadd { dst, src1, src2 } => Ok(single(encode_riscv_fadd(dst, src1, src2))),
            IROp::Fsub { dst, src1, src2 } => Ok(single(encode_riscv_fsub(dst, src1, src2))),
            IROp::Fmul { dst, src1, src2 } => Ok(single(encode_riscv_fmul(dst, src1, src2))),
            IROp::Fdiv { dst, src1, src2 } => Ok(single(encode_riscv_fdiv(dst, src1, src2))),
            IROp::FaddS { dst, src1, src2 } => Ok(single(encode_riscv_fadds(dst, src1, src2))),
            IROp::FsubS { dst, src1, src2 } => Ok(single(encode_riscv_fsubs(dst, src1, src2))),
            IROp::FmulS { dst, src1, src2 } => Ok(single(encode_riscv_fmuls(dst, src1, src2))),
            IROp::FdivS { dst, src1, src2 } => Ok(single(encode_riscv_fdivs(dst, src1, src2))),
            IROp::Fsqrt { dst, src } => Ok(single(encode_riscv_fsqrt(dst, src))),
            IROp::FsqrtS { dst, src } => Ok(single(encode_riscv_fsqrts(dst, src))),
            IROp::Fmadd { dst, src1, src2, src3 } => Ok(single(encode_riscv_fmadd(dst, src1, src2, src3))),
            IROp::Fmsub { dst, src1, src2, src3 } => Ok(single(encode_riscv_fmsub(dst, src1, src2, src3))),
            IROp::Fnmadd { dst, src1, src2, src3 } => Ok(single(encode_riscv_fnmadd(dst, src1, src2, src3))),
            IROp::Fnmsub { dst, src1, src2, src3 } => Ok(single(encode_riscv_fnmsub(dst, src1, src2, src3))),
            IROp::FmaddS { dst, src1, src2, src3 } => Ok(single(encode_riscv_fmadds(dst, src1, src2, src3))),
            IROp::FmsubS { dst, src1, src2, src3 } => Ok(single(encode_riscv_fmsubs(dst, src1, src2, src3))),
            IROp::FnmaddS { dst, src1, src2, src3 } => Ok(single(encode_riscv_fnmadds(dst, src1, src2, src3))),
            IROp::FnmsubS { dst, src1, src2, src3 } => Ok(single(encode_riscv_fnmsubs(dst, src1, src2, src3))),
            IROp::Feq { dst, src1, src2 } => Ok(single(encode_riscv_feq(dst, src1, src2))),
            IROp::Flt { dst, src1, src2 } => Ok(single(encode_riscv_flt(dst, src1, src2))),
            IROp::Fle { dst, src1, src2 } => Ok(single(encode_riscv_fle(dst, src1, src2))),
            IROp::FeqS { dst, src1, src2 } => Ok(single(encode_riscv_feqs(dst, src1, src2))),
            IROp::FltS { dst, src1, src2 } => Ok(single(encode_riscv_flts(dst, src1, src2))),
            IROp::FleS { dst, src1, src2 } => Ok(single(encode_riscv_fles(dst, src1, src2))),
            IROp::Fmin { dst, src1, src2 } => Ok(single(encode_riscv_fmin(dst, src1, src2))),
            IROp::Fmax { dst, src1, src2 } => Ok(single(encode_riscv_fmax(dst, src1, src2))),
            IROp::FminS { dst, src1, src2 } => Ok(single(encode_riscv_fmins(dst, src1, src2))),
            IROp::FmaxS { dst, src1, src2 } => Ok(single(encode_riscv_fmaxs(dst, src1, src2))),
            IROp::Fabs { dst, src } => Ok(single(encode_riscv_fabs(dst, src))),
            IROp::Fneg { dst, src } => Ok(single(encode_riscv_fneg(dst, src))),
            IROp::FabsS { dst, src } => Ok(single(encode_riscv_fabss(dst, src))),
            IROp::FnegS { dst, src } => Ok(single(encode_riscv_fnegs(dst, src))),
            IROp::Fcvtws { dst, src } => Ok(single(encode_riscv_fcvtws(dst, src))),
            IROp::Fcvtsw { dst, src } => Ok(single(encode_riscv_fcvtsw(dst, src))),
            IROp::Fcvtld { dst, src } => Ok(single(encode_riscv_fcvtld(dst, src))),
            IROp::Fcvtdl { dst, src } => Ok(single(encode_riscv_fcvtdl(dst, src))),
            IROp::Fcvtsd { dst, src } => Ok(single(encode_riscv_fcvtsd(dst, src))),
            IROp::Fcvtds { dst, src } => Ok(single(encode_riscv_fcvtds(dst, src))),
            IROp::Fload { dst, base, offset, size, .. } => match encode_riscv_fload(dst, base, offset, size) {
                Ok(i) => Ok(single(i)),
                Err(e) => Err(e),
            },
            IROp::Fstore { src, base, offset, size, .. } => match encode_riscv_fstore(src, base, offset, size) {
                Ok(i) => Ok(single(i)),
                Err(e) => Err(e),
            },
            IROp::Fsgnj { dst, src1, src2 } => Ok(single(encode_riscv_fsgnj(dst, src1, src2))),
            IROp::Fsgnjn { dst, src1, src2 } => Ok(single(encode_riscv_fsgnjn(dst, src1, src2))),
            IROp::Fsgnjx { dst, src1, src2 } => Ok(single(encode_riscv_fsgnjx(dst, src1, src2))),
            IROp::FsgnjS { dst, src1, src2 } => Ok(single(encode_riscv_fsgnjs(dst, src1, src2))),
            IROp::FsgnjnS { dst, src1, src2 } => Ok(single(encode_riscv_fsgnjns(dst, src1, src2))),
            IROp::FsgnjxS { dst, src1, src2 } => Ok(single(encode_riscv_fsgnjxs(dst, src1, src2))),
            IROp::Fclass { dst, src } => Ok(single(encode_riscv_fclass(dst, src))),
            IROp::FclassS { dst, src } => Ok(single(encode_riscv_fclasss(dst, src))),
            IROp::FmvXW { dst, src } => Ok(single(encode_riscv_fmvxw(dst, src))),
            IROp::FmvWX { dst, src } => Ok(single(encode_riscv_fmvwx(dst, src))),
            IROp::FmvXD { dst, src } => Ok(single(encode_riscv_fmvxd(dst, src))),
            IROp::FmvDX { dst, src } => Ok(single(encode_riscv_fmvdx(dst, src))),
            IROp::Fcvtwus { dst, src } => Ok(single(encode_riscv_fcvtwus(dst, src))),
            IROp::Fcvtlus { dst, src } => Ok(single(encode_riscv_fcvtlus(dst, src))),
            IROp::Fcvtswu { dst, src } => Ok(single(encode_riscv_fcvtswu(dst, src))),
            IROp::Fcvtslu { dst, src } => Ok(single(encode_riscv_fcvtslu(dst, src))),
            IROp::Fcvtwd { dst, src } => Ok(single(encode_riscv_fcvtwd(dst, src))),
            IROp::Fcvtwud { dst, src } => Ok(single(encode_riscv_fcvtwud(dst, src))),
            IROp::Fcvtlud { dst, src } => Ok(single(encode_riscv_fcvtlud(dst, src))),
            IROp::Fcvtdw { dst, src } => Ok(single(encode_riscv_fcvtdw(dst, src))),
            IROp::Fcvtdwu { dst, src } => Ok(single(encode_riscv_fcvtdwu(dst, src))),
            IROp::Fcvtdlu { dst, src } => Ok(single(encode_riscv_fcvtdlu(dst, src))),
            IROp::AtomicRMW { dst, base, src, op, size } => encode_riscv_atomic_rmw(dst, base, src, op, size),
            IROp::AtomicCmpXchg { dst, base, expected, new, size } => encode_riscv_atomic_compare_exchange(dst, base, expected, new, size),
            IROp::AtomicLoadReserve { dst, base, offset, size, .. } => match encode_riscv_lr(dst, base, offset, size) {
                Ok(i) => Ok(single(i)),
                Err(e) => Err(e),
            },
            IROp::AtomicStoreCond { src, base, offset, size, dst_flag, .. } => encode_riscv_sc(src, base, offset, size, dst_flag),
            _ => Err(TranslationError::UnsupportedOperation { op: ir_op_debug(op) }),
        }
    }
}

// ----- integer and memory operations -----

/// An I-type word `opcode | rd << 7 | rs1 << 15 | funct3 << 12 | imm12 << 20`.
pub open spec fn rv_itype(opcode: u32, funct3: u32, rd: RegId, rs1: RegId, imm12: u32) -> u32 {
    opcode | (((rd & 0x1F) as u32) << 7u32) | (((rs1 & 0x1F) as u32) << 15u32) | (funct3 << 12u32) | ((imm12 & 0xFFF) << 20u32)
}

/// An S-type word: the 12-bit immediate split into bits 11:7 and 31:25.
pub open spec fn rv_stype(opcode: u32, funct3: u32, rs1: RegId, rs2: RegId, imm12: u32) -> u32 {
    opcode | ((imm12 & 0x1F) << 7u32) | (((rs1 & 0x1F) as u32) << 15u32) | (funct3 << 12u32)
        | (((rs2 & 0x1F) as u32) << 20u32) | (((imm12 >> 5u32) & 0x7F) << 25u32)
}

pub open spec fn rv_imm12_ok(v: i64) -> bool {
    -2048 <= v && v < 2048
}

/// `ADDI rd, rs1, imm` for signed 12-bit immediates.
pub open spec fn encode_riscv_addi_spec(dst: RegId, src: RegId, imm: i64) -> Result<InsnView, EncodeFailure> {
    if rv_imm12_ok(imm) {
        Ok(word_view(
            rv_itype(0x13, 0, dst, src, (imm as u32) & 0xFFF),
            "addi x"@ + dec(dst as nat) + ", x"@ + dec(src as nat) + ", "@ + dec_int(imm as int),
            false,
        ))
    } else {
        Err(EncodeFailure::ImmediateTooLarge(imm))
    }
}

fn encode_riscv_addi(dst: RegId, src: RegId, imm: i64) -> (r: Result<TargetInstruction, TranslationError>)
    ensures
        single_matches(r, encode_riscv_addi_spec(dst, src, imm)),
{
    if imm < -2048 || imm >= 2048 {
        return Err(TranslationError::ImmediateTooLarge { imm });
    }
    let imm12 = (imm as u32) & 0xFFF;
    let word: u32 = 0x00000013 | (((dst & 0x1F) as u32) << 7) | (((src & 0x1F) as u32) << 15) | ((imm12 & 0xFFF) << 20);
    assert(word == rv_itype(0x13, 0, dst, src, imm12)) by (bit_vector)
        requires word == 0x00000013 | (((dst & 0x1F) as u32) << 7) | (((src & 0x1F) as u32) << 15) | ((imm12 & 0xFFF) << 20);
    let mut m = text("addi x");
    push_u64(&mut m, dst as u64);
    push_text(&mut m, ", x");
    push_u64(&mut m, src as u64);
    push_text(&mut m, ", ");
    push_i64(&mut m, imm);
    Ok(word_insn(word, m, false))
}

/// The upper twenty bits that `LUI` loads for `imm`: bits 31..12, plus one
/// when bit 11 is set, because the `ADDI` that follows sign-extends the low
/// twelve bits.
pub open spec fn rv_upper20(imm: u64) -> u32 {
    ((((imm >> 12u64) & 0xFFFFF) + ((imm >> 11u64) & 1)) as u64 & 0xFFFFF) as u32
}

/// The low twelve bits of `imm` as the signed immediate of `ADDI`.
pub open spec fn rv_lower12_signed(imm12: u32) -> int {
    if imm12 >= 0x800 {
        imm12 - 0x1000
    } else {
        imm12 as int
    }
}

/// `LUI rd, upper`, then `ADDI rd, rd, lower` when the low twelve bits are
/// not zero, so that `rd` ends up holding the low 32 bits of `imm`, sign
/// extended: the upper part is rounded up when bit 11 is set (see
/// `rv_upper20`), and the mnemonic shows the `ADDI` immediate signed.
pub open spec fn encode_riscv_mov_imm_spec(dst: RegId, imm: u64) -> EncodeOutcome {
    let imm20 = rv_upper20(imm);
    let imm12 = (imm & 0xFFF) as u32;
    let lui = word_view(
        0x37u32 | (((dst & 0x1F) as u32) << 7u32) | ((imm20 & 0xFFFFF) << 12u32),
        "lui x"@ + dec(dst as nat) + ", "@ + dec(imm20 as nat),
        false,
    );
    if imm12 != 0 {
        Ok(seq![lui, word_view(
            rv_itype(0x13, 0, dst, dst, imm12),
            "addi x"@ + dec(dst as nat) + ", x"@ + dec(dst as nat) + ", "@ + dec_int(rv_lower12_signed(imm12)),
            false,
        )])
    } else {
        Ok(seq![lui])
    }
}

fn encode_riscv_mov_imm(dst: RegId, imm: u64) -> (r: Result<Vec<TargetInstruction>, TranslationError>)
    ensures
        outcome_matches(r, encode_riscv_mov_imm_spec(dst, imm)),
{
    let hi: u64 = (imm >> 12) & 0xFFFFF;
    let round: u64 = (imm >> 11) & 1;
    assert(hi <= 0xFFFFF && round <= 1) by (bit_vector)
        requires
            hi == (imm >> 12) & 0xFFFFF,
            round == (imm >> 11) & 1,
    ;
    let imm20 = ((hi + round) & 0xFFFFF) as u32;
    let word1: u32 = 0x00000037 | (((dst & 0x1F) as u32) << 7) | ((imm20 & 0xFFFFF) << 12);
    let mut m1 = text("lui x");
    push_u64(&mut m1, dst as u64);
    push_text(&mut m1, ", ");
    push_u64(&mut m1, imm20 as u64);
    let lui = word_insn(word1, m1, false);
    let ghost lui_v = lui@;
    let mut instructions = single(lui);
    let imm12 = (imm & 0xFFF) as u32;
    if imm12 != 0 {
        let word2: u32 = 0x00000013 | (((dst & 0x1F) as u32) << 7) | (((dst & 0x1F) as u32) << 15) | ((imm12 & 0xFFF) << 20);
        assert(word2 == rv_itype(0x13, 0, dst, dst, imm12)) by (bit_vector)
            requires word2 == 0x00000013 | (((dst & 0x1F) as u32) << 7) | (((dst & 0x1F) as u32) << 15) | ((imm12 & 0xFFF) << 20);
        let mut m2 = text("addi x");
        push_u64(&mut m2, dst as u64);
        push_text(&mut m2, ", x");
        push_u64(&mut m2, dst as u64);
        push_text(&mut m2, ", ");
        let lower: i64 = if imm12 >= 0x800 {
            imm12 as i64 - 0x1000
        } else {
            imm12 as i64
        };
        push_i64(&mut m2, lower);
        let addi = word_insn(word2, m2, false);
        let ghost addi_v = addi@;
        append_insns(&mut instructions, single(addi));
        assert(insns_view(instructions@) =~= seq![lui_v, addi_v]);
    }
    Ok(instructions)
}

/// `LD rd, offset(rs1)`.
pub open spec fn encode_riscv_load_spec(dst: RegId, base: RegId, offset: i64, size: u8) -> Result<InsnView, EncodeFailure> {
    if rv_imm12_ok(offset) {
        Ok(word_view(
            rv_itype(0x03, 0b011, dst, base, (offset as u32) & 0xFFF),
            "ld x"@ + dec(dst as nat) + ", "@ + dec_int(offset as int) + "(x"@ + dec(base as nat) + ")"@,
            true,
        ))
    } else {
        Err(EncodeFailure::InvalidOffset(offset))
    }
}

fn encode_riscv_load(dst: RegId, base: RegId, offset: i64, size: u8) -> (r: Result<TargetInstruction, TranslationError>)
    ensures
        single_matches(r, encode_riscv_load_spec(dst, base, offset, size)),
{
    if offset < -2048 || offset >= 2048 {
        return Err(TranslationError::InvalidOffset { offset });
    }
    let imm12 = (offset as u32) & 0xFFF;
    let word: u32 = 0x00000003 | (((dst & 0x1F) as u32) << 7) | (((base & 0x1F) as u32) << 15) | (0b011u32 << 12) | ((imm12 & 0xFFF) << 20);
    assert(word == rv_itype(0x03, 0b011, dst, base, imm12)) by (bit_vector)
        requires word == 0x00000003 | (((dst & 0x1F) as u32) << 7) | (((base & 0x1F) as u32) << 15) | (0b011u32 << 12) | ((imm12 & 0xFFF) << 20);
    let mut m = text("ld x");
    push_u64(&mut m, dst as u64);
    push_text(&mut m, ", ");
    push_i64(&mut m, offset);
    push_text(&mut m, "(x");
    push_u64(&mut m, base as u64);
    push_text(&mut m, ")");
    Ok(word_insn(word, m, true))
}

/// `SD rs2, offset(rs1)`.
pub open spec fn encode_riscv_store_spec(src: RegId, base: RegId, offset: i64, size: u8) -> Result<InsnView, EncodeFailure> {
    if rv_imm12_ok(offset) {
        Ok(word_view(
            rv_stype(0x23, 0b011, base, src, (offset as u32) & 0xFFF),
            "sd x"@ + dec(src as nat) + ", "@ + dec_int(offset as int) + "(x"@ + dec(base as nat) + ")"@,
            true,
        ))
    } else {
        Err(EncodeFailure::InvalidOffset(offset))
    }
}

fn encode_riscv_store(src: RegId, base: RegId, offset: i64, size: u8) -> (r: Result<TargetInstruction, TranslationError>)
    ensures
        single_matches(r, encode_riscv_store_spec(src, base, offset, size)),
{
    if offset < -2048 || offset >= 2048 {
        return Err(TranslationError::InvalidOffset { offset });
    }
    let imm12 = (offset as u32) & 0xFFF;
    let imm_hi = (imm12 >> 5) & 0x7F;
    let imm_lo = imm12 & 0x1F;
    let word: u32 = 0x00000023 | (imm_lo << 7) | (((base & 0x1F) as u32) << 15) | (0b011u32 << 12)
        | (((src & 0x1F) as u32) << 20) | (imm_hi << 25);
    assert(word == rv_stype(0x23, 0b011, base, src, imm12)) by (bit_vector)
        requires
            imm_hi == (imm12 >> 5) & 0x7F,
            imm_lo == imm12 & 0x1F,
            word == 0x00000023 | (imm_lo << 7) | (((base & 0x1F) as u32) << 15) | (0b011u32 << 12)
                | (((src & 0x1F) as u32) << 20) | (imm_hi << 25);
    let mut m = text("sd x");
    push_u64(&mut m, src as u64);
    push_text(&mut m, ", ");
    push_i64(&mut m, offset);
    push_text(&mut m, "(x");
    push_u64(&mut m, base as u64);
    push_text(&mut m, ")");
    Ok(word_insn(word, m, true))
}

// ----- floating-point memory operations -----

/// `FLD`/`FLW f_rd, offset(rs1)` for 8-byte / other sizes.
pub open spec fn encode_riscv_fload_spec(dst: RegId, base: RegId, offset: i64, size: u8) -> Result<InsnView, EncodeFailure> {
    if rv_imm12_ok(offset) {
        Ok(word_view(
            rv_itype(0x07, if size == 8 { 0b011u32 } else { 0b010u32 }, dst, base, (offset as u32) & 0xFFF),
            "fl"@ + (if size == 8 { "d"@ } else { "w"@ }) + " f"@ + dec(dst as nat) + ", "@ + dec_int(offset as int)
                + "(x"@ + dec(base as nat) + ")"@,
            true,
        ))
    } else {
        Err(EncodeFailure::InvalidOffset(offset))
    }
}

fn encode_riscv_fload(dst: RegId, base: RegId, offset: i64, size: u8) -> (r: Result<TargetInstruction, TranslationError>)
    ensures
        single_matches(r, encode_riscv_fload_spec(dst, base, offset, size)),
{
    if offset < -2048 || offset >= 2048 {
        return Err(TranslationError::InvalidOffset { offset });
    }
    let imm12 = (offset as u32) & 0xFFF;
    let funct3: u32 = if size == 8 { 0b011 } else { 0b010 };
    let word: u32 = 0x00000007 | (((dst & 0x1F) as u32) << 7) | (((base & 0x1F) as u32) << 15) | (funct3 << 12)
        | ((imm12 & 0xFFF) << 20);
    let mut m = text("fl");
    if size == 8 {
        push_text(&mut m, "d");
    } else {
        push_text(&mut m, "w");
    }
    push_text(&mut m, " f");
    push_u64(&mut m, dst as u64);
    push_text(&mut m, ", ");
    push_i64(&mut m, offset);
    push_text(&mut m, "(x");
    push_u64(&mut m, base as u64);
    push_text(&mut m, ")");
    Ok(word_insn(word, m, true))
}

/// `FSD`/`FSW f_rs2, offset(rs1)` for 8-byte / other sizes.
pub open spec fn encode_riscv_fstore_spec(src: RegId, base: RegId, offset: i64, size: u8) -> Result<InsnView, EncodeFailure> {
    if rv_imm12_ok(offset) {
        Ok(word_view(
            rv_stype(0x27, if size == 8 { 0b011u32 } else { 0b010u32 }, base, src, (offset as u32) & 0xFFF),
            "fs"@ + (if size == 8 { "d"@ } else { "w"@ }) + " f"@ + dec(src as nat) + ", "@ + dec_int(offset as int)
                + "(x"@ + dec(base as nat) + ")"@,
            true,
        ))
    } else {
        Err(EncodeFailure::InvalidOffset(offset))
    }
}

fn encode_riscv_fstore(src: RegId, base: RegId, offset: i64, size: u8) -> (r: Result<TargetInstruction, TranslationError>)
    ensures
        single_matches(r, encode_riscv_fstore_spec(src, base, offset, size)),
{
    if offset < -2048 || offset >= 2048 {
        return Err(TranslationError::InvalidOffset { offset });
    }
    let imm12 = (offset as u32) & 0xFFF;
    let imm_hi = (imm12 >> 5) & 0x7F;
    let imm_lo = imm12 & 0x1F;
    let funct3: u32 = if size == 8 { 0b011 } else { 0b010 };
    let word: u32 = 0x00000027 | (imm_lo << 7) | (((base & 0x1F) as u32) << 15) | (funct3 << 12)
        | (((src & 0x1F) as u32) << 20) | (imm_hi << 25);
    assert(word == rv_stype(0x27, funct3, base, src, imm12)) by (bit_vector)
        requires
            imm_hi == (imm12 >> 5) & 0x7F,
            imm_lo == imm12 & 0x1F,
            word == 0x00000027 | (imm_lo << 7) | (((base & 0x1F) as u32) << 15) | (funct3 << 12)
                | (((src & 0x1F) as u32) << 20) | (imm_hi << 25);
    let mut m = text("fs");
    if size == 8 {
        push_text(&mut m, "d");
    } else {
        push_text(&mut m, "w");
    }
    push_text(&mut m, " f");
    push_u64(&mut m, src as u64);
    push_text(&mut m, ", ");
    push_i64(&mut m, offset);
    push_text(&mut m, "(x");
    push_u64(&mut m, base as u64);
    push_text(&mut m, ")");
    Ok(word_insn(word, m, true))
}

// ----- vector (V extension) operations -----

/// An OP-V `.vv` word with the given funct6.
pub open spec fn rv_vv_word(funct6: u32, dst: RegId, src1: RegId, src2: RegId) -> u32 {
    0x57u32 | (((dst & 0x1F) as u32) << 7u32) | (((src1 & 0x1F) as u32) << 15u32) | (((src2 & 0x1F) as u32) << 20u32)
        | (funct6 << 26u32)
}

/// Mnemonic `<name> vD, vN, vM`.
pub open spec fn rv_vv_mnemonic(name: Seq<char>, dst: RegId, src1: RegId, src2: RegId) -> Seq<char> {
    name + " v"@ + dec(dst as nat) + ", v"@ + dec(src1 as nat) + ", v"@ + dec(src2 as nat)
}

fn rv_vv_insn(funct6: u32, prefix: &str, name: &str, dst: RegId, src1: RegId, src2: RegId) -> (r: Vec<TargetInstruction>)
    requires
        funct6 < 64,
    ensures
        insns_view(r@) == seq![word_view(rv_vv_word(funct6, dst, src1, src2), rv_vv_mnemonic(prefix@ + name@, dst, src1, src2), false)],
{
    let word: u32 = 0x00000057 | (((dst & 0x1F) as u32) << 7) | (((src1 & 0x1F) as u32) << 15) | (((src2 & 0x1F) as u32) << 20)
        | (funct6 << 26);
    let mut m = text(prefix);
    push_text(&mut m, name);
    push_text(&mut m, " v");
    push_u64(&mut m, dst as u64);
    push_text(&mut m, ", v");
    push_u64(&mut m, src1 as u64);
    push_text(&mut m, ", v");
    push_u64(&mut m, src2 as u64);
    single(word_insn(word, m, false))
}

/// `VADD.VV` (element size taken from the vector configuration).
pub open spec fn encode_riscv_simd_add_spec(dst: RegId, src1: RegId, src2: RegId, element_size: u8) -> EncodeOutcome {
    Ok(seq![word_view(rv_vv_word(0b000000, dst, src1, src2), rv_vv_mnemonic(""@ + "vadd.vv"@, dst, src1, src2), false)])
}

fn encode_riscv_simd_add(dst: RegId, src1: RegId, src2: RegId, element_size: u8) -> (r: Result<Vec<TargetInstruction>, TranslationError>)
    ensures
        outcome_matches(r, encode_riscv_simd_add_spec(dst, src1, src2, element_size)),
{
    Ok(rv_vv_insn(0b000000, "", "vadd.vv", dst, src1, src2))
}

/// `VSUB.VV`.
pub open spec fn encode_riscv_simd_sub_spec(dst: RegId, src1: RegId, src2: RegId, element_size: u8) -> EncodeOutcome {
    Ok(seq![word_view(rv_vv_word(0b000010, dst, src1, src2), rv_vv_mnemonic(""@ + "vsub.vv"@, dst, src1, src2), false)])
}

fn encode_riscv_simd_sub(dst: RegId, src1: RegId, src2: RegId, element_size: u8) -> (r: Result<Vec<TargetInstruction>, TranslationError>)
    ensures
        outcome_matches(r, encode_riscv_simd_sub_spec(dst, src1, src2, element_size)),
{
    Ok(rv_vv_insn(0b000010, "", "vsub.vv", dst, src1, src2))
}

/// `VMUL.VV`.
pub open spec fn encode_riscv_simd_mul_spec(dst: RegId, src1: RegId, src2: RegId, element_size: u8) -> EncodeOutcome {
    Ok(seq![word_view(rv_vv_word(0b100101, dst, src1, src2), rv_vv_mnemonic(""@ + "vmul.vv"@, dst, src1, src2), false)])
}

fn encode_riscv_simd_mul(dst: RegId, src1: RegId, src2: RegId, element_size: u8) -> (r: Result<Vec<TargetInstruction>, TranslationError>)
    ensures
        outcome_matches(r, encode_riscv_simd_mul_spec(dst, src1, src2, element_size)),
{
    Ok(rv_vv_insn(0b100101, "", "vmul.vv", dst, src1, src2))
}

/// `VSADD.VV` (signed) / `VSADDU.VV` (unsigned), written `vsaddv`/`vsadduv`.
pub open spec fn encode_riscv_simd_addsat_spec(dst: RegId, src1: RegId, src2: RegId, element_size: u8, signed: bool) -> EncodeOutcome {
    Ok(seq![word_view(rv_vv_word(if signed { 0b100000u32 } else { 0b100001u32 }, dst, src1, src2),
        rv_vv_mnemonic("vsadd"@ + (if signed { "v"@ } else { "uv"@ }), dst, src1, src2), false)])
}

fn encode_riscv_simd_addsat(dst: RegId, src1: RegId, src2: RegId, element_size: u8, signed: bool) -> (r: Result<Vec<TargetInstruction>, TranslationError>)
    ensures
        outcome_matches(r, encode_riscv_simd_addsat_spec(dst, src1, src2, element_size, signed)),
{
    let funct6: u32 = if signed { 0b100000 } else { 0b100001 };
    let suffix = if signed { "v" } else { "uv" };
    Ok(rv_vv_insn(funct6, "vsadd", suffix, dst, src1, src2))
}

/// `VSSUB.VV` (signed) / `VSSUBU.VV` (unsigned), written `vssubv`/`vssubuv`.
pub open spec fn encode_riscv_simd_subsat_spec(dst: RegId, src1: RegId, src2: RegId, element_size: u8, signed: bool) -> EncodeOutcome {
    Ok(seq![word_view(rv_vv_word(if signed { 0b100010u32 } else { 0b100011u32 }, dst, src1, src2),
        rv_vv_mnemonic("vssub"@ + (if signed { "v"@ } else { "uv"@ }), dst, src1, src2), false)])
}

fn encode_riscv_simd_subsat(dst: RegId, src1: RegId, src2: RegId, element_size: u8, signed: bool) -> (r: Result<Vec<TargetInstruction>, TranslationError>)
    ensures
        outcome_matches(r, encode_riscv_simd_subsat_spec(dst, src1, src2, element_size, signed)),
{
    let funct6: u32 = if signed { 0b100010 } else { 0b100011 };
    let suffix = if signed { "v" } else { "uv" };
    Ok(rv_vv_insn(funct6, "vssub", suffix, dst, src1, src2))
}

/// `VMUL.VV` (signed) / `VMULU.VV` (unsigned); there is no saturating form.
pub open spec fn encode_riscv_simd_mulsat_spec(dst: RegId, src1: RegId, src2: RegId, element_size: u8, signed: bool) -> EncodeOutcome {
    Ok(seq![word_view(rv_vv_word(if signed { 0b100101u32 } else { 0b100111u32 }, dst, src1, src2),
        rv_vv_mnemonic((if signed { "vmul"@ } else { "vmulu"@ }) + ".vv"@, dst, src1, src2), false)])
}

fn encode_riscv_simd_mulsat(dst: RegId, src1: RegId, src2: RegId, element_size: u8, signed: bool) -> (r: Result<Vec<TargetInstruction>, TranslationError>)
    ensures
        outcome_matches(r, encode_riscv_simd_mulsat_spec(dst, src1, src2, element_size, signed)),
{
    let funct6: u32 = if signed { 0b100101 } else { 0b100111 };
    let name = if signed { "vmul" } else { "vmulu" };
    Ok(rv_vv_insn(funct6, name, ".vv", dst, src1, src2))
}

/// A 128-bit add as two lane adds (low half first).
pub open spec fn encode_riscv_vec128_add_spec(
    dst_lo: RegId, dst_hi: RegId, src1_lo: RegId, src1_hi: RegId, src2_lo: RegId, src2_hi: RegId,
    element_size: u8, signed: bool,
) -> EncodeOutcome {
    then_outcome(
        encode_riscv_simd_add_spec(dst_lo, src1_lo, src2_lo, element_size),
        encode_riscv_simd_add_spec(dst_hi, src1_hi, src2_hi, element_size),
    )
}

fn encode_riscv_vec128_add(
    dst_lo: RegId, dst_hi: RegId, src1_lo: RegId, src1_hi: RegId, src2_lo: RegId, src2_hi: RegId,
    element_size: u8, signed: bool,
) -> (r: Result<Vec<TargetInstruction>, TranslationError>)
    ensures
        outcome_matches(r, encode_riscv_vec128_add_spec(dst_lo, dst_hi, src1_lo, src1_hi, src2_lo, src2_hi, element_size, signed)),
{
    let lo = encode_riscv_simd_add(dst_lo, src1_lo, src2_lo, element_size);
    let hi = encode_riscv_simd_add(dst_hi, src1_hi, src2_hi, element_size);
    then_result(lo, hi, Ghost(encode_riscv_simd_add_spec(dst_lo, src1_lo, src2_lo, element_size)),
        Ghost(encode_riscv_simd_add_spec(dst_hi, src1_hi, src2_hi, element_size)))
}

// ----- atomic operations -----

/// The funct5 of an AMO instruction, by operation.
pub open spec fn rv_amo_funct5(op: AtomicOp) -> Option<u32> {
    match op {
        AtomicOp::Add => Some(0b00000u32),
        AtomicOp::Xchg => Some(0b00001u32),
        AtomicOp::Swap => Some(0b00001u32),
        AtomicOp::And => Some(0b01100u32),
        AtomicOp::Or => Some(0b01000u32),
        AtomicOp::Xor => Some(0b00100u32),
        _ => None,
    }
}

/// An AMO word: `0x202F | funct5 << 27 | width << 12 | rd << 7 | rs1 << 15 | rs2 << 20`.
pub open spec fn rv_amo_word(funct5: u32, width: u32, rd: RegId, rs1: RegId, rs2: RegId) -> u32 {
    0x0000202Fu32 | (funct5 << 27u32) | (width << 12u32) | (((rd & 0x1F) as u32) << 7u32)
        | (((rs1 & 0x1F) as u32) << 15u32) | (((rs2 & 0x1F) as u32) << 20u32)
}

/// `.d` for 8-byte accesses, `.w` otherwise.
pub open spec fn rv_width_suffix(size: u8) -> Seq<char> {
    if size == 8 { ".d"@ } else { ".w"@ }
}

fn push_rv_width_suffix(m: &mut String, size: u8)
    ensures
        final(m)@ == old(m)@ + rv_width_suffix(size),
{
    if size == 8 {
        push_text(m, ".d");
    } else {
        push_text(m, ".w");
    }
}

/// `AMO<op>.W/.D rd, rs2, (rs1)`; the mnemonic says `amoadd` for every
/// operation.
pub open spec fn encode_riscv_atomic_rmw_spec(dst: RegId, base: RegId, src: RegId, op: AtomicOp, size: u8) -> EncodeOutcome {
    match rv_amo_funct5(op) {
        None => Err(EncodeFailure::Unsupported("RISC-V atomic RMW operation "@ + atomic_op_text(op))),
        Some(funct5) => if arm64_like_size_ok(size) {
            Ok(seq![word_view(
                rv_amo_word(funct5, rv_size_bits(size), dst, base, src),
                "amoadd"@ + rv_width_suffix(size) + " x"@ + dec(dst as nat) + ", x"@ + dec(src as nat) + ", (x"@
                    + dec(base as nat) + ")"@,
                true,
            )])
        } else {
            Err(EncodeFailure::Unsupported("RISC-V atomic RMW with size "@ + dec(size as nat)))
        },
    }
}

pub open spec fn arm64_like_size_ok(size: u8) -> bool {
    size == 1 || size == 2 || size == 4 || size == 8
}

pub open spec fn rv_size_bits(size: u8) -> u32 {
    if size == 1 { 0 } else if size == 2 { 1 } else if size == 4 { 2 } else { 3 }
}

fn encode_riscv_atomic_rmw(dst: RegId, base: RegId, src: RegId, op: AtomicOp, size: u8) -> (r: Result<Vec<TargetInstruction>, TranslationError>)
    ensures
        outcome_matches(r, encode_riscv_atomic_rmw_spec(dst, base, src, op, size)),
{
    let funct5: u32 = match op {
        AtomicOp::Add => 0b00000,
        AtomicOp::Xchg | AtomicOp::Swap => 0b00001,
        AtomicOp::And => 0b01100,
        AtomicOp::Or => 0b01000,
        AtomicOp::Xor => 0b00100,
        _ => {
            let mut t = text("RISC-V atomic RMW operation ");
            push_text(&mut t, atomic_op_name(op));
            return Err(TranslationError::UnsupportedOperation { op: t });
        },
    };
    let size_bits: u32 = match size {
        1 => 0b000,
        2 => 0b001,
        4 => 0b010,
        8 => 0b011,
        _ => {
            return Err(TranslationError::UnsupportedOperation {
                op: text_num("RISC-V atomic RMW with size ", size as u64),
            });
        },
    };
    let word: u32 = 0x0000202F | (funct5 << 27) | (size_bits << 12) | (((dst & 0x1F) as u32) << 7)
        | (((base & 0x1F) as u32) << 15) | (((src & 0x1F) as u32) << 20);
    let mut m = text("amoadd");
    push_rv_width_suffix(&mut m, size);
    push_text(&mut m, " x");
    push_u64(&mut m, dst as u64);
    push_text(&mut m, ", x");
    push_u64(&mut m, src as u64);
    push_text(&mut m, ", (x");
    push_u64(&mut m, base as u64);
    push_text(&mut m, ")");
    Ok(single(word_insn(word, m, true)))
}

/// The width field of LR/SC: doubleword for 8-byte accesses, word otherwise.
pub open spec fn rv_lrsc_width(size: u8) -> u32 {
    if size == 8 { 0b011 } else { 0b010 }
}

pub open spec fn rv_lr_view(dst: RegId, base: RegId, size: u8) -> InsnView {
    word_view(
        rv_amo_word(0b00010, rv_lrsc_width(size), dst, base, 0),
        "lr"@ + rv_width_suffix(size) + " x"@ + dec(dst as nat) + ", (x"@ + dec(base as nat) + ")"@,
        true,
    )
}

pub open spec fn rv_sc_view(rd: RegId, src: RegId, base: RegId, size: u8) -> InsnView {
    word_view(
        rv_amo_word(0b00011, rv_lrsc_width(size), rd, base, src),
        "sc"@ + rv_width_suffix(size) + " x"@ + dec(rd as nat) + ", x"@ + dec(src as nat) + ", (x"@ + dec(base as nat) + ")"@,
        true,
    )
}

fn rv_lr(dst: RegId, base: RegId, size: u8) -> (r: TargetInstruction)
    ensures
        r@ == rv_lr_view(dst, base, size),
{
    let size_bits: u32 = if size == 8 { 0b011 } else { 0b010 };
    let word: u32 = 0x0000202F | ((0b00010 as u32) << 27) | (size_bits << 12) | (((dst & 0x1F) as u32) << 7)
        | (((base & 0x1F) as u32) << 15);
    assert(word == rv_amo_word(0b00010, size_bits, dst, base, 0)) by (bit_vector)
        requires word == 0x0000202F | ((0b00010 as u32) << 27) | (size_bits << 12) | (((dst & 0x1F) as u32) << 7)
            | (((base & 0x1F) as u32) << 15);
    let mut m = text("lr");
    push_rv_width_suffix(&mut m, size);
    push_text(&mut m, " x");
    push_u64(&mut m, dst as u64);
    push_text(&mut m, ", (x");
    push_u64(&mut m, base as u64);
    push_text(&mut m, ")");
    word_insn(word, m, true)
}

fn rv_sc(rd: RegId, src: RegId, base: RegId, size: u8) -> (r: TargetInstruction)
    ensures
        r@ == rv_sc_view(rd, src, base, size),
{
    let size_bits: u32 = if size == 8 { 0b011 } else { 0b010 };
    let word: u32 = 0x0000202F | ((0b00011 as u32) << 27) | (size_bits << 12) | (((rd & 0x1F) as u32) << 7)
        | (((base & 0x1F) as u32) << 15) | (((src & 0x1F) as u32) << 20);
    let mut m = text("sc");
    push_rv_width_suffix(&mut m, size);
    push_text(&mut m, " x");
    push_u64(&mut m, rd as u64);
    push_text(&mut m, ", x");
    push_u64(&mut m, src as u64);
    push_text(&mut m, ", (x");
    push_u64(&mut m, base as u64);
    push_text(&mut m, ")");
    word_insn(word, m, true)
}

/// `LR rd, (rs1)` then `SC expected, new, (rs1)`.
pub open spec fn encode_riscv_atomic_compare_exchange_spec(dst: RegId, base: RegId, expected: RegId, new: RegId, size: u8) -> EncodeOutcome {
    Ok(seq![rv_lr_view(dst, base, size), rv_sc_view(expected, new, base, size)])
}

fn encode_riscv_atomic_compare_exchange(dst: RegId, base: RegId, expected: RegId, new: RegId, size: u8) -> (r: Result<Vec<TargetInstruction>, TranslationError>)
    ensures
        outcome_matches(r, encode_riscv_atomic_compare_exchange_spec(dst, base, expected, new, size)),
{
    let lr = rv_lr(dst, base, size);
    let sc = rv_sc(expected, new, base, size);
    let ghost (lr_v, sc_v) = (lr@, sc@);
    let mut instructions = single(lr);
    append_insns(&mut instructions, single(sc));
    assert(insns_view(instructions@) =~= seq![lr_v, sc_v]);
    Ok(instructions)
}

/// `LR.W/.D rd, (rs1)`; only a zero offset is encodable.
pub open spec fn encode_riscv_lr_spec(dst: RegId, base: RegId, offset: i64, size: u8) -> Result<InsnView, EncodeFailure> {
    if offset != 0 { Err(EncodeFailure::InvalidOffset(offset)) } else { Ok(rv_lr_view(dst, base, size)) }
}

fn encode_riscv_lr(dst: RegId, base: RegId, offset: i64, size: u8) -> (r: Result<TargetInstruction, TranslationError>)
    ensures
        single_matches(r, encode_riscv_lr_spec(dst, base, offset, size)),
{
    if offset != 0 {
        return Err(TranslationError::InvalidOffset { offset });
    }
    Ok(rv_lr(dst, base, size))
}

/// `SC.W/.D rd_flag, rs2, (rs1)`; only a zero offset is encodable.
pub open spec fn encode_riscv_sc_spec(src: RegId, base: RegId, offset: i64, size: u8, dst_flag: RegId) -> EncodeOutcome {
    if offset != 0 { Err(EncodeFailure::InvalidOffset(offset)) } else { Ok(seq![rv_sc_view(dst_flag, src, base, size)]) }
}

fn encode_riscv_sc(src: RegId, base: RegId, offset: i64, size: u8, dst_flag: RegId) -> (r: Result<Vec<TargetInstruction>, TranslationError>)
    ensures
        outcome_matches(r, encode_riscv_sc_spec(src, base, offset, size, dst_flag)),
{
    if offset != 0 {
        return Err(TranslationError::InvalidOffset { offset });
    }
    Ok(single(rv_sc(dst_flag, src, base, size)))
}

/// A 256-bit operation as four lane operations in order; the first failure wins.
pub open spec fn encode_riscv_vec256_add_spec(
    dst0: RegId, dst1: RegId, dst2: RegId, dst3: RegId,
    src10: RegId, src11: RegId, src12: RegId, src13: RegId,
    src20: RegId, src21: RegId, src22: RegId, src23: RegId,
    element_size: u8, signed: bool,
) -> EncodeOutcome {
    four_lanes(
        encode_riscv_simd_add_spec(dst0, src10, src20, element_size),
        encode_riscv_simd_add_spec(dst1, src11, src21, element_size),
        encode_riscv_simd_add_spec(dst2, src12, src22, element_size),
        encode_riscv_simd_add_spec(dst3, src13, src23, element_size),
    )
}

fn encode_riscv_vec256_add(
    dst0: RegId, dst1: RegId, dst2: RegId, dst3: RegId,
    src10: RegId, src11: RegId, src12: RegId, src13: RegId,
    src20: RegId, src21: RegId, src22: RegId, src23: RegId,
    element_size: u8, signed: bool,
) -> (r: Result<Vec<TargetInstruction>, TranslationError>)
    ensures
        outcome_matches(r, encode_riscv_vec256_add_spec(dst0, dst1, dst2, dst3, src10, src11, src12, src13, src20, src21, src22, src23, element_size, signed)),
{
    let ghost a = encode_riscv_simd_add_spec(dst0, src10, src20, element_size);
    let ghost b = encode_riscv_simd_add_spec(dst1, src11, src21, element_size);
    let ghost c = encode_riscv_simd_add_spec(dst2, src12, src22, element_size);
    let ghost d = encode_riscv_simd_add_spec(dst3, src13, src23, element_size);
    let r0 = encode_riscv_simd_add(dst0, src10, src20, element_size);
    let r1 = encode_riscv_simd_add(dst1, src11, src21, element_size);
    let r01 = then_result(r0, r1, Ghost(a), Ghost(b));
    let r2 = encode_riscv_simd_add(dst2, src12, src22, element_size);
    let r012 = then_result(r01, r2, Ghost(then_outcome(a, b)), Ghost(c));
    let r3 = encode_riscv_simd_add(dst3, src13, src23, element_size);
    then_result(r012, r3, Ghost(then_outcome(then_outcome(a, b), c)), Ghost(d))
}

/// A 256-bit operation as four lane operations in order; the first failure wins.
pub open spec fn encode_riscv_vec256_sub_spec(
    dst0: RegId, dst1: RegId, dst2: RegId, dst3: RegId,
    src10: RegId, src11: RegId, src12: RegId, src13: RegId,
    src20: RegId, src21: RegId, src22: RegId, src23: RegId,
    element_size: u8, signed: bool,
) -> EncodeOutcome {
    four_lanes(
        encode_riscv_simd_sub_spec(dst0, src10, src20, element_size),
        encode_riscv_simd_sub_spec(dst1, src11, src21, element_size),
        encode_riscv_simd_sub_spec(dst2, src12, src22, element_size),
        encode_riscv_simd_sub_spec(dst3, src13, src23, element_size),
    )
}

fn encode_riscv_vec256_sub(
    dst0: RegId, dst1: RegId, dst2: RegId, dst3: RegId,
    src10: RegId, src11: RegId, src12: RegId, src13: RegId,
    src20: RegId, src21: RegId, src22: RegId, src23: RegId,
    element_size: u8, signed: bool,
) -> (r: Result<Vec<TargetInstruction>, TranslationError>)
    ensures
        outcome_matches(r, encode_riscv_vec256_sub_spec(dst0, dst1, dst2, dst3, src10, src11, src12, src13, src20, src21, src22, src23, element_size, signed)),
{
    let ghost a = encode_riscv_simd_sub_spec(dst0, src10, src20, element_size);
    let ghost b = encode_riscv_simd_sub_spec(dst1, src11, src21, element_size);
    let ghost c = encode_riscv_simd_sub_spec(dst2, src12, src22, element_size);
    let ghost d = encode_riscv_simd_sub_spec(dst3, src13, src23, element_size);
    let r0 = encode_riscv_simd_sub(dst0, src10, src20, element_size);
    let r1 = encode_riscv_simd_sub(dst1, src11, src21, element_size);
    let r01 = then_result(r0, r1, Ghost(a), Ghost(b));
    let r2 = encode_riscv_simd_sub(dst2, src12, src22, element_size);
    let r012 = then_result(r01, r2, Ghost(then_outcome(a, b)), Ghost(c));
    let r3 = encode_riscv_simd_sub(dst3, src13, src23, element_size);
    then_result(r012, r3, Ghost(then_outcome(then_outcome(a, b), c)), Ghost(d))
}

/// A 256-bit operation as four lane operations in order; the first failure wins.
pub open spec fn encode_riscv_vec256_mul_spec(
    dst0: RegId, dst1: RegId, dst2: RegId, dst3: RegId,
    src10: RegId, src11: RegId, src12: RegId, src13: RegId,
    src20: RegId, src21: RegId, src22: RegId, src23: RegId,
    element_size: u8, signed: bool,
) -> EncodeOutcome {
    four_lanes(
        encode_riscv_simd_mul_spec(dst0, src10, src20, element_size),
        encode_riscv_simd_mul_spec(dst1, src11, src21, element_size),
        encode_riscv_simd_mul_spec(dst2, src12, src22, element_size),
        encode_riscv_simd_mul_spec(dst3, src13, src23, element_size),
    )
}

fn encode_riscv_vec256_mul(
    dst0: RegId, dst1: RegId, dst2: RegId, dst3: RegId,
    src10: RegId, src11: RegId, src12: RegId, src13: RegId,
    src20: RegId, src21: RegId, src22: RegId, src23: RegId,
    element_size: u8, signed: bool,
) -> (r: Result<Vec<TargetInstruction>, TranslationError>)
    ensures
        outcome_matches(r, encode_riscv_vec256_mul_spec(dst0, dst1, dst2, dst3, src10, src11, src12, src13, src20, src21, src22, src23, element_size, signed)),
{
    let ghost a = encode_riscv_simd_mul_spec(dst0, src10, src20, element_size);
    let ghost b = encode_riscv_simd_mul_spec(dst1, src11, src21, element_size);
    let ghost c = encode_riscv_simd_mul_spec(dst2, src12, src22, element_size);
    let ghost d = encode_riscv_simd_mul_spec(dst3, src13, src23, element_size);
    let r0 = encode_riscv_simd_mul(dst0, src10, src20, element_size);
    let r1 = encode_riscv_simd_mul(dst1, src11, src21, element_size);
    let r01 = then_result(r0, r1, Ghost(a), Ghost(b));
    let r2 = encode_riscv_simd_mul(dst2, src12, src22, element_size);
    let r012 = then_result(r01, r2, Ghost(then_outcome(a, b)), Ghost(c));
    let r3 = encode_riscv_simd_mul(dst3, src13, src23, element_size);
    then_result(r012, r3, Ghost(then_outcome(then_outcome(a, b), c)), Ghost(d))
}

// ----- scalar floating-point instructions -----

pub open spec fn encode_riscv_add_spec(dst: RegId, src1: RegId, src2: RegId) -> InsnView {
    word_view(
        0x00000033u32 | (((dst & 0x1Fu32) as u32) << 7u32) | (((src1 & 0x1Fu32) as u32) << 15u32) | (((src2 & 0x1Fu32) as u32) << 20u32),
        "add x"@ + dec(dst as nat) + ", x"@ + dec(src1 as nat) + ", x"@ + dec(src2 as nat),
        false,
    )
}

fn encode_riscv_add(dst: RegId, src1: RegId, src2: RegId) -> (r: TargetInstruction)
    ensures
        r@ == encode_riscv_add_spec(dst, src1, src2),
{
    let mut m = text("add x");
    push_u64(&mut m, dst as u64);
    push_text(&mut m, ", x");
    push_u64(&mut m, src1 as u64);
    push_text(&mut m, ", x");
    push_u64(&mut m, src2 as u64);
    word_insn(0x00000033 | (((dst & 0x1F) as u32) << 7) | (((src1 & 0x1F) as u32) << 15) | (((src2 & 0x1F) as u32) << 20), m, false)
}

pub open spec fn encode_riscv_sub_spec(dst: RegId, src1: RegId, src2: RegId) -> InsnView {
    word_view(
        0x40000033u32 | (((dst & 0x1Fu32) as u32) << 7u32) | (((src1 & 0x1Fu32) as u32) << 15u32) | (((src2 & 0x1Fu32) as u32) << 20u32),
        "sub x"@ + dec(dst as nat) + ", x"@ + dec(src1 as nat) + ", x"@ + dec(src2 as nat),
        false,
    )
}

fn encode_riscv_sub(dst: RegId, src1: RegId, src2: RegId) -> (r: TargetInstruction)
    ensures
        r@ == encode_riscv_sub_spec(dst, src1, src2),
{
    let mut m = text("sub x");
    push_u64(&mut m, dst as u64);
    push_text(&mut m, ", x");
    push_u64(&mut m, src1 as u64);
    push_text(&mut m, ", x");
    push_u64(&mut m, src2 as u64);
    word_insn(0x40000033 | (((dst & 0x1F) as u32) << 7) | (((src1 & 0x1F) as u32) << 15) | (((src2 & 0x1F) as u32) << 20), m, false)
}

pub open spec fn encode_riscv_fadd_spec(dst: RegId, src1: RegId, src2: RegId) -> InsnView {
    word_view(
        0x02000053u32 | (((dst & 0x1Fu32) as u32) << 7u32) | (((src1 & 0x1Fu32) as u32) << 15u32) | (((src2 & 0x1Fu32) as u32) << 20u32) | (0b0000000u32 << 25u32),
        "fadd.d f"@ + dec(dst as nat) + ", f"@ + dec(src1 as nat) + ", f"@ + dec(src2 as nat),
        false,
    )
}

fn encode_riscv_fadd(dst: RegId, src1: RegId, src2: RegId) -> (r: TargetInstruction)
    ensures
        r@ == encode_riscv_fadd_spec(dst, src1, src2),
{
    let mut m = text("fadd.d f");
    push_u64(&mut m, dst as u64);
    push_text(&mut m, ", f");
    push_u64(&mut m, src1 as u64);
    push_text(&mut m, ", f");
    push_u64(&mut m, src2 as u64);
    word_insn(0x02000053 | (((dst & 0x1F) as u32) << 7) | (((src1 & 0x1F) as u32) << 15) | (((src2 & 0x1F) as u32) << 20) | (0b0000000 << 25), m, false)
}

pub open spec fn encode_riscv_fsub_spec(dst: RegId, src1: RegId, src2: RegId) -> InsnView {
    word_view(
        0x0A000053u32 | (((dst & 0x1Fu32) as u32) << 7u32) | (((src1 & 0x1Fu32) as u32) << 15u32) | (((src2 & 0x1Fu32) as u32) << 20u32),
        "fsub.d f"@ + dec(dst as nat) + ", f"@ + dec(src1 as nat) + ", f"@ + dec(src2 as nat),
        false,
    )
}

fn encode_riscv_fsub(dst: RegId, src1: RegId, src2: RegId) -> (r: TargetInstruction)
    ensures
        r@ == encode_riscv_fsub_spec(dst, src1, src2),
{
    let mut m = text("fsub.d f");
    push_u64(&mut m, dst as u64);
    push_text(&mut m, ", f");
    push_u64(&mut m, src1 as u64);
    push_text(&mut m, ", f");
    push_u64(&mut m, src2 as u64);
    word_insn(0x0A000053 | (((dst & 0x1F) as u32) << 7) | (((src1 & 0x1F) as u32) << 15) | (((src2 & 0x1F) as u32) << 20), m, false)
}

pub open spec fn encode_riscv_fmul_spec(dst: RegId, src1: RegId, src2: RegId) -> InsnView {
    word_view(
        0x12000053u32 | (((dst & 0x1Fu32) as u32) << 7u32) | (((src1 & 0x1Fu32) as u32) << 15u32) | (((src2 & 0x1Fu32) as u32) << 20u32),
        "fmul.d f"@ + dec(dst as nat) + ", f"@ + dec(src1 as nat) + ", f"@ + dec(src2 as nat),
        false,
    )
}

fn encode_riscv_fmul(dst: RegId, src1: RegId, src2: RegId) -> (r: TargetInstruction)
    ensures
        r@ == encode_riscv_fmul_spec(dst, src1, src2),
{
    let mut m = text("fmul.d f");
    push_u64(&mut m, dst as u64);
    push_text(&mut m, ", f");
    push_u64(&mut m, src1 as u64);
    push_text(&mut m, ", f");
    push_u64(&mut m, src2 as u64);
    word_insn(0x12000053 | (((dst & 0x1F) as u32) << 7) | (((src1 & 0x1F) as u32) << 15) | (((src2 & 0x1F) as u32) << 20), m, false)
}

pub open spec fn encode_riscv_fdiv_spec(dst: RegId, src1: RegId, src2: RegId) -> InsnView {
    word_view(
        0x1A000053u32 | (((dst & 0x1Fu32) as u32) << 7u32) | (((src1 & 0x1Fu32) as u32) << 15u32) | (((src2 & 0x1Fu32) as u32) << 20u32),
        "fdiv.d f"@ + dec(dst as nat) + ", f"@ + dec(src1 as nat) + ", f"@ + dec(src2 as nat),
        false,
    )
}

fn encode_riscv_fdiv(dst: RegId, src1: RegId, src2: RegId) -> (r: TargetInstruction)
    ensures
        r@ == encode_riscv_fdiv_spec(dst, src1, src2),
{
    let mut m = text("fdiv.d f");
    push_u64(&mut m, dst as u64);
    push_text(&mut m, ", f");
    push_u64(&mut m, src1 as u64);
    push_text(&mut m, ", f");
    push_u64(&mut m, src2 as u64);
    word_insn(0x1A000053 | (((dst & 0x1F) as u32) << 7) | (((src1 & 0x1F) as u32) << 15) | (((src2 & 0x1F) as u32) << 20), m, false)
}

pub open spec fn encode_riscv_fadds_spec(dst: RegId, src1: RegId, src2: RegId) -> InsnView {
    word_view(
        0x00000053u32 | (((dst & 0x1Fu32) as u32) << 7u32) | (((src1 & 0x1Fu32) as u32) << 15u32) | (((src2 & 0x1Fu32) as u32) << 20u32),
        "fadd.s f"@ + dec(dst as nat) + ", f"@ + dec(src1 as nat) + ", f"@ + dec(src2 as nat),
        false,
    )
}

fn encode_riscv_fadds(dst: RegId, src1: RegId, src2: RegId) -> (r: TargetInstruction)
    ensures
        r@ == encode_riscv_fadds_spec(dst, src1, src2),
{
    let mut m = text("fadd.s f");
    push_u64(&mut m, dst as u64);
    push_text(&mut m, ", f");
    push_u64(&mut m, src1 as u64);
    push_text(&mut m, ", f");
    push_u64(&mut m, src2 as u64);
    word_insn(0x00000053 | (((dst & 0x1F) as u32) << 7) | (((src1 & 0x1F) as u32) << 15) | (((src2 & 0x1F) as u32) << 20), m, false)
}

pub open spec fn encode_riscv_fsubs_spec(dst: RegId, src1: RegId, src2: RegId) -> InsnView {
    word_view(
        0x08000053u32 | (((dst & 0x1Fu32) as u32) << 7u32) | (((src1 & 0x1Fu32) as u32) << 15u32) | (((src2 & 0x1Fu32) as u32) << 20u32),
        "fsub.s f"@ + dec(dst as nat) + ", f"@ + dec(src1 as nat) + ", f"@ + dec(src2 as nat),
        false,
    )
}

fn encode_riscv_fsubs(dst: RegId, src1: RegId, src2: RegId) -> (r: TargetInstruction)
    ensures
        r@ == encode_riscv_fsubs_spec(dst, src1, src2),
{
    let mut m = text("fsub.s f");
    push_u64(&mut m, dst as u64);
    push_text(&mut m, ", f");
    push_u64(&mut m, src1 as u64);
    push_text(&mut m, ", f");
    push_u64(&mut m, src2 as u64);
    word_insn(0x08000053 | (((dst & 0x1F) as u32) << 7) | (((src1 & 0x1F) as u32) << 15) | (((src2 & 0x1F) as u32) << 20), m, false)
}

pub open spec fn encode_riscv_fmuls_spec(dst: RegId, src1: RegId, src2: RegId) -> InsnView {
    word_view(
        0x10000053u32 | (((dst & 0x1Fu32) as u32) << 7u32) | (((src1 & 0x1Fu32) as u32) << 15u32) | (((src2 & 0x1Fu32) as u32) << 20u32),
        "fmul.s f"@ + dec(dst as nat) + ", f"@ + dec(src1 as nat) + ", f"@ + dec(src2 as nat),
        false,
    )
}

fn encode_riscv_fmuls(dst: RegId, src1: RegId, src2: RegId) -> (r: TargetInstruction)
    ensures
        r@ == encode_riscv_fmuls_spec(dst, src1, src2),
{
    let mut m = text("fmul.s f");
    push_u64(&mut m, dst as u64);
    push_text(&mut m, ", f");
    push_u64(&mut m, src1 as u64);
    push_text(&mut m, ", f");
    push_u64(&mut m, src2 as u64);
    word_insn(0x10000053 | (((dst & 0x1F) as u32) << 7) | (((src1 & 0x1F) as u32) << 15) | (((src2 & 0x1F) as u32) << 20), m, false)
}

pub open spec fn encode_riscv_fdivs_spec(dst: RegId, src1: RegId, src2: RegId) -> InsnView {
    word_view(
        0x18000053u32 | (((dst & 0x1Fu32) as u32) << 7u32) | (((src1 & 0x1Fu32) as u32) << 15u32) | (((src2 & 0x1Fu32) as u32) << 20u32),
        "fdiv.s f"@ + dec(dst as nat) + ", f"@ + dec(src1 as nat) + ", f"@ + dec(src2 as nat),
        false,
    )
}

fn encode_riscv_fdivs(dst: RegId, src1: RegId, src2: RegId) -> (r: TargetInstruction)
    ensures
        r@ == encode_riscv_fdivs_spec(dst, src1, src2),
{
    let mut m = text("fdiv.s f");
    push_u64(&mut m, dst as u64);
    push_text(&mut m, ", f");
    push_u64(&mut m, src1 as u64);
    push_text(&mut m, ", f");
    push_u64(&mut m, src2 as u64);
    word_insn(0x18000053 | (((dst & 0x1F) as u32) << 7) | (((src1 & 0x1F) as u32) << 15) | (((src2 & 0x1F) as u32) << 20), m, false)
}

pub open spec fn encode_riscv_fsqrt_spec(dst: RegId, src: RegId) -> InsnView {
    word_view(
        0x5A000053u32 | (((dst & 0x1Fu32) as u32) << 7u32) | (((src & 0x1Fu32) as u32) << 15u32),
        "fsqrt.d f"@ + dec(dst as nat) + ", f"@ + dec(src as nat),
        false,
    )
}

fn encode_riscv_fsqrt(dst: RegId, src: RegId) -> (r: TargetInstruction)
    ensures
        r@ == encode_riscv_fsqrt_spec(dst, src),
{
    let mut m = text("fsqrt.d f");
    push_u64(&mut m, dst as u64);
    push_text(&mut m, ", f");
    push_u64(&mut m, src as u64);
    word_insn(0x5A000053 | (((dst & 0x1F) as u32) << 7) | (((src & 0x1F) as u32) << 15), m, false)
}

pub open spec fn encode_riscv_fsqrts_spec(dst: RegId, src: RegId) -> InsnView {
    word_view(
        0x58000053u32 | (((dst & 0x1Fu32) as u32) << 7u32) | (((src & 0x1Fu32) as u32) << 15u32),
        "fsqrt.s f"@ + dec(dst as nat) + ", f"@ + dec(src as nat),
        false,
    )
}

fn encode_riscv_fsqrts(dst: RegId, src: RegId) -> (r: TargetInstruction)
    ensures
        r@ == encode_riscv_fsqrts_spec(dst, src),
{
    let mut m = text("fsqrt.s f");
    push_u64(&mut m, dst as u64);
    push_text(&mut m, ", f");
    push_u64(&mut m, src as u64);
    word_insn(0x58000053 | (((dst & 0x1F) as u32) << 7) | (((src & 0x1F) as u32) << 15), m, false)
}

pub open spec fn encode_riscv_fmadd_spec(dst: RegId, src1: RegId, src2: RegId, src3: RegId) -> InsnView {
    word_view(
        0x02000043u32 | (((dst & 0x1Fu32) as u32) << 7u32) | (((src1 & 0x1Fu32) as u32) << 15u32) | (((src2 & 0x1Fu32) as u32) << 20u32) | (((src3 & 0x1Fu32) as u32) << 27u32),
        "fmadd.d f"@ + dec(dst as nat) + ", f"@ + dec(src1 as nat) + ", f"@ + dec(src2 as nat) + ", f"@ + dec(src3 as nat),
        false,
    )
}

fn encode_riscv_fmadd(dst: RegId, src1: RegId, src2: RegId, src3: RegId) -> (r: TargetInstruction)
    ensures
        r@ == encode_riscv_fmadd_spec(dst, src1, src2, src3),
{
    let mut m = text("fmadd.d f");
    push_u64(&mut m, dst as u64);
    push_text(&mut m, ", f");
    push_u64(&mut m, src1 as u64);
    push_text(&mut m, ", f");
    push_u64(&mut m, src2 as u64);
    push_text(&mut m, ", f");
    push_u64(&mut m, src3 as u64);
    word_insn(0x02000043 | (((dst & 0x1F) as u32) << 7) | (((src1 & 0x1F) as u32) << 15) | (((src2 & 0x1F) as u32) << 20) | (((src3 & 0x1F) as u32) << 27), m, false)
}

pub open spec fn encode_riscv_fmsub_spec(dst: RegId, src1: RegId, src2: RegId, src3: RegId) -> InsnView {
    word_view(
        0x02000047u32 | (((dst & 0x1Fu32) as u32) << 7u32) | (((src1 & 0x1Fu32) as u32) << 15u32) | (((src2 & 0x1Fu32) as u32) << 20u32) | (((src3 & 0x1Fu32) as u32) << 27u32),
        "fmsub.d f"@ + dec(dst as nat) + ", f"@ + dec(src1 as nat) + ", f"@ + dec(src2 as nat) + ", f"@ + dec(src3 as nat),
        false,
    )
}

fn encode_riscv_fmsub(dst: RegId, src1: RegId, src2: RegId, src3: RegId) -> (r: TargetInstruction)
    ensures
        r@ == encode_riscv_fmsub_spec(dst, src1, src2, src3),
{
    let mut m = text("fmsub.d f");
    push_u64(&mut m, dst as u64);
    push_text(&mut m, ", f");
    push_u64(&mut m, src1 as u64);
    push_text(&mut m, ", f");
    push_u64(&mut m, src2 as u64);
    push_text(&mut m, ", f");
    push_u64(&mut m, src3 as u64);
    word_insn(0x02000047 | (((dst & 0x1F) as u32) << 7) | (((src1 & 0x1F) as u32) << 15) | (((src2 & 0x1F) as u32) << 20) | (((src3 & 0x1F) as u32) << 27), m, false)
}

pub open spec fn encode_riscv_fnmadd_spec(dst: RegId, src1: RegId, src2: RegId, src3: RegId) -> InsnView {
    word_view(
        0x0200004Fu32 | (((dst & 0x1Fu32) as u32) << 7u32) | (((src1 & 0x1Fu32) as u32) << 15u32) | (((src2 & 0x1Fu32) as u32) << 20u32) | (((src3 & 0x1Fu32) as u32) << 27u32),
        "fnmadd.d f"@ + dec(dst as nat) + ", f"@ + dec(src1 as nat) + ", f"@ + dec(src2 as nat) + ", f"@ + dec(src3 as nat),
        false,
    )
}

fn encode_riscv_fnmadd(dst: RegId, src1: RegId, src2: RegId, src3: RegId) -> (r: TargetInstruction)
    ensures
        r@ == encode_riscv_fnmadd_spec(dst, src1, src2, src3),
{
    let mut m = text("fnmadd.d f");
    push_u64(&mut m, dst as u64);
    push_text(&mut m, ", f");
    push_u64(&mut m, src1 as u64);
    push_text(&mut m, ", f");
    push_u64(&mut m, src2 as u64);
    push_text(&mut m, ", f");
    push_u64(&mut m, src3 as u64);
    word_insn(0x0200004F | (((dst & 0x1F) as u32) << 7) | (((src1 & 0x1F) as u32) << 15) | (((src2 & 0x1F) as u32) << 20) | (((src3 & 0x1F) as u32) << 27), m, false)
}

pub open spec fn encode_riscv_fnmsub_spec(dst: RegId, src1: RegId, src2: RegId, src3: RegId) -> InsnView {
    word_view(
        0x0200004Bu32 | (((dst & 0x1Fu32) as u32) << 7u32) | (((src1 & 0x1Fu32) as u32) << 15u32) | (((src2 & 0x1Fu32) as u32) << 20u32) | (((src3 & 0x1Fu32) as u32) << 27u32),
        "fnmsub.d f"@ + dec(dst as nat) + ", f"@ + dec(src1 as nat) + ", f"@ + dec(src2 as nat) + ", f"@ + dec(src3 as nat),
        false,
    )
}

fn encode_riscv_fnmsub(dst: RegId, src1: RegId, src2: RegId, src3: RegId) -> (r: TargetInstruction)
    ensures
        r@ == encode_riscv_fnmsub_spec(dst, src1, src2, src3),
{
    let mut m = text("fnmsub.d f");
    push_u64(&mut m, dst as u64);
    push_text(&mut m, ", f");
    push_u64(&mut m, src1 as u64);
    push_text(&mut m, ", f");
    push_u64(&mut m, src2 as u64);
    push_text(&mut m, ", f");
    push_u64(&mut m, src3 as u64);
    word_insn(0x0200004B | (((dst & 0x1F) as u32) << 7) | (((src1 & 0x1F) as u32) << 15) | (((src2 & 0x1F) as u32) << 20) | (((src3 & 0x1F) as u32) << 27), m, false)
}

pub open spec fn encode_riscv_fmadds_spec(dst: RegId, src1: RegId, src2: RegId, src3: RegId) -> InsnView {
    word_view(
        0x00000043u32 | (((dst & 0x1Fu32) as u32) << 7u32) | (((src1 & 0x1Fu32) as u32) << 15u32) | (((src2 & 0x1Fu32) as u32) << 20u32) | (((src3 & 0x1Fu32) as u32) << 27u32),
        "fmadd.s f"@ + dec(dst as nat) + ", f"@ + dec(src1 as nat) + ", f"@ + dec(src2 as nat) + ", f"@ + dec(src3 as nat),
        false,
    )
}

fn encode_riscv_fmadds(dst: RegId, src1: RegId, src2: RegId, src3: RegId) -> (r: TargetInstruction)
    ensures
        r@ == encode_riscv_fmadds_spec(dst, src1, src2, src3),
{
    let mut m = text("fmadd.s f");
    push_u64(&mut m, dst as u64);
    push_text(&mut m, ", f");
    push_u64(&mut m, src1 as u64);
    push_text(&mut m, ", f");
    push_u64(&mut m, src2 as u64);
    push_text(&mut m, ", f");
    push_u64(&mut m, src3 as u64);
    word_insn(0x00000043 | (((dst & 0x1F) as u32) << 7) | (((src1 & 0x1F) as u32) << 15) | (((src2 & 0x1F) as u32) << 20) | (((src3 & 0x1F) as u32) << 27), m, false)
}

pub open spec fn encode_riscv_fmsubs_spec(dst: RegId, src1: RegId, src2: RegId, src3: RegId) -> InsnView {
    word_view(
        0x00000047u32 | (((dst & 0x1Fu32) as u32) << 7u32) | (((src1 & 0x1Fu32) as u32) << 15u32) | (((src2 & 0x1Fu32) as u32) << 20u32) | (((src3 & 0x1Fu32) as u32) << 27u32),
        "fmsub.s f"@ + dec(dst as nat) + ", f"@ + dec(src1 as nat) + ", f"@ + dec(src2 as nat) + ", f"@ + dec(src3 as nat),
        false,
    )
}

fn encode_riscv_fmsubs(dst: RegId, src1: RegId, src2: RegId, src3: RegId) -> (r: TargetInstruction)
    ensures
        r@ == encode_riscv_fmsubs_spec(dst, src1, src2, src3),
{
    let mut m = text("fmsub.s f");
    push_u64(&mut m, dst as u64);
    push_text(&mut m, ", f");
    push_u64(&mut m, src1 as u64);
    push_text(&mut m, ", f");
    push_u64(&mut m, src2 as u64);
    push_text(&mut m, ", f");
    push_u64(&mut m, src3 as u64);
    word_insn(0x00000047 | (((dst & 0x1F) as u32) << 7) | (((src1 & 0x1F) as u32) << 15) | (((src2 & 0x1F) as u32) << 20) | (((src3 & 0x1F) as u32) << 27), m, false)
}

pub open spec fn encode_riscv_fnmadds_spec(dst: RegId, src1: RegId, src2: RegId, src3: RegId) -> InsnView {
    word_view(
        0x0000004Fu32 | (((dst & 0x1Fu32) as u32) << 7u32) | (((src1 & 0x1Fu32) as u32) << 15u32) | (((src2 & 0x1Fu32) as u32) << 20u32) | (((src3 & 0x1Fu32) as u32) << 27u32),
        "fnmadd.s f"@ + dec(dst as nat) + ", f"@ + dec(src1 as nat) + ", f"@ + dec(src2 as nat) + ", f"@ + dec(src3 as nat),
        false,
    )
}

fn encode_riscv_fnmadds(dst: RegId, src1: RegId, src2: RegId, src3: RegId) -> (r: TargetInstruction)
    ensures
        r@ == encode_riscv_fnmadds_spec(dst, src1, src2, src3),
{
    let mut m = text("fnmadd.s f");
    push_u64(&mut m, dst as u64);
    push_text(&mut m, ", f");
    push_u64(&mut m, src1 as u64);
    push_text(&mut m, ", f");
    push_u64(&mut m, src2 as u64);
    push_text(&mut m, ", f");
    push_u64(&mut m, src3 as u64);
    word_insn(0x0000004F | (((dst & 0x1F) as u32) << 7) | (((src1 & 0x1F) as u32) << 15) | (((src2 & 0x1F) as u32) << 20) | (((src3 & 0x1F) as u32) << 27), m, false)
}

pub open spec fn encode_riscv_fnmsubs_spec(dst: RegId, src1: RegId, src2: RegId, src3: RegId) -> InsnView {
    word_view(
        0x0000004Bu32 | (((dst & 0x1Fu32) as u32) << 7u32) | (((src1 & 0x1Fu32) as u32) << 15u32) | (((src2 & 0x1Fu32) as u32) << 20u32) | (((src3 & 0x1Fu32) as u32) << 27u32),
        "fnmsub.s f"@ + dec(dst as nat) + ", f"@ + dec(src1 as nat) + ", f"@ + dec(src2 as nat) + ", f"@ + dec(src3 as nat),
        false,
    )
}

fn encode_riscv_fnmsubs(dst: RegId, src1: RegId, src2: RegId, src3: RegId) -> (r: TargetInstruction)
    ensures
        r@ == encode_riscv_fnmsubs_spec(dst, src1, src2, src3),
{
    let mut m = text("fnmsub.s f");
    push_u64(&mut m, dst as u64);
    push_text(&mut m, ", f");
    push_u64(&mut m, src1 as u64);
    push_text(&mut m, ", f");
    push_u64(&mut m, src2 as u64);
    push_text(&mut m, ", f");
    push_u64(&mut m, src3 as u64);
    word_insn(0x0000004B | (((dst & 0x1F) as u32) << 7) | (((src1 & 0x1F) as u32) << 15) | (((src2 & 0x1F) as u32) << 20) | (((src3 & 0x1F) as u32) << 27), m, false)
}

pub open spec fn encode_riscv_feq_spec(dst: RegId, src1: RegId, src2: RegId) -> InsnView {
    word_view(
        0xA2002053u32 | (((dst & 0x1Fu32) as u32) << 7u32) | (((src1 & 0x1Fu32) as u32) << 15u32) | (((src2 & 0x1Fu32) as u32) << 20u32),
        "feq.d x"@ + dec(dst as nat) + ", f"@ + dec(src1 as nat) + ", f"@ + dec(src2 as nat),
        false,
    )
}

fn encode_riscv_feq(dst: RegId, src1: RegId, src2: RegId) -> (r: TargetInstruction)
    ensures
        r@ == encode_riscv_feq_spec(dst, src1, src2),
{
    let mut m = text("feq.d x");
    push_u64(&mut m, dst as u64);
    push_text(&mut m, ", f");
    push_u64(&mut m, src1 as u64);
    push_text(&mut m, ", f");
    push_u64(&mut m, src2 as u64);
    word_insn(0xA2002053 | (((dst & 0x1F) as u32) << 7) | (((src1 & 0x1F) as u32) << 15) | (((src2 & 0x1F) as u32) << 20), m, false)
}

pub open spec fn encode_riscv_flt_spec(dst: RegId, src1: RegId, src2: RegId) -> InsnView {
    word_view(
        0xA2001053u32 | (((dst & 0x1Fu32) as u32) << 7u32) | (((src1 & 0x1Fu32) as u32) << 15u32) | (((src2 & 0x1Fu32) as u32) << 20u32),
        "flt.d x"@ + dec(dst as nat) + ", f"@ + dec(src1 as nat) + ", f"@ + dec(src2 as nat),
        false,
    )
}

fn encode_riscv_flt(dst: RegId, src1: RegId, src2: RegId) -> (r: TargetInstruction)
    ensures
        r@ == encode_riscv_flt_spec(dst, src1, src2),
{
    let mut m = text("flt.d x");
    push_u64(&mut m, dst as u64);
    push_text(&mut m, ", f");
    push_u64(&mut m, src1 as u64);
    push_text(&mut m, ", f");
    push_u64(&mut m, src2 as u64);
    word_insn(0xA2001053 | (((dst & 0x1F) as u32) << 7) | (((src1 & 0x1F) as u32) << 15) | (((src2 & 0x1F) as u32) << 20), m, false)
}

pub open spec fn encode_riscv_fle_spec(dst: RegId, src1: RegId, src2: RegId) -> InsnView {
    word_view(
        0xA2000053u32 | (((dst & 0x1Fu32) as u32) << 7u32) | (((src1 & 0x1Fu32) as u32) << 15u32) | (((src2 & 0x1Fu32) as u32) << 20u32),
        "fle.d x"@ + dec(dst as nat) + ", f"@ + dec(src1 as nat) + ", f"@ + dec(src2 as nat),
        false,
    )
}

fn encode_riscv_fle(dst: RegId, src1: RegId, src2: RegId) -> (r: TargetInstruction)
    ensures
        r@ == encode_riscv_fle_spec(dst, src1, src2),
{
    let mut m = text("fle.d x");
    push_u64(&mut m, dst as u64);
    push_text(&mut m, ", f");
    push_u64(&mut m, src1 as u64);
    push_text(&mut m, ", f");
    push_u64(&mut m, src2 as u64);
    word_insn(0xA2000053 | (((dst & 0x1F) as u32) << 7) | (((src1 & 0x1F) as u32) << 15) | (((src2 & 0x1F) as u32) << 20), m, false)
}

pub open spec fn encode_riscv_feqs_spec(dst: RegId, src1: RegId, src2: RegId) -> InsnView {
    word_view(
        0xA0002053u32 | (((dst & 0x1Fu32) as u32) << 7u32) | (((src1 & 0x1Fu32) as u32) << 15u32) | (((src2 & 0x1Fu32) as u32) << 20u32),
        "feq.s x"@ + dec(dst as nat) + ", f"@ + dec(src1 as nat) + ", f"@ + dec(src2 as nat),
        false,
    )
}

fn encode_riscv_feqs(dst: RegId, src1: RegId, src2: RegId) -> (r: TargetInstruction)
    ensures
        r@ == encode_riscv_feqs_spec(dst, src1, src2),
{
    let mut m = text("feq.s x");
    push_u64(&mut m, dst as u64);
    push_text(&mut m, ", f");
    push_u64(&mut m, src1 as u64);
    push_text(&mut m, ", f");
    push_u64(&mut m, src2 as u64);
    word_insn(0xA0002053 | (((dst & 0x1F) as u32) << 7) | (((src1 & 0x1F) as u32) << 15) | (((src2 & 0x1F) as u32) << 20), m, false)
}

pub open spec fn encode_riscv_flts_spec(dst: RegId, src1: RegId, src2: RegId) -> InsnView {
    word_view(
        0xA0001053u32 | (((dst & 0x1Fu32) as u32) << 7u32) | (((src1 & 0x1Fu32) as u32) << 15u32) | (((src2 & 0x1Fu32) as u32) << 20u32),
        "flt.s x"@ + dec(dst as nat) + ", f"@ + dec(src1 as nat) + ", f"@ + dec(src2 as nat),
        false,
    )
}

fn encode_riscv_flts(dst: RegId, src1: RegId, src2: RegId) -> (r: TargetInstruction)
    ensures
        r@ == encode_riscv_flts_spec(dst, src1, src2),
{
    let mut m = text("flt.s x");
    push_u64(&mut m, dst as u64);
    push_text(&mut m, ", f");
    push_u64(&mut m, src1 as u64);
    push_text(&mut m, ", f");
    push_u64(&mut m, src2 as u64);
    word_insn(0xA0001053 | (((dst & 0x1F) as u32) << 7) | (((src1 & 0x1F) as u32) << 15) | (((src2 & 0x1F) as u32) << 20), m, false)
}

pub open spec fn encode_riscv_fles_spec(dst: RegId, src1: RegId, src2: RegId) -> InsnView {
    word_view(
        0xA0000053u32 | (((dst & 0x1Fu32) as u32) << 7u32) | (((src1 & 0x1Fu32) as u32) << 15u32) | (((src2 & 0x1Fu32) as u32) << 20u32),
        "fle.s x"@ + dec(dst as nat) + ", f"@ + dec(src1 as nat) + ", f"@ + dec(src2 as nat),
        false,
    )
}

fn encode_riscv_fles(dst: RegId, src1: RegId, src2: RegId) -> (r: TargetInstruction)
    ensures
        r@ == encode_riscv_fles_spec(dst, src1, src2),
{
    let mut m = text("fle.s x");
    push_u64(&mut m, dst as u64);
    push_text(&mut m, ", f");
    push_u64(&mut m, src1 as u64);
    push_text(&mut m, ", f");
    push_u64(&mut m, src2 as u64);
    word_insn(0xA0000053 | (((dst & 0x1F) as u32) << 7) | (((src1 & 0x1F) as u32) << 15) | (((src2 & 0x1F) as u32) << 20), m, false)
}

pub open spec fn encode_riscv_fmin_spec(dst: RegId, src1: RegId, src2: RegId) -> InsnView {
    word_view(
        0x2A000053u32 | (((dst & 0x1Fu32) as u32) << 7u32) | (((src1 & 0x1Fu32) as u32) << 15u32) | (((src2 & 0x1Fu32) as u32) << 20u32),
        "fmin.d f"@ + dec(dst as nat) + ", f"@ + dec(src1 as nat) + ", f"@ + dec(src2 as nat),
        false,
    )
}

fn encode_riscv_fmin(dst: RegId, src1: RegId, src2: RegId) -> (r: TargetInstruction)
    ensures
        r@ == encode_riscv_fmin_spec(dst, src1, src2),
{
    let mut m = text("fmin.d f");
    push_u64(&mut m, dst as u64);
    push_text(&mut m, ", f");
    push_u64(&mut m, src1 as u64);
    push_text(&mut m, ", f");
    push_u64(&mut m, src2 as u64);
    word_insn(0x2A000053 | (((dst & 0x1F) as u32) << 7) | (((src1 & 0x1F) as u32) << 15) | (((src2 & 0x1F) as u32) << 20), m, false)
}

pub open spec fn encode_riscv_fmax_spec(dst: RegId, src1: RegId, src2: RegId) -> InsnView {
    word_view(
        0x2A000053u32 | (((dst & 0x1Fu32) as u32) << 7u32) | (((src1 & 0x1Fu32) as u32) << 15u32) | (((src2 & 0x1Fu32) as u32) << 20u32) | (1u32 << 12u32),
        "fmax.d f"@ + dec(dst as nat) + ", f"@ + dec(src1 as nat) + ", f"@ + dec(src2 as nat),
        false,
    )
}

fn encode_riscv_fmax(dst: RegId, src1: RegId, src2: RegId) -> (r: TargetInstruction)
    ensures
        r@ == encode_riscv_fmax_spec(dst, src1, src2),
{
    let mut m = text("fmax.d f");
    push_u64(&mut m, dst as u64);
    push_text(&mut m, ", f");
    push_u64(&mut m, src1 as u64);
    push_text(&mut m, ", f");
    push_u64(&mut m, src2 as u64);
    word_insn(0x2A000053 | (((dst & 0x1F) as u32) << 7) | (((src1 & 0x1F) as u32) << 15) | (((src2 & 0x1F) as u32) << 20) | (1 << 12), m, false)
}

pub open spec fn encode_riscv_fmins_spec(dst: RegId, src1: RegId, src2: RegId) -> InsnView {
    word_view(
        0x28000053u32 | (((dst & 0x1Fu32) as u32) << 7u32) | (((src1 & 0x1Fu32) as u32) << 15u32) | (((src2 & 0x1Fu32) as u32) << 20u32),
        "fmin.s f"@ + dec(dst as nat) + ", f"@ + dec(src1 as nat) + ", f"@ + dec(src2 as nat),
        false,
    )
}

fn encode_riscv_fmins(dst: RegId, src1: RegId, src2: RegId) -> (r: TargetInstruction)
    ensures
        r@ == encode_riscv_fmins_spec(dst, src1, src2),
{
    let mut m = text("fmin.s f");
    push_u64(&mut m, dst as u64);
    push_text(&mut m, ", f");
    push_u64(&mut m, src1 as u64);
    push_text(&mut m, ", f");
    push_u64(&mut m, src2 as u64);
    word_insn(0x28000053 | (((dst & 0x1F) as u32) << 7) | (((src1 & 0x1F) as u32) << 15) | (((src2 & 0x1F) as u32) << 20), m, false)
}

pub open spec fn encode_riscv_fmaxs_spec(dst: RegId, src1: RegId, src2: RegId) -> InsnView {
    word_view(
        0x28000053u32 | (((dst & 0x1Fu32) as u32) << 7u32) | (((src1 & 0x1Fu32) as u32) << 15u32) | (((src2 & 0x1Fu32) as u32) << 20u32) | (1u32 << 12u32),
        "fmax.s f"@ + dec(dst as nat) + ", f"@ + dec(src1 as nat) + ", f"@ + dec(src2 as nat),
        false,
    )
}

fn encode_riscv_fmaxs(dst: RegId, src1: RegId, src2: RegId) -> (r: TargetInstruction)
    ensures
        r@ == encode_riscv_fmaxs_spec(dst, src1, src2),
{
    let mut m = text("fmax.s f");
    push_u64(&mut m, dst as u64);
    push_text(&mut m, ", f");
    push_u64(&mut m, src1 as u64);
    push_text(&mut m, ", f");
    push_u64(&mut m, src2 as u64);
    word_insn(0x28000053 | (((dst & 0x1F) as u32) << 7) | (((src1 & 0x1F) as u32) << 15) | (((src2 & 0x1F) as u32) << 20) | (1 << 12), m, false)
}

pub open spec fn encode_riscv_fabs_spec(dst: RegId, src: RegId) -> InsnView {
    word_view(
        0x22000053u32 | (((dst & 0x1Fu32) as u32) << 7u32) | (((src & 0x1Fu32) as u32) << 15u32) | (((src & 0x1Fu32) as u32) << 20u32) | (1u32 << 12u32),
        "fsgnjx.d f"@ + dec(dst as nat) + ", f"@ + dec(src as nat) + ", f"@ + dec(src as nat),
        false,
    )
}

fn encode_riscv_fabs(dst: RegId, src: RegId) -> (r: TargetInstruction)
    ensures
        r@ == encode_riscv_fabs_spec(dst, src),
{
    let mut m = text("fsgnjx.d f");
    push_u64(&mut m, dst as u64);
    push_text(&mut m, ", f");
    push_u64(&mut m, src as u64);
    push_text(&mut m, ", f");
    push_u64(&mut m, src as u64);
    word_insn(0x22000053 | (((dst & 0x1F) as u32) << 7) | (((src & 0x1F) as u32) << 15) | (((src & 0x1F) as u32) << 20) | (1 << 12), m, false)
}

pub open spec fn encode_riscv_fneg_spec(dst: RegId, src: RegId) -> InsnView {
    word_view(
        0x22000053u32 | (((dst & 0x1Fu32) as u32) << 7u32) | (((src & 0x1Fu32) as u32) << 15u32) | (((src & 0x1Fu32) as u32) << 20u32) | (2u32 << 12u32),
        "fsgnjn.d f"@ + dec(dst as nat) + ", f"@ + dec(src as nat) + ", f"@ + dec(src as nat),
        false,
    )
}

fn encode_riscv_fneg(dst: RegId, src: RegId) -> (r: TargetInstruction)
    ensures
        r@ == encode_riscv_fneg_spec(dst, src),
{
    let mut m = text("fsgnjn.d f");
    push_u64(&mut m, dst as u64);
    push_text(&mut m, ", f");
    push_u64(&mut m, src as u64);
    push_text(&mut m, ", f");
    push_u64(&mut m, src as u64);
    word_insn(0x22000053 | (((dst & 0x1F) as u32) << 7) | (((src & 0x1F) as u32) << 15) | (((src & 0x1F) as u32) << 20) | (2 << 12), m, false)
}

pub open spec fn encode_riscv_fabss_spec(dst: RegId, src: RegId) -> InsnView {
    word_view(
        0x20000053u32 | (((dst & 0x1Fu32) as u32) << 7u32) | (((src & 0x1Fu32) as u32) << 15u32) | (((src & 0x1Fu32) as u32) << 20u32) | (1u32 << 12u32),
        "fsgnjx.s f"@ + dec(dst as nat) + ", f"@ + dec(src as nat) + ", f"@ + dec(src as nat),
        false,
    )
}

fn encode_riscv_fabss(dst: RegId, src: RegId) -> (r: TargetInstruction)
    ensures
        r@ == encode_riscv_fabss_spec(dst, src),
{
    let mut m = text("fsgnjx.s f");
    push_u64(&mut m, dst as u64);
    push_text(&mut m, ", f");
    push_u64(&mut m, src as u64);
    push_text(&mut m, ", f");
    push_u64(&mut m, src as u64);
    word_insn(0x20000053 | (((dst & 0x1F) as u32) << 7) | (((src & 0x1F) as u32) << 15) | (((src & 0x1F) as u32) << 20) | (1 << 12), m, false)
}

pub open spec fn encode_riscv_fnegs_spec(dst: RegId, src: RegId) -> InsnView {
    word_view(
        0x20000053u32 | (((dst & 0x1Fu32) as u32) << 7u32) | (((src & 0x1Fu32) as u32) << 15u32) | (((src & 0x1Fu32) as u32) << 20u32) | (2u32 << 12u32),
        "fsgnjn.s f"@ + dec(dst as nat) + ", f"@ + dec(src as nat) + ", f"@ + dec(src as nat),
        false,
    )
}

fn encode_riscv_fnegs(dst: RegId, src: RegId) -> (r: TargetInstruction)
    ensures
        r@ == encode_riscv_fnegs_spec(dst, src),
{
    let mut m = text("fsgnjn.s f");
    push_u64(&mut m, dst as u64);
    push_text(&mut m, ", f");
    push_u64(&mut m, src as u64);
    push_text(&mut m, ", f");
    push_u64(&mut m, src as u64);
    word_insn(0x20000053 | (((dst & 0x1F) as u32) << 7) | (((src & 0x1F) as u32) << 15) | (((src & 0x1F) as u32) << 20) | (2 << 12), m, false)
}

pub open spec fn encode_riscv_fcvtws_spec(dst: RegId, src: RegId) -> InsnView {
    word_view(
        0xC0000053u32 | (((dst & 0x1Fu32) as u32) << 7u32) | (((src & 0x1Fu32) as u32) << 15u32),
        "fcvt.w.s x"@ + dec(dst as nat) + ", f"@ + dec(src as nat),
        false,
    )
}

fn encode_riscv_fcvtws(dst: RegId, src: RegId) -> (r: TargetInstruction)
    ensures
        r@ == encode_riscv_fcvtws_spec(dst, src),
{
    let mut m = text("fcvt.w.s x");
    push_u64(&mut m, dst as u64);
    push_text(&mut m, ", f");
    push_u64(&mut m, src as u64);
    word_insn(0xC0000053 | (((dst & 0x1F) as u32) << 7) | (((src & 0x1F) as u32) << 15), m, false)
}

pub open spec fn encode_riscv_fcvtsw_spec(dst: RegId, src: RegId) -> InsnView {
    word_view(
        0xD0000053u32 | (((dst & 0x1Fu32) as u32) << 7u32) | (((src & 0x1Fu32) as u32) << 15u32),
        "fcvt.s.w f"@ + dec(dst as nat) + ", x"@ + dec(src as nat),
        false,
    )
}

fn encode_riscv_fcvtsw(dst: RegId, src: RegId) -> (r: TargetInstruction)
    ensures
        r@ == encode_riscv_fcvtsw_spec(dst, src),
{
    let mut m = text("fcvt.s.w f");
    push_u64(&mut m, dst as u64);
    push_text(&mut m, ", x");
    push_u64(&mut m, src as u64);
    word_insn(0xD0000053 | (((dst & 0x1F) as u32) << 7) | (((src & 0x1F) as u32) << 15), m, false)
}

pub open spec fn encode_riscv_fcvtld_spec(dst: RegId, src: RegId) -> InsnView {
    word_view(
        0xC2000053u32 | (((dst & 0x1Fu32) as u32) << 7u32) | (((src & 0x1Fu32) as u32) << 15u32),
        "fcvt.l.d x"@ + dec(dst as nat) + ", f"@ + dec(src as nat),
        false,
    )
}

fn encode_riscv_fcvtld(dst: RegId, src: RegId) -> (r: TargetInstruction)
    ensures
        r@ == encode_riscv_fcvtld_spec(dst, src),
{
    let mut m = text("fcvt.l.d x");
    push_u64(&mut m, dst as u64);
    push_text(&mut m, ", f");
    push_u64(&mut m, src as u64);
    word_insn(0xC2000053 | (((dst & 0x1F) as u32) << 7) | (((src & 0x1F) as u32) << 15), m, false)
}

pub open spec fn encode_riscv_fcvtdl_spec(dst: RegId, src: RegId) -> InsnView {
    word_view(
        0xD2000053u32 | (((dst & 0x1Fu32) as u32) << 7u32) | (((src & 0x1Fu32) as u32) << 15u32),
        "fcvt.d.l f"@ + dec(dst as nat) + ", x"@ + dec(src as nat),
        false,
    )
}

fn encode_riscv_fcvtdl(dst: RegId, src: RegId) -> (r: TargetInstruction)
    ensures
        r@ == encode_riscv_fcvtdl_spec(dst, src),
{
    let mut m = text("fcvt.d.l f");
    push_u64(&mut m, dst as u64);
    push_text(&mut m, ", x");
    push_u64(&mut m, src as u64);
    word_insn(0xD2000053 | (((dst & 0x1F) as u32) << 7) | (((src & 0x1F) as u32) << 15), m, false)
}

pub open spec fn encode_riscv_fcvtsd_spec(dst: RegId, src: RegId) -> InsnView {
    word_view(
        0x40100053u32 | (((dst & 0x1Fu32) as u32) << 7u32) | (((src & 0x1Fu32) as u32) << 15u32),
        "fcvt.s.d f"@ + dec(dst as nat) + ", f"@ + dec(src as nat),
        false,
    )
}

fn encode_riscv_fcvtsd(dst: RegId, src: RegId) -> (r: TargetInstruction)
    ensures
        r@ == encode_riscv_fcvtsd_spec(dst, src),
{
    let mut m = text("fcvt.s.d f");
    push_u64(&mut m, dst as u64);
    push_text(&mut m, ", f");
    push_u64(&mut m, src as u64);
    word_insn(0x40100053 | (((dst & 0x1F) as u32) << 7) | (((src & 0x1F) as u32) << 15), m, false)
}

pub open spec fn encode_riscv_fcvtds_spec(dst: RegId, src: RegId) -> InsnView {
    word_view(
        0x42000053u32 | (((dst & 0x1Fu32) as u32) << 7u32) | (((src & 0x1Fu32) as u32) << 15u32),
        "fcvt.d.s f"@ + dec(dst as nat) + ", f"@ + dec(src as nat),
        false,
    )
}

fn encode_riscv_fcvtds(dst: RegId, src: RegId) -> (r: TargetInstruction)
    ensures
        r@ == encode_riscv_fcvtds_spec(dst, src),
{
    let mut m = text("fcvt.d.s f");
    push_u64(&mut m, dst as u64);
    push_text(&mut m, ", f");
    push_u64(&mut m, src as u64);
    word_insn(0x42000053 | (((dst & 0x1F) as u32) << 7) | (((src & 0x1F) as u32) << 15), m, false)
}

pub open spec fn encode_riscv_fsgnj_spec(dst: RegId, src1: RegId, src2: RegId) -> InsnView {
    word_view(
        0x22000053u32 | (((dst & 0x1Fu32) as u32) << 7u32) | (((src1 & 0x1Fu32) as u32) << 15u32) | (((src2 & 0x1Fu32) as u32) << 20u32) | (0b000u32 << 12u32),
        "fsgnj.d f"@ + dec(dst as nat) + ", f"@ + dec(src1 as nat) + ", f"@ + dec(src2 as nat),
        false,
    )
}

fn encode_riscv_fsgnj(dst: RegId, src1: RegId, src2: RegId) -> (r: TargetInstruction)
    ensures
        r@ == encode_riscv_fsgnj_spec(dst, src1, src2),
{
    let mut m = text("fsgnj.d f");
    push_u64(&mut m, dst as u64);
    push_text(&mut m, ", f");
    push_u64(&mut m, src1 as u64);
    push_text(&mut m, ", f");
    push_u64(&mut m, src2 as u64);
    word_insn(0x22000053 | (((dst & 0x1F) as u32) << 7) | (((src1 & 0x1F) as u32) << 15) | (((src2 & 0x1F) as u32) << 20) | (0b000 << 12), m, false)
}

pub open spec fn encode_riscv_fsgnjn_spec(dst: RegId, src1: RegId, src2: RegId) -> InsnView {
    word_view(
        0x22000053u32 | (((dst & 0x1Fu32) as u32) << 7u32) | (((src1 & 0x1Fu32) as u32) << 15u32) | (((src2 & 0x1Fu32) as u32) << 20u32) | (0b001u32 << 12u32),
        "fsgnjn.d f"@ + dec(dst as nat) + ", f"@ + dec(src1 as nat) + ", f"@ + dec(src2 as nat),
        false,
    )
}

fn encode_riscv_fsgnjn(dst: RegId, src1: RegId, src2: RegId) -> (r: TargetInstruction)
    ensures
        r@ == encode_riscv_fsgnjn_spec(dst, src1, src2),
{
    let mut m = text("fsgnjn.d f");
    push_u64(&mut m, dst as u64);
    push_text(&mut m, ", f");
    push_u64(&mut m, src1 as u64);
    push_text(&mut m, ", f");
    push_u64(&mut m, src2 as u64);
    word_insn(0x22000053 | (((dst & 0x1F) as u32) << 7) | (((src1 & 0x1F) as u32) << 15) | (((src2 & 0x1F) as u32) << 20) | (0b001 << 12), m, false)
}

pub open spec fn encode_riscv_fsgnjx_spec(dst: RegId, src1: RegId, src2: RegId) -> InsnView {
    word_view(
        0x22000053u32 | (((dst & 0x1Fu32) as u32) << 7u32) | (((src1 & 0x1Fu32) as u32) << 15u32) | (((src2 & 0x1Fu32) as u32) << 20u32) | (0b010u32 << 12u32),
        "fsgnjx.d f"@ + dec(dst as nat) + ", f"@ + dec(src1 as nat) + ", f"@ + dec(src2 as nat),
        false,
    )
}

fn encode_riscv_fsgnjx(dst: RegId, src1: RegId, src2: RegId) -> (r: TargetInstruction)
    ensures
        r@ == encode_riscv_fsgnjx_spec(dst, src1, src2),
{
    let mut m = text("fsgnjx.d f");
    push_u64(&mut m, dst as u64);
    push_text(&mut m, ", f");
    push_u64(&mut m, src1 as u64);
    push_text(&mut m, ", f");
    push_u64(&mut m, src2 as u64);
    word_insn(0x22000053 | (((dst & 0x1F) as u32) << 7) | (((src1 & 0x1F) as u32) << 15) | (((src2 & 0x1F) as u32) << 20) | (0b010 << 12), m, false)
}

pub open spec fn encode_riscv_fsgnjs_spec(dst: RegId, src1: RegId, src2: RegId) -> InsnView {
    word_view(
        0x20000053u32 | (((dst & 0x1Fu32) as u32) << 7u32) | (((src1 & 0x1Fu32) as u32) << 15u32) | (((src2 & 0x1Fu32) as u32) << 20u32) | (0b000u32 << 12u32),
        "fsgnj.s f"@ + dec(dst as nat) + ", f"@ + dec(src1 as nat) + ", f"@ + dec(src2 as nat),
        false,
    )
}

fn encode_riscv_fsgnjs(dst: RegId, src1: RegId, src2: RegId) -> (r: TargetInstruction)
    ensures
        r@ == encode_riscv_fsgnjs_spec(dst, src1, src2),
{
    let mut m = text("fsgnj.s f");
    push_u64(&mut m, dst as u64);
    push_text(&mut m, ", f");
    push_u64(&mut m, src1 as u64);
    push_text(&mut m, ", f");
    push_u64(&mut m, src2 as u64);
    word_insn(0x20000053 | (((dst & 0x1F) as u32) << 7) | (((src1 & 0x1F) as u32) << 15) | (((src2 & 0x1F) as u32) << 20) | (0b000 << 12), m, false)
}

pub open spec fn encode_riscv_fsgnjns_spec(dst: RegId, src1: RegId, src2: RegId) -> InsnView {
    word_view(
        0x20000053u32 | (((dst & 0x1Fu32) as u32) << 7u32) | (((src1 & 0x1Fu32) as u32) << 15u32) | (((src2 & 0x1Fu32) as u32) << 20u32) | (0b001u32 << 12u32),
        "fsgnjn.s f"@ + dec(dst as nat) + ", f"@ + dec(src1 as nat) + ", f"@ + dec(src2 as nat),
        false,
    )
}

fn encode_riscv_fsgnjns(dst: RegId, src1: RegId, src2: RegId) -> (r: TargetInstruction)
    ensures
        r@ == encode_riscv_fsgnjns_spec(dst, src1, src2),
{
    let mut m = text("fsgnjn.s f");
    push_u64(&mut m, dst as u64);
    push_text(&mut m, ", f");
    push_u64(&mut m, src1 as u64);
    push_text(&mut m, ", f");
    push_u64(&mut m, src2 as u64);
    word_insn(0x20000053 | (((dst & 0x1F) as u32) << 7) | (((src1 & 0x1F) as u32) << 15) | (((src2 & 0x1F) as u32) << 20) | (0b001 << 12), m, false)
}

pub open spec fn encode_riscv_fsgnjxs_spec(dst: RegId, src1: RegId, src2: RegId) -> InsnView {
    word_view(
        0x20000053u32 | (((dst & 0x1Fu32) as u32) << 7u32) | (((src1 & 0x1Fu32) as u32) << 15u32) | (((src2 & 0x1Fu32) as u32) << 20u32) | (0b010u32 << 12u32),
        "fsgnjx.s f"@ + dec(dst as nat) + ", f"@ + dec(src1 as nat) + ", f"@ + dec(src2 as nat),
        false,
    )
}

fn encode_riscv_fsgnjxs(dst: RegId, src1: RegId, src2: RegId) -> (r: TargetInstruction)
    ensures
        r@ == encode_riscv_fsgnjxs_spec(dst, src1, src2),
{
    let mut m = text("fsgnjx.s f");
    push_u64(&mut m, dst as u64);
    push_text(&mut m, ", f");
    push_u64(&mut m, src1 as u64);
    push_text(&mut m, ", f");
    push_u64(&mut m, src2 as u64);
    word_insn(0x20000053 | (((dst & 0x1F) as u32) << 7) | (((src1 & 0x1F) as u32) << 15) | (((src2 & 0x1F) as u32) << 20) | (0b010 << 12), m, false)
}

pub open spec fn encode_riscv_fclass_spec(dst: RegId, src: RegId) -> InsnView {
    word_view(
        0xE2001053u32 | (((dst & 0x1Fu32) as u32) << 7u32) | (((src & 0x1Fu32) as u32) << 15u32),
        "fclass.d x"@ + dec(dst as nat) + ", f"@ + dec(src as nat),
        false,
    )
}

fn encode_riscv_fclass(dst: RegId, src: RegId) -> (r: TargetInstruction)
    ensures
        r@ == encode_riscv_fclass_spec(dst, src),
{
    let mut m = text("fclass.d x");
    push_u64(&mut m, dst as u64);
    push_text(&mut m, ", f");
    push_u64(&mut m, src as u64);
    word_insn(0xE2001053 | (((dst & 0x1F) as u32) << 7) | (((src & 0x1F) as u32) << 15), m, false)
}

pub open spec fn encode_riscv_fclasss_spec(dst: RegId, src: RegId) -> InsnView {
    word_view(
        0xE0001053u32 | (((dst & 0x1Fu32) as u32) << 7u32) | (((src & 0x1Fu32) as u32) << 15u32),
        "fclass.s x"@ + dec(dst as nat) + ", f"@ + dec(src as nat),
        false,
    )
}

fn encode_riscv_fclasss(dst: RegId, src: RegId) -> (r: TargetInstruction)
    ensures
        r@ == encode_riscv_fclasss_spec(dst, src),
{
    let mut m = text("fclass.s x");
    push_u64(&mut m, dst as u64);
    push_text(&mut m, ", f");
    push_u64(&mut m, src as u64);
    word_insn(0xE0001053 | (((dst & 0x1F) as u32) << 7) | (((src & 0x1F) as u32) << 15), m, false)
}

pub open spec fn encode_riscv_fmvxw_spec(dst: RegId, src: RegId) -> InsnView {
    word_view(
        0xE0000053u32 | (((dst & 0x1Fu32) as u32) << 7u32) | (((src & 0x1Fu32) as u32) << 15u32),
        "fmv.x.w x"@ + dec(dst as nat) + ", f"@ + dec(src as nat),
        false,
    )
}

fn encode_riscv_fmvxw(dst: RegId, src: RegId) -> (r: TargetInstruction)
    ensures
        r@ == encode_riscv_fmvxw_spec(dst, src),
{
    let mut m = text("fmv.x.w x");
    push_u64(&mut m, dst as u64);
    push_text(&mut m, ", f");
    push_u64(&mut m, src as u64);
    word_insn(0xE0000053 | (((dst & 0x1F) as u32) << 7) | (((src & 0x1F) as u32) << 15), m, false)
}

pub open spec fn encode_riscv_fmvwx_spec(dst: RegId, src: RegId) -> InsnView {
    word_view(
        0xF0000053u32 | (((dst & 0x1Fu32) as u32) << 7u32) | (((src & 0x1Fu32) as u32) << 15u32),
        "fmv.w.x f"@ + dec(dst as nat) + ", x"@ + dec(src as nat),
        false,
    )
}

fn encode_riscv_fmvwx(dst: RegId, src: RegId) -> (r: TargetInstruction)
    ensures
        r@ == encode_riscv_fmvwx_spec(dst, src),
{
    let mut m = text("fmv.w.x f");
    push_u64(&mut m, dst as u64);
    push_text(&mut m, ", x");
    push_u64(&mut m, src as u64);
    word_insn(0xF0000053 | (((dst & 0x1F) as u32) << 7) | (((src & 0x1F) as u32) << 15), m, false)
}

pub open spec fn encode_riscv_fmvxd_spec(dst: RegId, src: RegId) -> InsnView {
    word_view(
        0xE2000053u32 | (((dst & 0x1Fu32) as u32) << 7u32) | (((src & 0x1Fu32) as u32) << 15u32),
        "fmv.x.d x"@ + dec(dst as nat) + ", f"@ + dec(src as nat),
        false,
    )
}

fn encode_riscv_fmvxd(dst: RegId, src: RegId) -> (r: TargetInstruction)
    ensures
        r@ == encode_riscv_fmvxd_spec(dst, src),
{
    let mut m = text("fmv.x.d x");
    push_u64(&mut m, dst as u64);
    push_text(&mut m, ", f");
    push_u64(&mut m, src as u64);
    word_insn(0xE2000053 | (((dst & 0x1F) as u32) << 7) | (((src & 0x1F) as u32) << 15), m, false)
}

pub open spec fn encode_riscv_fmvdx_spec(dst: RegId, src: RegId) -> InsnView {
    word_view(
        0xF2000053u32 | (((dst & 0x1Fu32) as u32) << 7u32) | (((src & 0x1Fu32) as u32) << 15u32),
        "fmv.d.x f"@ + dec(dst as nat) + ", x"@ + dec(src as nat),
        false,
    )
}

fn encode_riscv_fmvdx(dst: RegId, src: RegId) -> (r: TargetInstruction)
    ensures
        r@ == encode_riscv_fmvdx_spec(dst, src),
{
    let mut m = text("fmv.d.x f");
    push_u64(&mut m, dst as u64);
    push_text(&mut m, ", x");
    push_u64(&mut m, src as u64);
    word_insn(0xF2000053 | (((dst & 0x1F) as u32) << 7) | (((src & 0x1F) as u32) << 15), m, false)
}

pub open spec fn encode_riscv_fcvtwus_spec(dst: RegId, src: RegId) -> InsnView {
    word_view(
        0xC0100053u32 | (((dst & 0x1Fu32) as u32) << 7u32) | (((src & 0x1Fu32) as u32) << 15u32),
        "fcvt.wu.s x"@ + dec(dst as nat) + ", f"@ + dec(src as nat),
        false,
    )
}

fn encode_riscv_fcvtwus(dst: RegId, src: RegId) -> (r: TargetInstruction)
    ensures
        r@ == encode_riscv_fcvtwus_spec(dst, src),
{
    let mut m = text("fcvt.wu.s x");
    push_u64(&mut m, dst as u64);
    push_text(&mut m, ", f");
    push_u64(&mut m, src as u64);
    word_insn(0xC0100053 | (((dst & 0x1F) as u32) << 7) | (((src & 0x1F) as u32) << 15), m, false)
}

pub open spec fn encode_riscv_fcvtlus_spec(dst: RegId, src: RegId) -> InsnView {
    word_view(
        0xC0300053u32 | (((dst & 0x1Fu32) as u32) << 7u32) | (((src & 0x1Fu32) as u32) << 15u32),
        "fcvt.lu.s x"@ + dec(dst as nat) + ", f"@ + dec(src as nat),
        false,
    )
}

fn encode_riscv_fcvtlus(dst: RegId, src: RegId) -> (r: TargetInstruction)
    ensures
        r@ == encode_riscv_fcvtlus_spec(dst, src),
{
    let mut m = text("fcvt.lu.s x");
    push_u64(&mut m, dst as u64);
    push_text(&mut m, ", f");
    push_u64(&mut m, src as u64);
    word_insn(0xC0300053 | (((dst & 0x1F) as u32) << 7) | (((src & 0x1F) as u32) << 15), m, false)
}

pub open spec fn encode_riscv_fcvtswu_spec(dst: RegId, src: RegId) -> InsnView {
    word_view(
        0xD0100053u32 | (((dst & 0x1Fu32) as u32) << 7u32) | (((src & 0x1Fu32) as u32) << 15u32),
        "fcvt.s.wu f"@ + dec(dst as nat) + ", x"@ + dec(src as nat),
        false,
    )
}

fn encode_riscv_fcvtswu(dst: RegId, src: RegId) -> (r: TargetInstruction)
    ensures
        r@ == encode_riscv_fcvtswu_spec(dst, src),
{
    let mut m = text("fcvt.s.wu f");
    push_u64(&mut m, dst as u64);
    push_text(&mut m, ", x");
    push_u64(&mut m, src as u64);
    word_insn(0xD0100053 | (((dst & 0x1F) as u32) << 7) | (((src & 0x1F) as u32) << 15), m, false)
}

pub open spec fn encode_riscv_fcvtslu_spec(dst: RegId, src: RegId) -> InsnView {
    word_view(
        0xD0300053u32 | (((dst & 0x1Fu32) as u32) << 7u32) | (((src & 0x1Fu32) as u32) << 15u32),
        "fcvt.s.lu f"@ + dec(dst as nat) + ", x"@ + dec(src as nat),
        false,
    )
}

fn encode_riscv_fcvtslu(dst: RegId, src: RegId) -> (r: TargetInstruction)
    ensures
        r@ == encode_riscv_fcvtslu_spec(dst, src),
{
    let mut m = text("fcvt.s.lu f");
    push_u64(&mut m, dst as u64);
    push_text(&mut m, ", x");
    push_u64(&mut m, src as u64);
    word_insn(0xD0300053 | (((dst & 0x1F) as u32) << 7) | (((src & 0x1F) as u32) << 15), m, false)
}

pub open spec fn encode_riscv_fcvtwd_spec(dst: RegId, src: RegId) -> InsnView {
    word_view(
        0xC2000053u32 | (((dst & 0x1Fu32) as u32) << 7u32) | (((src & 0x1Fu32) as u32) << 15u32),
        "fcvt.w.d x"@ + dec(dst as nat) + ", f"@ + dec(src as nat),
        false,
    )
}

fn encode_riscv_fcvtwd(dst: RegId, src: RegId) -> (r: TargetInstruction)
    ensures
        r@ == encode_riscv_fcvtwd_spec(dst, src),
{
    let mut m = text("fcvt.w.d x");
    push_u64(&mut m, dst as u64);
    push_text(&mut m, ", f");
    push_u64(&mut m, src as u64);
    word_insn(0xC2000053 | (((dst & 0x1F) as u32) << 7) | (((src & 0x1F) as u32) << 15), m, false)
}

pub open spec fn encode_riscv_fcvtwud_spec(dst: RegId, src: RegId) -> InsnView {
    word_view(
        0xC2100053u32 | (((dst & 0x1Fu32) as u32) << 7u32) | (((src & 0x1Fu32) as u32) << 15u32),
        "fcvt.wu.d x"@ + dec(dst as nat) + ", f"@ + dec(src as nat),
        false,
    )
}

fn encode_riscv_fcvtwud(dst: RegId, src: RegId) -> (r: TargetInstruction)
    ensures
        r@ == encode_riscv_fcvtwud_spec(dst, src),
{
    let mut m = text("fcvt.wu.d x");
    push_u64(&mut m, dst as u64);
    push_text(&mut m, ", f");
    push_u64(&mut m, src as u64);
    word_insn(0xC2100053 | (((dst & 0x1F) as u32) << 7) | (((src & 0x1F) as u32) << 15), m, false)
}

pub open spec fn encode_riscv_fcvtlud_spec(dst: RegId, src: RegId) -> InsnView {
    word_view(
        0xC2300053u32 | (((dst & 0x1Fu32) as u32) << 7u32) | (((src & 0x1Fu32) as u32) << 15u32),
        "fcvt.lu.d x"@ + dec(dst as nat) + ", f"@ + dec(src as nat),
        false,
    )
}

fn encode_riscv_fcvtlud(dst: RegId, src: RegId) -> (r: TargetInstruction)
    ensures
        r@ == encode_riscv_fcvtlud_spec(dst, src),
{
    let mut m = text("fcvt.lu.d x");
    push_u64(&mut m, dst as u64);
    push_text(&mut m, ", f");
    push_u64(&mut m, src as u64);
    word_insn(0xC2300053 | (((dst & 0x1F) as u32) << 7) | (((src & 0x1F) as u32) << 15), m, false)
}

pub open spec fn encode_riscv_fcvtdw_spec(dst: RegId, src: RegId) -> InsnView {
    word_view(
        0xD2000053u32 | (((dst & 0x1Fu32) as u32) << 7u32) | (((src & 0x1Fu32) as u32) << 15u32),
        "fcvt.d.w f"@ + dec(dst as nat) + ", x"@ + dec(src as nat),
        false,
    )
}

fn encode_riscv_fcvtdw(dst: RegId, src: RegId) -> (r: TargetInstruction)
    ensures
        r@ == encode_riscv_fcvtdw_spec(dst, src),
{
    let mut m = text("fcvt.d.w f");
    push_u64(&mut m, dst as u64);
    push_text(&mut m, ", x");
    push_u64(&mut m, src as u64);
    word_insn(0xD2000053 | (((dst & 0x1F) as u32) << 7) | (((src & 0x1F) as u32) << 15), m, false)
}

pub open spec fn encode_riscv_fcvtdwu_spec(dst: RegId, src: RegId) -> InsnView {
    word_view(
        0xD2100053u32 | (((dst & 0x1Fu32) as u32) << 7u32) | (((src & 0x1Fu32) as u32) << 15u32),
        "fcvt.d.wu f"@ + dec(dst as nat) + ", x"@ + dec(src as nat),
        false,
    )
}

fn encode_riscv_fcvtdwu(dst: RegId, src: RegId) -> (r: TargetInstruction)
    ensures
        r@ == encode_riscv_fcvtdwu_spec(dst, src),
{
    let mut m = text("fcvt.d.wu f");
    push_u64(&mut m, dst as u64);
    push_text(&mut m, ", x");
    push_u64(&mut m, src as u64);
    word_insn(0xD2100053 | (((dst & 0x1F) as u32) << 7) | (((src & 0x1F) as u32) << 15), m, false)
}

pub open spec fn encode_riscv_fcvtdlu_spec(dst: RegId, src: RegId) -> InsnView {
    word_view(
        0xD2300053u32 | (((dst & 0x1Fu32) as u32) << 7u32) | (((src & 0x1Fu32) as u32) << 15u32),
        "fcvt.d.lu f"@ + dec(dst as nat) + ", x"@ + dec(src as nat),
        false,
    )
}

fn encode_riscv_fcvtdlu(dst: RegId, src: RegId) -> (r: TargetInstruction)
    ensures
        r@ == encode_riscv_fcvtdlu_spec(dst, src),
{
    let mut m = text("fcvt.d.lu f");
    push_u64(&mut m, dst as u64);
    push_text(&mut m, ", x");
    push_u64(&mut m, src as u64);
    word_insn(0xD2300053 | (((dst & 0x1F) as u32) << 7) | (((src & 0x1F) as u32) << 15), m, false)
}

/// `w` is an RV64 R-type word with the given opcode (bits 6..0), funct3
/// (bits 14..12) and funct7 (bits 31..25), and with rd = `rd`, rs1 = `rs1`,
/// rs2 = `rs2` (bits 11..7, 19..15 and 24..20, register numbers modulo 32).
pub open spec fn rv_rtype_fields(w: u32, opcode: u32, funct3: u32, funct7: u32, rd: u32, rs1: u32, rs2: u32) -> bool {
    &&& w & 0x7F == opcode
    &&& (w >> 7u32) & 0x1F == rd & 0x1F
    &&& (w >> 12u32) & 7 == funct3
    &&& (w >> 15u32) & 0x1F == rs1 & 0x1F
    &&& (w >> 20u32) & 0x1F == rs2 & 0x1F
    &&& w >> 25u32 == funct7
}

/// `w` is an RV64 I-type word with the given opcode and funct3, rd = `rd`,
/// rs1 = `rs1`, whose 12-bit immediate (bits 31..20) read as a signed
/// number is `imm`.
pub open spec fn rv_itype_fields(w: u32, opcode: u32, funct3: u32, rd: u32, rs1: u32, imm: int) -> bool {
    &&& w & 0x7F == opcode
    &&& (w >> 7u32) & 0x1F == rd & 0x1F
    &&& (w >> 12u32) & 7 == funct3
    &&& (w >> 15u32) & 0x1F == rs1 & 0x1F
    &&& rv_lower12_signed(w >> 20u32) == imm
}

proof fn lemma_rv_word_fields(d: u32, n: u32, m: u32, imm: i64)
    by (bit_vector)
    ensures
        rv_rtype_fields(0x00000033u32 | (((d & 0x1Fu32) as u32) << 7u32) | (((n & 0x1Fu32) as u32) << 15u32) | (((m & 0x1Fu32) as u32) << 20u32), 0x33, 0, 0, d, n, m),
        rv_rtype_fields(0x40000033u32 | (((d & 0x1Fu32) as u32) << 7u32) | (((n & 0x1Fu32) as u32) << 15u32) | (((m & 0x1Fu32) as u32) << 20u32), 0x33, 0, 0x20, d, n, m),
        rv_itype(0x13, 0, d, n, (imm as u32) & 0xFFF) & 0x7F == 0x13,
        (rv_itype(0x13, 0, d, n, (imm as u32) & 0xFFF) >> 7u32) & 0x1F == d & 0x1F,
        (rv_itype(0x13, 0, d, n, (imm as u32) & 0xFFF) >> 12u32) & 7 == 0,
        (rv_itype(0x13, 0, d, n, (imm as u32) & 0xFFF) >> 15u32) & 0x1F == n & 0x1F,
        rv_itype(0x13, 0, d, n, (imm as u32) & 0xFFF) >> 20u32 == (imm as u32) & 0xFFF,
        0 <= imm < 2048 ==> (imm as u32) & 0xFFF == imm as u32,
        -2048 <= imm < 0 ==> (imm as u32) & 0xFFF == (imm + 4096) as u32,
{
}

/// The RV64 words of the integer additions and subtraction, against the
/// RISC-V opcode map: `Add` is one `ADD rd, rs1, rs2` (OP, funct3 0,
/// funct7 0) and `Sub` one `SUB rd, rs1, rs2` (OP, funct3 0, funct7
/// 0b0100000), with rd = `dst`, rs1 = `src1`, rs2 = `src2`; `AddImm` with an
/// immediate in -2048..2048 is one `ADDI rd, rs1, imm` (OP-IMM, funct3 0)
/// whose sign-extended immediate is `imm`, and any other immediate is
/// refused.
#[verifier::spinoff_prover]
pub proof fn lemma_riscv_integer_words(dst: RegId, src1: RegId, src2: RegId, imm: i64)
    ensures
        riscv_encode_spec(IROp::Add { dst, src1, src2 }) matches Ok(s) && s.len() == 1 && s[0].length == 4
            && s[0].bytes.len() == 4 && rv_rtype_fields(fetched_word(s[0].bytes), 0x33, 0, 0, dst, src1, src2),
        riscv_encode_spec(IROp::Sub { dst, src1, src2 }) matches Ok(s) && s.len() == 1 && s[0].length == 4
            && s[0].bytes.len() == 4 && rv_rtype_fields(fetched_word(s[0].bytes), 0x33, 0, 0x20, dst, src1, src2),
        -2048 <= imm < 2048 ==> (riscv_encode_spec(IROp::AddImm { dst, src: src1, imm }) matches Ok(s) && s.len() == 1
            && s[0].length == 4 && s[0].bytes.len() == 4
            && rv_itype_fields(fetched_word(s[0].bytes), 0x13, 0, dst, src1, imm as int)),
        !(-2048 <= imm < 2048) ==> riscv_encode_spec(IROp::AddImm { dst, src: src1, imm }) == Err::<Seq<InsnView>, EncodeFailure>(
            EncodeFailure::ImmediateTooLarge(imm),
        ),
{
    lemma_rv_word_fields(dst, src1, src2, imm);
    let rd: u32 = (dst & 0x1Fu32) as u32;
    let rs1: u32 = ((src1 & 0x1Fu32) as u32) << 15u32;
    let rs2: u32 = ((src2 & 0x1Fu32) as u32) << 20u32;
    lemma_fetched_le32(0x00000033u32 | (rd << 7u32) | rs1 | rs2);
    lemma_fetched_le32(0x40000033u32 | (rd << 7u32) | rs1 | rs2);
    lemma_fetched_le32(rv_itype(0x13, 0, dst, src1, (imm as u32) & 0xFFF));
    if 0 <= imm < 2048 {
        assert((imm as u32) == imm);
    } else if -2048 <= imm < 0 {
        assert((imm + 4096) as u32 == imm + 4096);
    }
}

/// What the RV64 word `w` does to register `d` (not x0), holding `v`:
/// `LUI d, imm20` (opcode 0110111) sets it to `imm20 << 12` sign-extended
/// from 32 bits; `ADDI d, d, imm12` (opcode 0010011, funct3 0) adds the
/// sign-extended 12-bit immediate modulo 2^64; any other word leaves `v`.
pub open spec fn rv_step(v: u64, w: u32, d: u32) -> u64 {
    if (w >> 7u32) & 0x1F != d & 0x1F {
        v
    } else if w & 0x7F == 0x37 {
        ((w & 0xFFFF_F000u32) as i32) as i64 as u64
    } else if w & 0x707F == 0x13 && (w >> 15u32) & 0x1F == d & 0x1F {
        (v + (((w as i32) >> 20u32) as i64 as u64)) as u64
    } else {
        v
    }
}

/// Register `d` after running the instructions `s` in order from `v`.
pub open spec fn rv_run(v: u64, s: Seq<InsnView>, d: u32) -> u64
    decreases s.len(),
{
    if s.len() == 0 {
        v
    } else {
        rv_run(rv_step(v, fetched_word(s[0].bytes), d), s.drop_first(), d)
    }
}

proof fn lemma_rv_lui_addi(v: u64, imm: u64, d: u32)
    by (bit_vector)
    ensures
        (imm & 0xFFF) as u32 == 0 ==> rv_step(
            v,
            0x37u32 | (((d & 0x1F) as u32) << 7u32) | ((rv_upper20(imm) & 0xFFFFF) << 12u32),
            d,
        ) & 0xFFFF_FFFF == imm & 0xFFFF_FFFF,
        (imm & 0xFFF) as u32 != 0 ==> rv_step(
            rv_step(v, 0x37u32 | (((d & 0x1F) as u32) << 7u32) | ((rv_upper20(imm) & 0xFFFFF) << 12u32), d),
            rv_itype(0x13, 0, d, d, (imm & 0xFFF) as u32),
            d,
        ) & 0xFFFF_FFFF == imm & 0xFFFF_FFFF,
{
}

/// An immediate move on RISC-V64 loads the immediate's low 32 bits: run
/// from any value `v` of `dst` (other than x0), the `LUI` (and `ADDI`) that
/// `MovImm` encodes to leave the low 32 bits of `dst` equal to those of
/// `imm`. (The upper 32 bits are those of the sign extension of the LUI
/// result plus the ADDI immediate, as RV64 computes it.)
#[verifier::spinoff_prover]
pub proof fn lemma_riscv_mov_imm_loads(dst: RegId, imm: u64, v: u64)
    requires
        dst & 0x1F != 0,
    ensures
        riscv_encode_spec(IROp::MovImm { dst, imm }) matches Ok(s) && 1 <= s.len() <= 2
            && rv_run(v, s, dst) & 0xFFFF_FFFF == imm & 0xFFFF_FFFF,
{
    reveal_with_fuel(rv_run, 3);
    lemma_rv_lui_addi(v, imm, dst);
    let lui = 0x37u32 | (((dst & 0x1F) as u32) << 7u32) | ((rv_upper20(imm) & 0xFFFFF) << 12u32);
    let addi = rv_itype(0x13, 0, dst, dst, (imm & 0xFFF) as u32);
    lemma_fetched_le32(lui);
    lemma_fetched_le32(addi);
    assert(riscv_encode_spec(IROp::MovImm { dst, imm }) == encode_riscv_mov_imm_spec(dst, imm));
    if let Ok(s) = encode_riscv_mov_imm_spec(dst, imm) {
        if (imm & 0xFFF) as u32 != 0 {
            assert(s.drop_first().drop_first() =~= Seq::<InsnView>::empty());
        } else {
            assert(s.drop_first() =~= Seq::<InsnView>::empty());
        }
    }
}

/// `w` is an RV64 S-type word with the given opcode and funct3, rs1 =
/// `rs1`, rs2 = `rs2`, whose 12-bit immediate (bits 31..25 then 11..7) read
/// as a signed number is `imm`.
pub open spec fn rv_stype_fields(w: u32, opcode: u32, funct3: u32, rs1: u32, rs2: u32, imm: int) -> bool {
    &&& w & 0x7F == opcode
    &&& (w >> 12u32) & 7 == funct3
    &&& (w >> 15u32) & 0x1F == rs1 & 0x1F
    &&& (w >> 20u32) & 0x1F == rs2 & 0x1F
    &&& rv_lower12_signed(((w >> 25u32) << 5u32) | ((w >> 7u32) & 0x1F)) == imm
}

proof fn lemma_rv_ldst_fields(d: u32, n: u32, imm: i64)
    by (bit_vector)
    ensures
        rv_itype(0x03, 0b011, d, n, (imm as u32) & 0xFFF) & 0x7F == 0x03,
        (rv_itype(0x03, 0b011, d, n, (imm as u32) & 0xFFF) >> 7u32) & 0x1F == d & 0x1F,
        (rv_itype(0x03, 0b011, d, n, (imm as u32) & 0xFFF) >> 12u32) & 7 == 0b011,
        (rv_itype(0x03, 0b011, d, n, (imm as u32) & 0xFFF) >> 15u32) & 0x1F == n & 0x1F,
        rv_itype(0x03, 0b011, d, n, (imm as u32) & 0xFFF) >> 20u32 == (imm as u32) & 0xFFF,
        rv_stype(0x23, 0b011, n, d, (imm as u32) & 0xFFF) & 0x7F == 0x23,
        (rv_stype(0x23, 0b011, n, d, (imm as u32) & 0xFFF) >> 12u32) & 7 == 0b011,
        (rv_stype(0x23, 0b011, n, d, (imm as u32) & 0xFFF) >> 15u32) & 0x1F == n & 0x1F,
        (rv_stype(0x23, 0b011, n, d, (imm as u32) & 0xFFF) >> 20u32) & 0x1F == d & 0x1F,
        ((rv_stype(0x23, 0b011, n, d, (imm as u32) & 0xFFF) >> 25u32) << 5u32) | ((rv_stype(
            0x23,
            0b011,
            n,
            d,
            (imm as u32) & 0xFFF,
        ) >> 7u32) & 0x1F) == (imm as u32) & 0xFFF,
{
}

/// The RV64 words of loads and stores, against the RISC-V opcode map: a
/// load is one `LD rd, imm(rs1)` (LOAD, funct3 0b011) and a store one
/// `SD rs2, imm(rs1)` (STORE, funct3 0b011), with rs1 the base and the
/// sign-extended immediate equal to the offset, for offsets in
/// -2048..2048; any other offset is refused.
#[verifier::spinoff_prover]
pub proof fn lemma_riscv_load_store_words(r: RegId, base: RegId, offset: i64, size: u8, flags: MemFlags)
    ensures
        -2048 <= offset < 2048 ==> (riscv_encode_spec(IROp::Load { dst: r, base, offset, size, flags }) matches Ok(s)
            && s.len() == 1 && s[0].bytes.len() == 4 && s[0].is_memory_op
            && rv_itype_fields(fetched_word(s[0].bytes), 0x03, 0b011, r, base, offset as int)),
        -2048 <= offset < 2048 ==> (riscv_encode_spec(IROp::Store { src: r, base, offset, size, flags }) matches Ok(s)
            && s.len() == 1 && s[0].bytes.len() == 4 && s[0].is_memory_op
            && rv_stype_fields(fetched_word(s[0].bytes), 0x23, 0b011, base, r, offset as int)),
        !(-2048 <= offset < 2048) ==> riscv_encode_spec(IROp::Load { dst: r, base, offset, size, flags })
            == Err::<Seq<InsnView>, EncodeFailure>(EncodeFailure::InvalidOffset(offset)),
        !(-2048 <= offset < 2048) ==> riscv_encode_spec(IROp::Store { src: r, base, offset, size, flags })
            == Err::<Seq<InsnView>, EncodeFailure>(EncodeFailure::InvalidOffset(offset)),
{
    lemma_rv_word_fields(r, base, base, offset);
    lemma_rv_ldst_fields(r, base, offset);
    lemma_fetched_le32(rv_itype(0x03, 0b011, r, base, (offset as u32) & 0xFFF));
    lemma_fetched_le32(rv_stype(0x23, 0b011, base, r, (offset as u32) & 0xFFF));
    if 0 <= offset < 2048 {
        assert((offset as u32) == offset);
    } else if -2048 <= offset < 0 {
        assert((offset + 4096) as u32 == offset + 4096);
    }
}

proof fn lemma_rv_fp_fields(d: u32, n: u32, m: u32)
    by (bit_vector)
    ensures
        rv_rtype_fields(0x02000053u32 | (((d & 0x1Fu32) as u32) << 7u32) | (((n & 0x1Fu32) as u32) << 15u32) | (((m & 0x1Fu32) as u32) << 20u32) | (0b0000000u32 << 25u32), 0x53, 0, 0x01, d, n, m),
        rv_rtype_fields(0x0A000053u32 | (((d & 0x1Fu32) as u32) << 7u32) | (((n & 0x1Fu32) as u32) << 15u32) | (((m & 0x1Fu32) as u32) << 20u32), 0x53, 0, 0x05, d, n, m),
        rv_rtype_fields(0x12000053u32 | (((d & 0x1Fu32) as u32) << 7u32) | (((n & 0x1Fu32) as u32) << 15u32) | (((m & 0x1Fu32) as u32) << 20u32), 0x53, 0, 0x09, d, n, m),
        rv_rtype_fields(0x1A000053u32 | (((d & 0x1Fu32) as u32) << 7u32) | (((n & 0x1Fu32) as u32) << 15u32) | (((m & 0x1Fu32) as u32) << 20u32), 0x53, 0, 0x0D, d, n, m),
{
}

/// The RV64 words of the double-precision arithmetic, against the RISC-V
/// opcode map (OP-FP, rounding mode 000): `FADD.D` (funct7 0000001),
/// `FSUB.D` (0000101), `FMUL.D` (0001001) and `FDIV.D` (0001101), with
/// rd = `dst`, rs1 = `src1`, rs2 = `src2`.
#[verifier::spinoff_prover]
pub proof fn lemma_riscv_scalar_double_words(dst: RegId, src1: RegId, src2: RegId)
    ensures
        riscv_encode_spec(IROp::Fadd { dst, src1, src2 }) matches Ok(s) && s.len() == 1 && s[0].bytes.len() == 4
            && rv_rtype_fields(fetched_word(s[0].bytes), 0x53, 0, 0x01, dst, src1, src2),
        riscv_encode_spec(IROp::Fsub { dst, src1, src2 }) matches Ok(s) && s.len() == 1 && s[0].bytes.len() == 4
            && rv_rtype_fields(fetched_word(s[0].bytes), 0x53, 0, 0x05, dst, src1, src2),
        riscv_encode_spec(IROp::Fmul { dst, src1, src2 }) matches Ok(s) && s.len() == 1 && s[0].bytes.len() == 4
            && rv_rtype_fields(fetched_word(s[0].bytes), 0x53, 0, 0x09, dst, src1, src2),
        riscv_encode_spec(IROp::Fdiv { dst, src1, src2 }) matches Ok(s) && s.len() == 1 && s[0].bytes.len() == 4
            && rv_rtype_fields(fetched_word(s[0].bytes), 0x53, 0, 0x0D, dst, src1, src2),
{
    lemma_rv_fp_fields(dst, src1, src2);
    let rd: u32 = ((dst & 0x1Fu32) as u32) << 7u32;
    let rs1: u32 = ((src1 & 0x1Fu32) as u32) << 15u32;
    let rs2: u32 = ((src2 & 0x1Fu32) as u32) << 20u32;
    lemma_fetched_le32(0x02000053u32 | rd | rs1 | rs2 | (0b0000000u32 << 25u32));
    lemma_fetched_le32(0x0A000053u32 | rd | rs1 | rs2);
    lemma_fetched_le32(0x12000053u32 | rd | rs1 | rs2);
    lemma_fetched_le32(0x1A000053u32 | rd | rs1 | rs2);
}

} // verus!
