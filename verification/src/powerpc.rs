//! PowerPC support: decoding 32-bit big-endian PowerPC instructions into
//! structured instructions, and encoding structured instructions back.

use vstd::prelude::*;
use vstd::wrapping::u64_specs;
use crate::error::VmError;
use crate::ir::{
    guest_arch_name, guest_arch_text, BinaryOperator, GuestArch, IRInstruction, MemFlags, Operand, RegId,
};
use crate::text::{dec, push_text, push_u64, text};

verus! {

/// PowerPC registers.
#[derive(Debug, Clone, Copy, PartialEq, Eq, Hash)]
pub enum PowerPCReg {
    /// General-purpose register R0-R31.
    GPR(u8),
    /// Floating-point register F0-F31.
    FPR(u8),
    /// Condition register field CR0-CR7.
    CR(u8),
    XER,
    LR,
    CTR,
    /// Special-purpose register.
    SPR(u16),
}

impl PowerPCReg {
    pub fn is_gpr(&self) -> (r: bool)
        ensures
            r == (*self is GPR),
    {
        match self {
            PowerPCReg::GPR(_) => true,
            _ => false,
        }
    }

    pub fn is_fpr(&self) -> (r: bool)
        ensures
            r == (*self is FPR),
    {
        match self {
            PowerPCReg::FPR(_) => true,
            _ => false,
        }
    }
}

/// PowerPC instruction mnemonics.
#[derive(Debug, Clone, Copy, PartialEq, Eq)]
pub enum PowerPCOpcode {
    Add, Sub, Mul, Div, Addi, Addis, Subfic, Mulli,
    And, Or, Xor, Nor, Andi, Ori, Xori,
    Sld, Srd, Slw, Srw, Sldi, Srwi, Srawi,
    B, Bl, Bc, Bclr, Bctr, Beq, Bne, Blt, Bgt, Bge, Ble,
    Cmplwi, Cmplw, Cmpldi, Cmpld,
    Lwz, Lbz, Lha, Lhz, Lwzu, Stw, Stb, Sth, Stwu, Lfs, Lfd, Stfs, Stfd,
    Fadd, Fsub, Fmul, Fdiv, Fmadd, Fmsub, Fnmsub, Fnmadd,
    Sc,
    Nop, Mfcr, Mtcrf, Mflr, Mtlr, Mfctr, Mtctr,
}

/// The memory-access attributes that decoded loads and stores carry.
pub open spec fn plain_flags() -> MemFlags {
    MemFlags { volatile: false, atomic: false }
}

/// Big-endian word of the first four bytes.
pub open spec fn be32(b: Seq<u8>) -> u32 {
    ((b[0] as u32) << 24u32) | ((b[1] as u32) << 16u32) | ((b[2] as u32) << 8u32) | (b[3] as u32)
}

/// Big-endian bytes of a word.
pub open spec fn be32_bytes(w: u32) -> Seq<u8> {
    seq![(w >> 24u32) as u8, (w >> 16u32) as u8, (w >> 8u32) as u8, w as u8]
}

/// The five-bit register field at `shift`.
pub open spec fn ppc_reg(instr: u32, shift: u32) -> u32 {
    (instr >> shift) & 0x1F
}

/// The sign-extended 16-bit displacement/immediate.
pub open spec fn ppc_simm(instr: u32) -> i64 {
    ((instr & 0xFFFF) as i16) as i64
}

/// The effective-address operand `(RA|0) + d`.
pub open spec fn ppc_addr(instr: u32) -> Operand {
    let ra = ppc_reg(instr, 16);
    Operand::Binary {
        op: BinaryOperator::Add,
        left: Box::new(if ra != 0 { Operand::Reg(ra) } else { Operand::Imm64(0) }),
        right: Box::new(Operand::Imm64(ppc_simm(instr) as u64)),
    }
}

pub open spec fn ppc_load(instr: u32, size: u8) -> IRInstruction {
    IRInstruction::LoadExt { dest: ppc_reg(instr, 21), addr: ppc_addr(instr), size, flags: plain_flags() }
}

pub open spec fn ppc_store(instr: u32, size: u8) -> IRInstruction {
    IRInstruction::StoreExt { value: Operand::Reg(ppc_reg(instr, 21)), addr: ppc_addr(instr), size, flags: plain_flags() }
}

/// Branch target: absolute when the AA bit is set, else relative to `pc`.
pub open spec fn ppc_branch_target(is_64bit: bool, pc: u64, aa: bool, disp: i32) -> u64 {
    if aa {
        disp as u64
    } else if is_64bit {
        u64_specs::wrapping_add(pc, disp as i64 as u64)
    } else {
        u64_specs::wrapping_add(pc, (disp as u32) as u64)
    }
}

/// The conditional-branch target; a relative displacement is widened as an
/// unsigned 16-bit value when not in 64-bit mode.
pub open spec fn ppc_cond_target(is_64bit: bool, pc: u64, aa: bool, bd: i32) -> u64 {
    if aa {
        bd as u64
    } else if is_64bit {
        u64_specs::wrapping_add(pc, bd as i64 as u64)
    } else {
        u64_specs::wrapping_add(pc, (bd as u16) as u64)
    }
}

/// What a 32-bit instruction word decodes to.
pub open spec fn ppc_decode_word(is_64bit: bool, pc: u64, instr: u32) -> IRInstruction {
    let opcode = (instr >> 26u32) & 0x3F;
    if opcode == 0x10 {
        IRInstruction::Branch {
            target: Operand::Imm64(ppc_branch_target(is_64bit, pc, (instr >> 1u32) & 1 != 0, (instr & 0x3FFFFFC) as i32)),
            link: instr & 1 != 0,
        }
    } else if opcode == 0x11 {
        IRInstruction::CondBranch {
            condition: Operand::Reg(ppc_reg(instr, 16)),
            target: Operand::Imm64(ppc_cond_target(is_64bit, pc, (instr >> 1u32) & 1 != 0, ((instr & 0xFFFC) as i16) as i32)),
            link: instr & 1 != 0,
        }
    } else if opcode == 0x0E {
        IRInstruction::BinaryOp {
            op: BinaryOperator::Add,
            dest: ppc_reg(instr, 21),
            src1: Operand::Reg(ppc_reg(instr, 16)),
            src2: Operand::Imm64(ppc_simm(instr) as u64),
        }
    } else if opcode == 0x15 {
        IRInstruction::BinaryOp {
            op: BinaryOperator::Add,
            dest: ppc_reg(instr, 21),
            src1: Operand::Reg(ppc_reg(instr, 16)),
            src2: Operand::Imm64((ppc_simm(instr) << 16u64) as u64),
        }
    } else if opcode == 0x20 { ppc_load(instr, 4) }
    else if opcode == 0x21 { ppc_load(instr, 1) }
    else if opcode == 0x22 { ppc_store(instr, 4) }
    else if opcode == 0x23 { ppc_store(instr, 1) }
    else if opcode == 0x28 { ppc_load(instr, 4) }
    else if opcode == 0x2C { ppc_load(instr, 2) }
    else if opcode == 0x2D { ppc_store(instr, 2) }
    else if opcode == 0x3A { ppc_load(instr, 4) }
    else if opcode == 0x3B { ppc_store(instr, 4) }
    else {
        let xo = (instr >> 1u32) & 0x3FF;
        if xo == 266 {
            IRInstruction::BinaryOp {
                op: BinaryOperator::Add,
                dest: ppc_reg(instr, 21),
                src1: Operand::Reg(ppc_reg(instr, 16)),
                src2: Operand::Reg(ppc_reg(instr, 11)),
            }
        } else if xo == 40 {
            IRInstruction::BinaryOp {
                op: BinaryOperator::Sub,
                dest: ppc_reg(instr, 21),
                src1: Operand::Reg(ppc_reg(instr, 16)),
                src2: Operand::Reg(ppc_reg(instr, 11)),
            }
        } else {
            IRInstruction::Nop
        }
    }
}

/// `e` is the error `VmError::<kind> { <text field>: text, module: "powerpc" }`.
pub open spec fn is_decode_error(e: VmError, message: Seq<char>) -> bool {
    e matches VmError::DecodeError { message: m, module } && m@ == message && module@ == "powerpc"@
}

pub open spec fn is_not_supported(e: VmError, feature: Seq<char>) -> bool {
    e matches VmError::NotSupported { feature: f, module } && f@ == feature && module@ == "powerpc"@
}

/// Decoder of PowerPC instructions at a program counter.
pub struct PowerPCDecoder {
    pub arch: GuestArch,
    /// Program counter that relative branches are resolved against.
    pub pc: u64,
}

impl PowerPCDecoder {
    pub fn new(arch: GuestArch) -> (r: Self)
        ensures
            r.arch == arch,
            r.pc == 0,
    {
        PowerPCDecoder { arch, pc: 0 }
    }

    pub fn set_pc(&mut self, pc: u64)
        ensures
            final(self).pc == pc,
            final(self).arch == old(self).arch,
    {
        self.pc = pc;
    }

    pub fn get_pc(&self) -> (r: u64)
        ensures
            r == self.pc,
    {
        self.pc
    }

    pub fn is_64bit(&self) -> (r: bool)
        ensures
            r == (self.arch == GuestArch::PowerPC64),
    {
        match self.arch {
            GuestArch::PowerPC64 => true,
            _ => false,
        }
    }

    /// Decodes the instruction in the first four bytes (big-endian). Fails
    /// with "Instruction too short" on fewer than four bytes, and when the
    /// decoder is not configured for PowerPC64.
    pub fn decode(&self, bytes: &[u8]) -> (r: Result<IRInstruction, VmError>)
        ensures
            bytes@.len() < 4 ==> r is Err && is_decode_error(r->Err_0, "Instruction too short"@),
            bytes@.len() >= 4 && self.arch != GuestArch::PowerPC64 ==> r is Err && is_decode_error(
                r->Err_0,
                "Invalid architecture for PowerPC decoder: "@ + guest_arch_text(self.arch),
            ),
            bytes@.len() >= 4 && self.arch == GuestArch::PowerPC64 ==> r == Ok::<IRInstruction, VmError>(
                ppc_decode_word(true, self.pc, be32(bytes@)),
            ),
    {
        if bytes.len() < 4 {
            return Err(VmError::DecodeError { message: text("Instruction too short"), module: text("powerpc") });
        }
        if let Err(e) = self.validate_architecture() {
            return Err(e);
        }
        let instr: u32 = ((bytes[0] as u32) << 24) | ((bytes[1] as u32) << 16) | ((bytes[2] as u32) << 8)
            | (bytes[3] as u32);
        let opcode = (instr >> 26) & 0x3F;
        if opcode == 0x10 {
            self.decode_branch(instr)
        } else if opcode == 0x11 {
            self.decode_cond_branch(instr)
        } else if opcode == 0x0E {
            Self::decode_addi(instr)
        } else if opcode == 0x15 {
            Self::decode_addis(instr)
        } else if opcode == 0x20 || opcode == 0x28 || opcode == 0x3A {
            Self::decode_load(instr, 4)
        } else if opcode == 0x21 {
            Self::decode_load(instr, 1)
        } else if opcode == 0x2C {
            Self::decode_load(instr, 2)
        } else if opcode == 0x22 || opcode == 0x3B {
            Self::decode_store(instr, 4)
        } else if opcode == 0x23 {
            Self::decode_store(instr, 1)
        } else if opcode == 0x2D {
            Self::decode_store(instr, 2)
        } else {
            Self::decode_primary(instr)
        }
    }

    fn validate_architecture(&self) -> (r: Result<(), VmError>)
        ensures
            self.arch == GuestArch::PowerPC64 ==> r is Ok,
            self.arch != GuestArch::PowerPC64 ==> r is Err && is_decode_error(
                r->Err_0,
                "Invalid architecture for PowerPC decoder: "@ + guest_arch_text(self.arch),
            ),
    {
        match self.arch {
            GuestArch::PowerPC64 => Ok(()),
            _ => {
                let mut m = text("Invalid architecture for PowerPC decoder: ");
                push_text(&mut m, guest_arch_name(self.arch));
                Err(VmError::DecodeError { message: m, module: text("powerpc") })
            },
        }
    }

    fn decode_branch(&self, instr: u32) -> (r: Result<IRInstruction, VmError>)
        requires
            (instr >> 26u32) & 0x3F == 0x10,
        ensures
            r == Ok::<IRInstruction, VmError>(ppc_decode_word(self.arch == GuestArch::PowerPC64, self.pc, instr)),
    {
        let link_bit = instr & 0x1 != 0;
        let aa_bit = (instr >> 1) & 0x1 != 0;
        let li = (instr & 0x3FFFFFC) as i32;
        let target = if aa_bit {
            li as u64
        } else {
            let offset = if self.is_64bit() { li as i64 as u64 } else { (li as u32) as u64 };
            self.pc.wrapping_add(offset)
        };
        Ok(IRInstruction::Branch { target: Operand::Imm64(target), link: link_bit })
    }

    fn decode_cond_branch(&self, instr: u32) -> (r: Result<IRInstruction, VmError>)
        requires
            (instr >> 26u32) & 0x3F == 0x11,
        ensures
            r == Ok::<IRInstruction, VmError>(ppc_decode_word(self.arch == GuestArch::PowerPC64, self.pc, instr)),
    {
        let bi = (instr >> 16) & 0x1F;
        let bd = ((instr & 0xFFFC) as i16) as i32;
        let link_bit = instr & 0x1 != 0;
        let aa_bit = (instr >> 1) & 0x1 != 0;
        let target = if aa_bit {
            bd as u64
        } else {
            let offset = if self.is_64bit() { bd as i64 as u64 } else { (bd as u16) as u64 };
            self.pc.wrapping_add(offset)
        };
        Ok(IRInstruction::CondBranch { condition: Operand::Reg(bi), target: Operand::Imm64(target), link: link_bit })
    }

    fn decode_addi(instr: u32) -> (r: Result<IRInstruction, VmError>)
        requires
            (instr >> 26u32) & 0x3F == 0x0E,
        ensures
            forall|a: bool, pc: u64| r == Ok::<IRInstruction, VmError>(#[trigger] ppc_decode_word(a, pc, instr)),
    {
        let rt = (instr >> 21) & 0x1F;
        let ra = (instr >> 16) & 0x1F;
        let si = ((instr & 0xFFFF) as i16) as i64;
        Ok(IRInstruction::BinaryOp {
            op: BinaryOperator::Add,
            dest: rt,
            src1: Operand::Reg(ra),
            src2: Operand::Imm64(si as u64),
        })
    }

    fn decode_addis(instr: u32) -> (r: Result<IRInstruction, VmError>)
        requires
            (instr >> 26u32) & 0x3F == 0x15,
        ensures
            forall|a: bool, pc: u64| r == Ok::<IRInstruction, VmError>(#[trigger] ppc_decode_word(a, pc, instr)),
    {
        let rt = (instr >> 21) & 0x1F;
        let ra = (instr >> 16) & 0x1F;
        let si = ((instr & 0xFFFF) as i16) as i64;
        Ok(IRInstruction::BinaryOp {
            op: BinaryOperator::Add,
            dest: rt,
            src1: Operand::Reg(ra),
            src2: Operand::Imm64((si << 16) as u64),
        })
    }

    fn address(instr: u32) -> (r: Operand)
        ensures
            r == ppc_addr(instr),
    {
        let ra = (instr >> 16) & 0x1F;
        let d = ((instr & 0xFFFF) as i16) as i64;
        Operand::Binary {
            op: BinaryOperator::Add,
            left: Box::new(if ra != 0 { Operand::Reg(ra) } else { Operand::Imm64(0) }),
            right: Box::new(Operand::Imm64(d as u64)),
        }
    }

    /// `lwz`/`lha`/`lfs`-family (4), `lbz` (1), `lhz` (2) loads.
    fn decode_load(instr: u32, size: u8) -> (r: Result<IRInstruction, VmError>)
        ensures
            r == Ok::<IRInstruction, VmError>(ppc_load(instr, size)),
    {
        let rt = (instr >> 21) & 0x1F;
        Ok(IRInstruction::LoadExt { dest: rt, addr: Self::address(instr), size, flags: MemFlags { volatile: false, atomic: false } })
    }

    /// `stw`/`stfs`-family (4), `stb` (1), `sth` (2) stores.
    fn decode_store(instr: u32, size: u8) -> (r: Result<IRInstruction, VmError>)
        ensures
            r == Ok::<IRInstruction, VmError>(ppc_store(instr, size)),
    {
        let rs = (instr >> 21) & 0x1F;
        Ok(IRInstruction::StoreExt {
            value: Operand::Reg(rs),
            addr: Self::address(instr),
            size,
            flags: MemFlags { volatile: false, atomic: false },
        })
    }

    /// X-form arithmetic by extended opcode: 266 is `add`, 40 is `subf`;
    /// anything else decodes as a no-op.
    fn decode_primary(instr: u32) -> (r: Result<IRInstruction, VmError>)
        requires
            !((instr >> 26u32) & 0x3F == 0x10 || (instr >> 26u32) & 0x3F == 0x11 || (instr >> 26u32) & 0x3F == 0x0E
                || (instr >> 26u32) & 0x3F == 0x15 || (instr >> 26u32) & 0x3F == 0x20 || (instr >> 26u32) & 0x3F == 0x21
                || (instr >> 26u32) & 0x3F == 0x22 || (instr >> 26u32) & 0x3F == 0x23 || (instr >> 26u32) & 0x3F == 0x28
                || (instr >> 26u32) & 0x3F == 0x2C || (instr >> 26u32) & 0x3F == 0x2D || (instr >> 26u32) & 0x3F == 0x3A
                || (instr >> 26u32) & 0x3F == 0x3B),
        ensures
            forall|a: bool, pc: u64| r == Ok::<IRInstruction, VmError>(#[trigger] ppc_decode_word(a, pc, instr)),
    {
        let primary = (instr >> 1) & 0x3FF;
        let rt = (instr >> 21) & 0x1F;
        let ra = (instr >> 16) & 0x1F;
        let rb = (instr >> 11) & 0x1F;
        if primary == 266 {
            Ok(IRInstruction::BinaryOp { op: BinaryOperator::Add, dest: rt, src1: Operand::Reg(ra), src2: Operand::Reg(rb) })
        } else if primary == 40 {
            Ok(IRInstruction::BinaryOp { op: BinaryOperator::Sub, dest: rt, src1: Operand::Reg(ra), src2: Operand::Reg(rb) })
        } else {
            Ok(IRInstruction::Nop)
        }
    }
}

/// The low byte of a register number, as the 5-bit register fields take it.
pub open spec fn reg_byte(r: RegId) -> u32 {
    (r as u8) as u32
}

/// Primary opcode of the D-form load of `size` bytes, if any.
pub open spec fn load_opcode(size: u8) -> Option<u32> {
    if size == 1 { Some(0x21u32) } else if size == 2 { Some(0x2Cu32) } else if size == 4 { Some(0x20u32) } else { None }
}

/// Primary opcode of the D-form store of `size` bytes, if any.
pub open spec fn store_opcode(size: u8) -> Option<u32> {
    if size == 1 { Some(0x23u32) } else if size == 2 { Some(0x2Du32) } else if size == 4 { Some(0x22u32) } else { None }
}

/// What the encoder produces for a structured instruction once the
/// architecture is accepted: the instruction word, or the text of the
/// `NotSupported` error.
pub open spec fn ppc_encode_word(ir: IRInstruction) -> Result<u32, Seq<char>> {
    match ir {
        IRInstruction::BinaryOp { op, dest, .. } => match op {
            BinaryOperator::Add => Ok((reg_byte(dest) << 21u32) | (266u32 << 1u32)),
            BinaryOperator::Sub => Ok((reg_byte(dest) << 21u32) | (40u32 << 1u32)),
            _ => Ok(0u32),
        },
        IRInstruction::Branch { target, .. } => match target {
            Operand::Imm64(t) => Ok((0x10u32 << 26u32) | ((t as u32) & 0x3FFFFFCu32)),
            _ => Err("encode_branch"@),
        },
        IRInstruction::LoadExt { dest, size, .. } => if size > 8 {
            Err("load size "@ + dec(size as nat) + " for PowerPC64"@)
        } else {
            match load_opcode(size) {
                Some(opc) => Ok((opc << 26u32) | (reg_byte(dest) << 21u32)),
                None => Err("load size "@ + dec(size as nat)),
            }
        },
        IRInstruction::StoreExt { value, size, .. } => match store_opcode(size) {
            Some(opc) => match value {
                Operand::Reg(r) => Ok((opc << 26u32) | (reg_byte(r) << 21u32)),
                _ => Err("encode_store"@),
            },
            None => Err("store size "@ + dec(size as nat)),
        },
        _ => Ok(0u32),
    }
}

/// Encoder of structured instructions into PowerPC machine code.
pub struct PowerPCEncoder {
    pub arch: GuestArch,
}

/// The four big-endian bytes of a word.
fn be_bytes(w: u32) -> (v: Vec<u8>)
    ensures
        v@ == be32_bytes(w),
{
    let v = vec![(w >> 24) as u8, (w >> 16) as u8, (w >> 8) as u8, w as u8];
    assert(v@ =~= be32_bytes(w));
    v
}

fn ppc_not_supported(feature: String) -> (e: VmError)
    ensures
        e == (VmError::NotSupported { feature, module: e->NotSupported_module }),
        e->NotSupported_module@ == "powerpc"@,
{
    VmError::NotSupported { feature, module: text("powerpc") }
}

impl PowerPCEncoder {
    pub fn new(arch: GuestArch) -> (r: Self)
        ensures
            r.arch == arch,
    {
        PowerPCEncoder { arch }
    }

    pub fn is_64bit(&self) -> (r: bool)
        ensures
            r == (self.arch == GuestArch::PowerPC64),
    {
        match self.arch {
            GuestArch::PowerPC64 => true,
            _ => false,
        }
    }

    /// Encodes one structured instruction as four big-endian bytes. Fails
    /// when the encoder is not configured for PowerPC64, and as
    /// `ppc_encode_word` says for the operands it cannot encode.
    pub fn encode(&self, ir_instr: &IRInstruction) -> (r: Result<Vec<u8>, VmError>)
        ensures
            self.arch != GuestArch::PowerPC64 ==> r is Err && is_not_supported(
                r->Err_0,
                "Invalid architecture for PowerPC encoder: "@ + guest_arch_text(self.arch),
            ),
            self.arch == GuestArch::PowerPC64 ==> match ppc_encode_word(*ir_instr) {
                Ok(w) => r is Ok && r->Ok_0@ == be32_bytes(w),
                Err(f) => r is Err && is_not_supported(r->Err_0, f),
            },
    {
        if let Err(e) = self.validate_architecture() {
            return Err(e);
        }
        match ir_instr {
            IRInstruction::BinaryOp { op, dest, .. } => Ok(Self::encode_binary_op(*op, *dest)),
            IRInstruction::Branch { target, .. } => self.encode_branch(target),
            IRInstruction::LoadExt { dest, size, .. } => Self::encode_load(*dest, *size),
            IRInstruction::StoreExt { value, size, .. } => Self::encode_store(value, *size),
            _ => Ok(be_bytes(0)),
        }
    }

    fn validate_architecture(&self) -> (r: Result<(), VmError>)
        ensures
            self.arch == GuestArch::PowerPC64 ==> r is Ok,
            self.arch != GuestArch::PowerPC64 ==> r is Err && is_not_supported(
                r->Err_0,
                "Invalid architecture for PowerPC encoder: "@ + guest_arch_text(self.arch),
            ),
    {
        match self.arch {
            GuestArch::PowerPC64 => Ok(()),
            _ => {
                let mut m = text("Invalid architecture for PowerPC encoder: ");
                push_text(&mut m, guest_arch_name(self.arch));
                Err(ppc_not_supported(m))
            },
        }
    }

    /// X-form `add` (extended opcode 266) or `subf` (40) into `dest`; other
    /// operators encode as a zero word.
    fn encode_binary_op(op: BinaryOperator, dest: RegId) -> (v: Vec<u8>)
        ensures
            ppc_encode_word(IRInstruction::BinaryOp {
                op,
                dest,
                src1: Operand::Imm64(0),
                src2: Operand::Imm64(0),
            }) matches Ok(w) && v@ == be32_bytes(w),
    {
        let rt = dest as u8;
        let primary: u32 = match op {
            BinaryOperator::Add => 266,
            BinaryOperator::Sub => 40,
            _ => return be_bytes(0),
        };
        be_bytes(((rt as u32) << 21) | (primary << 1))
    }

    /// `b` to an immediate target: the low 26 bits of the target with the two
    /// low bits cleared.
    pub fn encode_branch(&self, target: &Operand) -> (r: Result<Vec<u8>, VmError>)
        ensures
            match ppc_encode_word(IRInstruction::Branch { target: *target, link: false }) {
                Ok(w) => r is Ok && r->Ok_0@ == be32_bytes(w),
                Err(f) => r is Err && is_not_supported(r->Err_0, f),
            },
    {
        if let Operand::Imm64(target_addr) = target {
            let offset = *target_addr as u32;
            Ok(be_bytes((0x10u32 << 26) | (offset & 0x3FFFFFC)))
        } else {
            Err(ppc_not_supported(text("encode_branch")))
        }
    }

    fn encode_load(dest: RegId, size: u8) -> (r: Result<Vec<u8>, VmError>)
        ensures
            match ppc_encode_word(IRInstruction::LoadExt {
                dest,
                addr: Operand::Imm64(0),
                size,
                flags: plain_flags(),
            }) {
                Ok(w) => r is Ok && r->Ok_0@ == be32_bytes(w),
                Err(f) => r is Err && is_not_supported(r->Err_0, f),
            },
    {
        if size > 8 {
            let mut m = text("load size ");
            push_u64(&mut m, size as u64);
            push_text(&mut m, " for PowerPC64");
            return Err(ppc_not_supported(m));
        }
        let opcode: u32 = if size == 1 {
            0x21
        } else if size == 2 {
            0x2C
        } else if size == 4 {
            0x20
        } else {
            let mut m = text("load size ");
            push_u64(&mut m, size as u64);
            return Err(ppc_not_supported(m));
        };
        let rt = dest as u8;
        Ok(be_bytes((opcode << 26) | ((rt as u32) << 21)))
    }

    fn encode_store(value: &Operand, size: u8) -> (r: Result<Vec<u8>, VmError>)
        ensures
            match ppc_encode_word(IRInstruction::StoreExt {
                value: *value,
                addr: Operand::Imm64(0),
                size,
                flags: plain_flags(),
            }) {
                Ok(w) => r is Ok && r->Ok_0@ == be32_bytes(w),
                Err(f) => r is Err && is_not_supported(r->Err_0, f),
            },
    {
        let opcode: u32 = if size == 1 {
            0x23
        } else if size == 2 {
            0x2D
        } else if size == 4 {
            0x22
        } else {
            let mut m = text("store size ");
            push_u64(&mut m, size as u64);
            return Err(ppc_not_supported(m));
        };
        let rs = if let Operand::Reg(reg) = value {
            *reg as u8
        } else {
            return Err(ppc_not_supported(text("encode_store")));
        };
        Ok(be_bytes((opcode << 26) | ((rs as u32) << 21)))
    }
}

/// Reading back the four bytes of a word gives the word.
pub proof fn lemma_be32_round_trip(w: u32)
    ensures
        be32(be32_bytes(w)) == w,
{
    let b = be32_bytes(w);
    let (b0, b1, b2, b3) = (b[0], b[1], b[2], b[3]);
    assert(b0 == (w >> 24u32) as u8 && b1 == (w >> 16u32) as u8 && b2 == (w >> 8u32) as u8 && b3 == w as u8);
    assert(((b0 as u32) << 24u32) | ((b1 as u32) << 16u32) | ((b2 as u32) << 8u32) | (b3 as u32) == w) by (bit_vector)
        requires
            b0 == (w >> 24u32) as u8,
            b1 == (w >> 16u32) as u8,
            b2 == (w >> 8u32) as u8,
            b3 == w as u8,
    ;
}

/// An `add` or `subf` that the encoder writes decodes to the same operator
/// and destination register (sources read as `r0`), for every destination
/// below 32.
pub proof fn lemma_ppc_binary_round_trip(op: BinaryOperator, dest: RegId, src1: Operand, src2: Operand, pc: u64)
    requires
        op == BinaryOperator::Add || op == BinaryOperator::Sub,
        dest < 32,
    ensures
        ppc_encode_word(IRInstruction::BinaryOp { op, dest, src1, src2 }) matches Ok(w)
            && ppc_decode_word(true, pc, be32(be32_bytes(w))) == (IRInstruction::BinaryOp {
            op,
            dest,
            src1: Operand::Reg(0),
            src2: Operand::Reg(0),
        }),
{
    let xo: u32 = if op == BinaryOperator::Add { 266 } else { 40 };
    let w = (reg_byte(dest) << 21u32) | (xo << 1u32);
    lemma_be32_round_trip(w);
    assert(reg_byte(dest) == dest) by (bit_vector)
        requires
            dest < 32,
    ;
    assert((w >> 26u32) & 0x3F == 0 && (w >> 21u32) & 0x1F == dest && (w >> 16u32) & 0x1F == 0 && (w >> 11u32)
        & 0x1F == 0 && (w >> 1u32) & 0x3FF == xo) by (bit_vector)
        requires
            dest < 32,
            xo == 266 || xo == 40,
            w == (dest << 21u32) | (xo << 1u32),
    ;
}

/// A load of 1, 2 or 4 bytes that the encoder writes decodes to a load of the
/// same size into the same register, from address `0 + 0`.
pub proof fn lemma_ppc_load_round_trip(dest: RegId, addr: Operand, size: u8, flags: MemFlags, pc: u64)
    requires
        size == 1 || size == 2 || size == 4,
        dest < 32,
    ensures
        ppc_encode_word(IRInstruction::LoadExt { dest, addr, size, flags }) matches Ok(w)
            && ppc_decode_word(true, pc, be32(be32_bytes(w))) == (IRInstruction::LoadExt {
            dest,
            addr: Operand::Binary {
                op: BinaryOperator::Add,
                left: Box::new(Operand::Imm64(0)),
                right: Box::new(Operand::Imm64(0)),
            },
            size,
            flags: plain_flags(),
        }),
{
    let opc = load_opcode(size)->Some_0;
    let w = (opc << 26u32) | (reg_byte(dest) << 21u32);
    lemma_be32_round_trip(w);
    assert(reg_byte(dest) == dest) by (bit_vector)
        requires
            dest < 32,
    ;
    assert((w >> 26u32) & 0x3F == opc && (w >> 21u32) & 0x1F == dest && (w >> 16u32) & 0x1F == 0 && w & 0xFFFF
        == 0) by (bit_vector)
        requires
            dest < 32,
            opc < 64,
            w == (opc << 26u32) | (dest << 21u32),
    ;
    assert(((0u32 & 0xFFFF) as i16) as i64 == 0) by (bit_vector);
}

/// A store of a register of 1, 2 or 4 bytes that the encoder writes decodes
/// to a store of the same size from the same register, to address `0 + 0`.
pub proof fn lemma_ppc_store_round_trip(reg: RegId, addr: Operand, size: u8, flags: MemFlags, pc: u64)
    requires
        size == 1 || size == 2 || size == 4,
        reg < 32,
    ensures
        ppc_encode_word(IRInstruction::StoreExt { value: Operand::Reg(reg), addr, size, flags }) matches Ok(w)
            && ppc_decode_word(true, pc, be32(be32_bytes(w))) == (IRInstruction::StoreExt {
            value: Operand::Reg(reg),
            addr: Operand::Binary {
                op: BinaryOperator::Add,
                left: Box::new(Operand::Imm64(0)),
                right: Box::new(Operand::Imm64(0)),
            },
            size,
            flags: plain_flags(),
        }),
{
    let opc = store_opcode(size)->Some_0;
    let w = (opc << 26u32) | (reg_byte(reg) << 21u32);
    lemma_be32_round_trip(w);
    assert(reg_byte(reg) == reg) by (bit_vector)
        requires
            reg < 32,
    ;
    assert((w >> 26u32) & 0x3F == opc && (w >> 21u32) & 0x1F == reg && (w >> 16u32) & 0x1F == 0 && w & 0xFFFF
        == 0) by (bit_vector)
        requires
            reg < 32,
            opc < 64,
            w == (opc << 26u32) | (reg << 21u32),
    ;
    assert(((0u32 & 0xFFFF) as i16) as i64 == 0) by (bit_vector);
}

/// A branch to an immediate target that the encoder writes decodes, at
/// `pc`, to an unlinked branch to `pc` plus the target's bits 2..25; so a
/// word-aligned target below 2^26 comes back unchanged at `pc == 0`.
pub proof fn lemma_ppc_branch_round_trip(t: u64, link: bool, pc: u64)
    ensures
        ppc_encode_word(IRInstruction::Branch { target: Operand::Imm64(t), link }) matches Ok(w)
            && ppc_decode_word(true, pc, be32(be32_bytes(w))) == (IRInstruction::Branch {
            target: Operand::Imm64(u64_specs::wrapping_add(pc, t & 0x3FFFFFC)),
            link: false,
        }),
        t < 0x4000000 && t % 4 == 0 ==> (t & 0x3FFFFFC) == t,
{
    let w = (0x10u32 << 26u32) | ((t as u32) & 0x3FFFFFCu32);
    lemma_be32_round_trip(w);
    assert((w >> 26u32) & 0x3F == 0x10 && (w >> 1u32) & 1 == 0 && w & 1 == 0 && ((w & 0x3FFFFFC) as i32) as i64
        as u64 == t & 0x3FFFFFC) by (bit_vector)
        requires
            w == (0x10u32 << 26u32) | ((t as u32) & 0x3FFFFFCu32),
    ;
    assert(t < 0x4000000 && t % 4 == 0 ==> (t & 0x3FFFFFC) == t) by (bit_vector);
}


/// The 64-bit value of the 16-bit immediate field of `instr`, sign
/// extended (bit 15 copied into bits 63..16), written with masks.
pub open spec fn imm16_sext(instr: u32) -> u64 {
    if instr & 0x8000 != 0 {
        ((instr & 0xFFFF) as u64) | 0xFFFF_FFFF_FFFF_0000u64
    } else {
        (instr & 0xFFFF) as u64
    }
}

/// The 16-bit immediate field of `instr` sign extended and placed in bits
/// 31..16 (the low sixteen bits zero), written with masks.
pub open spec fn imm16_shifted_sext(instr: u32) -> u64 {
    if instr & 0x8000 != 0 {
        (((instr & 0xFFFF) as u64) << 16u64) | 0xFFFF_FFFF_0000_0000u64
    } else {
        ((instr & 0xFFFF) as u64) << 16u64
    }
}

proof fn lemma_imm16_fields(instr: u32)
    by (bit_vector)
    ensures
        ((instr & 0xFFFF) as i16) as i64 as u64 == if instr & 0x8000 != 0 {
            ((instr & 0xFFFF) as u64) | 0xFFFF_FFFF_FFFF_0000u64
        } else {
            (instr & 0xFFFF) as u64
        },
        ((((instr & 0xFFFF) as i16) as i64) << 16u64) as u64 == if instr & 0x8000 != 0 {
            (((instr & 0xFFFF) as u64) << 16u64) | 0xFFFF_FFFF_0000_0000u64
        } else {
            ((instr & 0xFFFF) as u64) << 16u64
        },
{
}

/// The add-immediate words decode to an addition of the register in bits
/// 20..16 and the sign-extended 16-bit immediate into the register in bits
/// 25..21: primary opcode 0x0E takes the immediate as it is (`addi`), and
/// primary opcode 0x15, which the decoder reads as `addis`, takes it shifted
/// left by sixteen bits.
pub proof fn lemma_ppc_add_immediate_decode(is_64bit: bool, pc: u64, instr: u32)
    ensures
        (instr >> 26u32) & 0x3F == 0x0E ==> ppc_decode_word(is_64bit, pc, instr) == (IRInstruction::BinaryOp {
            op: BinaryOperator::Add,
            dest: (instr >> 21u32) & 0x1F,
            src1: Operand::Reg((instr >> 16u32) & 0x1F),
            src2: Operand::Imm64(imm16_sext(instr)),
        }),
        (instr >> 26u32) & 0x3F == 0x15 ==> ppc_decode_word(is_64bit, pc, instr) == (IRInstruction::BinaryOp {
            op: BinaryOperator::Add,
            dest: (instr >> 21u32) & 0x1F,
            src1: Operand::Reg((instr >> 16u32) & 0x1F),
            src2: Operand::Imm64(imm16_shifted_sext(instr)),
        }),
{
    lemma_imm16_fields(instr);
}

} // verus!
