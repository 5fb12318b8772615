//! An encoder built on a shared framework: register mapping and memory
//! access optimization come from the framework, and this module lays out
//! the bytes of arithmetic and memory instructions for each target from the
//! mapped registers and the optimized access.

use vstd::prelude::*;
use crate::encoding::{fetched_word, lemma_fetched_le32, Architecture, InsnView, TargetInstruction, le32, push_le32};
use crate::encoder_arm64::a64_shifted_register;
use crate::encoder_riscv::rv_rtype_fields;
use crate::encoder_x86::x86_modrm_direct;
use crate::text::text;

verus! {

/// The width of a memory access.
#[derive(Debug, Clone, Copy, PartialEq, Eq, Structural)]
pub enum AccessWidth {
    Byte,
    HalfWord,
    Word,
    DoubleWord,
    QuadWord,
    /// A vector access of the given number of bytes.
    Vector(u32),
}

/// The kind of a memory access: a read, a write, or any other kind (which
/// this encoder does not handle).
#[derive(Debug, Clone, Copy, PartialEq, Eq, Structural)]
pub enum AccessType {
    Read,
    Write,
    Other,
}

/// Errors of the encoder.
#[derive(Debug, Clone, Copy, PartialEq, Eq, Structural)]
pub enum EncodingError {
    /// The operation or access has no encoding here.
    InvalidFormat,
}

/// The two-register operations this encoder knows, by name.
pub open spec fn arith_kind(op: Seq<char>) -> Option<nat> {
    if op == "add"@ {
        Some(0)
    } else if op == "sub"@ {
        Some(1)
    } else if op == "and"@ {
        Some(2)
    } else if op == "or"@ {
        Some(3)
    } else if op == "xor"@ {
        Some(4)
    } else {
        None
    }
}

pub open spec fn x86_arith_opcode(k: nat) -> u8 {
    if k == 0 { 0x01 } else if k == 1 { 0x29 } else if k == 2 { 0x21 } else if k == 3 { 0x09 } else { 0x31 }
}

pub open spec fn arm64_arith_base(k: nat) -> u32 {
    if k == 0 {
        0x8B000000
    } else if k == 1 {
        0xCB000000
    } else if k == 2 {
        0x8A000000
    } else if k == 3 {
        0x8A200000
    } else {
        0xCA000000
    }
}

pub open spec fn riscv_arith_base(k: nat) -> u32 {
    if k == 0 {
        0x00000033
    } else if k == 1 {
        0x40000033
    } else if k == 2 {
        0x70000033
    } else if k == 3 {
        0x60000033
    } else {
        0x40003333
    }
}

/// The bytes of operation `k` from the mapped registers: on x86-64 a REX.W
/// prefix, the opcode (`op r/m64, r64`) and a register-to-register ModR/M
/// byte with the destination in r/m and the second source in reg; on ARM64 and RISC-V64 a little-endian
/// word of the base opcode with the three register fields.
pub open spec fn arith_bytes(arch: Architecture, k: nat, dst: u32, src1: u32, src2: u32) -> Seq<u8> {
    match arch {
        Architecture::X86_64 => seq![0x48u8, x86_arith_opcode(k), (0xC0u32 | ((src2 & 7) << 3u32) | (dst & 7)) as u8],
        Architecture::ARM64 => le32(arm64_arith_base(k) | (dst & 0x1F) | ((src1 & 0x1F) << 5u32) | ((src2 & 0x1F) << 16u32)),
        Architecture::RISCV64 => le32(
            riscv_arith_base(k) | ((dst & 0x1F) << 7u32) | ((src1 & 0x1F) << 15u32) | ((src2 & 0x1F) << 20u32),
        ),
    }
}

/// The x86-64 prefix and opcode of a read or write of `width`.
pub open spec fn x86_mem_code(write: bool, width: AccessWidth) -> (Option<u8>, u8) {
    let load = !write;
    match width {
        AccessWidth::Byte => (Some(0x40u8), if load { 0x8Au8 } else { 0x88u8 }),
        AccessWidth::HalfWord => (Some(0x66u8), if load { 0x8Bu8 } else { 0x89u8 }),
        AccessWidth::Word => (None, if load { 0x8Bu8 } else { 0x89u8 }),
        _ => (Some(0x48u8), if load { 0x8Bu8 } else { 0x89u8 }),
    }
}

/// The ARM64 base opcode of a read or write of `width`.
pub open spec fn arm64_mem_base(write: bool, width: AccessWidth) -> u32 {
    match width {
        AccessWidth::Byte => if write { 0x39000000 } else { 0x39400000 },
        AccessWidth::HalfWord => if write { 0x79000000 } else { 0x79400000 },
        AccessWidth::Word => if write { 0xB9000000 } else { 0xB9400000 },
        AccessWidth::DoubleWord | AccessWidth::QuadWord => if write { 0xF9000000 } else { 0xF9400000 },
        AccessWidth::Vector(_) => if write { 0x3D800000 } else { 0x3DC00000 },
    }
}

/// The RISC-V64 base opcode and funct3 of a read or write of `width`.
pub open spec fn riscv_mem_code(write: bool, width: AccessWidth) -> (u32, u32) {
    let op: u32 = if write { 0x23 } else { 0x03 };
    match width {
        AccessWidth::Byte => (op, 0),
        AccessWidth::HalfWord => ((op | 0x1000u32) as u32, 1),
        AccessWidth::Word => ((op | 0x2000u32) as u32, 2),
        _ => ((op | 0x3000u32) as u32, 3),
    }
}

/// Two little-endian bytes of the low half of `imm`.
pub open spec fn imm16_bytes(imm: i64) -> Seq<u8> {
    seq![(imm as u16) as u8, ((imm as u16) >> 8u16) as u8]
}

/// The bytes of a read (`write == false`) or write between the mapped
/// register `dst` and memory at the mapped register `base` plus `offset`,
/// of `width`: on x86-64 the prefix (where there is one), the opcode, a
/// ModR/M byte (with a 32-bit displacement where the offset is not zero)
/// and the displacement; on ARM64 and RISC-V64 a little-endian word with the
/// register fields, followed, where the offset is not zero, by its low 16
/// bits.
pub open spec fn mem_bytes(arch: Architecture, write: bool, dst: u32, base: u32, offset: i64, width: AccessWidth) -> Seq<u8> {
    match arch {
        Architecture::X86_64 => {
            let (prefix, opcode) = x86_mem_code(write, width);
            let head: Seq<u8> = match prefix {
                Some(p) => seq![p, opcode],
                None => seq![opcode],
            };
            let modrm = ((if offset == 0 { 0u32 } else { 0x80u32 }) | ((dst & 7) << 3u32) | (base & 7)) as u8;
            head.push(modrm) + if offset == 0 {
                Seq::empty()
            } else {
                le32(offset as u32)
            }
        },
        Architecture::ARM64 => le32(arm64_mem_base(write, width) | (dst & 0x1F) | ((base & 0x1F) << 5u32)) + if offset == 0 {
            Seq::empty()
        } else {
            imm16_bytes(offset)
        },
        Architecture::RISCV64 => {
            let (op, funct3) = riscv_mem_code(write, width);
            le32(op | ((dst & 0x1F) << 7u32) | ((base & 0x1F) << 15u32) | (funct3 << 12u32)) + if offset == 0 {
                Seq::empty()
            } else {
                imm16_bytes(offset)
            }
        },
    }
}

/// One instruction of the given bytes and mnemonic that is no control flow.
pub open spec fn insn_of(bytes: Seq<u8>, mnemonic: Seq<char>, is_memory_op: bool) -> InsnView {
    InsnView { bytes, length: bytes.len() as usize, mnemonic, is_control_flow: false, is_memory_op }
}

/// An encoder for one target architecture.
#[derive(Debug, Clone, Copy)]
pub struct RefactoredArchEncoder {
    pub architecture: Architecture,
}

impl RefactoredArchEncoder {
    pub fn new(architecture: Architecture) -> (r: Result<Self, EncodingError>)
        ensures
            r matches Ok(e) && e.architecture == architecture,
    {
        Ok(RefactoredArchEncoder { architecture })
    }

    /// Encodes the two-register operation named `operation` (`add`, `sub`,
    /// `and`, `or` or `xor`) between registers already mapped to the
    /// target; any other name is `InvalidFormat`.
    pub fn encode_arithmetic_op(&self, target_dst: u32, target_src1: u32, target_src2: u32, operation: &str) -> (r: Result<
        Vec<TargetInstruction>,
        EncodingError,
    >)
        ensures
            match arith_kind(operation@) {
                Some(k) => r matches Ok(v) && v@.len() == 1 && v@[0]@ == insn_of(
                    arith_bytes(self.architecture, k, target_dst, target_src1, target_src2),
                    operation@,
                    false,
                ),
                None => r == Err::<Vec<TargetInstruction>, EncodingError>(EncodingError::InvalidFormat),
            },
    {
        let name = text(operation);
        proof {
            reveal_strlit("add");
            reveal_strlit("sub");
            reveal_strlit("and");
            reveal_strlit("or");
            reveal_strlit("xor");
        }
        let k: u8 = if name == text("add") {
            0
        } else if name == text("sub") {
            1
        } else if name == text("and") {
            2
        } else if name == text("or") {
            3
        } else if name == text("xor") {
            4
        } else {
            return Err(EncodingError::InvalidFormat);
        };
        let mut bytes: Vec<u8> = Vec::new();
        match self.architecture {
            Architecture::X86_64 => {
                let opcode: u8 = if k == 0 {
                    0x01
                } else if k == 1 {
                    0x29
                } else if k == 2 {
                    0x21
                } else if k == 3 {
                    0x09
                } else {
                    0x31
                };
                bytes.push(0x48);
                bytes.push(opcode);
                bytes.push((0xC0u32 | ((target_src2 & 7) << 3u32) | (target_dst & 7)) as u8);
            },
            Architecture::ARM64 => {
                let base: u32 = if k == 0 {
                    0x8B000000
                } else if k == 1 {
                    0xCB000000
                } else if k == 2 {
                    0x8A000000
                } else if k == 3 {
                    0x8A200000
                } else {
                    0xCA000000
                };
                push_le32(
                    &mut bytes,
                    base | (target_dst & 0x1F) | ((target_src1 & 0x1F) << 5u32) | ((target_src2 & 0x1F) << 16u32),
                );
            },
            Architecture::RISCV64 => {
                let base: u32 = if k == 0 {
                    0x00000033
                } else if k == 1 {
                    0x40000033
                } else if k == 2 {
                    0x70000033
                } else if k == 3 {
                    0x60000033
                } else {
                    0x40003333
                };
                push_le32(
                    &mut bytes,
                    base | ((target_dst & 0x1F) << 7u32) | ((target_src1 & 0x1F) << 15u32) | ((target_src2 & 0x1F) << 20u32),
                );
            },
        }
        assert(bytes@ =~= arith_bytes(self.architecture, k as nat, target_dst, target_src1, target_src2));
        let length = bytes.len();
        let insn = TargetInstruction {
            bytes,
            length,
            mnemonic: text(operation),
            is_control_flow: false,
            is_memory_op: false,
        };
        let v = vec![insn];
        assert(v@[0]@ == insn_of(arith_bytes(self.architecture, k as nat, target_dst, target_src1, target_src2), operation@, false));
        Ok(v)
    }

    /// Encodes a read into, or a write from, the mapped register
    /// `target_dst` at the mapped register `target_base` plus
    /// `effective_offset`, of `effective_width` (the offset and width as the
    /// access optimizer leaves them; see `mem_bytes`). Other kinds of access
    /// are `InvalidFormat`.
    pub fn encode_memory_op(
        &self,
        target_dst: u32,
        target_base: u32,
        effective_offset: i64,
        effective_width: AccessWidth,
        access_type: AccessType,
    ) -> (r: Result<Vec<TargetInstruction>, EncodingError>)
        ensures
            match access_type {
                AccessType::Other => r == Err::<Vec<TargetInstruction>, EncodingError>(EncodingError::InvalidFormat),
                _ => r matches Ok(v) && v@.len() == 1 && v@[0]@ == insn_of(
                    mem_bytes(
                        self.architecture,
                        access_type == AccessType::Write,
                        target_dst,
                        target_base,
                        effective_offset,
                        effective_width,
                    ),
                    "mov"@,
                    true,
                ),
            },
    {
        let write = match access_type {
            AccessType::Read => false,
            AccessType::Write => true,
            AccessType::Other => {
                return Err(EncodingError::InvalidFormat);
            },
        };
        let mut bytes: Vec<u8> = Vec::new();
        match self.architecture {
            Architecture::X86_64 => {
                let (prefix, opcode): (Option<u8>, u8) = match effective_width {
                    AccessWidth::Byte => (Some(0x40), if write { 0x88 } else { 0x8A }),
                    AccessWidth::HalfWord => (Some(0x66), if write { 0x89 } else { 0x8B }),
                    AccessWidth::Word => (None, if write { 0x89 } else { 0x8B }),
                    _ => (Some(0x48), if write { 0x89 } else { 0x8B }),
                };
                match prefix {
                    Some(p) => bytes.push(p),
                    None => {},
                }
                bytes.push(opcode);
                let md: u32 = if effective_offset == 0 {
                    0
                } else {
                    0x80
                };
                bytes.push((md | ((target_dst & 7) << 3u32) | (target_base & 7)) as u8);
                if effective_offset != 0 {
                    push_le32(&mut bytes, effective_offset as u32);
                }
            },
            Architecture::ARM64 => {
                let base: u32 = match effective_width {
                    AccessWidth::Byte => if write { 0x39000000 } else { 0x39400000 },
                    AccessWidth::HalfWord => if write { 0x79000000 } else { 0x79400000 },
                    AccessWidth::Word => if write { 0xB9000000 } else { 0xB9400000 },
                    AccessWidth::DoubleWord | AccessWidth::QuadWord => if write { 0xF9000000 } else { 0xF9400000 },
                    AccessWidth::Vector(_) => if write { 0x3D800000 } else { 0x3DC00000 },
                };
                push_le32(&mut bytes, base | (target_dst & 0x1F) | ((target_base & 0x1F) << 5u32));
                if effective_offset != 0 {
                    let imm = effective_offset as u16;
                    bytes.push(imm as u8);
                    bytes.push((imm >> 8u16) as u8);
                }
            },
            Architecture::RISCV64 => {
                let op: u32 = if write { 0x23 } else { 0x03 };
                let (base, funct3): (u32, u32) = match effective_width {
                    AccessWidth::Byte => (op, 0),
                    AccessWidth::HalfWord => (op | 0x1000u32, 1),
                    AccessWidth::Word => (op | 0x2000u32, 2),
                    _ => (op | 0x3000u32, 3),
                };
                push_le32(
                    &mut bytes,
                    base | ((target_dst & 0x1F) << 7u32) | ((target_base & 0x1F) << 15u32) | (funct3 << 12u32),
                );
                if effective_offset != 0 {
                    let imm = effective_offset as u16;
                    bytes.push(imm as u8);
                    bytes.push((imm >> 8u16) as u8);
                }
            },
        }
        assert(bytes@ =~= mem_bytes(
            self.architecture,
            write,
            target_dst,
            target_base,
            effective_offset,
            effective_width,
        ));
        let length = bytes.len();
        let insn = TargetInstruction { bytes, length, mnemonic: text("mov"), is_control_flow: false, is_memory_op: true };
        let v = vec![insn];
        Ok(v)
    }
}

proof fn lemma_arith_word_fields(d: u32, n: u32, m: u32)
    by (bit_vector)
    ensures
        x86_modrm_direct((0xC0u32 | ((m & 7) << 3u32) | (d & 7)) as u8, m, d),
        a64_shifted_register(0x8B000000u32 | (d & 0x1F) | ((n & 0x1F) << 5u32) | ((m & 0x1F) << 16u32), 0x458, d, n, m),
        a64_shifted_register(0xCB000000u32 | (d & 0x1F) | ((n & 0x1F) << 5u32) | ((m & 0x1F) << 16u32), 0x658, d, n, m),
        a64_shifted_register(0x8A000000u32 | (d & 0x1F) | ((n & 0x1F) << 5u32) | ((m & 0x1F) << 16u32), 0x450, d, n, m),
        a64_shifted_register(0xCA000000u32 | (d & 0x1F) | ((n & 0x1F) << 5u32) | ((m & 0x1F) << 16u32), 0x650, d, n, m),
        rv_rtype_fields(0x00000033u32 | ((d & 0x1F) << 7u32) | ((n & 0x1F) << 15u32) | ((m & 0x1F) << 20u32), 0x33, 0, 0, d, n, m),
        rv_rtype_fields(0x40000033u32 | ((d & 0x1F) << 7u32) | ((n & 0x1F) << 15u32) | ((m & 0x1F) << 20u32), 0x33, 0, 0x20, d, n, m),
{
}

/// The named two-register operations against the processors' opcode
/// tables. On x86-64 each is `REX.W op /r` (the `op r/m64, r64` form, with
/// the destination in r/m and the second source in reg): ADD 01, SUB 29,
/// AND 21, OR 09, XOR 31. On ARM64 `add`, `sub`, `and` and `xor` are the
/// 64-bit shifted-register ADD, SUB, AND and EOR (bits 31..21 = 0b10001011000,
/// 0b11001011000, 0b10001010000, 0b11001010000) with Rd, Rn, Rm the
/// destination and the two sources. On RISC-V64 `add` and `sub` are the
/// R-type ADD and SUB. Left out: `or` on ARM64, and `and`, `or`, `xor` on
/// RISC-V64, whose words this encoder takes from its own table.
pub proof fn lemma_arith_opcode_tables(d: u32, n: u32, m: u32)
    ensures
        arith_kind("add"@) == Some(0nat),
        arith_kind("sub"@) == Some(1nat),
        arith_kind("and"@) == Some(2nat),
        arith_kind("or"@) == Some(3nat),
        arith_kind("xor"@) == Some(4nat),
        forall|k: nat| #![trigger arith_bytes(Architecture::X86_64, k, d, n, m)] k <= 4 ==> {
            let b = arith_bytes(Architecture::X86_64, k, d, n, m);
            &&& b.len() == 3
            &&& b[0] == 0x48
            &&& b[1] == (if k == 0 { 0x01u8 } else if k == 1 { 0x29u8 } else if k == 2 { 0x21u8 } else if k == 3 {
                0x09u8
            } else {
                0x31u8
            })
            &&& x86_modrm_direct(b[2], m, d)
        },
        arith_bytes(Architecture::ARM64, 0, d, n, m).len() == 4,
        a64_shifted_register(fetched_word(arith_bytes(Architecture::ARM64, 0, d, n, m)), 0x458, d, n, m),
        a64_shifted_register(fetched_word(arith_bytes(Architecture::ARM64, 1, d, n, m)), 0x658, d, n, m),
        a64_shifted_register(fetched_word(arith_bytes(Architecture::ARM64, 2, d, n, m)), 0x450, d, n, m),
        a64_shifted_register(fetched_word(arith_bytes(Architecture::ARM64, 4, d, n, m)), 0x650, d, n, m),
        arith_bytes(Architecture::RISCV64, 0, d, n, m).len() == 4,
        rv_rtype_fields(fetched_word(arith_bytes(Architecture::RISCV64, 0, d, n, m)), 0x33, 0, 0, d, n, m),
        rv_rtype_fields(fetched_word(arith_bytes(Architecture::RISCV64, 1, d, n, m)), 0x33, 0, 0x20, d, n, m),
{
    reveal_strlit("add");
    reveal_strlit("sub");
    reveal_strlit("and");
    reveal_strlit("or");
    reveal_strlit("xor");
    assert("add"@[0] != "sub"@[0] && "add"@[1] != "and"@[1] && "add"@[0] != "xor"@[0]);
    assert("sub"@[0] != "and"@[0] && "sub"@[0] != "xor"@[0]);
    lemma_arith_word_fields(d, n, m);
    lemma_fetched_le32(0x8B000000u32 | (d & 0x1F) | ((n & 0x1F) << 5u32) | ((m & 0x1F) << 16u32));
    lemma_fetched_le32(0xCB000000u32 | (d & 0x1F) | ((n & 0x1F) << 5u32) | ((m & 0x1F) << 16u32));
    lemma_fetched_le32(0x8A000000u32 | (d & 0x1F) | ((n & 0x1F) << 5u32) | ((m & 0x1F) << 16u32));
    lemma_fetched_le32(0xCA000000u32 | (d & 0x1F) | ((n & 0x1F) << 5u32) | ((m & 0x1F) << 16u32));
    lemma_fetched_le32(0x00000033u32 | ((d & 0x1F) << 7u32) | ((n & 0x1F) << 15u32) | ((m & 0x1F) << 20u32));
    lemma_fetched_le32(0x40000033u32 | ((d & 0x1F) << 7u32) | ((n & 0x1F) << 15u32) | ((m & 0x1F) << 20u32));
}

/// Bits 31..22 of the A64 load/store (unsigned offset) word for an access
/// of `width`, by the A64 tables: LDRB/STRB, LDRH/STRH, LDR/STR of a W
/// register, of an X register, and of a Q register.
pub open spec fn a64_ldst_top(write: bool, width: AccessWidth) -> u32 {
    match width {
        AccessWidth::Byte => if write { 0b0011100100 } else { 0b0011100101 },
        AccessWidth::HalfWord => if write { 0b0111100100 } else { 0b0111100101 },
        AccessWidth::Word => if write { 0b1011100100 } else { 0b1011100101 },
        AccessWidth::DoubleWord | AccessWidth::QuadWord => if write { 0b1111100100 } else { 0b1111100101 },
        AccessWidth::Vector(_) => if write { 0b0011110110 } else { 0b0011110111 },
    }
}

/// The x86-64 opcode of a load or store of `width` by the Intel tables:
/// MOV r8, r/m8 (8A) and MOV r/m8, r8 (88) for bytes, MOV r, r/m (8B) and
/// MOV r/m, r (89) otherwise.
pub open spec fn x86_mov_opcode(write: bool, width: AccessWidth) -> u8 {
    if width is Byte {
        if write { 0x88 } else { 0x8A }
    } else {
        if write { 0x89 } else { 0x8B }
    }
}

proof fn lemma_mem_fields(c: u32, d: u32, n: u32, z: bool)
    by (bit_vector)
    ensures
        c & 0x3FF == 0 ==> (c | (d & 0x1F) | ((n & 0x1F) << 5u32)) >> 22u32 == c >> 22u32,
        c & 0x3FF == 0 ==> ((c | (d & 0x1F) | ((n & 0x1F) << 5u32)) >> 5u32) & 0x1F == n & 0x1F,
        c & 0x3FF == 0 ==> (c | (d & 0x1F) | ((n & 0x1F) << 5u32)) & 0x1F == d & 0x1F,
        (((if z { 0u32 } else { 0x80u32 }) | ((d & 7) << 3u32) | (n & 7)) as u8) >> 6u8 == (if z { 0u8 } else { 2u8 }),
        (((((if z { 0u32 } else { 0x80u32 }) | ((d & 7) << 3u32) | (n & 7)) as u8) >> 3u8) & 7u8) as u32 == d & 7,
        ((((if z { 0u32 } else { 0x80u32 }) | ((d & 7) << 3u32) | (n & 7)) as u8) & 7u8) as u32 == n & 7,
        0x39000000u32 & 0x3FF == 0 && 0x39000000u32 >> 22u32 == 0b0011100100,
        0x39400000u32 & 0x3FF == 0 && 0x39400000u32 >> 22u32 == 0b0011100101,
        0x79000000u32 & 0x3FF == 0 && 0x79000000u32 >> 22u32 == 0b0111100100,
        0x79400000u32 & 0x3FF == 0 && 0x79400000u32 >> 22u32 == 0b0111100101,
        0xB9000000u32 & 0x3FF == 0 && 0xB9000000u32 >> 22u32 == 0b1011100100,
        0xB9400000u32 & 0x3FF == 0 && 0xB9400000u32 >> 22u32 == 0b1011100101,
        0xF9000000u32 & 0x3FF == 0 && 0xF9000000u32 >> 22u32 == 0b1111100100,
        0xF9400000u32 & 0x3FF == 0 && 0xF9400000u32 >> 22u32 == 0b1111100101,
        0x3D800000u32 & 0x3FF == 0 && 0x3D800000u32 >> 22u32 == 0b0011110110,
        0x3DC00000u32 & 0x3FF == 0 && 0x3DC00000u32 >> 22u32 == 0b0011110111,
{
}

/// Loads and stores against the processors' tables. On ARM64 the first
/// word is the unsigned-offset LDR/STR of the access width (see
/// `a64_ldst_top`) with Rt the register and Rn the base. On x86-64 the
/// opcode byte is MOV of the width and direction (see `x86_mov_opcode`),
/// right after the one prefix that a byte, half-word or 64-bit access
/// takes, and the ModR/M byte has mod 00 for a zero offset, else mod 10
/// followed by the offset as a 32-bit little-endian displacement, with the
/// register in reg and the base in r/m.
pub proof fn lemma_memory_op_tables(write: bool, d: u32, base: u32, offset: i64, width: AccessWidth)
    ensures
        ({
            let b = mem_bytes(Architecture::ARM64, write, d, base, offset, width);
            &&& b.len() >= 4
            &&& fetched_word(b) >> 22u32 == a64_ldst_top(write, width)
            &&& (fetched_word(b) >> 5u32) & 0x1F == base & 0x1F
            &&& fetched_word(b) & 0x1F == d & 0x1F
        }),
        ({
            let b = mem_bytes(Architecture::X86_64, write, d, base, offset, width);
            let h: int = if width is Word { 0 } else { 1 };
            &&& b.len() == h + 2 + (if offset == 0 { 0int } else { 4int })
            &&& b[h] == x86_mov_opcode(write, width)
            &&& b[h + 1] >> 6u8 == (if offset == 0 { 0u8 } else { 2u8 })
            &&& ((b[h + 1] >> 3u8) & 7u8) as u32 == d & 7
            &&& (b[h + 1] & 7u8) as u32 == base & 7
            &&& offset != 0 ==> fetched_word(b.subrange(h + 2, h + 6)) == offset as u32
        }),
{
    let c = arm64_mem_base(write, width);
    lemma_mem_fields(c, d, base, offset == 0);
    let aw = c | (d & 0x1F) | ((base & 0x1F) << 5u32);
    lemma_fetched_le32(aw);
    lemma_fetched_le32(offset as u32);
    let ab = mem_bytes(Architecture::ARM64, write, d, base, offset, width);
    assert(ab.subrange(0, 4) =~= le32(aw));
    assert(fetched_word(ab) == fetched_word(le32(aw)));
    let xb = mem_bytes(Architecture::X86_64, write, d, base, offset, width);
    let h: int = if width is Word { 0 } else { 1 };
    if offset != 0 {
        assert(xb.subrange(h + 2, h + 6) =~= le32(offset as u32));
    }
}

} // verus!
