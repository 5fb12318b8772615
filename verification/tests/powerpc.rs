use vm_cross_arch::error::VmError;
use vm_cross_arch::ir::{BinaryOperator, GuestArch, IRInstruction, MemFlags, Operand};
use vm_cross_arch::powerpc::{PowerPCDecoder, PowerPCEncoder};

#[test]
fn test_decode_addi() {
    let decoder = PowerPCDecoder::new(GuestArch::PowerPC64);
    let instr = 0x38210004u32.to_be_bytes();

    let result = decoder.decode(&instr).expect("Failed to decode ADDI instruction");
    if let IRInstruction::BinaryOp { op, dest: _, src1: _, src2: _ } = result {
        assert_eq!(op, BinaryOperator::Add);
    } else {
        panic!("Expected BinaryOp");
    }
}

#[test]
fn test_encode_branch() {
    let encoder = PowerPCEncoder::new(GuestArch::PowerPC64);
    let target = Operand::Imm64(0x1000);

    let result = encoder.encode_branch(&target).expect("Failed to encode branch");
    assert_eq!(result.len(), 4);
}

#[test]
fn test_decode_lwz() {
    let decoder = PowerPCDecoder::new(GuestArch::PowerPC64);
    let instr = 0x80000000u32.to_be_bytes();

    let result = decoder.decode(&instr).expect("Failed to decode LWZ instruction");
    if let IRInstruction::LoadExt { size, .. } = result {
        assert_eq!(size, 4);
    } else {
        panic!("Expected Load");
    }
}

#[test]
fn addi_decodes_registers_and_immediate() {
    let decoder = PowerPCDecoder::new(GuestArch::PowerPC64);
    // addi r1, r1, 4
    let result = decoder.decode(&0x38210004u32.to_be_bytes()).unwrap();
    assert_eq!(
        result,
        IRInstruction::BinaryOp {
            op: BinaryOperator::Add,
            dest: 1,
            src1: Operand::Reg(1),
            src2: Operand::Imm64(4),
        }
    );
}

#[test]
fn short_input_is_a_decode_error() {
    let decoder = PowerPCDecoder::new(GuestArch::PowerPC64);
    match decoder.decode(&[0x38, 0x21, 0x00]) {
        Err(VmError::DecodeError { message, .. }) => assert_eq!(message, "Instruction too short"),
        other => panic!("unexpected {:?}", other),
    }
}

#[test]
fn wrong_architecture_is_a_decode_error() {
    let decoder = PowerPCDecoder::new(GuestArch::X86_64);
    match decoder.decode(&0x38210004u32.to_be_bytes()) {
        Err(VmError::DecodeError { message, .. }) => {
            assert_eq!(message, "Invalid architecture for PowerPC decoder: X86_64")
        }
        other => panic!("unexpected {:?}", other),
    }
}

#[test]
fn encoded_add_decodes_to_add_into_same_register() {
    let encoder = PowerPCEncoder::new(GuestArch::PowerPC64);
    let decoder = PowerPCDecoder::new(GuestArch::PowerPC64);
    let insn = IRInstruction::BinaryOp {
        op: BinaryOperator::Add,
        dest: 3,
        src1: Operand::Reg(4),
        src2: Operand::Reg(5),
    };
    let bytes = encoder.encode(&insn).unwrap();
    assert_eq!(bytes.len(), 4);
    assert_eq!(
        decoder.decode(&bytes).unwrap(),
        IRInstruction::BinaryOp { op: BinaryOperator::Add, dest: 3, src1: Operand::Reg(0), src2: Operand::Reg(0) }
    );
}

#[test]
fn encoded_load_decodes_to_load_of_same_size() {
    let encoder = PowerPCEncoder::new(GuestArch::PowerPC64);
    let decoder = PowerPCDecoder::new(GuestArch::PowerPC64);
    let insn = IRInstruction::LoadExt {
        dest: 7,
        addr: Operand::Binary {
            op: BinaryOperator::Add,
            left: Box::new(Operand::Reg(2)),
            right: Box::new(Operand::Imm64(16)),
        },
        size: 4,
        flags: MemFlags::default(),
    };
    let bytes = encoder.encode(&insn).unwrap();
    assert_eq!(
        decoder.decode(&bytes).unwrap(),
        IRInstruction::LoadExt {
            dest: 7,
            addr: Operand::Binary {
                op: BinaryOperator::Add,
                left: Box::new(Operand::Imm64(0)),
                right: Box::new(Operand::Imm64(0)),
            },
            size: 4,
            flags: MemFlags::default(),
        }
    );
}

#[test]
fn branch_to_0x1000_is_a_b_instruction() {
    let encoder = PowerPCEncoder::new(GuestArch::PowerPC64);
    let bytes = encoder.encode_branch(&Operand::Imm64(0x1000)).unwrap();
    assert_eq!(bytes, vec![0x40, 0x00, 0x10, 0x00]);
}

#[test]
fn branch_to_register_is_not_supported() {
    let encoder = PowerPCEncoder::new(GuestArch::PowerPC64);
    assert!(matches!(encoder.encode_branch(&Operand::Reg(3)), Err(VmError::NotSupported { .. })));
}
