use vm_cross_arch::encoder::ArchEncoder;
use vm_cross_arch::encoder_riscv::Riscv64Encoder;
use vm_cross_arch::encoder_x86::X86_64Encoder;
use vm_cross_arch::ir::IROp;

fn word(bytes: &[u8]) -> u32 {
    u32::from_le_bytes([bytes[0], bytes[1], bytes[2], bytes[3]])
}

#[test]
fn x86_add_puts_the_destination_in_rm() {
    let v = X86_64Encoder.encode_op(&IROp::Add { dst: 1, src1: 1, src2: 2 }, 0).unwrap();
    assert_eq!(v.len(), 1);
    // ADD r/m64, r64: r/m = rcx (1), reg = rdx (2)
    assert_eq!(v[0].bytes, vec![0x48, 0x01, 0xD1]);
    assert_eq!(v[0].mnemonic, "add r1, r2");
    assert_eq!(v[0].length, 3);
}

#[test]
fn x86_sub_puts_the_destination_in_rm() {
    let v = X86_64Encoder.encode_op(&IROp::Sub { dst: 3, src1: 3, src2: 0 }, 0).unwrap();
    assert_eq!(v[0].bytes, vec![0x48, 0x29, 0xC3]);
}

#[test]
fn riscv_mov_imm_rounds_the_upper_part_up() {
    let v = Riscv64Encoder.encode_op(&IROp::MovImm { dst: 1, imm: 0x800 }, 0).unwrap();
    assert_eq!(v.len(), 2);
    assert_eq!(word(&v[0].bytes), 0x000010B7); // lui x1, 1
    assert_eq!(v[0].mnemonic, "lui x1, 1");
    assert_eq!(word(&v[1].bytes), 0x80008093); // addi x1, x1, -2048
    assert_eq!(v[1].mnemonic, "addi x1, x1, -2048");
}

#[test]
fn riscv_mov_imm_without_bit_eleven() {
    let v = Riscv64Encoder.encode_op(&IROp::MovImm { dst: 5, imm: 0x12345 }, 0).unwrap();
    assert_eq!(v.len(), 2);
    assert_eq!(v[0].mnemonic, "lui x5, 18");
    assert_eq!(v[1].mnemonic, "addi x5, x5, 837");
    let only_upper = Riscv64Encoder.encode_op(&IROp::MovImm { dst: 2, imm: 0x3000 }, 0).unwrap();
    assert_eq!(only_upper.len(), 1);
    assert_eq!(only_upper[0].mnemonic, "lui x2, 3");
}
