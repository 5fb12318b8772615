use vm_cross_arch::ir::{IROp, MemFlags};
use vm_cross_arch::memory_alignment_optimizer::{
    gcd, Endianness, EndiannessConversionStrategy, MemoryAccessPattern, MemoryAlignmentOptimizer,
};

fn load(dst: u32, base: u32, offset: i64, size: u8) -> IROp {
    IROp::Load { dst, base, offset, size, flags: MemFlags::default() }
}

#[test]
fn test_alignment_analysis() {
    let mut optimizer = MemoryAlignmentOptimizer::new(
        Endianness::LittleEndian,
        Endianness::LittleEndian,
        EndiannessConversionStrategy::Software,
    );

    let aligned_load = load(1, 0, 0, 4);

    let info = optimizer.analyze_alignment(&aligned_load);
    assert_eq!(info.alignment, 4);
    assert!(info.is_natural);
    assert_eq!(info.penalty_cycles, 0);

    let unaligned_load = load(1, 0, 2, 4);

    let info = optimizer.analyze_alignment(&unaligned_load);
    assert_eq!(info.alignment, 2);
    assert!(!info.is_natural);
    assert!(info.penalty_cycles > 0);
}

#[test]
fn test_endianness_conversion() {
    let mut optimizer = MemoryAlignmentOptimizer::new(
        Endianness::LittleEndian,
        Endianness::BigEndian,
        EndiannessConversionStrategy::Software,
    );

    let little_endian_data = [0x12, 0x34, 0x56, 0x78];
    let converted = optimizer.handle_endianness_conversion(&little_endian_data);
    let expected = [0x78, 0x56, 0x34, 0x12];
    assert_eq!(converted, expected);
}

#[test]
fn test_memory_pattern_analysis() {
    let optimizer = MemoryAlignmentOptimizer::new(
        Endianness::LittleEndian,
        Endianness::LittleEndian,
        EndiannessConversionStrategy::NoConversion,
    );

    let sequential_ops = vec![load(1, 0, 0, 4), load(2, 0, 4, 4), load(3, 0, 8, 4)];

    let pattern = optimizer.analyze_memory_pattern(&sequential_ops);
    match pattern {
        MemoryAccessPattern::Sequential => {}
        _ => panic!("Expected sequential pattern"),
    }
}

#[test]
fn gcd_values() {
    assert_eq!(gcd(12, 8), 4);
    assert_eq!(gcd(7, 0), 7);
    assert_eq!(gcd(2, 4), 2);
}

#[test]
fn same_endianness_leaves_data_alone() {
    let mut optimizer = MemoryAlignmentOptimizer::new(
        Endianness::LittleEndian,
        Endianness::LittleEndian,
        EndiannessConversionStrategy::Software,
    );
    assert_eq!(optimizer.handle_endianness_conversion(&[1, 2, 3, 4]), vec![1, 2, 3, 4]);
}

#[test]
fn eight_byte_swap_reverses_all_bytes() {
    let mut optimizer = MemoryAlignmentOptimizer::new(
        Endianness::BigEndian,
        Endianness::LittleEndian,
        EndiannessConversionStrategy::Software,
    );
    let out = optimizer.handle_endianness_conversion(&[1, 2, 3, 4, 5, 6, 7, 8]);
    assert_eq!(out, vec![8, 7, 6, 5, 4, 3, 2, 1]);
    let back = optimizer.handle_endianness_conversion(&out);
    assert_eq!(back, vec![1, 2, 3, 4, 5, 6, 7, 8]);
}

#[test]
fn strided_pattern_reports_its_stride() {
    let optimizer = MemoryAlignmentOptimizer::new(
        Endianness::LittleEndian,
        Endianness::LittleEndian,
        EndiannessConversionStrategy::NoConversion,
    );
    let ops = vec![load(1, 0, 0, 4), load(2, 0, 16, 4), load(3, 0, 32, 4)];
    assert_eq!(optimizer.analyze_memory_pattern(&ops), MemoryAccessPattern::Strided { stride: 16 });
}

#[test]
fn repeated_analysis_is_cached() {
    let mut optimizer = MemoryAlignmentOptimizer::new(
        Endianness::LittleEndian,
        Endianness::LittleEndian,
        EndiannessConversionStrategy::NoConversion,
    );
    let op = load(1, 3, 6, 4);
    let a = optimizer.analyze_alignment(&op);
    let b = optimizer.analyze_alignment(&op);
    assert_eq!(a, b);
    assert_eq!(optimizer.get_stats().alignment_optimizations, 1);
}

#[test]
fn merging_two_loads_keeps_the_next_operation() {
    let mut optimizer = MemoryAlignmentOptimizer::new(
        Endianness::LittleEndian,
        Endianness::LittleEndian,
        EndiannessConversionStrategy::Software,
    );
    let store = IROp::Store { src: 3, base: 0, offset: 16, size: 8, flags: MemFlags::default() };
    let ops = vec![load(1, 0, 0, 4), load(2, 0, 4, 4), store];
    let out = optimizer.optimize_memory_sequence(&ops);
    assert_eq!(out.len(), 4);
    assert_eq!(out[0], load(1, 0, 0, 8));
    assert_eq!(out[2], IROp::AddImm { dst: 2, src: 1, imm: 4 });
    assert_eq!(out[3], store);
}

#[test]
fn unmergeable_operations_pass_through() {
    let mut optimizer = MemoryAlignmentOptimizer::new(
        Endianness::LittleEndian,
        Endianness::LittleEndian,
        EndiannessConversionStrategy::Software,
    );
    let ops = vec![load(1, 0, 0, 4), load(2, 1, 4, 4), load(3, 0, 32, 8)];
    assert_eq!(optimizer.optimize_memory_sequence(&ops), ops);
}
