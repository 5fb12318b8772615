use vm_cross_arch::consistency_tests::{ConsistencyTester, ExecResult, ExecStatus};
use vm_cross_arch::cross_arch_aot::{CrossArchAotCompiler, CrossArchAotConfig};
use vm_cross_arch::cross_arch_runtime::{
    AotConfig, AotImageHeader, AotSection, CrossArchRuntimeConfig, HotspotTracker, JitConfig, JitState,
};
use vm_cross_arch::encoding::Architecture;
use vm_cross_arch::error::VmError;
use vm_cross_arch::ir::{GuestArch, IRBlock, IROp, Terminator};

#[test]
fn test_hotspot_tracker() {
    let mut tracker = HotspotTracker::new(10);
    let pc = 0x1000;

    for _ in 0..5 {
        tracker.record_execution(pc);
    }

    assert!(!tracker.is_hotspot(pc));

    for _ in 0..5 {
        tracker.record_execution(pc);
    }

    assert!(tracker.is_hotspot(pc));
    assert_eq!(tracker.get_hotspots(), vec![pc]);
}

#[test]
fn test_hotspot_stats() {
    let config = CrossArchRuntimeConfig::auto_create(GuestArch::X86_64, Some(Architecture::X86_64));
    let mut tracker = HotspotTracker::new(config.hotspot_threshold());

    let pc = 0x1000;
    for _ in 0..5 {
        tracker.record_execution(pc);
    }

    let stats = tracker.stats();
    assert_eq!(stats.total_executions, 5);
    assert_eq!(stats.hotspot_count, 0);
}

#[test]
fn test_jit_cache_stats() {
    let config = CrossArchRuntimeConfig::auto_create(GuestArch::X86_64, Some(Architecture::X86_64));
    let jit = JitState::new(config.jit, config.aot.clone(), GuestArch::X86_64, Some(Architecture::X86_64), "x86_64")
        .unwrap();

    let stats = jit.cache_stats();
    assert_eq!(stats.cached_blocks, 0);
    assert_eq!(stats.total_size, 0);
}

#[test]
fn test_cross_arch_aot_compiler() {
    let config = CrossArchAotConfig {
        source_arch: Architecture::X86_64,
        target_arch: Architecture::ARM64,
        optimization_level: 2,
        enable_cross_arch_optimization: true,
    };

    let compiler = CrossArchAotCompiler::new(config);
    assert_eq!(compiler.config().target_arch, Architecture::ARM64);
    assert_eq!(compiler.stats().blocks_compiled, 0);
}

#[test]
fn runtime_threshold_is_the_larger_one() {
    let config = CrossArchRuntimeConfig::auto_create(GuestArch::Arm64, Some(Architecture::ARM64));
    assert_eq!(config.hotspot_threshold(), 1000);
    assert_eq!(config.jit.hotspot_threshold, 100);
    assert_eq!(config.memory.memory_size, 128 * 1024 * 1024);
}

#[test]
fn hotspots_come_in_first_recorded_order() {
    let mut tracker = HotspotTracker::new(2);
    for pc in [0x3000u64, 0x1000, 0x3000, 0x2000, 0x1000, 0x2000] {
        tracker.record_execution(pc);
    }
    assert_eq!(tracker.get_hotspots(), vec![0x3000, 0x1000, 0x2000]);
    let stats = tracker.stats();
    assert_eq!(stats.total_executions, 6);
    assert_eq!(stats.hotspot_count, 3);
}

#[test]
fn loaded_code_marks_addresses_hot() {
    let mut tracker = HotspotTracker::new(100);
    tracker.mark_loaded(&vec![0x1000, 0x2000], 100);
    assert!(tracker.is_hotspot(0x1000));
    assert!(tracker.is_hotspot(0x2000));
    assert!(!tracker.is_hotspot(0x3000));
}

fn jit_state() -> JitState {
    JitState::new(JitConfig::default(), AotConfig::default(), GuestArch::X86_64, Some(Architecture::ARM64), "arm64")
        .unwrap()
}

#[test]
fn jit_compiled_block_is_recorded() {
    let mut jit = jit_state();
    let code = jit.compile_ir_block(0x1000, true).unwrap();
    assert_eq!(code, vec![0x00, 0x10, 0, 0, 0, 0, 0, 0, 1]);
    assert!(jit.has_jit_code(0x1000));
    assert_eq!(jit.cache_stats().total_size, 9);
}

#[test]
fn failed_jit_compilation_is_an_error() {
    let mut jit = jit_state();
    match jit.compile_ir_block(0x1000, false) {
        Err(VmError::Internal { message, .. }) => assert_eq!(message, "JIT compilation failed or timed out"),
        other => panic!("unexpected {:?}", other),
    }
    assert!(!jit.has_jit_code(0x1000));
}

#[test]
fn disabled_jit_reports_no_compiler() {
    let config = JitConfig { enable_jit: false, ..JitConfig::default() };
    let mut jit = JitState::new(config, AotConfig::default(), GuestArch::X86_64, None, "sparc").unwrap();
    match jit.compile_ir_block(0x1000, true) {
        Err(VmError::Internal { message, .. }) => assert_eq!(message, "JIT compiler not available"),
        other => panic!("unexpected {:?}", other),
    }
    assert!(jit.jit_compile_candidates(&vec![0x1000]).is_empty());
}

#[test]
fn only_uncompiled_hotspots_are_candidates() {
    let mut jit = jit_state();
    jit.compile_ir_block(0x2000, true).unwrap();
    assert_eq!(jit.jit_compile_candidates(&vec![0x1000, 0x2000, 0x3000]), vec![0x1000, 0x3000]);
}

#[test]
fn powerpc_guest_cannot_use_aot() {
    let aot = AotConfig { enable_aot: true, ..AotConfig::default() };
    match JitState::new(JitConfig::default(), aot, GuestArch::PowerPC64, Some(Architecture::X86_64), "x86_64") {
        Err(VmError::NotSupported { feature, .. }) => assert_eq!(feature, "PowerPC64 architecture"),
        _ => panic!("expected NotSupported"),
    }
}

#[test]
fn unknown_host_cannot_use_aot() {
    let aot = AotConfig { enable_aot: true, ..AotConfig::default() };
    match JitState::new(JitConfig::default(), aot, GuestArch::X86_64, None, "mips") {
        Err(VmError::UnsupportedArch { arch, supported }) => {
            assert_eq!(arch, "mips");
            assert_eq!(supported, vec!["x86_64".to_string(), "arm64".to_string(), "riscv64".to_string()]);
        }
        _ => panic!("expected UnsupportedArch"),
    }
}

#[test]
fn aot_image_checks_and_loading() {
    let mut jit = jit_state();
    let header = AotImageHeader { magic: 7, version: 1, section_count: 2 };
    let sections = || {
        vec![AotSection { addr: 0x1000, data: vec![1, 2] }, AotSection { addr: 0x2000, data: vec![3] }]
    };
    match jit.load_aot_image(AotImageHeader { magic: 8, ..header }, sections(), 7, 1) {
        Err(VmError::Internal { message, .. }) => assert_eq!(message, "Invalid AOT magic number"),
        _ => panic!("expected magic error"),
    }
    match jit.load_aot_image(AotImageHeader { version: 2, ..header }, sections(), 7, 1) {
        Err(VmError::Internal { message, .. }) => assert_eq!(message, "Unsupported AOT version: 2"),
        _ => panic!("expected version error"),
    }
    match jit.load_aot_image(AotImageHeader { section_count: 3, ..header }, sections(), 7, 1) {
        Err(VmError::Internal { message, .. }) => assert_eq!(message, "Section count mismatch: expected 3, got 2"),
        _ => panic!("expected count error"),
    }
    assert_eq!(jit.cache_stats().cached_blocks, 0);
    jit.load_aot_image(header, sections(), 7, 1).unwrap();
    assert_eq!(jit.cached_addresses(), vec![0x1000, 0x2000]);
    assert_eq!(jit.cache_stats().total_size, 3);
}

#[test]
fn aot_state_follows_configuration() {
    let aot = AotConfig { enable_aot: true, ..AotConfig::default() };
    let jit = JitState::new(JitConfig::default(), aot, GuestArch::Riscv64, Some(Architecture::X86_64), "x86_64")
        .unwrap();
    assert!(jit.aot_compile_enabled());
    assert_eq!(jit.get_aot_stats().unwrap().blocks_compiled, 0);
    assert!(!jit_state().aot_compile_enabled());
}

#[test]
fn compile_ir_to_target_concatenates_encodings() {
    let config = CrossArchAotConfig { target_arch: Architecture::RISCV64, ..CrossArchAotConfig::default() };
    let compiler = CrossArchAotCompiler::new(config);
    let block = IRBlock {
        start_pc: 0x1000,
        ops: vec![IROp::Add { dst: 1, src1: 2, src2: 3 }, IROp::Sub { dst: 4, src1: 5, src2: 6 }],
        term: Terminator::Ret,
    };
    let code = compiler.compile_ir_to_target(&block).unwrap();
    assert_eq!(code.len(), 8);
    // add x1, x2, x3
    assert_eq!(u32::from_le_bytes([code[0], code[1], code[2], code[3]]), 0x003100B3);
}

#[test]
fn aot_counters_accumulate() {
    let mut compiler = CrossArchAotCompiler::new(CrossArchAotConfig::default());
    compiler.record_compiled(16, 3, true);
    compiler.record_compiled(8, 2, false);
    let stats = compiler.stats();
    assert_eq!(stats.blocks_compiled, 2);
    assert_eq!(stats.cross_arch_translations, 1);
    assert_eq!(stats.total_compilation_time_ms, 5);
    assert_eq!(stats.generated_code_size, 24);
}

fn result(status: ExecStatus, next_pc: u64) -> ExecResult {
    ExecResult { status, next_pc }
}

#[test]
fn consistent_results_pass() {
    let tester = ConsistencyTester::new(Architecture::X86_64, Architecture::ARM64);
    let r = tester.make_result(result(ExecStatus::Continue, 0x1010), result(ExecStatus::Continue, 0x1010));
    assert!(r.passed);
    assert!(r.differences.is_empty());
}

#[test]
fn mismatched_status_fails() {
    let tester = ConsistencyTester::new(Architecture::X86_64, Architecture::ARM64);
    let r = tester.make_result(
        result(ExecStatus::Continue, 0x1000),
        result(ExecStatus::Error("Fault".to_string()), 0x1000),
    );
    assert!(!r.passed);
    assert_eq!(r.differences, vec!["状态不匹配: Continue vs Error(Fault)".to_string()]);
}

#[test]
fn different_errors_fail() {
    let tester = ConsistencyTester::new(Architecture::X86_64, Architecture::ARM64);
    let r = tester.make_result(
        result(ExecStatus::Error("A".to_string()), 0x1000),
        result(ExecStatus::Error("B".to_string()), 0x1000),
    );
    assert!(!r.passed);
    assert_eq!(r.differences, vec!["错误不匹配: A vs B".to_string()]);
}

#[test]
fn far_apart_next_pcs_are_reported_but_pass() {
    let tester = ConsistencyTester::new(Architecture::X86_64, Architecture::ARM64);
    let r = tester.make_result(result(ExecStatus::Continue, 0x1000), result(ExecStatus::Continue, 0x1020));
    assert!(r.passed);
    assert_eq!(r.differences, vec!["PC 差异过大: 0x1000 vs 0x1020 (差异: 32 字节)".to_string()]);
}

#[test]
fn suite_has_five_blocks() {
    let tester = ConsistencyTester::new(Architecture::X86_64, Architecture::ARM64).with_memory_size(1 << 20);
    assert_eq!(tester.memory_size, 1 << 20);
    let blocks = tester.test_suite_blocks();
    assert_eq!(blocks.len(), 5);
    assert_eq!(blocks[0].0, "基本算术操作");
    assert_eq!(blocks[4].1.start_pc, 0x5000);
    assert_eq!(blocks[2].1.ops.len(), 4);
}

#[test]
fn compile_from_ir_optimizes_then_encodes_and_counts() {
    let plain = CrossArchAotCompiler::new(CrossArchAotConfig {
        target_arch: Architecture::RISCV64,
        enable_cross_arch_optimization: false,
        ..CrossArchAotConfig::default()
    });
    let block = IRBlock {
        start_pc: 0x2000,
        ops: vec![IROp::AddImm { dst: 1, src: 0, imm: 5 }, IROp::Add { dst: 3, src1: 1, src2: 2 }],
        term: Terminator::Ret,
    };

    let mut compiler = CrossArchAotCompiler::new(CrossArchAotConfig {
        target_arch: Architecture::RISCV64,
        ..CrossArchAotConfig::default()
    });
    let code = compiler.compile_from_ir(0x2000, &block).unwrap();
    // adding an immediate to register 0 is folded into a move of it
    let folded = IRBlock {
        start_pc: 0x2000,
        ops: vec![IROp::MovImm { dst: 1, imm: 5 }, IROp::Add { dst: 3, src1: 1, src2: 2 }],
        term: Terminator::Ret,
    };
    assert_eq!(code, plain.compile_ir_to_target(&folded).unwrap());
    assert_eq!(compiler.stats().blocks_compiled, 1);
    assert_eq!(compiler.stats().generated_code_size, code.len());
    assert_eq!(compiler.stats().cross_arch_translations, 0);
}

#[test]
fn hotspot_blocks_are_compiled_ahead_of_time() {
    let aot = AotConfig { enable_aot: true, ..AotConfig::default() };
    let mut jit = JitState::new(JitConfig::default(), aot, GuestArch::X86_64, Some(Architecture::RISCV64), "riscv64")
        .unwrap();
    let blocks = vec![
        (0x1000u64, IRBlock { start_pc: 0x1000, ops: vec![IROp::Add { dst: 1, src1: 2, src2: 3 }], term: Terminator::Ret }),
        (0x2000u64, IRBlock { start_pc: 0x2000, ops: vec![IROp::Sub { dst: 4, src1: 5, src2: 6 }], term: Terminator::Ret }),
    ];
    assert!(jit.check_and_compile_hotspots(&blocks).is_ok());
    let stats = jit.get_aot_stats().unwrap();
    assert_eq!(stats.blocks_compiled, 2);
    assert_eq!(stats.generated_code_size, 8);
    assert_eq!(stats.cross_arch_translations, 0);
    // the JIT cache is left alone
    assert_eq!(jit.cache_stats().cached_blocks, 0);
}

#[test]
fn hotspots_are_not_compiled_without_aot() {
    let mut jit = jit_state();
    let blocks = vec![(0x1000u64, IRBlock { start_pc: 0x1000, ops: vec![IROp::Add { dst: 1, src1: 2, src2: 3 }], term: Terminator::Ret })];
    assert!(jit.check_and_compile_hotspots(&blocks).is_ok());
    assert!(jit.get_aot_stats().is_none());
}

#[test]
fn compile_from_source_keeps_the_first_decoded_block() {
    let mut compiler = CrossArchAotCompiler::new(CrossArchAotConfig {
        target_arch: Architecture::RISCV64,
        enable_cross_arch_optimization: false,
        ..CrossArchAotConfig::default()
    });
    let first = IRBlock { start_pc: 0x1000, ops: vec![IROp::Add { dst: 1, src1: 2, src2: 3 }], term: Terminator::Ret };
    let other = IRBlock {
        start_pc: 0x1000,
        ops: vec![IROp::Sub { dst: 4, src1: 5, src2: 6 }, IROp::Sub { dst: 4, src1: 5, src2: 6 }],
        term: Terminator::Ret,
    };
    let a = compiler.compile_from_source(0x1000, first.clone()).unwrap();
    assert_eq!(a.len(), 4);
    // the block decoded first for 0x1000 is compiled again, not `other`
    let b = compiler.compile_from_source(0x1000, other).unwrap();
    assert_eq!(a, b);
    let stats = compiler.stats();
    assert_eq!(stats.blocks_compiled, 2);
    assert_eq!(stats.cross_arch_translations, 2);
    assert_eq!(stats.generated_code_size, 8);
}
