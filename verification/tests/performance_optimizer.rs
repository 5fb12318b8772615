use vm_cross_arch::encoding::Architecture;
use vm_cross_arch::ir::{IRBlock, IROp, Terminator};
use vm_cross_arch::performance_optimizer::{PerformanceConfig, PerformanceOptimizer};

#[test]
fn test_performance_optimizer() {
    let config = PerformanceConfig::default();
    let optimizer = PerformanceOptimizer::new(config);
    assert!(optimizer.config().enable_register_allocation);
}

fn block(ops: Vec<IROp>) -> IRBlock {
    IRBlock { start_pc: 0x4000, ops, term: Terminator::Ret }
}

#[test]
fn folding_and_selection_on_arm64() {
    let mut o = PerformanceOptimizer::new(PerformanceConfig::default());
    let b = block(vec![
        IROp::AddImm { dst: 1, src: 0, imm: 5 },
        IROp::MulImm { dst: 2, src: 3, imm: 1 },
        IROp::MulImm { dst: 2, src: 3, imm: 0 },
        IROp::MulImm { dst: 4, src: 5, imm: 8 },
        IROp::MulImm { dst: 4, src: 5, imm: 6 },
    ]);
    let out = o.optimize_ir_block(&b, Architecture::ARM64).unwrap();
    assert_eq!(out.start_pc, 0x4000);
    assert_eq!(out.term, Terminator::Ret);
    assert_eq!(
        out.ops,
        vec![
            IROp::MovImm { dst: 1, imm: 5 },
            IROp::AddImm { dst: 2, src: 3, imm: 0 },
            IROp::MovImm { dst: 2, imm: 0 },
            IROp::SllImm { dst: 4, src: 5, sh: 3 },
            IROp::MulImm { dst: 4, src: 5, imm: 6 },
        ]
    );
}

#[test]
fn selection_on_x86_uses_immediate_less_one() {
    let mut o = PerformanceOptimizer::new(PerformanceConfig::default());
    let b = block(vec![IROp::MulImm { dst: 4, src: 5, imm: 8 }, IROp::MulImm { dst: 4, src: 5, imm: 5000 }]);
    let out = o.optimize_ir_block(&b, Architecture::X86_64).unwrap();
    assert_eq!(out.ops, vec![IROp::AddImm { dst: 4, src: 5, imm: 7 }, IROp::MulImm { dst: 4, src: 5, imm: 5000 }]);
}

#[test]
fn disabled_passes_leave_the_block() {
    let mut config = PerformanceConfig::default();
    config.enable_constant_folding = false;
    config.enable_instruction_selection = false;
    let mut o = PerformanceOptimizer::new(config);
    let ops = vec![IROp::AddImm { dst: 1, src: 0, imm: 5 }, IROp::MulImm { dst: 4, src: 5, imm: 8 }];
    let out = o.optimize_ir_block(&block(ops.clone()), Architecture::RISCV64).unwrap();
    assert_eq!(out.ops, ops);
}

#[test]
fn hot_blocks_reach_the_threshold() {
    let mut o = PerformanceOptimizer::new(PerformanceConfig::default());
    o.record_hot_block(0x10);
    o.record_hot_block(0x20);
    o.record_hot_block(0x10);
    assert_eq!(o.get_hot_blocks(2), vec![0x10]);
    assert_eq!(o.get_hot_blocks(1), vec![0x10, 0x20]);
    assert!(o.get_hot_blocks(3).is_empty());
}
