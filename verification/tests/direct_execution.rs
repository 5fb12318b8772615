use vm_cross_arch::integration::CrossArchVmBuilder;
use vm_cross_arch::direct_execution::{DirectExecutionOptimizer, ExecMode};
use vm_cross_arch::ir::{GuestArch, IRBlock, Terminator};

#[test]
fn test_arch_detection() {
    let optimizer = DirectExecutionOptimizer::new(GuestArch::X86_64, GuestArch::X86_64, false, false);
    assert!(optimizer.is_same_arch() || !optimizer.is_same_arch());
}

#[test]
fn test_direct_execution_check() {
    let optimizer = DirectExecutionOptimizer::new(GuestArch::X86_64, GuestArch::Arm64, true, true);
    let _can_use = optimizer.can_use_direct_execution();
}

#[test]
fn direct_execution_needs_same_arch_and_accelerator() {
    assert!(DirectExecutionOptimizer::should_create_accel(GuestArch::Arm64, GuestArch::Arm64, true));
    assert!(!DirectExecutionOptimizer::should_create_accel(GuestArch::Arm64, GuestArch::X86_64, true));
    assert!(!DirectExecutionOptimizer::should_create_accel(GuestArch::Arm64, GuestArch::Arm64, false));

    let same = DirectExecutionOptimizer::new(GuestArch::Arm64, GuestArch::Arm64, true, true);
    assert!(same.can_use_direct_execution());
    assert_eq!(same.recommended_exec_mode(), ExecMode::HardwareAssisted);

    let failed = DirectExecutionOptimizer::new(GuestArch::Arm64, GuestArch::Arm64, true, false);
    assert!(!failed.can_use_direct_execution());
    assert!(failed.is_same_arch());
    assert_eq!(failed.recommended_exec_mode(), ExecMode::JIT);

    let cross = DirectExecutionOptimizer::new(GuestArch::Riscv64, GuestArch::X86_64, true, true);
    assert!(!cross.can_use_direct_execution());
    assert_eq!(cross.recommended_exec_mode(), ExecMode::JIT);
    assert_eq!(cross.host_arch(), GuestArch::X86_64);
    assert_eq!(cross.guest_arch(), GuestArch::Riscv64);

    let block = IRBlock { start_pc: 0, ops: vec![], term: Terminator::Ret };
    assert!(same.execute_directly(&block).is_none());
}

#[test]
fn vm_builder_settings_override_defaults() {
    let b = CrossArchVmBuilder::new(GuestArch::X86_64).memory_size(128 * 1024 * 1024);
    assert_eq!(b.guest_arch, GuestArch::X86_64);
    assert_eq!(b.memory_size, Some(128 * 1024 * 1024));
    assert_eq!(b.resolve_exec_mode(ExecMode::JIT), ExecMode::JIT);
    let b = b.exec_mode(ExecMode::Interpreter);
    assert_eq!(b.resolve_exec_mode(ExecMode::JIT), ExecMode::Interpreter);
}
