use vm_cross_arch::instruction_patterns::{identify_pattern, InstructionPattern};
use vm_cross_arch::interrupt_handler::{
    CrossArchInterruptManager, ExceptionContext, ExceptionHandler, ExceptionType, ExceptionVectorTable,
    InterruptController, InterruptType,
};
use vm_cross_arch::error::VmError;
use vm_cross_arch::ir::{GuestArch, IROp, MemFlags};
use vm_cross_arch::memory_model::{Endianness, MemoryModel, MemoryModelMapper};

#[test]
fn test_memory_model_creation() {
    let model = MemoryModel::new(GuestArch::X86_64);
    assert_eq!(model.endianness(), Endianness::LittleEndian);
    assert_eq!(model.page_size(), 4096);
    assert_eq!(model.address_space_bits(), 48);
}

#[test]
fn test_address_alignment() {
    let model = MemoryModel::new(GuestArch::X86_64);

    assert!(model.is_aligned(0x1000, 8));
    assert!(!model.is_aligned(0x1001, 8));

    let aligned = model.align_address(0x1001, 8);
    assert_eq!(aligned, 0x1008);
}

#[test]
fn test_memory_model_mapper() {
    let mapper = MemoryModelMapper::new(GuestArch::Arm64, GuestArch::X86_64);

    assert!(mapper.is_endianness_compatible());

    assert_eq!(mapper.guest_page_size(), mapper.host_page_size());
}

#[test]
fn aligned_addresses_stay_put() {
    let model = MemoryModel::new(GuestArch::Riscv64);
    assert_eq!(model.align_address(0x2000, 16), 0x2000);
    assert_eq!(model.align_address(0x2001, 16), 0x2010);
    assert!(model.is_aligned(0x2010, 16));
}

#[test]
fn test_exception_vector_table() {
    let mut table = ExceptionVectorTable::new();
    let handler_addr = 0x2000;

    table.register_handler(ExceptionType::IllegalInstruction, handler_addr);

    let handler = table.get_handler(&ExceptionType::IllegalInstruction);
    assert_eq!(handler, Some(handler_addr));
}

#[test]
fn interrupt_handler_test_interrupt_controller() {
    let mut controller = InterruptController::new();

    controller.inject_interrupt(InterruptType::Timer);
    assert!(controller.has_pending_interrupts());

    let interrupt = controller.pop_interrupt();
    assert_eq!(interrupt, Some(InterruptType::Timer));
}

#[test]
fn test_exception_handler() {
    let handler = ExceptionHandler::new(GuestArch::X86_64);

    let exception = ExceptionContext {
        exception_type: ExceptionType::IllegalInstruction,
        fault_addr: 0x1000,
        fault_value: 0,
        instruction_addr: 0x1000,
        cause_code: 2,
    };

    let handler_addr = handler.handle_exception(exception).unwrap();
    assert_eq!(handler_addr, 0x1000);
}

#[test]
fn registered_handler_wins_over_default() {
    let mut handler = ExceptionHandler::new(GuestArch::Arm64);
    handler.register_handler(ExceptionType::LoadPageFault, 0x8000);
    let ctx = ExceptionContext {
        exception_type: ExceptionType::LoadPageFault,
        fault_addr: 0,
        fault_value: 0,
        instruction_addr: 0,
        cause_code: 0,
    };
    assert_eq!(handler.handle_exception(ctx).unwrap(), 0x8000);
}

#[test]
fn table_without_default_reports_missing_handler() {
    let table = ExceptionVectorTable::new();
    assert_eq!(table.get_handler(&ExceptionType::Breakpoint), None);
}

#[test]
fn interrupts_come_out_first_in_first_out() {
    let mut controller = InterruptController::new();
    controller.inject_interrupt(InterruptType::Timer);
    controller.inject_interrupt(InterruptType::External(5));
    assert_eq!(controller.pop_interrupt(), Some(InterruptType::Timer));
    assert_eq!(controller.pop_interrupt(), Some(InterruptType::External(5)));
    assert_eq!(controller.pop_interrupt(), None);
    assert!(!controller.has_pending_interrupts());
}

#[test]
fn manager_processes_pending_interrupts() {
    let mut manager = CrossArchInterruptManager::new(GuestArch::X86_64);
    manager.inject_interrupt(InterruptType::Timer);
    manager.inject_interrupt(InterruptType::Software(3));
    let processed = manager.process_pending_interrupts();
    assert_eq!(processed, vec![InterruptType::Timer, InterruptType::Software(3)]);
    assert!(manager.process_pending_interrupts().is_empty());
}

#[test]
fn test_pattern_identification() {
    let add_op = IROp::Add { dst: 0, src1: 1, src2: 2 };
    assert_eq!(identify_pattern(&add_op), Some(InstructionPattern::ArithmeticOp));
}

#[test]
fn patterns_of_moves_and_memory() {
    assert_eq!(identify_pattern(&IROp::MovImm { dst: 1, imm: 5 }), Some(InstructionPattern::LoadImmediate));
    let flags = MemFlags::default();
    assert_eq!(
        identify_pattern(&IROp::Load { dst: 1, base: 2, offset: 0, size: 8, flags }),
        Some(InstructionPattern::LoadFromMemory)
    );
    assert_eq!(identify_pattern(&IROp::CmpLt { dst: 1, lhs: 2, rhs: 3 }), Some(InstructionPattern::CompareOp));
    assert_eq!(identify_pattern(&IROp::Nop), None);
}

#[allow(dead_code)]
fn unused(_: VmError) {}
