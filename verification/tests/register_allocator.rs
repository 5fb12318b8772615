use vm_cross_arch::encoding::Architecture;
use vm_cross_arch::ir::IROp;
use vm_cross_arch::optimized_register_allocator::{OptimizedRegisterMapper, RegisterAllocationStats};

#[test]
fn test_optimized_register_mapper() {
    let mut mapper = OptimizedRegisterMapper::new(Architecture::ARM64);

    let instructions = vec![
        IROp::Const { dst: 0, value: 42 },
        IROp::Mov { dst: 1, src: 0 },
        IROp::Add { dst: 2, src1: 1, src2: 0 },
    ];

    mapper.analyze_lifetimes(&instructions);

    assert_eq!(mapper.lifetimes().len(), 3);

    let optimized = mapper.eliminate_copies(&instructions);

    assert!(optimized.len() <= instructions.len());

    let stats = mapper.get_optimization_stats();
    assert!(stats.total_copies > 0);
}

#[test]
fn test_temp_register_reuse() {
    let mut mapper = OptimizedRegisterMapper::new(Architecture::ARM64);

    let temp1 = mapper.allocate_temp();
    assert!(temp1.is_some());

    mapper.release_temp(temp1.unwrap());

    let temp2 = mapper.allocate_temp();
    assert!(temp2.is_some());

    let stats = mapper.get_optimization_stats();
    assert!(stats.temps_reused > 0);
}

#[test]
fn lifetimes_record_first_definition_and_last_use() {
    let mut mapper = OptimizedRegisterMapper::new(Architecture::X86_64);
    let ops = vec![
        IROp::MovImm { dst: 0, imm: 1 },
        IROp::MovImm { dst: 1, imm: 2 },
        IROp::Add { dst: 2, src1: 0, src2: 1 },
    ];
    mapper.analyze_lifetimes(&ops);
    let lts = mapper.lifetimes();
    let summary: Vec<(u32, usize, usize)> = lts.iter().map(|l| (l.reg, l.def_point, l.last_use)).collect();
    assert_eq!(summary, vec![(0, 0, 2), (1, 1, 2), (2, 2, 0)]);
}

#[test]
fn copies_to_self_are_dropped() {
    let mut mapper = OptimizedRegisterMapper::new(Architecture::RISCV64);
    let ops = vec![IROp::Mov { dst: 3, src: 3 }, IROp::Mov { dst: 4, src: 3 }, IROp::Nop];
    mapper.analyze_lifetimes(&ops);
    let kept = mapper.eliminate_copies(&ops);
    assert_eq!(kept, vec![IROp::Mov { dst: 4, src: 3 }, IROp::Nop]);
    let stats = mapper.get_optimization_stats();
    assert_eq!((stats.total_copies, stats.copies_eliminated), (2, 1));
    let copies = mapper.copies();
    assert!(copies[0].can_eliminate);
    assert_eq!(copies[0].eliminate_reason.as_deref(), Some("Redundant copy"));
    assert!(!copies[1].can_eliminate);
    assert_eq!(copies[1].position, 1);
}

#[test]
fn allocation_prefers_caller_saved_and_reuse() {
    let ops = vec![
        IROp::MovImm { dst: 0, imm: 1 },
        IROp::MovImm { dst: 1, imm: 2 },
        IROp::Add { dst: 2, src1: 0, src2: 1 },
    ];
    let mut mapper = OptimizedRegisterMapper::new(Architecture::X86_64);
    assert!(mapper.allocate_registers(&ops).is_ok());
    assert_eq!((mapper.map_register(0), mapper.map_register(1), mapper.map_register(2)), (0, 1, 2));
    assert_eq!(mapper.map_register(7), 0);
    assert_eq!(mapper.get_optimization_stats().total_allocations, 3);
    assert_eq!(
        mapper.get_stats(),
        RegisterAllocationStats { total_mappings: 3, allocated_targets: 3, temp_allocated: 0, available_temps: 0 }
    );

    let mut reusing = OptimizedRegisterMapper::new(Architecture::X86_64);
    reusing.set_reuse_mapping(2, 9);
    assert!(reusing.allocate_registers(&ops).is_ok());
    assert_eq!(reusing.map_register(2), 9);
    assert_eq!(reusing.get_optimization_stats().registers_reused, 1);
}

#[test]
fn allocation_fails_without_registers_of_the_class() {
    let mut mapper = OptimizedRegisterMapper::new(Architecture::X86_64);
    let r = mapper.allocate_registers(&[IROp::MovImm { dst: 30, imm: 1 }]);
    assert_eq!(r, Err("Failed to allocate register for source register 30".to_string()));
}

#[test]
fn temporaries_come_from_caller_saved_then_run_out() {
    let mut mapper = OptimizedRegisterMapper::new(Architecture::RISCV64);
    assert_eq!(mapper.allocate_temp(), Some(5));
    assert_eq!(mapper.allocate_temp(), Some(6));
    assert_eq!(mapper.allocate_temp(), None);
    mapper.release_temp(5);
    assert_eq!(mapper.get_stats().available_temps, 1);
    assert_eq!(mapper.allocate_temp(), Some(5));
    mapper.reset();
    assert_eq!(mapper.get_stats().temp_allocated, 0);
    assert_eq!(mapper.allocate_temp(), Some(5));
}
