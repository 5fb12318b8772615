use vm_cross_arch::encoding::Architecture;
use vm_cross_arch::instruction_parallelism::{DependencyType, InstructionParallelizer, ResourceRequirements};
use vm_cross_arch::ir::IROp;

fn sample() -> Vec<IROp> {
    vec![
        IROp::Const { dst: 0, value: 10 },
        IROp::Const { dst: 1, value: 20 },
        IROp::Add { dst: 2, src1: 0, src2: 1 },
        IROp::Const { dst: 3, value: 30 },
        IROp::Mul { dst: 4, src1: 2, src2: 3 },
    ]
}

fn small_target() -> ResourceRequirements {
    ResourceRequirements { alu_units: 2, memory_ports: 1, vector_units: 1, branch_units: 1 }
}

#[test]
fn test_dependency_analysis() {
    let mut parallelizer = InstructionParallelizer::new(small_target());
    let instructions = sample();

    let result = parallelizer.analyze_parallelism(&instructions);
    assert!(result.is_ok());

    let dependencies = parallelizer.get_dependencies();
    assert!(!dependencies.is_empty());

    let groups = parallelizer.get_parallel_groups();
    assert!(!groups.is_empty());

    let stats = parallelizer.get_stats();
    assert_eq!(stats.total_instructions, 5);
    assert!(stats.parallel_groups > 0);
    let parallelization_rate = stats.parallel_instructions as f64 / stats.total_instructions as f64;
    assert!(parallelization_rate > 0.0);
}

#[test]
fn test_parallel_rescheduling() {
    let mut parallelizer = InstructionParallelizer::new(small_target());
    let instructions = sample();

    let _ = parallelizer.analyze_parallelism(&instructions);

    let rescheduled = parallelizer.reschedule_for_parallelism(&instructions);

    assert_eq!(rescheduled.len(), instructions.len());

    for original_insn in &instructions {
        assert!(rescheduled.contains(original_insn));
    }
}

#[test]
fn read_after_write_is_a_true_dependency() {
    let mut parallelizer = InstructionParallelizer::new(small_target());
    let ops = vec![IROp::Add { dst: 2, src1: 0, src2: 1 }, IROp::Mul { dst: 4, src1: 2, src2: 3 }];
    parallelizer.analyze_parallelism(&ops).unwrap();
    let deps = parallelizer.get_dependencies();
    assert_eq!(deps.len(), 1);
    assert_eq!(deps[0].from, 0);
    assert_eq!(deps[0].to, 1);
    assert_eq!(deps[0].dep_type, DependencyType::True);
    assert_eq!(deps[0].register, 2);
}

#[test]
fn dependent_operations_land_in_later_groups() {
    let mut parallelizer = InstructionParallelizer::new(small_target());
    let ops = vec![
        IROp::Add { dst: 2, src1: 0, src2: 1 },
        IROp::Add { dst: 5, src1: 6, src2: 7 },
        IROp::Mul { dst: 4, src1: 2, src2: 3 },
    ];
    parallelizer.analyze_parallelism(&ops).unwrap();
    let nodes = parallelizer.get_instruction_nodes();
    let g0 = nodes[0].parallel_group.unwrap();
    let g2 = nodes[2].parallel_group.unwrap();
    assert!(g0 < g2);
    for group in parallelizer.get_parallel_groups() {
        assert!(group.resource_requirements.alu_units <= 2 || group.instructions.len() == 1);
    }
    assert!(nodes.iter().all(|n| n.can_parallel));
}

#[test]
fn groups_respect_the_alu_limit() {
    let target = ResourceRequirements { alu_units: 1, memory_ports: 1, vector_units: 1, branch_units: 1 };
    let mut parallelizer = InstructionParallelizer::new(target);
    let ops = vec![
        IROp::Add { dst: 1, src1: 10, src2: 11 },
        IROp::Sub { dst: 2, src1: 12, src2: 13 },
        IROp::Xor { dst: 3, src1: 14, src2: 15 },
    ];
    parallelizer.analyze_parallelism(&ops).unwrap();
    assert_eq!(parallelizer.get_parallel_groups().len(), 3);
    assert_eq!(parallelizer.get_stats().max_parallelism, 1);
}

#[test]
fn resources_per_architecture() {
    let x86 = ResourceRequirements::for_architecture(Architecture::X86_64);
    assert_eq!(x86.alu_units, 8);
    assert_eq!(x86.memory_ports, 4);
    let rv = ResourceRequirements::for_architecture(Architecture::RISCV64);
    assert_eq!(rv.alu_units, 6);
    assert_eq!(rv.branch_units, 1);
}

#[test]
fn optimize_sequence_returns_all_operations() {
    let mut parallelizer = InstructionParallelizer::new(small_target());
    let ops = sample();
    let out = parallelizer.optimize_instruction_sequence(&ops).unwrap();
    assert_eq!(out.len(), ops.len());
    for op in &ops {
        assert!(out.contains(op));
    }
}
