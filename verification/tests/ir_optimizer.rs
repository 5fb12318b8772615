use vm_cross_arch::ir::{IROp, MemFlags};
use vm_cross_arch::ir_optimizer::{is_power_of_two, IROptimizer};

fn store(src: u32) -> IROp {
    IROp::Store { src, base: 0, offset: 0, size: 8, flags: MemFlags::default() }
}

fn load(dst: u32, base: u32) -> IROp {
    IROp::Load { dst, base, offset: 0, size: 8, flags: MemFlags::default() }
}

#[test]
fn test_dead_code_elimination() {
    let mut optimizer = IROptimizer::new();

    let ops = vec![
        IROp::MovImm { dst: 1, imm: 10 },
        IROp::MovImm { dst: 2, imm: 20 },
        IROp::Add { dst: 3, src1: 1, src2: 2 },
        IROp::MovImm { dst: 4, imm: 30 },
    ];

    let optimized = optimizer.optimize(&ops);

    assert!(!optimized.iter().any(|op| matches!(op, IROp::MovImm { dst: 4, .. })));

    let stats = optimizer.get_stats();
    assert!(stats.dead_code_eliminations > 0);
}

#[test]
fn folded_sum_feeding_a_store_survives() {
    let mut optimizer = IROptimizer::new();
    let ops = vec![
        IROp::MovImm { dst: 1, imm: 10 },
        IROp::MovImm { dst: 2, imm: 20 },
        IROp::Add { dst: 3, src1: 1, src2: 2 },
        store(3),
    ];
    let optimized = optimizer.optimize(&ops);
    assert_eq!(optimized, vec![IROp::MovImm { dst: 3, imm: 30 }, store(3)]);
    assert_eq!(optimizer.get_stats().constant_folds, 2);
    assert_eq!(optimizer.get_stats().dead_code_eliminations, 2);
}

#[test]
fn repeated_load_becomes_a_move() {
    let mut optimizer = IROptimizer::new();
    let ops = vec![load(1, 5), load(2, 5), store(1), store(2)];
    let optimized = optimizer.optimize(&ops);
    assert_eq!(optimized, vec![load(1, 5), IROp::Mov { dst: 2, src: 1 }, store(1), store(2)]);
    assert_eq!(optimizer.get_stats().common_subexpression_eliminations, 1);
}

#[test]
fn multiply_by_power_of_two_becomes_a_shift() {
    let mut optimizer = IROptimizer::new();
    let ops = vec![IROp::MovImm { dst: 8, imm: 8 }, IROp::Mul { dst: 2, src1: 1, src2: 8 }, store(2)];
    let optimized = optimizer.optimize(&ops);
    assert_eq!(
        optimized,
        vec![IROp::MovImm { dst: 8, imm: 8 }, IROp::Sll { dst: 2, src: 1, shreg: 8 }, store(2)]
    );
    assert_eq!(optimizer.get_stats().strength_reductions, 1);
    assert_eq!(optimizer.get_stats().algebraic_simplifications, 1);
}

#[test]
fn copy_of_an_immediate_stays_a_copy() {
    let mut optimizer = IROptimizer::new();
    let ops = vec![IROp::MovImm { dst: 1, imm: 5 }, IROp::Mov { dst: 2, src: 1 }, store(2), store(1)];
    let optimized = optimizer.optimize(&ops);
    assert_eq!(optimized, ops);
}

#[test]
fn repeated_immediate_becomes_a_copy() {
    let mut optimizer = IROptimizer::new();
    let ops = vec![IROp::MovImm { dst: 1, imm: 7 }, IROp::MovImm { dst: 2, imm: 7 }, store(1), store(2)];
    let optimized = optimizer.optimize(&ops);
    assert_eq!(optimized, vec![IROp::MovImm { dst: 1, imm: 7 }, IROp::Mov { dst: 2, src: 1 }, store(1), store(2)]);
    assert_eq!(optimizer.get_stats().common_subexpression_eliminations, 1);
}

#[test]
fn test_constant_folding() {
    let mut optimizer = IROptimizer::new();

    let ops = vec![
        IROp::MovImm { dst: 1, imm: 10 },
        IROp::MovImm { dst: 2, imm: 20 },
        IROp::Add {
            dst: 3,
            src1: 1,
            src2: 2,
        },
    ];

    let optimized = optimizer.optimize(&ops);

    assert!(
        optimized
            .iter()
            .any(|op| matches!(op, IROp::MovImm { dst: 3, imm: 30 }))
    );

    let stats = optimizer.get_stats();
    assert!(stats.constant_folds > 0);
}

#[test]
fn test_common_subexpression_elimination() {
    let mut optimizer = IROptimizer::new();

    let ops = vec![
        IROp::MovImm { dst: 1, imm: 10 },
        IROp::MovImm { dst: 2, imm: 20 },
        IROp::Add {
            dst: 3,
            src1: 1,
            src2: 2,
        },
        IROp::Add {
            dst: 4,
            src1: 1,
            src2: 2,
        },
    ];

    let optimized = optimizer.optimize(&ops);

    assert!(
        optimized
            .iter()
            .any(|op| matches!(op, IROp::Mov { dst: 4, src: 3 }))
    );

    let stats = optimizer.get_stats();
    assert!(stats.common_subexpression_eliminations > 0);
}

#[test]
fn division_by_zero_is_not_folded() {
    let mut optimizer = IROptimizer::new();
    let ops = vec![
        IROp::MovImm { dst: 1, imm: 10 },
        IROp::MovImm { dst: 2, imm: 0 },
        IROp::Div { dst: 3, src1: 1, src2: 2, signed: true },
        store(3),
    ];
    let optimized = optimizer.optimize(&ops);
    assert!(optimized.contains(&IROp::Div { dst: 3, src1: 1, src2: 2, signed: true }));
    assert_eq!(optimizer.get_stats().constant_folds, 0);
}

#[test]
fn signed_remainder_folds_euclidean() {
    let mut optimizer = IROptimizer::new();
    let ops = vec![
        IROp::MovImm { dst: 1, imm: (-7i64) as u64 },
        IROp::MovImm { dst: 2, imm: 3 },
        IROp::Rem { dst: 3, src1: 1, src2: 2, signed: true },
        store(3),
    ];
    let optimized = optimizer.optimize(&ops);
    assert_eq!(optimized[0], IROp::MovImm { dst: 3, imm: 2 });
}

#[test]
fn reset_clears_counters() {
    let mut optimizer = IROptimizer::new();
    let ops = vec![IROp::MovImm { dst: 1, imm: 1 }];
    optimizer.optimize(&ops);
    assert!(optimizer.get_stats().dead_code_eliminations > 0);
    optimizer.reset_stats();
    assert_eq!(optimizer.get_stats().dead_code_eliminations, 0);
}

#[test]
fn powers_of_two() {
    assert_eq!(is_power_of_two(8), Some(3));
    assert_eq!(is_power_of_two(1), Some(0));
    assert_eq!(is_power_of_two(12), None);
    assert_eq!(is_power_of_two(0), None);
    assert_eq!(is_power_of_two(-4), None);
}

#[test]
fn overwritten_register_is_not_reused() {
    let mut optimizer = IROptimizer::new();
    let ops = vec![IROp::MovImm { dst: 1, imm: 5 }, load(1, 2), IROp::MovImm { dst: 3, imm: 5 }, store(3), store(1)];
    let optimized = optimizer.optimize(&ops);
    assert!(optimized.contains(&IROp::MovImm { dst: 3, imm: 5 }));
    assert!(!optimized.contains(&IROp::Mov { dst: 3, src: 1 }));
}

#[test]
fn overwritten_constant_is_not_folded() {
    let mut optimizer = IROptimizer::new();
    let ops = vec![IROp::MovImm { dst: 1, imm: 5 }, load(1, 2), IROp::Add { dst: 2, src1: 1, src2: 1 }, store(2)];
    let optimized = optimizer.optimize(&ops);
    assert!(optimized.contains(&IROp::Add { dst: 2, src1: 1, src2: 1 }));
    assert_eq!(optimizer.get_stats().constant_folds, 0);
}
