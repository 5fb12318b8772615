use vm_cross_arch::adaptive_optimizer::{
    calculate_complexity, instruction_complexity, AdaptiveOptimizer, DynamicRecompiler, HotspotDetector,
    PerformanceProfiler, PerformanceTrend, TieredCompiler,
};
use vm_cross_arch::ir::IROp;

fn sample_ops() -> Vec<IROp> {
    vec![IROp::Const { dst: 1, value: 10 }, IROp::Add { dst: 2, src1: 1, src2: 1 }]
}

#[test]
fn test_hotspot_detection() {
    let mut detector = HotspotDetector::new();

    for _ in 0..150 {
        detector.record_execution(0x1000);
    }

    let hotspots = detector.detect_hotspots(0x1000);
    assert!(!hotspots.is_empty());
    assert!(hotspots[0].execution_count >= 150);
}

#[test]
fn test_performance_profiling() {
    let mut profiler = PerformanceProfiler::new();
    let ops = sample_ops();

    profiler.record_execution(0x1000, &ops);

    let data = profiler.data(0x1000).unwrap();
    assert_eq!(data.execution_count, 1);
    assert!(data.total_time > 0);
}

#[test]
fn test_tiered_compilation() {
    let mut compiler = TieredCompiler::new();
    let ops = sample_ops();

    let optimized = compiler.optimize(&ops, 0x1000);

    assert!(!optimized.is_empty());
}

#[test]
fn test_dynamic_recompilation() {
    let mut recompiler = DynamicRecompiler::new();
    let ops = sample_ops();

    let optimized = recompiler.optimize(&ops, 0x1000);
    assert!(!optimized.is_empty());

    let optimized2 = recompiler.optimize(&ops, 0x1000);
    assert_eq!(optimized, optimized2);
}

#[test]
fn below_threshold_is_not_a_hotspot() {
    let mut detector = HotspotDetector::new();
    for _ in 0..99 {
        detector.record_execution(0x2000);
    }
    assert_eq!(detector.execution_count(0x2000), 99);
    assert!(detector.detect_hotspots(0x2000).is_empty());
    detector.record_execution(0x2000);
    assert_eq!(detector.detect_hotspots(0x2000).len(), 1);
}

#[test]
fn complexity_sums_per_operation_costs() {
    let ops = sample_ops();
    let total: u32 = ops.iter().map(instruction_complexity).sum();
    assert_eq!(calculate_complexity(&ops), total);
    assert_eq!(PerformanceProfiler::estimate_execution_time(&ops), (total as u128) * 10);
}

#[test]
fn repeated_profiling_is_stable() {
    let mut profiler = PerformanceProfiler::new();
    let ops = sample_ops();
    for _ in 0..5 {
        profiler.record_execution(0x1000, &ops);
    }
    let data = profiler.data(0x1000).unwrap();
    assert_eq!(data.execution_count, 5);
    assert_eq!(data.trend, PerformanceTrend::Stable);
    assert!(!profiler.has_performance_degradation(0x1000));
}

#[test]
fn tiered_compiler_passes_operations_through() {
    let mut compiler = TieredCompiler::new();
    let ops = sample_ops();
    assert_eq!(compiler.optimize(&ops, 0x3000), ops);
    assert_eq!(compiler.get_execution_count(0x3000), 0);
    assert_eq!(compiler.determine_compilation_tier(0x3000).tier_id, 0);
}

#[test]
fn adaptive_optimizer_returns_the_operations() {
    let mut optimizer = AdaptiveOptimizer::new();
    let ops = sample_ops();
    let optimized = optimizer.optimize(&ops, 0x1000);
    assert_eq!(optimized, ops);
}
