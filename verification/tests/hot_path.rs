use vm_cross_arch::hot_path_optimizer::{HotPathOptimizer, HotPathStats};

#[test]
fn test_hot_path_detection() {
    let mut optimizer = HotPathOptimizer::new(5, 3);

    let path: Vec<u64> = vec![0x1000, 0x2000, 0x3000, 0x4000, 0x5000];

    for _ in 0..5 {
        for &pc in &path {
            optimizer.record_block_execution(pc);
        }
    }

    let hot_paths = optimizer.get_hot_paths(10);
    assert!(!hot_paths.is_empty());
}

#[test]
fn test_prefetch_next_blocks() {
    let mut optimizer = HotPathOptimizer::new(5, 3);

    let path: Vec<u64> = vec![0x1000, 0x2000, 0x3000];

    for _ in 0..5 {
        for &pc in &path {
            optimizer.record_block_execution(pc);
        }
    }

    let next_blocks = optimizer.prefetch_next_blocks(0x1000, 10);
    assert!(next_blocks.contains(&0x2000));
}

#[test]
fn window_counts_paths_once_full() {
    let mut o = HotPathOptimizer::new(3, 1);
    o.record_block_execution(1);
    o.record_block_execution(2);
    assert_eq!(*o.stats(), HotPathStats::default());
    o.record_block_execution(3);
    assert_eq!(o.stats().total_path_executions, 1);
    assert_eq!(o.stats().hot_path_executions, 0);
    // the same three blocks again: windows [2,3,1], [3,1,2], [1,2,3]
    o.record_block_execution(1);
    o.record_block_execution(2);
    o.record_block_execution(3);
    assert_eq!(o.stats().total_path_executions, 4);
    // [1,2,3] ran twice, more than the threshold of 1
    assert_eq!(o.stats().hot_path_executions, 1);
    let hot = o.get_hot_paths(10);
    assert_eq!(hot.len(), 1);
    assert_eq!(hot[0].blocks(), &[1, 2, 3]);
    assert_eq!(hot[0].execution_count(), 2);
    assert_eq!(hot[0].total_time_us(), 200);
    assert!(hot[0].is_hot());
}

#[test]
fn hot_paths_most_executed_first_and_limited() {
    let mut o = HotPathOptimizer::new(2, 0);
    // windows: [1,2], [2,1], [1,2], [2,3]
    for pc in [1u64, 2, 1, 2, 3] {
        o.record_block_execution(pc);
    }
    let hot = o.get_hot_paths(10);
    assert_eq!(hot.len(), 3);
    assert_eq!(hot[0].blocks(), &[1, 2]);
    assert_eq!(hot[0].execution_count(), 2);
    assert_eq!(hot[1].blocks(), &[2, 1]);
    assert_eq!(hot[2].blocks(), &[2, 3]);
    let top = o.get_hot_paths(1);
    assert_eq!(top.len(), 1);
    assert_eq!(top[0].blocks(), &[1, 2]);
}

#[test]
fn block_membership_and_prefetch_are_sorted_and_distinct() {
    let mut o = HotPathOptimizer::new(2, 0);
    for pc in [5u64, 9, 5, 7] {
        o.record_block_execution(pc);
    }
    assert!(o.is_block_in_hot_path(5));
    assert!(o.is_block_in_hot_path(7));
    assert!(!o.is_block_in_hot_path(42));
    // paths linking 5: [5,9], [9,5], [5,7]; the blocks after 5 are 9 and 7
    assert_eq!(o.prefetch_next_blocks(5, 10), vec![7, 9]);
    assert_eq!(o.prefetch_next_blocks(5, 1), vec![7]);
    assert_eq!(o.get_block_hot_paths(7).len(), 1);
    assert_eq!(o.get_block_hot_paths(5).len(), 3);
}

#[test]
fn raising_the_threshold_cools_paths() {
    let mut o = HotPathOptimizer::new(1, 0);
    o.record_block_execution(8);
    o.record_block_execution(8);
    assert!(o.is_block_in_hot_path(8));
    o.set_hot_threshold(5);
    assert!(!o.is_block_in_hot_path(8));
    assert_eq!(o.stats().hot_path_count, 0);
    o.set_hot_threshold(1);
    assert!(o.is_block_in_hot_path(8));
    assert_eq!(o.stats().hot_path_count, 1);
}

#[test]
fn default_optimizer_has_window_of_ten() {
    let mut o = HotPathOptimizer::default();
    for pc in 0..9u64 {
        o.record_block_execution(pc);
    }
    assert_eq!(o.stats().total_path_executions, 0);
    o.record_block_execution(9);
    assert_eq!(o.stats().total_path_executions, 1);
}
