//! Cross-architecture translation layer: instruction encoders for x86-64,
//! ARM64 and RISC-V64, a PowerPC decoder/encoder, translation caches, and the
//! OS-compatibility helpers that map guest conventions onto the host.

pub mod filesystem_compat;
pub mod text;
pub mod ir;
pub mod encoding;
pub mod encoder;
pub mod encoder_x86;
pub mod encoder_arm64;
pub mod encoder_riscv;
pub mod error;
pub mod powerpc;
pub mod translator;
pub mod fast_path;
pub mod keyed;
pub mod cache_optimizer;
pub mod block_cache;
pub mod clock;
pub mod adaptive_optimizer;
pub mod memory_model;
pub mod interrupt_handler;
pub mod network_compat;
pub mod signal_compat;
pub mod instruction_patterns;
pub mod configs;
pub mod memory_alignment_optimizer;
pub mod instruction_parallelism;
pub mod cross_arch_aot;
pub mod cross_arch_runtime;
pub mod consistency_tests;
pub mod ir_optimizer;
pub mod refactored_encoder;
pub mod os_support;
pub mod hot_path_optimizer;
pub mod enhanced_block_cache;
pub mod performance_optimizer;
pub mod direct_execution;
pub mod integration;
pub mod optimized_register_allocator;
