//! Consistency between running an IR block directly and running its
//! translation: the blocks of the standard suite, and the comparison of two
//! execution results. Running the blocks is the job of the interpreter and
//! the translator behind.

use vstd::prelude::*;
use crate::encoding::Architecture;
use crate::ir::{IRBlock, IROp, Terminator};
use crate::text::{dec, push_text, push_u64, text};

verus! {

/// How an execution ended, as the comparison reads it: it continues, it
/// failed with an error (given by the error's `Debug` text), or it ended
/// otherwise (given by the status's `Debug` text).
#[derive(Debug, Clone, PartialEq, Eq)]
pub enum ExecStatus {
    Continue,
    Error(String),
    Other(String),
}

/// The outcome of running a block: its status and the address of the next
/// block.
#[derive(Debug, Clone, PartialEq, Eq)]
pub struct ExecResult {
    pub status: ExecStatus,
    pub next_pc: u64,
}

/// The outcome of one consistency test.
#[derive(Debug, Clone)]
pub struct ConsistencyTestResult {
    pub passed: bool,
    /// The result of running the block itself.
    pub interpreter_result: ExecResult,
    /// The result of running its translation.
    pub translated_result: ExecResult,
    /// What differs, in words.
    pub differences: Vec<String>,
}

/// Compares the execution of IR blocks with that of their translations.
#[derive(Debug, Clone, Copy)]
pub struct ConsistencyTester {
    pub source_arch: Architecture,
    pub target_arch: Architecture,
    /// Bytes of guest memory for each run.
    pub memory_size: usize,
}

/// The `Debug` text of a status.
pub open spec fn status_text(s: ExecStatus) -> Seq<char> {
    match s {
        ExecStatus::Continue => "Continue"@,
        ExecStatus::Error(e) => "Error("@ + e@ + ")"@,
        ExecStatus::Other(t) => t@,
    }
}

/// The two statuses agree: both continue, or both are errors with the same
/// text.
pub open spec fn statuses_agree(a: ExecStatus, b: ExecStatus) -> bool {
    match (a, b) {
        (ExecStatus::Continue, ExecStatus::Continue) => true,
        (ExecStatus::Error(e1), ExecStatus::Error(e2)) => e1@ == e2@,
        _ => false,
    }
}

/// The difference of the next addresses, each read as a signed 64-bit
/// number.
pub open spec fn pc_delta(a: u64, b: u64) -> int {
    (a as i64) as int - (b as i64) as int
}

pub open spec fn abs(x: int) -> int {
    if x < 0 {
        -x
    } else {
        x
    }
}

/// Lower-case hexadecimal digit.
pub open spec fn hex_digit(d: nat) -> char {
    if d < 10 {
        crate::text::digit_char(d)
    } else if d == 10 {
        'a'
    } else if d == 11 {
        'b'
    } else if d == 12 {
        'c'
    } else if d == 13 {
        'd'
    } else if d == 14 {
        'e'
    } else {
        'f'
    }
}

/// Lower-case hexadecimal representation, without leading zeros.
pub open spec fn hex(n: nat) -> Seq<char>
    decreases n,
{
    if n < 16 {
        seq![hex_digit(n)]
    } else {
        hex(n / 16).push(hex_digit(n % 16))
    }
}

/// The differences that the comparison reports, in order: the statuses
/// (where both are errors, their texts), then the next addresses where they
/// lie more than 16 bytes apart.
pub open spec fn differences_of(r1: ExecResult, r2: ExecResult) -> Seq<Seq<char>> {
    let status_diff: Seq<Seq<char>> = match (r1.status, r2.status) {
        (ExecStatus::Continue, ExecStatus::Continue) => Seq::empty(),
        (ExecStatus::Error(e1), ExecStatus::Error(e2)) => if e1@ == e2@ {
            Seq::empty()
        } else {
            seq!["错误不匹配: "@ + e1@ + " vs "@ + e2@]
        },
        (s1, s2) => seq!["状态不匹配: "@ + status_text(s1) + " vs "@ + status_text(s2)],
    };
    let d = abs(pc_delta(r1.next_pc, r2.next_pc));
    status_diff + if d > 16 {
        seq![
            "PC 差异过大: 0x"@ + hex(r1.next_pc as nat) + " vs 0x"@ + hex(r2.next_pc as nat) + " (差异: "@ + dec(
                d as nat,
            ) + " 字节)"@,
        ]
    } else {
        Seq::empty()
    }
}

/// The lower-case hexadecimal digit `d` (`d < 16`).
fn hex_digit_text(d: u64) -> (s: &'static str)
    requires
        d < 16,
    ensures
        s@ == seq![hex_digit(d as nat)],
{
    proof {
        reveal_strlit("0");
        reveal_strlit("1");
        reveal_strlit("2");
        reveal_strlit("3");
        reveal_strlit("4");
        reveal_strlit("5");
        reveal_strlit("6");
        reveal_strlit("7");
        reveal_strlit("8");
        reveal_strlit("9");
        reveal_strlit("a");
        reveal_strlit("b");
        reveal_strlit("c");
        reveal_strlit("d");
        reveal_strlit("e");
        reveal_strlit("f");
    }
    let s = if d == 0 {
        "0"
    } else if d == 1 {
        "1"
    } else if d == 2 {
        "2"
    } else if d == 3 {
        "3"
    } else if d == 4 {
        "4"
    } else if d == 5 {
        "5"
    } else if d == 6 {
        "6"
    } else if d == 7 {
        "7"
    } else if d == 8 {
        "8"
    } else if d == 9 {
        "9"
    } else if d == 10 {
        "a"
    } else if d == 11 {
        "b"
    } else if d == 12 {
        "c"
    } else if d == 13 {
        "d"
    } else if d == 14 {
        "e"
    } else {
        "f"
    };
    assert(s@ =~= seq![hex_digit(d as nat)]);
    s
}

/// Appends the lower-case hexadecimal rendering of `n`.
pub(crate) fn push_hex(s: &mut String, n: u64)
    ensures
        final(s)@ == old(s)@ + hex(n as nat),
    decreases n,
{
    if n >= 16 {
        push_hex(s, n / 16);
    }
    push_text(s, hex_digit_text(n % 16));
    proof {
        if n >= 16 {
            assert(hex(n as nat) == hex((n / 16) as nat).push(hex_digit((n % 16) as nat)));
        }
    }
    assert(final(s)@ =~= old(s)@ + hex(n as nat)) by {
        if n < 16 {
            assert(n % 16 == n);
        }
    }
}

/// The text of a status, as its `Debug` rendering spells it.
fn status_string(st: &ExecStatus) -> (s: String)
    ensures
        s@ == status_text(*st),
{
    match st {
        ExecStatus::Continue => text("Continue"),
        ExecStatus::Error(e) => {
            let mut s = text("Error(");
            push_text(&mut s, e.as_str());
            push_text(&mut s, ")");
            s
        },
        ExecStatus::Other(t) => text(t.as_str()),
    }
}

impl ConsistencyTester {
    /// A tester from `source_arch` to `target_arch` with 64 MiB of guest
    /// memory.
    pub fn new(source_arch: Architecture, target_arch: Architecture) -> (t: Self)
        ensures
            t.source_arch == source_arch,
            t.target_arch == target_arch,
            t.memory_size == 67108864,
    {
        ConsistencyTester { source_arch, target_arch, memory_size: 67108864 }
    }

    /// The same tester with `size` bytes of guest memory.
    pub fn with_memory_size(self, size: usize) -> (t: Self)
        ensures
            t.source_arch == self.source_arch,
            t.target_arch == self.target_arch,
            t.memory_size == size,
    {
        ConsistencyTester { memory_size: size, ..self }
    }

    /// Compares two results and appends what differs to `differences` (see
    /// `differences_of`). They pass where the statuses agree; a difference
    /// of the next addresses alone does not fail them, as translation may
    /// move block boundaries.
    pub fn compare_results(&self, result1: &ExecResult, result2: &ExecResult, differences: &mut Vec<String>) -> (passed: bool)
        requires
            i64::MIN < pc_delta(result1.next_pc, result2.next_pc) <= i64::MAX,
        ensures
            passed == statuses_agree(result1.status, result2.status),
            final(differences)@.map_values(|s: String| s@) == old(differences)@.map_values(|s: String| s@)
                + differences_of(*result1, *result2),
    {
        let ghost d0 = differences@.map_values(|s: String| s@);
        let mut passed = true;
        match (&result1.status, &result2.status) {
            (ExecStatus::Continue, ExecStatus::Continue) => {},
            (ExecStatus::Error(e1), ExecStatus::Error(e2)) => {
                if *e1 != *e2 {
                    let mut m = text("错误不匹配: ");
                    push_text(&mut m, e1.as_str());
                    push_text(&mut m, " vs ");
                    push_text(&mut m, e2.as_str());
                    differences.push(m);
                    passed = false;
                }
            },
            (s1, s2) => {
                let mut m = text("状态不匹配: ");
                let t1 = status_string(s1);
                push_text(&mut m, t1.as_str());
                push_text(&mut m, " vs ");
                let t2 = status_string(s2);
                push_text(&mut m, t2.as_str());
                differences.push(m);
                passed = false;
            },
        }
        let ghost d1 = differences@.map_values(|s: String| s@);
        let a = result1.next_pc as i64;
        let b = result2.next_pc as i64;
        let delta: i128 = (a as i128) - (b as i128);
        let pc_diff: i128 = if delta < 0 {
            -delta
        } else {
            delta
        };
        assert(delta == pc_delta(result1.next_pc, result2.next_pc));
        if pc_diff > 16 {
            let mut m = text("PC 差异过大: 0x");
            push_hex(&mut m, result1.next_pc);
            push_text(&mut m, " vs 0x");
            push_hex(&mut m, result2.next_pc);
            push_text(&mut m, " (差异: ");
            push_u64(&mut m, pc_diff as u64);
            push_text(&mut m, " 字节)");
            differences.push(m);
        }
        proof {
            assert(differences@.map_values(|s: String| s@) =~= d0 + differences_of(*result1, *result2));
        }
        passed
    }

    /// The outcome of a test from the result of running the block itself
    /// and that of running its translation (see `compare_results`).
    pub fn make_result(&self, interpreter_result: ExecResult, translated_result: ExecResult) -> (r: ConsistencyTestResult)
        requires
            i64::MIN < pc_delta(interpreter_result.next_pc, translated_result.next_pc) <= i64::MAX,
        ensures
            r.passed == statuses_agree(interpreter_result.status, translated_result.status),
            r.interpreter_result == interpreter_result,
            r.translated_result == translated_result,
            r.differences@.map_values(|s: String| s@) == differences_of(interpreter_result, translated_result),
    {
        let mut differences: Vec<String> = Vec::new();
        let passed = self.compare_results(&interpreter_result, &translated_result, &mut differences);
        assert(Seq::<String>::empty().map_values(|s: String| s@) =~= Seq::<Seq<char>>::empty());
        ConsistencyTestResult { passed, interpreter_result, translated_result, differences }
    }

    /// The blocks of the standard suite, with their names: arithmetic,
    /// logic, shifts, comparisons and select, each ending in a return.
    pub fn test_suite_blocks(&self) -> (r: Vec<(String, IRBlock)>)
        ensures
            r@.len() == 5,
            r@.map_values(|e: (String, IRBlock)| e.0@) == suite_names(),
            forall|k: int| 0 <= k < 5 ==> #[trigger] r@[k].1.start_pc == suite_start(k) && r@[k].1.ops@ == suite_ops(k)
                && r@[k].1.term == Terminator::Ret,
    {
        let mut r: Vec<(String, IRBlock)> = Vec::new();
        r.push(
            (
                text("基本算术操作"),
                IRBlock {
                    start_pc: 0x1000,
                    ops: vec![
                        IROp::MovImm { dst: 0, imm: 10 },
                        IROp::MovImm { dst: 1, imm: 20 },
                        IROp::Add { dst: 2, src1: 0, src2: 1 },
                        IROp::Sub { dst: 3, src1: 2, src2: 0 },
                    ],
                    term: Terminator::Ret,
                },
            ),
        );
        r.push(
            (
                text("逻辑操作"),
                IRBlock {
                    start_pc: 0x2000,
                    ops: vec![
                        IROp::MovImm { dst: 0, imm: 0xFF },
                        IROp::MovImm { dst: 1, imm: 0x0F },
                        IROp::And { dst: 2, src1: 0, src2: 1 },
                        IROp::Or { dst: 3, src1: 0, src2: 1 },
                        IROp::Xor { dst: 4, src1: 0, src2: 1 },
                    ],
                    term: Terminator::Ret,
                },
            ),
        );
        r.push(
            (
                text("移位操作"),
                IRBlock {
                    start_pc: 0x3000,
                    ops: vec![
                        IROp::MovImm { dst: 0, imm: 0x1234 },
                        IROp::SllImm { dst: 1, src: 0, sh: 4 },
                        IROp::SrlImm { dst: 2, src: 0, sh: 4 },
                        IROp::SraImm { dst: 3, src: 0, sh: 4 },
                    ],
                    term: Terminator::Ret,
                },
            ),
        );
        r.push(
            (
                text("比较操作"),
                IRBlock {
                    start_pc: 0x4000,
                    ops: vec![
                        IROp::MovImm { dst: 0, imm: 10 },
                        IROp::MovImm { dst: 1, imm: 20 },
                        IROp::CmpEq { dst: 2, lhs: 0, rhs: 1 },
                        IROp::CmpLt { dst: 3, lhs: 0, rhs: 1 },
                        IROp::CmpGe { dst: 4, lhs: 0, rhs: 1 },
                    ],
                    term: Terminator::Ret,
                },
            ),
        );
        r.push(
            (
                text("Select 操作"),
                IRBlock {
                    start_pc: 0x5000,
                    ops: vec![
                        IROp::MovImm { dst: 0, imm: 1 },
                        IROp::MovImm { dst: 1, imm: 100 },
                        IROp::MovImm { dst: 2, imm: 200 },
                        IROp::Select { dst: 3, cond: 0, true_val: 1, false_val: 2 },
                    ],
                    term: Terminator::Ret,
                },
            ),
        );
        assert(r@.map_values(|e: (String, IRBlock)| e.0@) =~= suite_names());
        assert forall|k: int| 0 <= k < 5 implies #[trigger] r@[k].1.start_pc == suite_start(k) && r@[k].1.ops@
            == suite_ops(k) && r@[k].1.term == Terminator::Ret by {
            if k == 0 {
                assert(r@[0].1.ops@ =~= suite_ops(0));
            } else if k == 1 {
                assert(r@[1].1.ops@ =~= suite_ops(1));
            } else if k == 2 {
                assert(r@[2].1.ops@ =~= suite_ops(2));
            } else if k == 3 {
                assert(r@[3].1.ops@ =~= suite_ops(3));
            } else {
                assert(r@[4].1.ops@ =~= suite_ops(4));
            }
        }
        r
    }
}

/// The names of the suite's blocks.
pub open spec fn suite_names() -> Seq<Seq<char>> {
    seq!["基本算术操作"@, "逻辑操作"@, "移位操作"@, "比较操作"@, "Select 操作"@]
}

/// The start address of the suite's block `k`.
pub open spec fn suite_start(k: int) -> u64 {
    ((k + 1) * 0x1000) as u64
}

/// The operations of the suite's block `k`.
pub open spec fn suite_ops(k: int) -> Seq<IROp> {
    if k == 0 {
        seq![
            IROp::MovImm { dst: 0, imm: 10 },
            IROp::MovImm { dst: 1, imm: 20 },
            IROp::Add { dst: 2, src1: 0, src2: 1 },
            IROp::Sub { dst: 3, src1: 2, src2: 0 },
        ]
    } else if k == 1 {
        seq![
            IROp::MovImm { dst: 0, imm: 0xFF },
            IROp::MovImm { dst: 1, imm: 0x0F },
            IROp::And { dst: 2, src1: 0, src2: 1 },
            IROp::Or { dst: 3, src1: 0, src2: 1 },
            IROp::Xor { dst: 4, src1: 0, src2: 1 },
        ]
    } else if k == 2 {
        seq![
            IROp::MovImm { dst: 0, imm: 0x1234 },
            IROp::SllImm { dst: 1, src: 0, sh: 4 },
            IROp::SrlImm { dst: 2, src: 0, sh: 4 },
            IROp::SraImm { dst: 3, src: 0, sh: 4 },
        ]
    } else if k == 3 {
        seq![
            IROp::MovImm { dst: 0, imm: 10 },
            IROp::MovImm { dst: 1, imm: 20 },
            IROp::CmpEq { dst: 2, lhs: 0, rhs: 1 },
            IROp::CmpLt { dst: 3, lhs: 0, rhs: 1 },
            IROp::CmpGe { dst: 4, lhs: 0, rhs: 1 },
        ]
    } else {
        seq![
            IROp::MovImm { dst: 0, imm: 1 },
            IROp::MovImm { dst: 1, imm: 100 },
            IROp::MovImm { dst: 2, imm: 200 },
            IROp::Select { dst: 3, cond: 0, true_val: 1, false_val: 2 },
        ]
    }
}

/// Benchmark timings in nanoseconds (the per-block averages and the ratio
/// are computed by the caller).
#[derive(Debug, Clone, Copy, PartialEq, Eq, Structural)]
pub struct BenchmarkResult {
    pub interpreter_time_nanos: u128,
    pub translator_time_nanos: u128,
    pub iterations: u64,
    pub block_count: usize,
}

impl BenchmarkResult {
    /// How many blocks ran in each of the two timings.
    pub fn total_blocks(&self) -> (n: u64)
        requires
            self.iterations * self.block_count <= u64::MAX,
        ensures
            n == self.iterations * self.block_count,
    {
        self.iterations * (self.block_count as u64)
    }
}

/// A benchmark over a list of blocks: each is run `iterations` times by
/// the interpreter, and translated and run as often; the runs are timed by
/// the caller.
#[derive(Debug, Clone)]
pub struct PerformanceBenchmark {
    pub test_blocks: Vec<IRBlock>,
}

impl PerformanceBenchmark {
    pub fn new() -> (b: Self)
        ensures
            b.test_blocks@ == Seq::<IRBlock>::empty(),
    {
        PerformanceBenchmark { test_blocks: Vec::new() }
    }

    /// Adds a block to the list.
    pub fn add_test_block(self, block: IRBlock) -> (b: Self)
        ensures
            b.test_blocks@ == self.test_blocks@.push(block),
    {
        let mut blocks = self.test_blocks;
        blocks.push(block);
        PerformanceBenchmark { test_blocks: blocks }
    }

    /// The result of a run of `iterations` rounds with the two timings.
    pub fn result(&self, interpreter_time_nanos: u128, translator_time_nanos: u128, iterations: u64) -> (r: BenchmarkResult)
        ensures
            r == (BenchmarkResult {
                interpreter_time_nanos,
                translator_time_nanos,
                iterations,
                block_count: self.test_blocks@.len() as usize,
            }),
    {
        BenchmarkResult { interpreter_time_nanos, translator_time_nanos, iterations, block_count: self.test_blocks.len() }
    }
}

} // verus!
