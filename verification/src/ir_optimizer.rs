//! IR-level optimization of a sequence of operations: constant propagation
//! and folding, dead-code elimination, common-subexpression elimination,
//! algebraic simplification with strength reduction, and peephole rewrites.
//! Each pass is stated as a rule table over single operations (or pairs, for
//! the peephole), and the optimizer as their composition.

use vstd::prelude::*;
use crate::configs::{BinaryOp, UnaryOp};
use crate::ir::{IROp, RegId};
use crate::keyed::{get, has_key, lemma_pos, lemma_put, lemma_remove_key, pos, put, remove_key, unique};

verus! {

/// An operand of a subexpression.
#[derive(Debug, Clone, Copy, PartialEq, Eq, Structural, Hash)]
pub enum Operand {
    Register(RegId),
    Constant(i64),
}

/// A computation whose result a register may already hold.
#[derive(Debug, Clone, Copy, PartialEq, Eq, Structural, Hash)]
pub enum SubExpression {
    Binary { op: BinaryOp, left: Operand, right: Operand },
    Unary { op: UnaryOp, operand: Operand },
    Load { base: RegId, offset: i64, size: u8 },
    /// An immediate value.
    Constant { value: u64 },
}

/// How often each optimization applied.
#[derive(Debug, Clone, Copy, PartialEq, Eq, Structural)]
pub struct OptimizationStats {
    pub constant_folds: usize,
    pub dead_code_eliminations: usize,
    pub common_subexpression_eliminations: usize,
    pub algebraic_simplifications: usize,
    pub strength_reductions: usize,
}

pub open spec fn zero_stats() -> OptimizationStats {
    OptimizationStats {
        constant_folds: 0,
        dead_code_eliminations: 0,
        common_subexpression_eliminations: 0,
        algebraic_simplifications: 0,
        strength_reductions: 0,
    }
}

impl Default for OptimizationStats {
    fn default() -> (s: Self)
        ensures
            s == zero_stats(),
    {
        OptimizationStats {
            constant_folds: 0,
            dead_code_eliminations: 0,
            common_subexpression_eliminations: 0,
            algebraic_simplifications: 0,
            strength_reductions: 0,
        }
    }
}

// ---------------------------------------------------------------------------
// Constant propagation and folding
// ---------------------------------------------------------------------------

/// `a / b` as `i64::wrapping_div` computes it (`b != 0`).
pub open spec fn div_wrap(a: i64, b: i64) -> i64 {
    match a.checked_div(b) {
        Some(q) => q,
        None => a,
    }
}

/// `a % b` as `i64::wrapping_rem` computes it (`b != 0`).
pub open spec fn rem_wrap(a: i64, b: i64) -> i64 {
    match a.checked_rem(b) {
        Some(r) => r,
        None => 0,
    }
}

/// `a.rem_euclid(b)` as `i64::wrapping_rem_euclid` computes it (`b != 0`).
pub open spec fn rem_euclid_wrap(a: i64, b: i64) -> i64 {
    match a.checked_rem_euclid(b) {
        Some(r) => r,
        None => 0,
    }
}

/// The shift amount taken from a constant: its low 32 bits, modulo 64.
pub open spec fn shift_amount(b: i64) -> u32 {
    ((b as u32) % 64) as u32
}

/// The value that `op` computes where it is an arithmetic, logic or
/// register-shift operation (other than an arithmetic right shift) whose
/// sources both hold known constants in `c`; division and remainder need a
/// non-zero divisor. Signed remainder is the Euclidean one.
pub open spec fn folded_value(op: IROp, c: Seq<(RegId, i64)>) -> Option<i64> {
    match op {
        IROp::Add { src1, src2, .. } => match (get(c, src1), get(c, src2)) {
            (Some(a), Some(b)) => Some(a.wrapping_add(b)),
            _ => None,
        },
        IROp::Sub { src1, src2, .. } => match (get(c, src1), get(c, src2)) {
            (Some(a), Some(b)) => Some(a.wrapping_sub(b)),
            _ => None,
        },
        IROp::Mul { src1, src2, .. } => match (get(c, src1), get(c, src2)) {
            (Some(a), Some(b)) => Some(a.wrapping_mul(b)),
            _ => None,
        },
        IROp::Div { src1, src2, .. } => match (get(c, src1), get(c, src2)) {
            (Some(a), Some(b)) => if b != 0 {
                Some(div_wrap(a, b))
            } else {
                None
            },
            _ => None,
        },
        IROp::Rem { src1, src2, signed, .. } => match (get(c, src1), get(c, src2)) {
            (Some(a), Some(b)) => if b != 0 {
                Some(
                    if signed {
                        rem_euclid_wrap(a, b)
                    } else {
                        rem_wrap(a, b)
                    },
                )
            } else {
                None
            },
            _ => None,
        },
        IROp::And { src1, src2, .. } => match (get(c, src1), get(c, src2)) {
            (Some(a), Some(b)) => Some(a & b),
            _ => None,
        },
        IROp::Or { src1, src2, .. } => match (get(c, src1), get(c, src2)) {
            (Some(a), Some(b)) => Some(a | b),
            _ => None,
        },
        IROp::Xor { src1, src2, .. } => match (get(c, src1), get(c, src2)) {
            (Some(a), Some(b)) => Some(a ^ b),
            _ => None,
        },
        IROp::Sll { src, shreg, .. } => match (get(c, src), get(c, shreg)) {
            (Some(a), Some(b)) => Some(a.wrapping_shl(shift_amount(b))),
            _ => None,
        },
        IROp::Srl { src, shreg, .. } => match (get(c, src), get(c, shreg)) {
            (Some(a), Some(b)) => Some(a.wrapping_shr(shift_amount(b))),
            _ => None,
        },
        _ => None,
    }
}

/// The destination register of an operation that writes one.
pub open spec fn dst_of(op: IROp) -> RegId {
    match op {
        IROp::Add { dst, .. } | IROp::Sub { dst, .. } | IROp::Mul { dst, .. } | IROp::Div { dst, .. }
        | IROp::Rem { dst, .. } | IROp::And { dst, .. } | IROp::Or { dst, .. } | IROp::Xor { dst, .. }
        | IROp::Sll { dst, .. } | IROp::Srl { dst, .. } | IROp::MovImm { dst, .. } => dst,
        _ => 0,
    }
}

/// The constants that stay known once `op`, which is not folded, has run:
/// the register it writes loses its constant; an operation whose writes
/// are not known (see `single_write`) clears them all.
pub open spec fn after_unfolded(c: Seq<(RegId, i64)>, op: IROp) -> Seq<(RegId, i64)> {
    if writes_nothing(op) {
        c
    } else {
        match single_write(op) {
            Some(d) => remove_key(c, d),
            None => Seq::empty(),
        }
    }
}

/// One step of constant propagation: an immediate move records its
/// constant; a foldable operation becomes an immediate move of its value,
/// which is recorded too; anything else stays, and what it overwrites is no
/// longer known (see `after_unfolded`).
pub open spec fn fold_step(c: Seq<(RegId, i64)>, op: IROp) -> (Option<IROp>, Seq<(RegId, i64)>) {
    match op {
        IROp::MovImm { dst, imm } => (None, put(c, dst, imm as i64)),
        _ => match folded_value(op, c) {
            Some(v) => (Some(IROp::MovImm { dst: dst_of(op), imm: v as u64 }), put(c, dst_of(op), v)),
            None => (None, after_unfolded(c, op)),
        },
    }
}

/// Constant propagation and folding over `ops` from the constants `c`: the
/// operations after the pass, the constants known at its end, and the
/// number of folds.
pub open spec fn fold_pass(c: Seq<(RegId, i64)>, ops: Seq<IROp>) -> (Seq<IROp>, Seq<(RegId, i64)>, nat)
    decreases ops.len(),
{
    if ops.len() == 0 {
        (Seq::empty(), c, 0)
    } else {
        let (out, c1, n) = fold_pass(c, ops.drop_last());
        let (r, c2) = fold_step(c1, ops.last());
        match r {
            Some(f) => (out.push(f), c2, n + 1),
            None => (out.push(ops.last()), c2, n),
        }
    }
}

/// The two source registers of a two-register addition, subtraction,
/// multiplication or bitwise operation (first operand, then second), and
/// of a register left shift (value, then shift amount).
pub open spec fn two_sources(op: IROp) -> Option<(RegId, RegId)> {
    match op {
        IROp::Add { src1, src2, .. } | IROp::Sub { src1, src2, .. } | IROp::Mul { src1, src2, .. }
        | IROp::And { src1, src2, .. } | IROp::Or { src1, src2, .. } | IROp::Xor { src1, src2, .. } => Some((src1, src2)),
        IROp::Sll { src, shreg, .. } => Some((src, shreg)),
        _ => None,
    }
}

/// `x` and `y` agree modulo 2^64: as 64-bit register contents they are the
/// same value.
pub open spec fn same_word(x: int, y: int) -> bool {
    (x - y) % 0x1_0000_0000_0000_0000int == 0
}

/// What a 64-bit machine writes for `op` when its first source holds `a`
/// and its second `b`, both read as two's-complement words: `v` is that
/// result, modulo 2^64 for the arithmetic operations; a left shift moves
/// `a` by the low six bits of `b`.
pub open spec fn word_result(op: IROp, a: i64, b: i64, v: i64) -> bool {
    match op {
        IROp::Add { .. } => same_word(v as int, a + b),
        IROp::Sub { .. } => same_word(v as int, a - b),
        IROp::Mul { .. } => same_word(v as int, a * b),
        IROp::And { .. } => v == a & b,
        IROp::Or { .. } => v == a | b,
        IROp::Xor { .. } => v == a ^ b,
        IROp::Sll { .. } => v as u64 == (a as u64) << ((b as u64) & 63),
        _ => false,
    }
}

proof fn lemma_shl_word(a: i64, b: i64)
    by (bit_vector)
    ensures
        (a << ((((b as u32) % 64) as u32) % 64)) as u64 == (a as u64) << ((b as u64) & 63),
{
}

/// Folding keeps the meaning of an operation: where both sources of an
/// addition, subtraction, multiplication, bitwise operation or register
/// left shift hold known constants `a` (first source) and `b` (second
/// source), the step replaces it by an immediate move into its destination
/// of the value the machine would have computed from `a` and `b`, and
/// records that value as the destination's constant.
pub proof fn lemma_fold_step_keeps_meaning(c: Seq<(RegId, i64)>, op: IROp, a: i64, b: i64)
    requires
        unique(c),
        two_sources(op) is Some,
        get(c, (two_sources(op)->0).0) == Some(a),
        get(c, (two_sources(op)->0).1) == Some(b),
    ensures
        get(fold_step(c, op).1, dst_of(op)) is Some,
        fold_step(c, op).0 == Some(
            IROp::MovImm { dst: dst_of(op), imm: (get(fold_step(c, op).1, dst_of(op))->0) as u64 },
        ),
        word_result(op, a, b, get(fold_step(c, op).1, dst_of(op))->0),
{
    let v = folded_value(op, c)->0;
    lemma_put(c, dst_of(op), v);
    lemma_shl_word(a, b);
    if op is Mul {
        let x = a * b;
        let r = 0x1_0000_0000_0000_0000int;
        vstd::arithmetic::div_mod::lemma_fundamental_div_mod(x, r);
        vstd::arithmetic::div_mod::lemma_mod_multiples_basic(-(x / r), r);
        vstd::arithmetic::div_mod::lemma_mod_multiples_basic(-(x / r) - 1, r);
        assert((-(x / r)) * r == -(r * (x / r))) by (nonlinear_arith);
        assert((-(x / r) - 1) * r == -(r * (x / r)) - r) by (nonlinear_arith);
    }
}

/// `q` is the quotient of `a` by `b` rounded toward zero: the remainder
/// `a - q * b` is smaller than `b` in magnitude and is zero or has the sign
/// of `a`.
pub open spec fn truncated_quotient(a: int, b: int, q: int) -> bool {
    let r = a - q * b;
    &&& (if r >= 0 { r } else { -r }) < (if b >= 0 { b } else { -b })
    &&& (r == 0 || (r > 0) == (a > 0))
}

/// The quotient by sign cases, each through non-negative division.
spec fn quotient_by_signs(x: int, d: int) -> int {
    if x == 0 {
        0
    } else if x > 0 && d > 0 {
        x / d
    } else if x < 0 && d < 0 {
        (x * -1) / (d * -1)
    } else if x < 0 {
        ((x * -1) / d) * -1
    } else {
        (x / (d * -1)) * -1
    }
}

proof fn lemma_quotient_by_signs(x: int, d: int)
    requires
        d != 0,
    ensures
        truncated_quotient(x, d, quotient_by_signs(x, d)),
{
    let ax = if x >= 0 { x } else { -x };
    let ad = if d >= 0 { d } else { -d };
    vstd::arithmetic::div_mod::lemma_fundamental_div_mod(ax, ad);
    vstd::arithmetic::div_mod::lemma_mod_pos_bound(ax, ad);
    let q0 = ax / ad;
    let r0 = ax % ad;
    assert(ax == ad * q0 + r0);
    let q = quotient_by_signs(x, d);
    if x == 0 {
    } else if x > 0 && d > 0 {
        assert(x - q * d == r0) by (nonlinear_arith)
            requires
                x == ax,
                d == ad,
                q == q0,
                ax == ad * q0 + r0,
        ;
    } else if x < 0 && d < 0 {
        assert(x - q * d == -r0) by (nonlinear_arith)
            requires
                x == -ax,
                d == -ad,
                q == q0,
                ax == ad * q0 + r0,
        ;
    } else if x < 0 {
        assert(x - q * d == -r0) by (nonlinear_arith)
            requires
                x == -ax,
                d == ad,
                q == -q0,
                ax == ad * q0 + r0,
        ;
    } else {
        assert(x - q * d == r0) by (nonlinear_arith)
            requires
                x == ax,
                d == -ad,
                q == -q0,
                ax == ad * q0 + r0,
        ;
    }
}

/// Folding a signed division keeps its meaning: where both sources hold
/// known constants `a` (dividend) and `b` (divisor, not zero), the step
/// replaces it by an immediate move into its destination of the quotient
/// rounded toward zero, which wraps to `i64::MIN` for `i64::MIN / -1`, and
/// records it as the destination's constant.
pub proof fn lemma_fold_signed_division(c: Seq<(RegId, i64)>, dst: RegId, src1: RegId, src2: RegId, a: i64, b: i64)
    requires
        unique(c),
        get(c, src1) == Some(a),
        get(c, src2) == Some(b),
        b != 0,
    ensures
        ({
            let op = IROp::Div { dst, src1, src2, signed: true };
            let (r, c2) = fold_step(c, op);
            &&& get(c2, dst) is Some
            &&& r == Some(IROp::MovImm { dst, imm: (get(c2, dst)->0) as u64 })
            &&& (a == i64::MIN && b == -1) ==> get(c2, dst)->0 == i64::MIN
            &&& !(a == i64::MIN && b == -1) ==> truncated_quotient(a as int, b as int, (get(c2, dst)->0) as int)
        }),
{
    let op = IROp::Div { dst, src1, src2, signed: true };
    let v = folded_value(op, c)->0;
    lemma_put(c, dst, v);
    lemma_quotient_by_signs(a as int, b as int);
    if !(a == i64::MIN && b == -1) {
        let q = quotient_by_signs(a as int, b as int);
        assert(i64::MIN <= q <= i64::MAX) by {
            let r = a - q * b;
            if b > 0 {
                assert(q * b == a - r);
                assert(-0x8000_0000_0000_0000 <= q <= 0x7FFF_FFFF_FFFF_FFFF) by (nonlinear_arith)
                    requires
                        q * b == a - r,
                        b >= 1,
                        -b < r < b,
                        r == 0 || (r > 0) == (a > 0),
                        -0x8000_0000_0000_0000 <= a <= 0x7FFF_FFFF_FFFF_FFFF,
                ;
            } else {
                assert(-0x8000_0000_0000_0000 <= q <= 0x7FFF_FFFF_FFFF_FFFF) by (nonlinear_arith)
                    requires
                        q * b == a - r,
                        b <= -1,
                        b < r < -b,
                        r == 0 || (r > 0) == (a > 0),
                        -0x8000_0000_0000_0000 <= a <= 0x7FFF_FFFF_FFFF_FFFF,
                        !(a == -0x8000_0000_0000_0000 && b == -1),
                ;
            }
        }
    }
}

/// Every recorded constant is held by its register in `s`.
pub open spec fn consts_hold(c: Seq<(RegId, i64)>, s: spec_fn(RegId) -> i64) -> bool {
    forall|x: (RegId, i64)| #[trigger] c.contains(x) ==> s(x.0) == x.1
}

proof fn lemma_word_round_trip(v: i64)
    by (bit_vector)
    ensures
        (v as u64) as i64 == v,
{
}

proof fn lemma_put_overrides(c: Seq<(RegId, i64)>, k: RegId, v: i64)
    requires
        unique(c),
    ensures
        forall|x: (RegId, i64)| #[trigger] put(c, k, v).contains(x) ==> (c.contains(x) && x.0 != k) || x == (k, v),
{
    lemma_put(c, k, v);
    lemma_put_members(c, k, v);
    let p = put(c, k, v);
    assert forall|x: (RegId, i64)| #[trigger] p.contains(x) implies (c.contains(x) && x.0 != k) || x == (k, v) by {
        if x.0 == k {
            let i = choose|i: int| 0 <= i < p.len() && p[i] == x;
            lemma_pos(p, i);
        }
    }
}

proof fn lemma_remove_members(c: Seq<(RegId, i64)>, k: RegId)
    requires
        unique(c),
    ensures
        forall|x: (RegId, i64)| #[trigger] remove_key(c, k).contains(x) ==> c.contains(x) && x.0 != k,
{
    lemma_remove_key(c, k);
    let q = remove_key(c, k);
    assert forall|x: (RegId, i64)| #[trigger] q.contains(x) implies c.contains(x) && x.0 != k by {
        let i = choose|i: int| 0 <= i < q.len() && q[i] == x;
        if has_key(c, k) {
            let p = pos(c, k);
            if i < p {
                assert(c[i] == x);
            } else {
                assert(c[i + 1] == x);
            }
        }
        assert(has_key(q, x.0));
    }
}

proof fn lemma_fold_step_sound(c: Seq<(RegId, i64)>, op: IROp, s: spec_fn(RegId) -> i64)
    requires
        unique(c),
        register_op(op),
        consts_hold(c, s),
    ensures
        run_move_arith(s, match fold_step(c, op).0 { Some(x) => x, None => op }) == run_move_arith(s, op),
        consts_hold(fold_step(c, op).1, run_move_arith(s, op)),
        unique(fold_step(c, op).1),
{
    let t = run_move_arith(s, op);
    let d = single_write(op)->0;
    assert(forall|r: RegId| r != d ==> #[trigger] t(r) == s(r));
    match op {
        IROp::MovImm { dst, imm } => {
            lemma_put(c, dst, imm as i64);
            lemma_put_overrides(c, dst, imm as i64);
        },
        _ => {
            match folded_value(op, c) {
                Some(v) => {
                    let (s1, s2) = two_sources(op)->0;
                    lemma_get_member(c, s1);
                    lemma_get_member(c, s2);
                    lemma_word_round_trip(v);
                    lemma_put(c, d, v);
                    lemma_put_overrides(c, d, v);
                    let u = run_move_arith(s, IROp::MovImm { dst: d, imm: v as u64 });
                    assert(u =~= t);
                },
                None => {
                    lemma_remove_key(c, d);
                    lemma_remove_members(c, d);
                },
            }
        },
    }
}

proof fn lemma_fold_pass_sound(c: Seq<(RegId, i64)>, ops: Seq<IROp>, s: spec_fn(RegId) -> i64)
    requires
        unique(c),
        forall|k: int| 0 <= k < ops.len() ==> register_op(#[trigger] ops[k]),
        consts_hold(c, s),
    ensures
        run_ops(s, fold_pass(c, ops).0) == run_ops(s, ops),
        consts_hold(fold_pass(c, ops).1, run_ops(s, ops)),
        unique(fold_pass(c, ops).1),
    decreases ops.len(),
{
    if ops.len() > 0 {
        let init = ops.drop_last();
        assert forall|k: int| 0 <= k < init.len() implies register_op(#[trigger] init[k]) by {
            assert(init[k] == ops[k]);
        }
        lemma_fold_pass_sound(c, init, s);
        let (out, c1, n) = fold_pass(c, init);
        let t = run_ops(s, init);
        assert(register_op(ops[ops.len() - 1]));
        lemma_fold_step_sound(c1, ops.last(), t);
        let x = match fold_step(c1, ops.last()).0 {
            Some(y) => y,
            None => ops.last(),
        };
        let out2 = fold_pass(c, ops).0;
        assert(out2 == out.push(x));
        assert(out2.drop_last() =~= out);
        assert(run_ops(s, out2) == run_move_arith(run_ops(s, out), x));
    }
}

/// Constant propagation and folding keep the meaning of a block: for a
/// block of additions, subtractions, multiplications, register moves and
/// immediate moves (see `register_op`), running the folded block from any
/// register contents `s` leaves every register as running the block itself
/// does.
pub proof fn lemma_folding_keeps_meaning(ops: Seq<IROp>, s: spec_fn(RegId) -> i64)
    requires
        forall|k: int| 0 <= k < ops.len() ==> register_op(#[trigger] ops[k]),
    ensures
        run_ops(s, fold_pass(Seq::empty(), ops).0) == run_ops(s, ops),
{
    lemma_fold_pass_sound(Seq::empty(), ops, s);
}

// ---------------------------------------------------------------------------
// Dead-code elimination
// ---------------------------------------------------------------------------

/// The registers an operation reads, as liveness counts them: both sources
/// of two-register arithmetic and logic operations, source and shift
/// register of register shifts, the base of a load and the stored register
/// of a store.
pub open spec fn uses(op: IROp) -> Seq<RegId> {
    match op {
        IROp::Add { src1, src2, .. } | IROp::Sub { src1, src2, .. } | IROp::Mul { src1, src2, .. }
        | IROp::And { src1, src2, .. } | IROp::Or { src1, src2, .. } | IROp::Xor { src1, src2, .. }
        | IROp::Div { src1, src2, .. } | IROp::Rem { src1, src2, .. } => seq![src1, src2],
        IROp::Sll { src, shreg, .. } | IROp::Srl { src, shreg, .. } | IROp::Sra { src, shreg, .. } => seq![src, shreg],
        IROp::Load { base, .. } => seq![base],
        IROp::Store { src, .. } => seq![src],
        _ => Seq::empty(),
    }
}

/// Some operation of `ops` reads `r`.
pub open spec fn is_live(ops: Seq<IROp>, r: RegId) -> bool {
    exists|i: int| 0 <= i < ops.len() && #[trigger] uses(ops[i]).contains(r)
}

/// The register that `op` computes, for the operations other than
/// immediate moves that dead-code elimination may remove: arithmetic and
/// logic operations, register shifts and loads.
pub open spec fn result_reg(op: IROp) -> Option<RegId> {
    match op {
        IROp::Add { dst, .. } | IROp::Sub { dst, .. } | IROp::Mul { dst, .. } | IROp::Div { dst, .. }
        | IROp::Rem { dst, .. } | IROp::And { dst, .. } | IROp::Or { dst, .. } | IROp::Xor { dst, .. }
        | IROp::Sll { dst, .. } | IROp::Srl { dst, .. } | IROp::Sra { dst, .. } | IROp::Load { dst, .. } => Some(dst),
        _ => None,
    }
}

/// The results of a block: the registers its operations compute (see
/// `result_reg`). An immediate move that nothing reads is no result.
pub open spec fn block_outputs(ops: Seq<IROp>) -> Set<RegId> {
    Set::new(|r: RegId| exists|i: int| 0 <= i < ops.len() && #[trigger] result_reg(ops[i]) == Some(r))
}

/// The operations of `ops` that are kept, in order, where the registers in
/// `outs` are the block's results: an operation is kept when `useful_with`
/// holds for the registers that `ops` reads together with `outs`.
pub open spec fn dce(ops: Seq<IROp>, outs: Set<RegId>) -> Seq<IROp> {
    ops.filter(|op: IROp| useful_with(op, live_set(ops).union(outs)))
}

/// Dead-code elimination removes only dead code: it keeps every store, and
/// every operation that writes a register (see `single_write`) which some
/// operation of the block reads or which is one of the outputs `outs`.
pub proof fn lemma_dce_keeps_needed(ops: Seq<IROp>, outs: Set<RegId>, i: int)
    requires
        0 <= i < ops.len(),
        ops[i] is Store || (single_write(ops[i]) matches Some(r) && (is_live(ops, r) || outs.contains(r))),
    ensures
        dce(ops, outs).contains(ops[i]),
{
    let live = live_set(ops).union(outs);
    if let Some(r) = single_write(ops[i]) {
        if is_live(ops, r) {
            assert(live_set(ops).contains(r));
        }
        assert(live.contains(r));
    }
    let pred = |op: IROp| useful_with(op, live);
    assert(pred(ops[i]));
    ops.lemma_filter_contains(pred, i);
}

// ---------------------------------------------------------------------------
// Common-subexpression elimination
// ---------------------------------------------------------------------------

/// The computation of an addition, a multiplication, a load or an
/// immediate move.
pub open spec fn cse_key(op: IROp) -> Option<(SubExpression, RegId)> {
    match op {
        IROp::Add { dst, src1, src2 } => Some(
            (
                SubExpression::Binary {
                    op: BinaryOp::Add,
                    left: Operand::Register(src1),
                    right: Operand::Register(src2),
                },
                dst,
            ),
        ),
        IROp::Mul { dst, src1, src2 } => Some(
            (
                SubExpression::Binary {
                    op: BinaryOp::Mul,
                    left: Operand::Register(src1),
                    right: Operand::Register(src2),
                },
                dst,
            ),
        ),
        IROp::Load { dst, base, offset, size, .. } => Some((SubExpression::Load { base, offset, size }, dst)),
        IROp::MovImm { dst, imm } => Some((SubExpression::Constant { value: imm }, dst)),
        _ => None,
    }
}

/// The operand is register `r`.
pub open spec fn operand_is(o: Operand, r: RegId) -> bool {
    o matches Operand::Register(x) && x == r
}

/// Computing `e` reads register `r`.
pub open spec fn expr_reads(e: SubExpression, r: RegId) -> bool {
    match e {
        SubExpression::Binary { left, right, .. } => operand_is(left, r) || operand_is(right, r),
        SubExpression::Unary { operand, .. } => operand_is(operand, r),
        SubExpression::Load { base, .. } => base == r,
        SubExpression::Constant { .. } => false,
    }
}

/// The recorded computations that stay valid once register `d` is
/// overwritten: those not held in `d` and not reading it, in order.
pub open spec fn forget(m: Seq<(SubExpression, RegId)>, d: RegId) -> Seq<(SubExpression, RegId)>
    decreases m.len(),
{
    if m.len() == 0 {
        m
    } else {
        let rest = forget(m.drop_last(), d);
        if m.last().1 != d && !expr_reads(m.last().0, d) {
            rest.push(m.last())
        } else {
            rest
        }
    }
}

/// The one register that `op` writes, for the operations known to write
/// exactly one: the computations of `result_reg`, moves and immediate
/// moves.
pub open spec fn single_write(op: IROp) -> Option<RegId> {
    match op {
        IROp::Mov { dst, .. } | IROp::MovImm { dst, .. } => Some(dst),
        _ => result_reg(op),
    }
}

/// `op` writes no register.
pub open spec fn writes_nothing(op: IROp) -> bool {
    op is Store || op is Nop
}

/// One step of the elimination: a computation already recorded becomes a
/// move from the register that holds it; a new one is recorded under its
/// destination unless it reads that register. Whatever an operation
/// overwrites invalidates the records held in or reading that register;
/// an operation whose writes are not known (see `single_write`) clears
/// them all.
pub open spec fn cse_step(m: Seq<(SubExpression, RegId)>, op: IROp) -> (Option<IROp>, Seq<(SubExpression, RegId)>) {
    match cse_key(op) {
        Some((e, dst)) => match get(m, e) {
            Some(r) => (Some(IROp::Mov { dst, src: r }), forget(m, dst)),
            None => (None, if expr_reads(e, dst) { forget(m, dst) } else { put(forget(m, dst), e, dst) }),
        },
        None => (None, if writes_nothing(op) {
            m
        } else {
            match single_write(op) {
                Some(d) => forget(m, d),
                None => Seq::empty(),
            }
        }),
    }
}

/// Forgetting keeps keys unique and adds none.
proof fn lemma_forget(m: Seq<(SubExpression, RegId)>, d: RegId)
    requires
        unique(m),
    ensures
        unique(forget(m, d)),
        forall|k: SubExpression| has_key(forget(m, d), k) ==> has_key(m, k),
    decreases m.len(),
{
    if m.len() > 0 {
        let init = m.drop_last();
        assert(unique(init)) by {
            assert forall|i: int, j: int| 0 <= i < init.len() && 0 <= j < init.len() && i != j implies (#[trigger] init[i]).0
                != (#[trigger] init[j]).0 by {
                assert(init[i] == m[i] && init[j] == m[j]);
            }
        }
        lemma_forget(init, d);
        let rest = forget(init, d);
        assert forall|k: SubExpression| has_key(init, k) implies has_key(m, k) by {
            let i = choose|i: int| 0 <= i < init.len() && (#[trigger] init[i]).0 == k;
            assert(m[i] == init[i]);
        }
        if m.last().1 != d && !expr_reads(m.last().0, d) {
            let x = m.last();
            assert(!has_key(rest, x.0)) by {
                if has_key(rest, x.0) {
                    assert(has_key(init, x.0));
                    let i = choose|i: int| 0 <= i < init.len() && (#[trigger] init[i]).0 == x.0;
                    assert(m[i] == init[i]);
                    assert(m[m.len() - 1] == x);
                }
            }
            let f = rest.push(x);
            assert forall|i: int, j: int| 0 <= i < f.len() && 0 <= j < f.len() && i != j implies (#[trigger] f[i]).0
                != (#[trigger] f[j]).0 by {
                if i < rest.len() && j < rest.len() {
                    assert(f[i] == rest[i] && f[j] == rest[j]);
                } else if i < rest.len() {
                    assert(f[i] == rest[i]);
                } else if j < rest.len() {
                    assert(f[j] == rest[j]);
                }
            }
            assert forall|k: SubExpression| has_key(f, k) implies has_key(m, k) by {
                let i = choose|i: int| 0 <= i < f.len() && (#[trigger] f[i]).0 == k;
                if i < rest.len() {
                    assert(f[i] == rest[i]);
                    assert(has_key(rest, k));
                } else {
                    assert(m[m.len() - 1].0 == k);
                }
            }
        }
    }
}

/// Common-subexpression elimination over `ops` from the computations `m`:
/// the operations after the pass, the computations recorded at its end,
/// and the number of eliminations.
pub open spec fn cse_pass(m: Seq<(SubExpression, RegId)>, ops: Seq<IROp>) -> (Seq<IROp>, Seq<(SubExpression, RegId)>, nat)
    decreases ops.len(),
{
    if ops.len() == 0 {
        (Seq::empty(), m, 0)
    } else {
        let (out, m1, n) = cse_pass(m, ops.drop_last());
        let (r, m2) = cse_step(m1, ops.last());
        match r {
            Some(x) => (out.push(x), m2, n + 1),
            None => (out.push(ops.last()), m2, n),
        }
    }
}

/// The value of a recorded computation on register contents `s`: the sum
/// or product (modulo 2^64) of two registers, or a constant; the loads,
/// which need memory, are not modelled and read as 0.
pub open spec fn eval_expr(e: SubExpression, s: spec_fn(RegId) -> i64) -> i64 {
    match e {
        SubExpression::Binary { op: BinaryOp::Add, left: Operand::Register(x), right: Operand::Register(y) } => s(x).wrapping_add(
            s(y),
        ),
        SubExpression::Binary { op: BinaryOp::Mul, left: Operand::Register(x), right: Operand::Register(y) } => s(x).wrapping_mul(
            s(y),
        ),
        SubExpression::Constant { value } => value as i64,
        _ => 0,
    }
}

/// Every recorded computation is held by its register in `s`.
pub open spec fn table_holds(m: Seq<(SubExpression, RegId)>, s: spec_fn(RegId) -> i64) -> bool {
    forall|x: (SubExpression, RegId)| #[trigger] m.contains(x) ==> eval_expr(x.0, s) == s(x.1)
}

proof fn lemma_forget_members(m: Seq<(SubExpression, RegId)>, d: RegId)
    ensures
        forall|x: (SubExpression, RegId)| #[trigger] forget(m, d).contains(x) ==> m.contains(x) && x.1 != d && !expr_reads(x.0, d),
    decreases m.len(),
{
    if m.len() > 0 {
        let init = m.drop_last();
        lemma_forget_members(init, d);
        let rest = forget(init, d);
        assert forall|x: (SubExpression, RegId)| #[trigger] forget(m, d).contains(x) implies m.contains(x) && x.1 != d
            && !expr_reads(x.0, d) by {
            let f = forget(m, d);
            let k = choose|k: int| 0 <= k < f.len() && f[k] == x;
            if k < rest.len() {
                assert(rest[k] == x);
                assert(rest.contains(x));
                let j = choose|j: int| 0 <= j < init.len() && init[j] == x;
                assert(m[j] == x);
            } else {
                assert(x == m.last());
                assert(m[m.len() - 1] == x);
            }
        }
    }
}

proof fn lemma_put_members<K, V>(m: Seq<(K, V)>, e: K, d: V)
    ensures
        forall|x: (K, V)| #[trigger] put(m, e, d).contains(x) ==> m.contains(x) || x == (e, d),
{
    assert forall|x: (K, V)| #[trigger] put(m, e, d).contains(x) implies m.contains(x) || x == (e, d) by {
        let p = put(m, e, d);
        let k = choose|k: int| 0 <= k < p.len() && p[k] == x;
        if k < m.len() && p[k] == m[k] {
        }
    }
}

proof fn lemma_get_member<K, V>(m: Seq<(K, V)>, e: K)
    ensures
        get(m, e) matches Some(r) ==> m.contains((e, r)),
{
    if has_key(m, e) {
        let i = pos(m, e);
        assert(m[i] == (e, m[i].1));
    }
}

proof fn lemma_eval_unread(e: SubExpression, s: spec_fn(RegId) -> i64, t: spec_fn(RegId) -> i64, d: RegId)
    requires
        !expr_reads(e, d),
        forall|r: RegId| r != d ==> #[trigger] t(r) == s(r),
    ensures
        eval_expr(e, t) == eval_expr(e, s),
{
}

/// One elimination step keeps the meaning of the operation and the
/// soundness of the records.
proof fn lemma_cse_step_sound(m: Seq<(SubExpression, RegId)>, op: IROp, s: spec_fn(RegId) -> i64)
    requires
        register_op(op),
        table_holds(m, s),
    ensures
        run_move_arith(s, match cse_step(m, op).0 { Some(x) => x, None => op }) == run_move_arith(s, op),
        table_holds(cse_step(m, op).1, run_move_arith(s, op)),
{
    let t = run_move_arith(s, op);
    let d = single_write(op)->0;
    assert(forall|r: RegId| r != d ==> #[trigger] t(r) == s(r));
    lemma_forget_members(m, d);
    let f = forget(m, d);
    assert forall|x: (SubExpression, RegId)| #[trigger] f.contains(x) implies eval_expr(x.0, t) == t(x.1) by {
        lemma_eval_unread(x.0, s, t, d);
    }
    match cse_key(op) {
        Some((e, dst)) => {
            lemma_get_member(m, e);
            assert(eval_expr(e, s) == t(dst));
            match get(m, e) {
                Some(r) => {
                    let u = run_move_arith(s, IROp::Mov { dst, src: r });
                    assert(u =~= t);
                },
                None => {
                    if !expr_reads(e, dst) {
                        lemma_eval_unread(e, s, t, dst);
                        lemma_put_members(f, e, dst);
                        let p = put(f, e, dst);
                        assert forall|x: (SubExpression, RegId)| #[trigger] p.contains(x) implies eval_expr(x.0, t) == t(x.1) by {
                            if x != (e, dst) {
                                assert(f.contains(x));
                            }
                        }
                    }
                },
            }
        },
        None => {},
    }
}

proof fn lemma_cse_pass_sound(m: Seq<(SubExpression, RegId)>, ops: Seq<IROp>, s: spec_fn(RegId) -> i64)
    requires
        forall|k: int| 0 <= k < ops.len() ==> register_op(#[trigger] ops[k]),
        table_holds(m, s),
    ensures
        run_ops(s, cse_pass(m, ops).0) == run_ops(s, ops),
        table_holds(cse_pass(m, ops).1, run_ops(s, ops)),
        cse_pass(m, ops).0.len() == ops.len(),
    decreases ops.len(),
{
    if ops.len() > 0 {
        let init = ops.drop_last();
        assert forall|k: int| 0 <= k < init.len() implies register_op(#[trigger] init[k]) by {
            assert(init[k] == ops[k]);
        }
        lemma_cse_pass_sound(m, init, s);
        let (out, m1, n) = cse_pass(m, init);
        let t = run_ops(s, init);
        assert(register_op(ops[ops.len() - 1]));
        lemma_cse_step_sound(m1, ops.last(), t);
        let x = match cse_step(m1, ops.last()).0 {
            Some(y) => y,
            None => ops.last(),
        };
        let out2 = cse_pass(m, ops).0;
        assert(out2 == out.push(x));
        assert(out2.drop_last() =~= out);
        assert(run_ops(s, out2) == run_move_arith(run_ops(s, out), x));
    }
}

/// Common-subexpression elimination keeps the meaning of a block: for a
/// block of additions, subtractions, multiplications, register moves and
/// immediate moves (see `register_op`), running the block after the pass
/// from any register contents `s` leaves every register as running the
/// block itself does.
pub proof fn lemma_cse_keeps_meaning(ops: Seq<IROp>, s: spec_fn(RegId) -> i64)
    requires
        forall|k: int| 0 <= k < ops.len() ==> register_op(#[trigger] ops[k]),
    ensures
        run_ops(s, cse_pass(Seq::empty(), ops).0) == run_ops(s, ops),
{
    lemma_cse_pass_sound(Seq::empty(), ops, s);
}

// ---------------------------------------------------------------------------
// Algebraic simplification and strength reduction
// ---------------------------------------------------------------------------

/// `v` is a positive power of two.
pub open spec fn is_pos_pow2(v: i64) -> bool {
    v > 0 && (v & ((v - 1) as i64)) == 0
}

pub open spec fn is_const(c: Seq<(RegId, i64)>, r: RegId, v: int) -> bool {
    get(c, r) matches Some(x) && x == v
}

pub open spec fn is_pow2_const(c: Seq<(RegId, i64)>, r: RegId) -> bool {
    get(c, r) matches Some(v) && is_pos_pow2(v)
}

/// The simplification of `op` under the constants `c`, tried in order:
/// multiplication by 0 gives 0, by 1 a move, by a power of two a left shift
/// by the constant's register; division by 1 a move, by a power of two an
/// arithmetic right shift by the constant's register; adding 0, subtracting
/// 0 and or-ing 0 a move; and-ing 0 gives 0, and-ing an all-ones mask of 8,
/// 16, 32 or 64 bits a move.
pub open spec fn alg_step(c: Seq<(RegId, i64)>, op: IROp) -> Option<IROp> {
    match op {
        IROp::Mul { dst, src1, src2 } => if is_const(c, src2, 0) || is_const(c, src1, 0) {
            Some(IROp::MovImm { dst, imm: 0 })
        } else if is_const(c, src2, 1) {
            Some(IROp::Mov { dst, src: src1 })
        } else if is_const(c, src1, 1) {
            Some(IROp::Mov { dst, src: src2 })
        } else if is_pow2_const(c, src2) {
            Some(IROp::Sll { dst, src: src1, shreg: src2 })
        } else if is_pow2_const(c, src1) {
            Some(IROp::Sll { dst, src: src2, shreg: src1 })
        } else {
            None
        },
        IROp::Div { dst, src1, src2, .. } => if is_const(c, src2, 1) {
            Some(IROp::Mov { dst, src: src1 })
        } else if is_pow2_const(c, src2) {
            Some(IROp::Sra { dst, src: src1, shreg: src2 })
        } else {
            None
        },
        IROp::Add { dst, src1, src2 } => if is_const(c, src2, 0) {
            Some(IROp::Mov { dst, src: src1 })
        } else if is_const(c, src1, 0) {
            Some(IROp::Mov { dst, src: src2 })
        } else {
            None
        },
        IROp::Sub { dst, src1, src2 } => if is_const(c, src2, 0) {
            Some(IROp::Mov { dst, src: src1 })
        } else {
            None
        },
        IROp::And { dst, src1, src2 } => if is_const(c, src2, 0) || is_const(c, src1, 0) {
            Some(IROp::MovImm { dst, imm: 0 })
        } else if is_const(c, src2, -1) || is_const(c, src2, 0xFF) || is_const(c, src2, 0xFFFF) || is_const(
            c,
            src2,
            0xFFFFFFFF,
        ) {
            Some(IROp::Mov { dst, src: src1 })
        } else {
            None
        },
        IROp::Or { dst, src1, src2 } => if is_const(c, src2, 0) {
            Some(IROp::Mov { dst, src: src1 })
        } else if is_const(c, src1, 0) {
            Some(IROp::Mov { dst, src: src2 })
        } else {
            None
        },
        _ => None,
    }
}

/// Simplification over `ops`: the operations after the pass and the number
/// of simplifications.
pub open spec fn alg_pass(c: Seq<(RegId, i64)>, ops: Seq<IROp>) -> (Seq<IROp>, nat)
    decreases ops.len(),
{
    if ops.len() == 0 {
        (Seq::empty(), 0)
    } else {
        let (out, n) = alg_pass(c, ops.drop_last());
        match alg_step(c, ops.last()) {
            Some(x) => (out.push(x), n + 1),
            None => (out.push(ops.last()), n),
        }
    }
}

proof fn lemma_identity_bits(a: i64)
    by (bit_vector)
    ensures
        a & 0 == 0,
        0i64 & a == 0,
        a & -1i64 == a,
        a | 0 == a,
        0i64 | a == a,
{
}

/// Simplification keeps the meaning of an operation wherever it turns it
/// into a move: for source values `a` (first source) and `b` (second
/// source) that agree with the known constants, an immediate move of the
/// simplification writes what the machine would have computed, and a
/// register move copies a source that already holds that value. Left out:
/// and-ing with a known 8-, 16- or 32-bit all-ones mask a first source with
/// bits above the mask, which the simplification also turns into a move of
/// the first source although the machine would clear those bits.
pub proof fn lemma_simplification_keeps_meaning(c: Seq<(RegId, i64)>, op: IROp, a: i64, b: i64)
    requires
        two_sources(op) is Some,
        (two_sources(op)->0).0 == (two_sources(op)->0).1 ==> a == b,
        get(c, (two_sources(op)->0).0) is Some ==> get(c, (two_sources(op)->0).0) == Some(a),
        get(c, (two_sources(op)->0).1) is Some ==> get(c, (two_sources(op)->0).1) == Some(b),
        op is And && get(c, (two_sources(op)->0).1) is Some && (b == 0xFF || b == 0xFFFF || b == 0xFFFF_FFFF)
            ==> a & b == a,
    ensures
        alg_step(c, op) matches Some(IROp::MovImm { dst, imm }) ==> dst == dst_of(op) && word_result(op, a, b, imm as i64),
        alg_step(c, op) matches Some(IROp::Mov { dst, src }) ==> dst == dst_of(op)
            && (src == (two_sources(op)->0).0 || src == (two_sources(op)->0).1)
            && word_result(op, a, b, if src == (two_sources(op)->0).0 { a } else { b }),
{
    lemma_identity_bits(a);
    lemma_identity_bits(b);
    assert(same_word(0, a * 0) && same_word(0, 0 * b) && same_word(a as int, a * 1) && same_word(b as int, 1 * b));
}

// ---------------------------------------------------------------------------
// Peephole rewrites
// ---------------------------------------------------------------------------

/// The rewrite of two adjacent operations, where one applies: a move into
/// the register that the next move reads makes the second move copy the
/// first one's source; an addition whose result the next subtraction takes
/// away again by the same second source makes the subtraction a move of the
/// addition's first source. (A copy of a register that an immediate move
/// just set stays a copy: common-subexpression elimination made it one.)
pub open spec fn peephole_match(a: IROp, b: IROp) -> Option<Seq<IROp>> {
    match (a, b) {
        (IROp::Mov { dst: d1, src: s1 }, IROp::Mov { dst: d2, src: s2 }) => if d1 == s2 {
            Some(seq![IROp::Mov { dst: d1, src: s1 }, IROp::Mov { dst: d2, src: s1 }])
        } else {
            None
        },
        (IROp::Add { dst: d1, src1, src2 }, IROp::Sub { dst: d2, src1: t1, src2: t2 }) => if d1 == t1 && src2 == t2 {
            Some(seq![IROp::Add { dst: d1, src1, src2 }, IROp::Mov { dst: d2, src: src1 }])
        } else {
            None
        },
        _ => None,
    }
}

/// The peephole pass: from the front, a matching pair is replaced by its
/// rewrite and both are passed over; otherwise one operation is kept.
pub open spec fn peephole(ops: Seq<IROp>) -> Seq<IROp>
    decreases ops.len(),
{
    if ops.len() < 2 {
        ops
    } else {
        match peephole_match(ops[0], ops[1]) {
            Some(p) => p + peephole(ops.subrange(2, ops.len() as int)),
            None => seq![ops[0]] + peephole(ops.subrange(1, ops.len() as int)),
        }
    }
}

/// The registers after `op` runs on register contents `s`, for additions,
/// subtractions, multiplications (modulo 2^64), register moves and
/// immediate moves; other operations are not modelled and leave `s` as it
/// is (see `register_op`).
pub open spec fn run_move_arith(s: spec_fn(RegId) -> i64, op: IROp) -> spec_fn(RegId) -> i64 {
    match op {
        IROp::Add { dst, src1, src2 } => |r: RegId| if r == dst { s(src1).wrapping_add(s(src2)) } else { s(r) },
        IROp::Sub { dst, src1, src2 } => |r: RegId| if r == dst { s(src1).wrapping_sub(s(src2)) } else { s(r) },
        IROp::Mul { dst, src1, src2 } => |r: RegId| if r == dst { s(src1).wrapping_mul(s(src2)) } else { s(r) },
        IROp::Mov { dst, src } => |r: RegId| if r == dst { s(src) } else { s(r) },
        IROp::MovImm { dst, imm } => |r: RegId| if r == dst { imm as i64 } else { s(r) },
        _ => s,
    }
}

/// The operations that `run_move_arith` models.
pub open spec fn register_op(op: IROp) -> bool {
    op is Add || op is Sub || op is Mul || op is Mov || op is MovImm
}

/// The registers after running `ops` in order from `s`.
pub open spec fn run_ops(s: spec_fn(RegId) -> i64, ops: Seq<IROp>) -> spec_fn(RegId) -> i64
    decreases ops.len(),
{
    if ops.len() == 0 {
        s
    } else {
        run_move_arith(run_ops(s, ops.drop_last()), ops.last())
    }
}

/// The peephole rewrites keep the meaning of the pair they rewrite: from
/// any register contents `s`, running the rewritten pair leaves every
/// register as running the original pair does. Left out: an addition whose
/// destination is one of its own sources followed by the subtraction, which
/// the pass rewrites although the move then copies the overwritten source.
pub proof fn lemma_peephole_keeps_meaning(s: spec_fn(RegId) -> i64, a: IROp, b: IROp)
    requires
        peephole_match(a, b) is Some,
        a matches IROp::Add { dst, src1, src2 } ==> dst != src1 && dst != src2,
    ensures
        peephole_match(a, b)->0.len() == 2,
        run_move_arith(run_move_arith(s, peephole_match(a, b)->0[0]), peephole_match(a, b)->0[1])
            == run_move_arith(run_move_arith(s, a), b),
{
    let p = peephole_match(a, b)->0;
    let lhs = run_move_arith(run_move_arith(s, p[0]), p[1]);
    let rhs = run_move_arith(run_move_arith(s, a), b);
    assert(lhs =~= rhs);
}

proof fn lemma_run_ops_concat(s: spec_fn(RegId) -> i64, a: Seq<IROp>, b: Seq<IROp>)
    ensures
        run_ops(s, a + b) == run_ops(run_ops(s, a), b),
    decreases b.len(),
{
    if b.len() == 0 {
        assert(a + b =~= a);
    } else {
        lemma_run_ops_concat(s, a, b.drop_last());
        assert((a + b).drop_last() =~= a + b.drop_last());
        assert((a + b).last() == b.last());
    }
}

/// No adjacent pair that the peephole pass could rewrite is an addition
/// overwriting one of its own sources followed by the subtraction.
pub open spec fn no_self_overwriting_pair(ops: Seq<IROp>) -> bool {
    forall|i: int|
        0 <= i < ops.len() - 1 && #[trigger] peephole_match(ops[i], ops[i + 1]) is Some ==> (ops[i] matches IROp::Add {
            dst,
            src1,
            src2,
        } ==> dst != src1 && dst != src2)
}

/// The peephole pass keeps the meaning of a block: running the block after
/// the pass from any register contents `s` leaves every register as running
/// the block itself does (by `run_move_arith`, which models the operations
/// of `register_op`), provided no rewritable pair has an addition that
/// overwrites one of its own sources.
pub proof fn lemma_peephole_pass_keeps_meaning(ops: Seq<IROp>, s: spec_fn(RegId) -> i64)
    requires
        no_self_overwriting_pair(ops),
    ensures
        run_ops(s, peephole(ops)) == run_ops(s, ops),
    decreases ops.len(),
{
    if ops.len() >= 2 {
        let n = ops.len() as int;
        match peephole_match(ops[0], ops[1]) {
            Some(p) => {
                let rest = ops.subrange(2, n);
                assert forall|i: int|
                    0 <= i < rest.len() - 1 && #[trigger] peephole_match(rest[i], rest[i + 1]) is Some implies (
                    rest[i] matches IROp::Add { dst, src1, src2 } ==> dst != src1 && dst != src2) by {
                    assert(rest[i] == ops[i + 2] && rest[i + 1] == ops[i + 3]);
                    assert(peephole_match(ops[i + 2], ops[(i + 2) + 1]) is Some);
                }
                lemma_peephole_pass_keeps_meaning(rest, run_ops(s, p));
                assert(peephole_match(ops[0], ops[0int + 1]) is Some);
                lemma_peephole_keeps_meaning(s, ops[0], ops[1]);
                lemma_run_ops_concat(s, p, peephole(rest));
                lemma_run_ops_concat(s, seq![ops[0], ops[1]], rest);
                assert(ops =~= seq![ops[0], ops[1]] + rest);
                reveal_with_fuel(run_ops, 3);
                assert(run_ops(s, p) == run_move_arith(run_move_arith(s, p[0]), p[1])) by {
                    assert(p.drop_last().drop_last() =~= Seq::<IROp>::empty());
                    assert(p.drop_last().last() == p[0]);
                }
                assert(run_ops(s, seq![ops[0], ops[1]]) == run_move_arith(run_move_arith(s, ops[0]), ops[1])) by {
                    assert(seq![ops[0], ops[1]].drop_last().drop_last() =~= Seq::<IROp>::empty());
                }
            },
            None => {
                let rest = ops.subrange(1, n);
                assert forall|i: int|
                    0 <= i < rest.len() - 1 && #[trigger] peephole_match(rest[i], rest[i + 1]) is Some implies (
                    rest[i] matches IROp::Add { dst, src1, src2 } ==> dst != src1 && dst != src2) by {
                    assert(rest[i] == ops[i + 1] && rest[i + 1] == ops[i + 2]);
                    assert(peephole_match(ops[i + 1], ops[(i + 1) + 1]) is Some);
                }
                lemma_peephole_pass_keeps_meaning(rest, run_move_arith(s, ops[0]));
                lemma_run_ops_concat(s, seq![ops[0]], peephole(rest));
                lemma_run_ops_concat(s, seq![ops[0]], rest);
                assert(ops =~= seq![ops[0]] + rest);
                reveal_with_fuel(run_ops, 2);
                assert(seq![ops[0]].drop_last() =~= Seq::<IROp>::empty());
            },
        }
    }
}

// ---------------------------------------------------------------------------
// The optimizer
// ---------------------------------------------------------------------------

/// The result of `optimize` on `ops`: constant folding, then dead-code
/// elimination that keeps the results of `ops` (see `block_outputs`), then
/// common-subexpression elimination, then algebraic
/// simplification under the constants that folding found, then the
/// peephole pass.
pub open spec fn optimized(ops: Seq<IROp>) -> Seq<IROp> {
    let (f, c, _) = fold_pass(Seq::empty(), ops);
    let (e, _, _) = cse_pass(Seq::empty(), dce(f, block_outputs(ops)));
    let (a, _) = alg_pass(c, e);
    peephole(a)
}

/// The counters after `optimize` on `ops` from the counters `s`: each fold
/// counts twice as a constant fold; each simplification counts as an
/// algebraic simplification and as a strength reduction.
pub open spec fn stats_after(s: OptimizationStats, ops: Seq<IROp>) -> OptimizationStats {
    let (f, c, nf) = fold_pass(Seq::empty(), ops);
    let d = dce(f, block_outputs(ops));
    let (e, _, nc) = cse_pass(Seq::empty(), d);
    let (_, na) = alg_pass(c, e);
    OptimizationStats {
        constant_folds: (s.constant_folds + 2 * nf) as usize,
        dead_code_eliminations: (s.dead_code_eliminations + (f.len() - d.len())) as usize,
        common_subexpression_eliminations: (s.common_subexpression_eliminations + nc) as usize,
        algebraic_simplifications: (s.algebraic_simplifications + na) as usize,
        strength_reductions: (s.strength_reductions + na) as usize,
    }
}

/// The counters stay within `usize` through `optimize` on `n` operations.
pub open spec fn room_for(s: OptimizationStats, n: nat) -> bool {
    &&& s.constant_folds + 2 * n <= usize::MAX
    &&& s.dead_code_eliminations + n <= usize::MAX
    &&& s.common_subexpression_eliminations + n <= usize::MAX
    &&& s.algebraic_simplifications + n <= usize::MAX
    &&& s.strength_reductions + n <= usize::MAX
}

/// The position of register `r` among the pairs, where it has one.
fn find_reg(v: &Vec<(RegId, i64)>, r: RegId) -> (res: Option<usize>)
    requires
        unique(v@),
    ensures
        match res {
            Some(i) => i < v@.len() && v@[i as int].0 == r && has_key(v@, r) && pos(v@, r) == i,
            None => !has_key(v@, r),
        },
{
    let mut i: usize = 0;
    while i < v.len()
        invariant
            i <= v@.len(),
            unique(v@),
            forall|j: int| 0 <= j < i ==> (#[trigger] v@[j]).0 != r,
        decreases v.len() - i,
    {
        if v[i].0 == r {
            proof {
                lemma_pos(v@, i as int);
            }
            return Some(i);
        }
        i += 1;
    }
    None
}

/// The position of computation `e` among the pairs, where it has one.
fn find_expr(v: &Vec<(SubExpression, RegId)>, e: SubExpression) -> (res: Option<usize>)
    requires
        unique(v@),
    ensures
        match res {
            Some(i) => i < v@.len() && v@[i as int].0 == e && has_key(v@, e) && pos(v@, e) == i,
            None => !has_key(v@, e),
        },
{
    let mut i: usize = 0;
    while i < v.len()
        invariant
            i <= v@.len(),
            unique(v@),
            forall|j: int| 0 <= j < i ==> (#[trigger] v@[j]).0 != e,
        decreases v.len() - i,
    {
        if v[i].0 == e {
            proof {
                lemma_pos(v@, i as int);
            }
            return Some(i);
        }
        i += 1;
    }
    None
}

/// The constant of `r`, where known.
fn constant_value(c: &Vec<(RegId, i64)>, r: RegId) -> (v: Option<i64>)
    requires
        unique(c@),
    ensures
        v == get(c@, r),
{
    match find_reg(c, r) {
        Some(i) => Some(c[i].1),
        None => None,
    }
}

/// Records `v` as the constant of `r`.
fn remove_constant(c: &mut Vec<(RegId, i64)>, r: RegId)
    requires
        unique(old(c)@),
    ensures
        unique(final(c)@),
        final(c)@ == remove_key(old(c)@, r),
{
    proof {
        lemma_remove_key(c@, r);
    }
    match find_reg(c, r) {
        Some(i) => {
            let ghost v = c@;
            c.remove(i);
            assert(c@ =~= v.remove(i as int));
        },
        None => {},
    }
}

fn set_constant(c: &mut Vec<(RegId, i64)>, r: RegId, v: i64)
    requires
        unique(old(c)@),
    ensures
        unique(final(c)@),
        final(c)@ == put(old(c)@, r, v),
{
    proof {
        lemma_put(c@, r, v);
    }
    match find_reg(c, r) {
        Some(i) => {
            c.set(i, (r, v));
        },
        None => {
            c.push((r, v));
        },
    }
}

/// `value` is a positive power of two; where it is, the exponent.
pub fn is_power_of_two(value: i64) -> (r: Option<u8>)
    ensures
        r is Some == is_pos_pow2(value),
        r matches Some(k) ==> k < 63 && vstd::arithmetic::power2::pow2(k as nat) == value,
{
    if value > 0 && (value & (value - 1)) == 0 {
        let mut shift: u8 = 0;
        let mut v: i64 = value;
        proof {
            vstd::arithmetic::power2::lemma2_to64();
        }
        while v > 1
            invariant
                0 < v <= value,
                shift < 63,
                v * vstd::arithmetic::power2::pow2(shift as nat) == value,
                (v & ((v - 1) as i64)) == 0,
            decreases v,
        {
            assert(v % 2 == 0 && (v >> 1) == v / 2 && ((v >> 1) & (((v >> 1) - 1) as i64)) == 0) by (bit_vector)
                requires
                    v > 1,
                    (v & ((v - 1) as i64)) == 0,
            ;
            let ghost p = vstd::arithmetic::power2::pow2(shift as nat);
            proof {
                vstd::arithmetic::power2::lemma_pow2_pos(shift as nat);
                vstd::arithmetic::power2::lemma_pow2_unfold((shift + 1) as nat);
                assert(2 * p <= value) by (nonlinear_arith)
                    requires
                        v * p == value,
                        v >= 2,
                        p > 0,
                {
                }
                vstd::arithmetic::power2::lemma_pow2_pos(shift as nat);
                if shift + 1 >= 63 {
                    vstd::arithmetic::power2::lemma2_to64_rest();
                    if shift + 1 > 63 {
                        vstd::arithmetic::power2::lemma_pow2_strictly_increases(63, (shift + 1) as nat);
                    }
                    assert(false);
                }
                assert((v / 2) * (2 * p) == value) by (nonlinear_arith)
                    requires
                        v * p == value,
                        v % 2 == 0,
                {
                }
            }
            v = v >> 1;
            shift += 1;
        }
        Some(shift)
    } else {
        None
    }
}

/// The registers that some operation of `ops` reads.
pub open spec fn live_set(ops: Seq<IROp>) -> Set<RegId> {
    Set::new(|r: RegId| is_live(ops, r))
}

/// The register `op` computes (see `result_reg`).
fn result_reg_of(op: &IROp) -> (r: Option<RegId>)
    ensures
        r == result_reg(*op),
{
    match *op {
        IROp::Add { dst, .. } | IROp::Sub { dst, .. } | IROp::Mul { dst, .. } | IROp::Div { dst, .. }
        | IROp::Rem { dst, .. } | IROp::And { dst, .. } | IROp::Or { dst, .. } | IROp::Xor { dst, .. }
        | IROp::Sll { dst, .. } | IROp::Srl { dst, .. } | IROp::Sra { dst, .. } | IROp::Load { dst, .. } => Some(dst),
        _ => None,
    }
}

/// The registers `op` reads (see `uses`).
fn uses_of(op: &IROp) -> (r: Vec<RegId>)
    ensures
        r@ == uses(*op),
{
    let r = match *op {
        IROp::Add { src1, src2, .. } | IROp::Sub { src1, src2, .. } | IROp::Mul { src1, src2, .. }
        | IROp::And { src1, src2, .. } | IROp::Or { src1, src2, .. } | IROp::Xor { src1, src2, .. }
        | IROp::Div { src1, src2, .. } | IROp::Rem { src1, src2, .. } => vec![src1, src2],
        IROp::Sll { src, shreg, .. } | IROp::Srl { src, shreg, .. } | IROp::Sra { src, shreg, .. } => vec![src, shreg],
        IROp::Load { base, .. } => vec![base],
        IROp::Store { src, .. } => vec![src],
        _ => Vec::new(),
    };
    assert(r@ =~= uses(*op));
    r
}

/// The computation of `op` and its destination (see `cse_key`).
fn cse_key_of(op: &IROp) -> (r: Option<(SubExpression, RegId)>)
    ensures
        r == cse_key(*op),
{
    match *op {
        IROp::Add { dst, src1, src2 } => Some(
            (
                SubExpression::Binary {
                    op: BinaryOp::Add,
                    left: Operand::Register(src1),
                    right: Operand::Register(src2),
                },
                dst,
            ),
        ),
        IROp::Mul { dst, src1, src2 } => Some(
            (
                SubExpression::Binary {
                    op: BinaryOp::Mul,
                    left: Operand::Register(src1),
                    right: Operand::Register(src2),
                },
                dst,
            ),
        ),
        IROp::Load { dst, base, offset, size, .. } => Some((SubExpression::Load { base, offset, size }, dst)),
        IROp::MovImm { dst, imm } => Some((SubExpression::Constant { value: imm }, dst)),
        _ => None,
    }
}

/// Computing `e` reads register `r` (see `expr_reads`).
fn expr_reads_exec(e: SubExpression, r: RegId) -> (b: bool)
    ensures
        b == expr_reads(e, r),
{
    match e {
        SubExpression::Binary { left, right, .. } => operand_is_exec(left, r) || operand_is_exec(right, r),
        SubExpression::Unary { operand, .. } => operand_is_exec(operand, r),
        SubExpression::Load { base, .. } => base == r,
        SubExpression::Constant { .. } => false,
    }
}

fn operand_is_exec(o: Operand, r: RegId) -> (b: bool)
    ensures
        b == operand_is(o, r),
{
    match o {
        Operand::Register(x) => x == r,
        Operand::Constant(_) => false,
    }
}

/// The one register `op` writes, where known (see `single_write`).
fn single_write_of(op: &IROp) -> (r: Option<RegId>)
    ensures
        r == single_write(*op),
{
    match *op {
        IROp::Mov { dst, .. } | IROp::MovImm { dst, .. } => Some(dst),
        _ => result_reg_of(op),
    }
}

/// The rewrite of `ops[i]` and `ops[i + 1]`, where there are two operations
/// from `i` on and a rewrite applies (see `peephole_match`).
fn match_peephole_pattern(ops: &[IROp], i: usize) -> (r: Option<Vec<IROp>>)
    requires
        i <= ops@.len(),
    ensures
        i + 2 <= ops@.len() ==> match (r, peephole_match(ops@[i as int], ops@[i + 1])) {
            (Some(v), Some(p)) => v@ == p,
            (None, None) => true,
            _ => false,
        },
        i + 2 > ops@.len() ==> r is None,
{
    if ops.len() - i < 2 {
        return None;
    }
    let a = ops[i];
    let b = ops[i + 1];
    match (a, b) {
        (IROp::Mov { dst: d1, src: s1 }, IROp::Mov { dst: d2, src: s2 }) => {
            if d1 == s2 {
                let v = vec![IROp::Mov { dst: d1, src: s1 }, IROp::Mov { dst: d2, src: s1 }];
                assert(v@ =~= seq![IROp::Mov { dst: d1, src: s1 }, IROp::Mov { dst: d2, src: s1 }]);
                return Some(v);
            }
            None
        },
        (IROp::Add { dst: d1, src1, src2 }, IROp::Sub { dst: d2, src1: t1, src2: t2 }) => {
            if d1 == t1 && src2 == t2 {
                let v = vec![IROp::Add { dst: d1, src1, src2 }, IROp::Mov { dst: d2, src: src1 }];
                assert(v@ =~= seq![IROp::Add { dst: d1, src1, src2 }, IROp::Mov { dst: d2, src: src1 }]);
                return Some(v);
            }
            None
        },
        _ => None,
    }
}

/// The peephole pass over `ops` (see `peephole`).
pub fn peephole_optimization(ops: &[IROp]) -> (r: Vec<IROp>)
    ensures
        r@ == peephole(ops@),
{
    let mut out: Vec<IROp> = Vec::new();
    let mut i: usize = 0;
    assert(ops@.subrange(0, ops@.len() as int) =~= ops@);
    while i < ops.len()
        invariant
            i <= ops@.len(),
            out@ + peephole(ops@.subrange(i as int, ops@.len() as int)) == peephole(ops@),
        decreases ops.len() - i,
    {
        let ghost rest = ops@.subrange(i as int, ops@.len() as int);
        match match_peephole_pattern(ops, i) {
            Some(p) => {
                proof {
                    assert(rest[0] == ops@[i as int] && rest[1] == ops@[i + 1]);
                    assert(rest.subrange(2, rest.len() as int) =~= ops@.subrange(i + 2, ops@.len() as int));
                }
                let ghost before = out@;
                let mut k: usize = 0;
                while k < p.len()
                    invariant
                        k <= p@.len(),
                        out@ == before + p@.subrange(0, k as int),
                    decreases p.len() - k,
                {
                    out.push(p[k]);
                    assert(out@ =~= before + p@.subrange(0, k + 1));
                    k += 1;
                }
                proof {
                    assert(p@.subrange(0, p@.len() as int) =~= p@);
                    assert(before + p@ + peephole(ops@.subrange(i + 2, ops@.len() as int)) =~= before + (p@ + peephole(
                        ops@.subrange(i + 2, ops@.len() as int),
                    )));
                }
                i = i + 2;
            },
            None => {
                proof {
                    assert(rest[0] == ops@[i as int]);
                    assert(rest.subrange(1, rest.len() as int) =~= ops@.subrange(i + 1, ops@.len() as int));
                    if rest.len() < 2 {
                        assert(rest =~= seq![ops@[i as int]]);
                        assert(ops@.subrange(i + 1, ops@.len() as int) =~= Seq::<IROp>::empty());
                    }
                    assert(out@.push(ops@[i as int]) + peephole(ops@.subrange(i + 1, ops@.len() as int)) =~= out@ + (
                    seq![ops@[i as int]] + peephole(ops@.subrange(i + 1, ops@.len() as int))));
                }
                out.push(ops[i]);
                i = i + 1;
            },
        }
    }
    proof {
        assert(ops@.subrange(i as int, ops@.len() as int) =~= Seq::<IROp>::empty());
        assert(out@ + Seq::<IROp>::empty() =~= out@);
    }
    out
}

/// Runs constant propagation and folding, dead-code elimination,
/// common-subexpression elimination, algebraic simplification and peephole
/// rewrites over sequences of IR operations, and counts what each did.
pub struct IROptimizer {
    stats: OptimizationStats,
    constant_values: Vec<(RegId, i64)>,
    live_registers: Vec<RegId>,
    computed_expressions: Vec<(SubExpression, RegId)>,
}

impl IROptimizer {
    pub closed spec fn stats_view(&self) -> OptimizationStats {
        self.stats
    }

    /// The constants known after the last folding pass.
    pub closed spec fn consts(&self) -> Seq<(RegId, i64)> {
        self.constant_values@
    }

    /// The computations recorded by the last elimination pass.
    pub closed spec fn computed(&self) -> Seq<(SubExpression, RegId)> {
        self.computed_expressions@
    }

    /// The registers that the last dead-code pass found live: read by the
    /// folded block, or results of the block.
    pub closed spec fn live(&self) -> Set<RegId> {
        self.live_registers@.to_set()
    }

    /// No register has two constants and no computation two registers.
    pub closed spec fn wf(&self) -> bool {
        unique(self.constant_values@) && unique(self.computed_expressions@)
    }

    pub fn new() -> (o: Self)
        ensures
            o.wf(),
            o.stats_view() == zero_stats(),
            o.consts() == Seq::<(RegId, i64)>::empty(),
            o.computed() == Seq::<(SubExpression, RegId)>::empty(),
            o.live() == Set::<RegId>::empty(),
    {
        let o = IROptimizer {
            stats: OptimizationStats::default(),
            constant_values: Vec::new(),
            live_registers: Vec::new(),
            computed_expressions: Vec::new(),
        };
        assert(o.live_registers@.to_set() =~= Set::<RegId>::empty());
        o
    }

    /// One step of constant propagation (see `fold_step`); a fold counts
    /// once as a constant fold.
    fn try_constant_fold(&mut self, op: &IROp) -> (r: Option<IROp>)
        requires
            old(self).wf(),
            old(self).stats.constant_folds < usize::MAX,
        ensures
            final(self).wf(),
            (r, final(self).constant_values@) == fold_step(old(self).constant_values@, *op),
            final(self).stats == (OptimizationStats {
                constant_folds: if r is Some {
                    (old(self).stats.constant_folds + 1) as usize
                } else {
                    old(self).stats.constant_folds
                },
                ..old(self).stats
            }),
            final(self).live_registers == old(self).live_registers,
            final(self).computed_expressions == old(self).computed_expressions,
    {
        if let IROp::MovImm { dst, imm } = *op {
            set_constant(&mut self.constant_values, dst, imm as i64);
            return None;
        }
        match self.fold_of(op) {
            Some((dst, result)) => {
                set_constant(&mut self.constant_values, dst, result);
                self.stats.constant_folds = self.stats.constant_folds + 1;
                Some(IROp::MovImm { dst, imm: result as u64 })
            },
            None => {
                if !matches!(*op, IROp::Store { .. } | IROp::Nop) {
                    match single_write_of(op) {
                        Some(d) => {
                            remove_constant(&mut self.constant_values, d);
                        },
                        None => {
                            self.constant_values.clear();
                            assert(self.constant_values@ =~= Seq::<(RegId, i64)>::empty());
                        },
                    }
                }
                None
            },
        }
    }

    /// The destination and folded value of `op`, where it folds (see
    /// `folded_value`).
    fn fold_of(&self, op: &IROp) -> (r: Option<(RegId, i64)>)
        requires
            self.wf(),
        ensures
            match folded_value(*op, self.constant_values@) {
                Some(v) => r == Some((dst_of(*op), v)),
                None => r is None,
            },
    {
        let ghost c = self.constant_values@;
        let pair = match *op {
            IROp::Add { src1, src2, .. } | IROp::Sub { src1, src2, .. } | IROp::Mul { src1, src2, .. }
            | IROp::Div { src1, src2, .. } | IROp::Rem { src1, src2, .. } | IROp::And { src1, src2, .. }
            | IROp::Or { src1, src2, .. } | IROp::Xor { src1, src2, .. } => (src1, src2),
            IROp::Sll { src, shreg, .. } | IROp::Srl { src, shreg, .. } => (src, shreg),
            _ => {
                return None;
            },
        };
        let a = match constant_value(&self.constant_values, pair.0) {
            Some(a) => a,
            None => {
                return None;
            },
        };
        let b = match constant_value(&self.constant_values, pair.1) {
            Some(b) => b,
            None => {
                return None;
            },
        };
        let (dst, result) = match *op {
            IROp::Add { dst, .. } => (dst, a.wrapping_add(b)),
            IROp::Sub { dst, .. } => (dst, a.wrapping_sub(b)),
            IROp::Mul { dst, .. } => (dst, a.wrapping_mul(b)),
            IROp::Div { dst, .. } => {
                if b == 0 {
                    return None;
                }
                (
                    dst,
                    match a.checked_div(b) {
                        Some(q) => q,
                        None => a,
                    },
                )
            },
            IROp::Rem { dst, signed, .. } => {
                if b == 0 {
                    return None;
                }
                let r = if signed {
                    match a.checked_rem_euclid(b) {
                        Some(r) => r,
                        None => 0,
                    }
                } else {
                    match a.checked_rem(b) {
                        Some(r) => r,
                        None => 0,
                    }
                };
                (dst, r)
            },
            IROp::And { dst, .. } => (dst, a & b),
            IROp::Or { dst, .. } => (dst, a | b),
            IROp::Xor { dst, .. } => (dst, a ^ b),
            IROp::Sll { dst, .. } => (dst, a.wrapping_shl((b as u32) % 64)),
            IROp::Srl { dst, .. } => (dst, a.wrapping_shr((b as u32) % 64)),
            _ => {
                return None;
            },
        };
        assert(folded_value(*op, c) == Some(result));
        Some((dst, result))
    }

    /// Constant propagation and folding over `ops` (see `fold_pass`), from
    /// the constants already known; each fold counts twice as a constant
    /// fold.
    fn constant_propagation_and_folding(&mut self, ops: &[IROp]) -> (r: Vec<IROp>)
        requires
            old(self).wf(),
            old(self).stats.constant_folds + 2 * ops@.len() <= usize::MAX,
        ensures
            final(self).wf(),
            ({
                let (out, c, n) = fold_pass(old(self).constant_values@, ops@);
                &&& r@ == out
                &&& final(self).constant_values@ == c
                &&& n <= ops@.len()
                &&& final(self).stats == (OptimizationStats {
                    constant_folds: (old(self).stats.constant_folds + 2 * n) as usize,
                    ..old(self).stats
                })
            }),
            r@.len() == ops@.len(),
            final(self).live_registers == old(self).live_registers,
            final(self).computed_expressions == old(self).computed_expressions,
    {
        let ghost c0 = self.constant_values@;
        let ghost s0 = self.stats;
        let mut out: Vec<IROp> = Vec::new();
        let ghost mut n: nat = 0;
        let mut i: usize = 0;
        while i < ops.len()
            invariant
                i <= ops@.len(),
                self.wf(),
                s0.constant_folds + 2 * ops@.len() <= usize::MAX,
                (out@, self.constant_values@, n) == fold_pass(c0, ops@.subrange(0, i as int)),
                n <= i,
                out@.len() == i,
                self.stats == (OptimizationStats { constant_folds: (s0.constant_folds + 2 * n) as usize, ..s0 }),
                self.live_registers == old(self).live_registers,
                self.computed_expressions == old(self).computed_expressions,
            decreases ops.len() - i,
        {
            assert(ops@.subrange(0, i + 1).drop_last() =~= ops@.subrange(0, i as int));
            assert(ops@.subrange(0, i + 1).last() == ops@[i as int]);
            let op = ops[i];
            match self.try_constant_fold(&op) {
                Some(f) => {
                    out.push(f);
                    self.stats.constant_folds = self.stats.constant_folds + 1;
                    proof {
                        n = n + 1;
                    }
                },
                None => {
                    out.push(op);
                },
            }
            i += 1;
        }
        assert(ops@.subrange(0, ops@.len() as int) =~= ops@);
        out
    }

    /// Finds the registers that some operation of `ops` reads.
    fn analyze_live_registers(&mut self, ops: &[IROp])
        ensures
            final(self).live() == live_set(ops@),
            final(self).stats == old(self).stats,
            final(self).constant_values == old(self).constant_values,
            final(self).computed_expressions == old(self).computed_expressions,
    {
        self.live_registers.clear();
        let mut i: usize = 0;
        while i < ops.len()
            invariant
                i <= ops@.len(),
                forall|r: RegId| #[trigger] self.live_registers@.contains(r) <==> is_live(ops@.subrange(0, i as int), r),
                self.stats == old(self).stats,
                self.constant_values == old(self).constant_values,
                self.computed_expressions == old(self).computed_expressions,
            decreases ops.len() - i,
        {
            let used = uses_of(&ops[i]);
            let ghost before = self.live_registers@;
            let mut k: usize = 0;
            while k < used.len()
                invariant
                    k <= used@.len(),
                    used@ == uses(ops@[i as int]),
                    forall|r: RegId| #[trigger] self.live_registers@.contains(r) <==> (before.contains(r) || used@.subrange(
                        0,
                        k as int,
                    ).contains(r)),
                    self.stats == old(self).stats,
                    self.constant_values == old(self).constant_values,
                    self.computed_expressions == old(self).computed_expressions,
                decreases used.len() - k,
            {
                let reg = used[k];
                let ghost l0 = self.live_registers@;
                let mut present = false;
                let mut j: usize = 0;
                while j < self.live_registers.len()
                    invariant
                        j <= self.live_registers@.len(),
                        self.live_registers@ == l0,
                        present == (exists|q: int| 0 <= q < j && self.live_registers@[q] == reg),
                    decreases self.live_registers.len() - j,
                {
                    if self.live_registers[j] == reg {
                        present = true;
                    }
                    j += 1;
                }
                if !present {
                    self.live_registers.push(reg);
                }
                proof {
                    assert forall|r: RegId| #[trigger] self.live_registers@.contains(r) <==> (before.contains(r)
                        || used@.subrange(0, k + 1).contains(r)) by {
                        let sub0 = used@.subrange(0, k as int);
                        let sub1 = used@.subrange(0, k + 1);
                        if sub1.contains(r) {
                            let q = choose|q: int| 0 <= q < sub1.len() && #[trigger] sub1[q] == r;
                            if q < k {
                                assert(sub0[q] == r);
                            }
                        }
                        if sub0.contains(r) {
                            let q = choose|q: int| 0 <= q < sub0.len() && #[trigger] sub0[q] == r;
                            assert(sub1[q] == r);
                        }
                        if r == reg {
                            assert(sub1[k as int] == r);
                        }
                        if self.live_registers@.contains(r) && !l0.contains(r) {
                            let q = choose|q: int| 0 <= q < self.live_registers@.len() && #[trigger] self.live_registers@[q] == r;
                            if q < l0.len() {
                                assert(l0[q] == r);
                            }
                        }
                        if l0.contains(r) {
                            let q = choose|q: int| 0 <= q < l0.len() && #[trigger] l0[q] == r;
                            assert(self.live_registers@[q] == r);
                        }
                        if r == reg && !present {
                            assert(self.live_registers@[l0.len() as int] == r);
                        }
                    }
                }
                k += 1;
            }
            proof {
                assert(used@.subrange(0, used@.len() as int) =~= used@);
                assert forall|r: RegId| #[trigger] self.live_registers@.contains(r) <==> is_live(ops@.subrange(0, i + 1), r) by {
                    let s0 = ops@.subrange(0, i as int);
                    let s1 = ops@.subrange(0, i + 1);
                    if is_live(s1, r) {
                        let q = choose|q: int| 0 <= q < s1.len() && #[trigger] uses(s1[q]).contains(r);
                        if q < i {
                            assert(s0[q] == s1[q]);
                            assert(is_live(s0, r));
                        } else {
                            assert(s1[q] == ops@[i as int]);
                        }
                    }
                    if is_live(s0, r) {
                        let q = choose|q: int| 0 <= q < s0.len() && #[trigger] uses(s0[q]).contains(r);
                        assert(s1[q] == s0[q]);
                    }
                    if used@.contains(r) {
                        assert(s1[i as int] == ops@[i as int]);
                        assert(uses(s1[i as int]).contains(r));
                    }
                }
            }
            i += 1;
        }
        proof {
            assert(ops@.subrange(0, ops@.len() as int) =~= ops@);
            assert(self.live_registers@.to_set() =~= live_set(ops@));
        }
    }

    /// Adds the results of `block` (see `block_outputs`) to the registers
    /// found live.
    fn add_block_outputs(&mut self, block: &[IROp])
        ensures
            final(self).live() == old(self).live().union(block_outputs(block@)),
            final(self).stats == old(self).stats,
            final(self).constant_values == old(self).constant_values,
            final(self).computed_expressions == old(self).computed_expressions,
    {
        let ghost base = self.live();
        let mut i: usize = 0;
        while i < block.len()
            invariant
                i <= block@.len(),
                forall|r: RegId| #[trigger] self.live_registers@.contains(r) <==> (base.contains(r) || exists|q: int|
                    0 <= q < i && #[trigger] result_reg(block@[q]) == Some(r)),
                self.stats == old(self).stats,
                self.constant_values == old(self).constant_values,
                self.computed_expressions == old(self).computed_expressions,
            decreases block.len() - i,
        {
            match result_reg_of(&block[i]) {
                Some(reg) => {
                    let present = self.is_live_reg(reg);
                    let ghost l0 = self.live_registers@;
                    if !present {
                        self.live_registers.push(reg);
                    }
                    proof {
                        assert forall|r: RegId| #[trigger] self.live_registers@.contains(r) <==> (base.contains(r)
                            || exists|q: int| 0 <= q < i + 1 && #[trigger] result_reg(block@[q]) == Some(r)) by {
                            if self.live_registers@.contains(r) && !l0.contains(r) {
                                let q = choose|q: int| 0 <= q < self.live_registers@.len() && #[trigger] self.live_registers@[q] == r;
                                if q < l0.len() {
                                    assert(l0[q] == r);
                                }
                            }
                            if l0.contains(r) {
                                let q = choose|q: int| 0 <= q < l0.len() && #[trigger] l0[q] == r;
                                assert(self.live_registers@[q] == r);
                            }
                            if r == reg {
                                assert(result_reg(block@[i as int]) == Some(r));
                                if !present {
                                    assert(self.live_registers@[l0.len() as int] == r);
                                }
                            }
                        }
                    }
                },
                None => {
                    proof {
                        assert forall|r: RegId| #[trigger] self.live_registers@.contains(r) <==> (base.contains(r)
                            || exists|q: int| 0 <= q < i + 1 && #[trigger] result_reg(block@[q]) == Some(r)) by {
                            if exists|q: int| 0 <= q < i + 1 && #[trigger] result_reg(block@[q]) == Some(r) {
                                let q = choose|q: int| 0 <= q < i + 1 && #[trigger] result_reg(block@[q]) == Some(r);
                                assert(q != i);
                            }
                        }
                    }
                },
            }
            i += 1;
        }
        assert(self.live_registers@.to_set() =~= base.union(block_outputs(block@)));
    }

    /// The operation is kept by dead-code elimination (see `dce`), with
    /// the registers found live.
    fn is_useful_operation(&self, op: &IROp) -> (b: bool)
        ensures
            b == useful_with(*op, self.live()),
    {
        match *op {
            IROp::Sll { dst, src, shreg } | IROp::Srl { dst, src, shreg } => self.is_live_reg(dst) || self.is_live_reg(
                src,
            ) || self.is_live_reg(shreg),
            IROp::Add { dst, .. } | IROp::Sub { dst, .. } | IROp::Mul { dst, .. } | IROp::Div { dst, .. }
            | IROp::Rem { dst, .. } | IROp::And { dst, .. } | IROp::Or { dst, .. } | IROp::Xor { dst, .. } => self.is_live_reg(
                dst,
            ),
            IROp::Load { dst, base, .. } => self.is_live_reg(dst) || self.is_live_reg(base),
            IROp::Store { .. } => true,
            IROp::MovImm { dst, .. } => self.is_live_reg(dst),
            _ => true,
        }
    }

    fn is_live_reg(&self, r: RegId) -> (b: bool)
        ensures
            b == self.live().contains(r),
    {
        let mut j: usize = 0;
        while j < self.live_registers.len()
            invariant
                j <= self.live_registers@.len(),
                forall|q: int| 0 <= q < j ==> self.live_registers@[q] != r,
            decreases self.live_registers.len() - j,
        {
            if self.live_registers[j] == r {
                assert(self.live_registers@.contains(r));
                return true;
            }
            j += 1;
        }
        false
    }

    /// Dead-code elimination over `ops`, the folded form of `block`, with
    /// the results of `block` live (see `dce`); each removed operation
    /// counts once.
    fn dead_code_elimination(&mut self, ops: &[IROp], block: &[IROp]) -> (r: Vec<IROp>)
        requires
            old(self).stats.dead_code_eliminations + ops@.len() <= usize::MAX,
        ensures
            r@ == dce(ops@, block_outputs(block@)),
            r@.len() <= ops@.len(),
            final(self).live() == live_set(ops@).union(block_outputs(block@)),
            final(self).stats == (OptimizationStats {
                dead_code_eliminations: (old(self).stats.dead_code_eliminations + (ops@.len() - r@.len())) as usize,
                ..old(self).stats
            }),
            final(self).constant_values == old(self).constant_values,
            final(self).computed_expressions == old(self).computed_expressions,
    {
        self.analyze_live_registers(ops);
        self.add_block_outputs(block);
        let ghost live = live_set(ops@).union(block_outputs(block@));
        let ghost s0 = self.stats;
        let ghost pred = |op: IROp| useful_with(op, live);
        let mut out: Vec<IROp> = Vec::new();
        let mut i: usize = 0;
        while i < ops.len()
            invariant
                i <= ops@.len(),
                self.live() == live,
                live == live_set(ops@).union(block_outputs(block@)),
                pred == (|op: IROp| useful_with(op, live)),
                out@ == ops@.subrange(0, i as int).filter(pred),
                out@.len() <= i,
                s0.dead_code_eliminations + ops@.len() <= usize::MAX,
                self.stats == (OptimizationStats {
                    dead_code_eliminations: (s0.dead_code_eliminations + (i - out@.len())) as usize,
                    ..s0
                }),
                self.constant_values == old(self).constant_values,
                self.computed_expressions == old(self).computed_expressions,
            decreases ops.len() - i,
        {
            proof {
                assert(ops@.subrange(0, i + 1).drop_last() =~= ops@.subrange(0, i as int));
                assert(ops@.subrange(0, i + 1).last() == ops@[i as int]);
                reveal(Seq::filter);
            }
            if self.is_useful_operation(&ops[i]) {
                out.push(ops[i]);
            } else {
                self.stats.dead_code_eliminations = self.stats.dead_code_eliminations + 1;
            }
            i += 1;
        }
        assert(ops@.subrange(0, ops@.len() as int) =~= ops@);
        out
    }

    /// One step of common-subexpression elimination (see `cse_step`).
    fn try_cse(&mut self, op: &IROp) -> (r: Option<IROp>)
        requires
            old(self).wf(),
        ensures
            final(self).wf(),
            (r, final(self).computed_expressions@) == cse_step(old(self).computed_expressions@, *op),
            final(self).stats == old(self).stats,
            final(self).constant_values == old(self).constant_values,
            final(self).live_registers == old(self).live_registers,
    {
        match cse_key_of(op) {
            Some((e, dst)) => {
                match find_expr(&self.computed_expressions, e) {
                    Some(i) => {
                        let src = self.computed_expressions[i].1;
                        self.forget_register(dst);
                        Some(IROp::Mov { dst, src })
                    },
                    None => {
                        let ghost m0 = self.computed_expressions@;
                        self.forget_register(dst);
                        if !expr_reads_exec(e, dst) {
                            proof {
                                lemma_forget(m0, dst);
                                assert(!has_key(forget(m0, dst), e));
                                lemma_put(self.computed_expressions@, e, dst);
                            }
                            self.computed_expressions.push((e, dst));
                        }
                        None
                    },
                }
            },
            None => {
                if !matches!(*op, IROp::Store { .. } | IROp::Nop) {
                    match single_write_of(op) {
                        Some(d) => {
                            self.forget_register(d);
                        },
                        None => {
                            self.computed_expressions.clear();
                            assert(self.computed_expressions@ =~= Seq::<(SubExpression, RegId)>::empty());
                        },
                    }
                }
                None
            },
        }
    }

    /// Drops the records that writing register `d` invalidates (see
    /// `forget`).
    fn forget_register(&mut self, d: RegId)
        requires
            old(self).wf(),
        ensures
            final(self).wf(),
            final(self).computed_expressions@ == forget(old(self).computed_expressions@, d),
            final(self).stats == old(self).stats,
            final(self).constant_values == old(self).constant_values,
            final(self).live_registers == old(self).live_registers,
    {
        let ghost m = self.computed_expressions@;
        let mut kept: Vec<(SubExpression, RegId)> = Vec::new();
        let mut i: usize = 0;
        while i < self.computed_expressions.len()
            invariant
                m == self.computed_expressions@,
                i <= m.len(),
                kept@ == forget(m.subrange(0, i as int), d),
            decreases self.computed_expressions.len() - i,
        {
            let p = self.computed_expressions[i];
            assert(m.subrange(0, i + 1).drop_last() =~= m.subrange(0, i as int));
            assert(m.subrange(0, i + 1).last() == p);
            if p.1 != d && !expr_reads_exec(p.0, d) {
                kept.push(p);
            }
            i += 1;
        }
        assert(m.subrange(0, m.len() as int) =~= m);
        proof {
            lemma_forget(m, d);
        }
        self.computed_expressions = kept;
    }

    /// Common-subexpression elimination over `ops` (see `cse_pass`), from
    /// the computations already recorded; each elimination counts once.
    fn common_subexpression_elimination(&mut self, ops: &[IROp]) -> (r: Vec<IROp>)
        requires
            old(self).wf(),
            old(self).stats.common_subexpression_eliminations + ops@.len() <= usize::MAX,
        ensures
            final(self).wf(),
            ({
                let (out, m, n) = cse_pass(old(self).computed_expressions@, ops@);
                &&& r@ == out
                &&& final(self).computed_expressions@ == m
                &&& n <= ops@.len()
                &&& final(self).stats == (OptimizationStats {
                    common_subexpression_eliminations: (old(self).stats.common_subexpression_eliminations + n) as usize,
                    ..old(self).stats
                })
            }),
            r@.len() == ops@.len(),
            final(self).constant_values == old(self).constant_values,
            final(self).live_registers == old(self).live_registers,
    {
        let ghost m0 = self.computed_expressions@;
        let ghost s0 = self.stats;
        let mut out: Vec<IROp> = Vec::new();
        let ghost mut n: nat = 0;
        let mut i: usize = 0;
        while i < ops.len()
            invariant
                i <= ops@.len(),
                self.wf(),
                s0.common_subexpression_eliminations + ops@.len() <= usize::MAX,
                (out@, self.computed_expressions@, n) == cse_pass(m0, ops@.subrange(0, i as int)),
                n <= i,
                out@.len() == i,
                self.stats == (OptimizationStats {
                    common_subexpression_eliminations: (s0.common_subexpression_eliminations + n) as usize,
                    ..s0
                }),
                self.constant_values == old(self).constant_values,
                self.live_registers == old(self).live_registers,
            decreases ops.len() - i,
        {
            assert(ops@.subrange(0, i + 1).drop_last() =~= ops@.subrange(0, i as int));
            assert(ops@.subrange(0, i + 1).last() == ops@[i as int]);
            let op = ops[i];
            match self.try_cse(&op) {
                Some(x) => {
                    out.push(x);
                    self.stats.common_subexpression_eliminations = self.stats.common_subexpression_eliminations + 1;
                    proof {
                        n = n + 1;
                    }
                },
                None => {
                    out.push(op);
                },
            }
            i += 1;
        }
        assert(ops@.subrange(0, ops@.len() as int) =~= ops@);
        out
    }

    fn const_is(&self, r: RegId, v: i64) -> (b: bool)
        requires
            self.wf(),
        ensures
            b == is_const(self.constant_values@, r, v as int),
    {
        match constant_value(&self.constant_values, r) {
            Some(x) => x == v,
            None => false,
        }
    }

    fn const_is_pow2(&self, r: RegId) -> (b: bool)
        requires
            self.wf(),
        ensures
            b == is_pow2_const(self.constant_values@, r),
    {
        match constant_value(&self.constant_values, r) {
            Some(x) => is_power_of_two(x).is_some(),
            None => false,
        }
    }

    /// The simplification of `op` under the known constants (see
    /// `alg_step`); each counts once as a strength reduction.
    fn try_algebraic_simplification(&mut self, op: &IROp) -> (r: Option<IROp>)
        requires
            old(self).wf(),
            old(self).stats.strength_reductions < usize::MAX,
        ensures
            r == alg_step(old(self).constant_values@, *op),
            final(self).stats == (OptimizationStats {
                strength_reductions: if r is Some {
                    (old(self).stats.strength_reductions + 1) as usize
                } else {
                    old(self).stats.strength_reductions
                },
                ..old(self).stats
            }),
            final(self).constant_values == old(self).constant_values,
            final(self).computed_expressions == old(self).computed_expressions,
            final(self).live_registers == old(self).live_registers,
    {
        let r = match *op {
            IROp::Mul { dst, src1, src2 } => {
                if self.const_is(src2, 0) || self.const_is(src1, 0) {
                    Some(IROp::MovImm { dst, imm: 0 })
                } else if self.const_is(src2, 1) {
                    Some(IROp::Mov { dst, src: src1 })
                } else if self.const_is(src1, 1) {
                    Some(IROp::Mov { dst, src: src2 })
                } else if self.const_is_pow2(src2) {
                    Some(IROp::Sll { dst, src: src1, shreg: src2 })
                } else if self.const_is_pow2(src1) {
                    Some(IROp::Sll { dst, src: src2, shreg: src1 })
                } else {
                    None
                }
            },
            IROp::Div { dst, src1, src2, .. } => {
                if self.const_is(src2, 1) {
                    Some(IROp::Mov { dst, src: src1 })
                } else if self.const_is_pow2(src2) {
                    Some(IROp::Sra { dst, src: src1, shreg: src2 })
                } else {
                    None
                }
            },
            IROp::Add { dst, src1, src2 } => {
                if self.const_is(src2, 0) {
                    Some(IROp::Mov { dst, src: src1 })
                } else if self.const_is(src1, 0) {
                    Some(IROp::Mov { dst, src: src2 })
                } else {
                    None
                }
            },
            IROp::Sub { dst, src1, src2 } => {
                if self.const_is(src2, 0) {
                    Some(IROp::Mov { dst, src: src1 })
                } else {
                    None
                }
            },
            IROp::And { dst, src1, src2 } => {
                if self.const_is(src2, 0) || self.const_is(src1, 0) {
                    Some(IROp::MovImm { dst, imm: 0 })
                } else if self.const_is(src2, -1) || self.const_is(src2, 0xFF) || self.const_is(src2, 0xFFFF)
                    || self.const_is(src2, 0xFFFFFFFF) {
                    Some(IROp::Mov { dst, src: src1 })
                } else {
                    None
                }
            },
            IROp::Or { dst, src1, src2 } => {
                if self.const_is(src2, 0) {
                    Some(IROp::Mov { dst, src: src1 })
                } else if self.const_is(src1, 0) {
                    Some(IROp::Mov { dst, src: src2 })
                } else {
                    None
                }
            },
            _ => None,
        };
        if r.is_some() {
            self.stats.strength_reductions = self.stats.strength_reductions + 1;
        }
        r
    }

    /// Algebraic simplification over `ops` (see `alg_pass`); each counts
    /// once as an algebraic simplification and once as a strength
    /// reduction.
    fn algebraic_simplification(&mut self, ops: &[IROp]) -> (r: Vec<IROp>)
        requires
            old(self).wf(),
            old(self).stats.algebraic_simplifications + ops@.len() <= usize::MAX,
            old(self).stats.strength_reductions + ops@.len() <= usize::MAX,
        ensures
            final(self).wf(),
            ({
                let (out, n) = alg_pass(old(self).constant_values@, ops@);
                &&& r@ == out
                &&& n <= ops@.len()
                &&& final(self).stats == (OptimizationStats {
                    algebraic_simplifications: (old(self).stats.algebraic_simplifications + n) as usize,
                    strength_reductions: (old(self).stats.strength_reductions + n) as usize,
                    ..old(self).stats
                })
            }),
            final(self).constant_values == old(self).constant_values,
            final(self).computed_expressions == old(self).computed_expressions,
            final(self).live_registers == old(self).live_registers,
    {
        let ghost c = self.constant_values@;
        let ghost s0 = self.stats;
        let mut out: Vec<IROp> = Vec::new();
        let ghost mut n: nat = 0;
        let mut i: usize = 0;
        while i < ops.len()
            invariant
                i <= ops@.len(),
                self.wf(),
                self.constant_values@ == c,
                s0.algebraic_simplifications + ops@.len() <= usize::MAX,
                s0.strength_reductions + ops@.len() <= usize::MAX,
                (out@, n) == alg_pass(c, ops@.subrange(0, i as int)),
                n <= i,
                self.stats == (OptimizationStats {
                    algebraic_simplifications: (s0.algebraic_simplifications + n) as usize,
                    strength_reductions: (s0.strength_reductions + n) as usize,
                    ..s0
                }),
                self.constant_values == old(self).constant_values,
                self.computed_expressions == old(self).computed_expressions,
                self.live_registers == old(self).live_registers,
            decreases ops.len() - i,
        {
            assert(ops@.subrange(0, i + 1).drop_last() =~= ops@.subrange(0, i as int));
            assert(ops@.subrange(0, i + 1).last() == ops@[i as int]);
            let op = ops[i];
            match self.try_algebraic_simplification(&op) {
                Some(x) => {
                    out.push(x);
                    self.stats.algebraic_simplifications = self.stats.algebraic_simplifications + 1;
                    proof {
                        n = n + 1;
                    }
                },
                None => {
                    out.push(op);
                },
            }
            i += 1;
        }
        assert(ops@.subrange(0, ops@.len() as int) =~= ops@);
        out
    }

    /// Optimizes `ops`: forgets the constants, live registers and
    /// computations of earlier runs, then folds constants, removes dead
    /// code, eliminates common subexpressions, simplifies and applies the
    /// peephole rewrites (see `optimized`), counting each application on top
    /// of the counters so far (see `stats_after`).
    pub fn optimize(&mut self, ops: &[IROp]) -> (r: Vec<IROp>)
        requires
            old(self).wf(),
            room_for(old(self).stats_view(), ops@.len()),
        ensures
            final(self).wf(),
            r@ == optimized(ops@),
            final(self).stats_view() == stats_after(old(self).stats_view(), ops@),
    {
        self.constant_values.clear();
        self.live_registers.clear();
        self.computed_expressions.clear();
        assert(self.constant_values@ =~= Seq::<(RegId, i64)>::empty());
        assert(self.computed_expressions@ =~= Seq::<(SubExpression, RegId)>::empty());
        let ops1 = self.constant_propagation_and_folding(ops);
        let ops2 = self.dead_code_elimination(ops1.as_slice(), ops);
        let ops3 = self.common_subexpression_elimination(ops2.as_slice());
        let ops4 = self.algebraic_simplification(ops3.as_slice());
        peephole_optimization(ops4.as_slice())
    }

    pub fn get_stats(&self) -> (s: &OptimizationStats)
        ensures
            *s == self.stats_view(),
    {
        &self.stats
    }

    pub fn reset_stats(&mut self)
        ensures
            final(self).stats_view() == zero_stats(),
            final(self).consts() == old(self).consts(),
            final(self).computed() == old(self).computed(),
            final(self).live() == old(self).live(),
            final(self).wf() == old(self).wf(),
    {
        self.stats = OptimizationStats::default();
    }
}

impl Default for IROptimizer {
    fn default() -> (o: Self)
        ensures
            o.wf(),
            o.stats_view() == zero_stats(),
    {
        IROptimizer::new()
    }
}

/// `useful` stated over a set of read registers.
pub open spec fn useful_with(op: IROp, live: Set<RegId>) -> bool {
    match op {
        IROp::Sll { dst, src, shreg } | IROp::Srl { dst, src, shreg } => live.contains(dst) || live.contains(src)
            || live.contains(shreg),
        IROp::Add { dst, .. } | IROp::Sub { dst, .. } | IROp::Mul { dst, .. } | IROp::Div { dst, .. }
        | IROp::Rem { dst, .. } | IROp::And { dst, .. } | IROp::Or { dst, .. } | IROp::Xor { dst, .. } => live.contains(
            dst,
        ),
        IROp::Load { dst, base, .. } => live.contains(dst) || live.contains(base),
        IROp::Store { .. } => true,
        IROp::MovImm { dst, .. } => live.contains(dst),
        _ => true,
    }
}

} // verus!
