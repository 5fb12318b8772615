//! Wall-clock readings, and durations as whole nanoseconds with the
//! arithmetic of `std::time::Duration`.

use vstd::prelude::*;

verus! {

#[verifier::external_type_specification]
#[verifier::external_body]
pub struct ExInstant(std::time::Instant);

/// `Clone` of `std::time::Instant`, a `Copy` type: the copy equals the
/// instant it was taken from.
pub assume_specification[ <std::time::Instant as Clone>::clone ](instant: &std::time::Instant) -> (r: std::time::Instant)
    ensures
        r == *instant,
;

/// The current time, from `std::time::Instant::now`; nothing is claimed of
/// it.
#[verifier::external_body]
pub fn now() -> std::time::Instant {
    std::time::Instant::now()
}

/// Nanoseconds elapsed since `t`, from `Instant::elapsed` and
/// `Duration::as_nanos`; the value depends on the clock, so nothing is
/// claimed of it.
#[verifier::external_body]
pub fn elapsed_nanos(t: &std::time::Instant) -> u128 {
    t.elapsed().as_nanos()
}

/// Nanoseconds in a second.
pub const NANOS_PER_SEC: u128 = 1_000_000_000;

/// The longest `Duration`, in nanoseconds (`u64::MAX` seconds and 999 999 999
/// nanoseconds).
pub const DURATION_MAX_NANOS: u128 = 18_446_744_073_709_551_615_999_999_999;

/// `Duration / u32`: whole seconds and the nanosecond part are divided
/// separately, the remainder of the seconds carried into nanoseconds (so the
/// result can be one nanosecond below the exact quotient).
pub open spec fn duration_div(t: u128, r: u32) -> u128 {
    let rr = r as int;
    let secs = t as int / 1_000_000_000;
    let nanos = t as int % 1_000_000_000;
    let q = secs / rr;
    let carry = secs % rr;
    let extra = carry * 1_000_000_000 / rr;
    (q * 1_000_000_000 + nanos / rr + extra) as u128
}

/// `Duration / u32` on nanoseconds; division by zero panics in `Duration`,
/// so it is excluded.
pub fn div_duration(t: u128, r: u32) -> (d: u128)
    requires
        r != 0,
    ensures
        d == duration_div(t, r),
        d <= t,
{
    let rr = r as u128;
    let secs = t / NANOS_PER_SEC;
    let nanos = t % NANOS_PER_SEC;
    let q = secs / rr;
    let carry = secs % rr;
    proof {
        let (ri, si, qi, ci, ni, ti) = (rr as int, secs as int, q as int, carry as int, nanos as int, t as int);
        assert(ci < ri);
        assert(ci * 1_000_000_000 < ri * 1_000_000_000) by (nonlinear_arith)
            requires
                ci < ri,
        ;
        assert(ri * 1_000_000_000 <= 4294967295 * 1_000_000_000) by (nonlinear_arith)
            requires
                ri <= 4294967295,
        ;
    }
    let extra = carry * NANOS_PER_SEC / rr;
    proof {
        let (ri, si, qi, ci, ni, ti, ei) = (rr as int, secs as int, q as int, carry as int, nanos as int, t as int, extra as int);
        assert(si * 1_000_000_000 + ni == ti);
        assert(qi * 1_000_000_000 + ni / ri + ei <= ti) by (nonlinear_arith)
            requires
                qi == si / ri,
                ci == si % ri,
                ei == ci * 1_000_000_000 / ri,
                si * 1_000_000_000 + ni == ti,
                ri >= 1,
                0 <= ni < 1_000_000_000,
                0 <= si,
                0 <= ci,
        {
            assert(si == qi * ri + ci);
            assert(ni / ri <= ni);
            assert(ei * ri <= ci * 1_000_000_000);
            assert(qi * 1_000_000_000 * ri + ei * ri <= si * 1_000_000_000);
            assert((qi * 1_000_000_000 + ei) * ri <= si * 1_000_000_000);
            assert(qi * 1_000_000_000 + ei <= si * 1_000_000_000);
        }
    }
    q * NANOS_PER_SEC + nanos / rr + extra
}

/// `Duration * u32` on nanoseconds, which is exact; `Duration` panics when
/// the product exceeds its range, so that is excluded.
pub fn mul_duration(t: u128, r: u32) -> (d: u128)
    requires
        t * r <= DURATION_MAX_NANOS,
    ensures
        d == t * r,
{
    t * (r as u128)
}

} // verus!
