//! Fixed-point scalar arithmetic for the simulation kernel.
//!
//! Every physical quantity in this crate is a scaled integer: a value `v`
//! stands for the real number `v / UNIT` in the quantity's natural unit
//! (metres, seconds, kilograms, Tesla, ...). All arithmetic is exact
//! integer arithmetic with explicit floor rounding, so every kernel is a
//! deterministic, verifiable function of its inputs.

use vstd::prelude::*;
use vstd::arithmetic::div_mod::lemma_div_is_ordered;
use vstd::arithmetic::div_mod::lemma_div_nonincreasing;
use vstd::arithmetic::div_mod::lemma_div_pos_is_pos;
use vstd::arithmetic::div_mod::lemma_fundamental_div_mod;
use vstd::arithmetic::div_mod::lemma_fundamental_div_mod_converse;

verus! {

/// One natural unit, as a scaled integer: quantities carry six fractional
/// decimal digits.
pub const UNIT: i64 = 1_000_000;

/// Bound on the magnitude of any stored component value (positions,
/// velocities, forces, masses, gradients). Keeping stored values inside
/// this range lets products of two values fit comfortably in `i128`.
pub const MAXQ: i64 = 1_073_741_824;

/// Bound accepted by the scalar helpers below; wide enough for every
/// intermediate this crate forms from `MAXQ`-bounded components.
pub const MAXB: i64 = 1_099_511_627_776;

/// The circle constant at fixed-point scale, floored.
pub const PI_FP: i64 = 3_141_592;

/// Twice the circle constant at fixed-point scale.
pub const TWO_PI_FP: i64 = 2 * PI_FP;

/// Clamp a mathematical integer into the `i64` range.
pub open spec fn clamp64(v: int) -> int {
    if v > i64::MAX {
        i64::MAX as int
    } else if v < i64::MIN {
        i64::MIN as int
    } else {
        v
    }
}

/// Floor division on `i128` (spec-level `/` with a positive divisor).
pub fn floor_div128(a: i128, b: i128) -> (r: i128)
    requires
        0 < b,
        i128::MIN < a,
        a < 0 ==> -(a as int) + b as int - 1 <= i128::MAX,
    ensures
        r == a as int / b as int,
        0 <= a ==> 0 <= r <= a,
        a < 0 ==> a <= r <= 0,
{
    if a >= 0 {
        let r: i128 = a / b;
        proof {
            lemma_div_pos_is_pos(a as int, b as int);
            lemma_div_nonincreasing(a as int, b as int);
        }
        r
    } else {
        let m: i128 = -a;
        proof {
            assert(m as int + b as int - 1 <= m as int * b as int) by (nonlinear_arith)
                requires 1 <= m as int && 1 <= b as int;
            vstd::arithmetic::div_mod::lemma_div_by_multiple(m as int, b as int);
            lemma_div_is_ordered(m as int + b as int - 1, m as int * b as int, b as int);
            lemma_div_pos_is_pos(m as int + b as int - 1, b as int);
        }
        let q: i128 = (m + (b - 1)) / b;
        proof {
            let mi = m as int;
            let bi = b as int;
            let qq = (mi + bi - 1) / bi;
            let rr = (mi + bi - 1) % bi;
            lemma_fundamental_div_mod(mi + bi - 1, bi);
            assert(mi + bi - 1 == bi * qq + rr);
            assert(-mi == (-qq) * bi + (bi - 1 - rr)) by (nonlinear_arith)
                requires mi + bi - 1 == bi * qq + rr;
            lemma_fundamental_div_mod_converse(-mi, bi, -qq, bi - 1 - rr);
            assert((-mi) / bi == -qq);
        }
        -q
    }
}

/// Floor division on `i64`.
pub fn floor_div64(a: i64, b: i64) -> (r: i64)
    requires
        0 < b,
        i64::MIN < a,
    ensures
        r == a as int / b as int,
        0 <= a ==> 0 <= r <= a,
        a < 0 ==> a <= r <= 0,
{
    let r: i128 = floor_div128(a as i128, b as i128);
    r as i64
}

/// Fixed-point product: the real-number product of `a` and `b`, floored
/// onto the fixed-point lattice.
pub fn mul_unit(a: i64, b: i64) -> (r: i64)
    requires
        -MAXB <= a <= MAXB,
        -MAXB <= b <= MAXB,
    ensures
        r == (a as int * b as int) / (UNIT as int),
{
    proof {
        assert(-(MAXB as int * MAXB as int) <= a as int * b as int
            <= MAXB as int * MAXB as int) by (nonlinear_arith)
            requires -MAXB <= a <= MAXB && -MAXB <= b <= MAXB;
    }
    let p: i128 = (a as i128) * (b as i128);
    let q: i128 = floor_div128(p, UNIT as i128);
    q as i64
}

/// Fixed-point quotient: the real-number quotient `a / b`, floored onto
/// the fixed-point lattice. The divisor must be positive.
pub fn div_unit(a: i64, b: i64) -> (r: i64)
    requires
        0 < b,
        -MAXB <= a <= MAXB,
    ensures
        r == (a as int * UNIT as int) / (b as int),
{
    proof {
        assert(-(MAXB as int * UNIT as int) <= a as int * UNIT as int
            <= MAXB as int * UNIT as int) by (nonlinear_arith)
            requires -MAXB <= a <= MAXB;
    }
    let p: i128 = (a as i128) * (UNIT as i128);
    let q: i128 = floor_div128(p, b as i128);
    q as i64
}

/// Bounds the floor quotient from bounds on the numerator: if
/// `-(m * b) <= a <= m * b` then `-m <= a / b <= m`.
pub proof fn lemma_div_range(a: int, b: int, m: int)
    requires
        0 < b,
        0 <= m,
        -(m * b) <= a <= m * b,
    ensures
        -m <= a / b <= m,
{
    vstd::arithmetic::div_mod::lemma_div_is_ordered(a, m * b, b);
    vstd::arithmetic::div_mod::lemma_div_is_ordered(-(m * b), a, b);
    vstd::arithmetic::div_mod::lemma_div_multiples_vanish(m, b);
    vstd::arithmetic::div_mod::lemma_div_multiples_vanish(-m, b);
    assert(b * m == m * b) by (nonlinear_arith);
    assert(b * -m == -(m * b)) by (nonlinear_arith);
}

/// `r` is the integer square root of `v`.
pub open spec fn is_sqrt_of(v: int, r: int) -> bool {
    0 <= r && r * r <= v < (r + 1) * (r + 1)
}

/// `r` is the integer cube root of `v`.
pub open spec fn is_cbrt_of(v: int, r: int) -> bool {
    0 <= r && r * r * r <= v < (r + 1) * (r + 1) * (r + 1)
}

/// The integer square root is unique.
pub proof fn lemma_sqrt_unique(v: int, r1: int, r2: int)
    requires
        is_sqrt_of(v, r1),
        is_sqrt_of(v, r2),
    ensures
        r1 == r2,
{
    assert(r1 < r2 + 1 && r2 < r1 + 1) by (nonlinear_arith)
        requires
            0 <= r1 && 0 <= r2 && r1 * r1 <= v < (r1 + 1) * (r1 + 1) && r2 * r2 <= v < (r2 + 1)
                * (r2 + 1);
}

/// The integer cube root is unique.
pub proof fn lemma_cbrt_unique(v: int, r1: int, r2: int)
    requires
        is_cbrt_of(v, r1),
        is_cbrt_of(v, r2),
    ensures
        r1 == r2,
{
    assert(r1 < r2 + 1 && r2 < r1 + 1) by (nonlinear_arith)
        requires
            0 <= r1 && 0 <= r2 && r1 * r1 * r1 <= v < (r1 + 1) * (r1 + 1) * (r1 + 1) && r2 * r2
                * r2 <= v < (r2 + 1) * (r2 + 1) * (r2 + 1);
}

/// Integer square root by bisection.
pub fn isqrt128(v: i128) -> (r: i128)
    requires
        0 <= v < 0x1_0000_0000_0000_0000_0000_0000,
    ensures
        is_sqrt_of(v as int, r as int),
        0 <= r < 0x1_0000_0000_0000,
{
    let mut lo: i128 = 0;
    let mut hi: i128 = 0x1_0000_0000_0000;
    proof {
        assert((0x1_0000_0000_0000 as int) * (0x1_0000_0000_0000 as int)
            == 0x1_0000_0000_0000_0000_0000_0000) by (nonlinear_arith);
    }
    while lo + 1 < hi
        invariant
            0 <= lo < hi <= 0x1_0000_0000_0000,
            lo * lo <= v,
            v < hi * hi,
        decreases hi - lo,
    {
        let mid: i128 = lo + (hi - lo) / 2;
        proof {
            assert(0 <= mid as int * mid as int
                <= (0x1_0000_0000_0000 as int) * (0x1_0000_0000_0000 as int))
                by (nonlinear_arith)
                requires 0 <= mid <= 0x1_0000_0000_0000;
        }
        if mid * mid <= v {
            lo = mid;
        } else {
            hi = mid;
        }
    }
    proof {
        assert(hi == lo + 1);
    }
    lo
}

/// Integer cube root by bisection.
pub fn icbrt128(v: i128) -> (r: i128)
    requires
        0 <= v < 0x2000_0000_0000_0000_0000_0000,
    ensures
        is_cbrt_of(v as int, r as int),
        0 <= r < 0x8000_0000,
{
    let mut lo: i128 = 0;
    let mut hi: i128 = 0x8000_0000;
    proof {
        assert((0x8000_0000 as int) * (0x8000_0000 as int) == 0x4000_0000_0000_0000)
            by (nonlinear_arith);
        assert((0x4000_0000_0000_0000 as int) * (0x8000_0000 as int)
            == 0x2000_0000_0000_0000_0000_0000) by (nonlinear_arith);
        assert((0x8000_0000 as int) * (0x8000_0000 as int) * (0x8000_0000 as int)
            == 0x2000_0000_0000_0000_0000_0000);
    }
    while lo + 1 < hi
        invariant
            0 <= lo < hi <= 0x8000_0000,
            lo * lo * lo <= v,
            v < hi * hi * hi,
        decreases hi - lo,
    {
        let mid: i128 = lo + (hi - lo) / 2;
        proof {
            assert(0 <= mid as int * mid as int <= 0x4000_0000_0000_0000)
                by (nonlinear_arith)
                requires 0 <= mid <= 0x8000_0000;
            assert(0 <= mid as int * mid as int * mid as int
                <= (0x8000_0000 as int) * (0x8000_0000 as int) * (0x8000_0000 as int))
                by (nonlinear_arith)
                requires 0 <= mid <= 0x8000_0000;
            assert((0x8000_0000 as int) * (0x8000_0000 as int) == 0x4000_0000_0000_0000)
                by (nonlinear_arith);
            assert((0x4000_0000_0000_0000 as int) * (0x8000_0000 as int)
                == 0x2000_0000_0000_0000_0000_0000) by (nonlinear_arith);
        }
        if mid * mid * mid <= v {
            lo = mid;
        } else {
            hi = mid;
        }
    }
    proof {
        assert(hi == lo + 1);
    }
    lo
}

/// Scales a wide intermediate back onto the fixed-point lattice; the
/// bound `m` on the quotient keeps the result in `i64` range.
pub fn div_unit128(a: i128, Ghost(m): Ghost<int>) -> (r: i64)
    requires
        0 <= m <= i64::MAX,
        -(m * (UNIT as int)) <= a <= m * (UNIT as int),
    ensures
        r == a as int / (UNIT as int),
        -m <= r <= m,
{
    proof {
        lemma_div_range(a as int, UNIT as int, m);
    }
    let q: i128 = floor_div128(a, UNIT as i128);
    q as i64
}

/// Clamp a mathematical integer into the stored-quantity range.
pub open spec fn clamp_q(v: int) -> int {
    if v > MAXQ {
        MAXQ as int
    } else if v < -MAXQ {
        -(MAXQ as int)
    } else {
        v
    }
}

/// Saturating conversion into the stored-quantity range: integration
/// saturates at the edge of the simulated region instead of wrapping.
pub fn clamp_q128(v: i128) -> (r: i64)
    ensures
        r == clamp_q(v as int),
        -MAXQ <= r <= MAXQ,
{
    if v > MAXQ as i128 {
        MAXQ
    } else if v < -(MAXQ as i128) {
        -MAXQ
    } else {
        v as i64
    }
}

/// The gravitational acceleration at the Earth's surface, fixed-point
/// metres per second squared.
pub const G_FP: i64 = 9_810_000;

/// Saturating `i128` to `i64` conversion.
pub fn clamp_to_i64(v: i128) -> (r: i64)
    ensures
        r == clamp64(v as int),
{
    if v > i64::MAX as i128 {
        i64::MAX
    } else if v < i64::MIN as i128 {
        i64::MIN
    } else {
        v as i64
    }
}

/// Clamp a mathematical integer into a symmetric range `[-b, b]`.
pub open spec fn clamp_sym(v: int, b: int) -> int {
    if v > b {
        b
    } else if v < -b {
        -b
    } else {
        v
    }
}

/// Saturating conversion into a symmetric range.
pub fn clamp_sym128(v: i128, b: i64) -> (r: i64)
    requires
        0 <= b,
    ensures
        r == clamp_sym(v as int, b as int),
        -b <= r <= b,
{
    if v > b as i128 {
        b
    } else if v < -(b as i128) {
        -b
    } else {
        v as i64
    }
}

/// Saturating addition of a wide increment into a stored accumulator.
pub fn add_clamp128(a: i64, b: i128) -> (r: i64)
    ensures
        r == clamp64(a as int + b as int),
{
    if b >= 0x1_0000_0000_0000_0000 {
        i64::MAX
    } else if b <= -0x1_0000_0000_0000_0000 {
        i64::MIN
    } else {
        clamp_to_i64((a as i128) + b)
    }
}

/// Saturating addition, used by the shared force and field accumulators.
pub fn add_clamp64(a: i64, b: i64) -> (r: i64)
    ensures
        r == clamp64(a as int + b as int),
{
    let s: i128 = (a as i128) + (b as i128);
    clamp_to_i64(s)
}

} // verus!
