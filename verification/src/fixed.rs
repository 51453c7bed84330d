//! Fixed-point scalars. An `i64` value `v` stands for the real number
//! `v / SCALE`; `ONE` is the representation of 1.0.
use vstd::prelude::*;

verus! {

/// Number of fixed-point units per whole unit.
pub const SCALE: i64 = 1000;

/// 1.0 in fixed-point units.
pub const ONE: i64 = 1000;

/// Largest magnitude accepted by the fixed-point helpers. Keeping every
/// scalar inside this bound keeps all intermediate products within `i64`.
pub const FIXED_LIMIT: i64 = 1_000_000_000;

/// Truncating division (rounds toward zero), the rounding that the
/// executable `/` operator performs on signed integers.
pub open spec fn tdiv(a: int, b: int) -> int {
    if a >= 0 {
        a / b
    } else {
        -((-a) / b)
    }
}

/// Linear interpolation from `a` toward `b` by the fraction `t / SCALE`.
pub open spec fn spec_lerp(a: int, b: int, t: int) -> int {
    a + tdiv((b - a) * t, SCALE as int)
}

/// Blend `a` toward `b` by the factor `t` (in fixed-point units of 1):
/// `t == 0` returns `a` unchanged and `t == ONE` returns exactly `b`.
pub fn lerp(a: i64, b: i64, t: i64) -> (r: i64)
    requires
        -FIXED_LIMIT <= a <= FIXED_LIMIT,
        -FIXED_LIMIT <= b <= FIXED_LIMIT,
        0 <= t <= SCALE,
    ensures
        r == spec_lerp(a as int, b as int, t as int),
{
    let d: i64 = b - a;
    proof {
        assert(-2 * FIXED_LIMIT * SCALE <= d * t <= 2 * FIXED_LIMIT * SCALE) by (nonlinear_arith)
            requires
                -2 * FIXED_LIMIT <= d <= 2 * FIXED_LIMIT,
                0 <= t <= SCALE,
        ;
    }
    a + d * t / SCALE
}

/// Scaling a value `d` by a fraction `t / s` of at most one never leaves
/// the interval between 0 and `d`.
pub proof fn lemma_tdiv_scaled_range(d: int, t: int, s: int)
    requires
        0 < s,
        0 <= t <= s,
    ensures
        d >= 0 ==> 0 <= tdiv(d * t, s) <= d,
        d <= 0 ==> d <= tdiv(d * t, s) <= 0,
{
    if d >= 0 {
        vstd::arithmetic::mul::lemma_mul_nonnegative(d, t);
        vstd::arithmetic::mul::lemma_mul_inequality(t, s, d);
        vstd::arithmetic::mul::lemma_mul_is_commutative(d, t);
        vstd::arithmetic::mul::lemma_mul_is_commutative(d, s);
        vstd::arithmetic::div_mod::lemma_div_is_ordered(0, d * t, s);
        vstd::arithmetic::div_mod::lemma_div_is_ordered(d * t, d * s, s);
        vstd::arithmetic::div_mod::lemma_div_by_multiple(d, s);
    } else {
        let n = -d;
        vstd::arithmetic::mul::lemma_mul_nonnegative(n, t);
        vstd::arithmetic::mul::lemma_mul_inequality(t, s, n);
        vstd::arithmetic::mul::lemma_mul_is_commutative(n, t);
        vstd::arithmetic::mul::lemma_mul_is_commutative(n, s);
        vstd::arithmetic::div_mod::lemma_div_is_ordered(0, n * t, s);
        vstd::arithmetic::div_mod::lemma_div_is_ordered(n * t, n * s, s);
        vstd::arithmetic::div_mod::lemma_div_by_multiple(n, s);
        assert(d * t == -(n * t)) by (nonlinear_arith)
            requires
                n == -d,
        ;
    }
}

/// Scaling a nonnegative value `d` by a fraction `t / s` of magnitude at most
/// one never exceeds `d` in magnitude.
pub proof fn lemma_tdiv_unit_bound(d: int, t: int, s: int)
    requires
        0 < s,
        -s <= t <= s,
        0 <= d,
    ensures
        -d <= tdiv(d * t, s) <= d,
{
    if t >= 0 {
        lemma_tdiv_scaled_range(d, t, s);
    } else {
        lemma_tdiv_scaled_range(-d, -t, s);
        assert(d * t == (-d) * (-t)) by (nonlinear_arith);
    }
}

/// A bound on the dividend carries over to the truncated quotient.
pub proof fn lemma_tdiv_abs_le(a: int, b: int, bound: int)
    requires
        0 < b,
        -bound <= a <= bound,
    ensures
        -(bound / b) <= tdiv(a, b) <= bound / b,
{
    if a >= 0 {
        vstd::arithmetic::div_mod::lemma_div_is_ordered(0, a, b);
        vstd::arithmetic::div_mod::lemma_div_is_ordered(a, bound, b);
    } else {
        vstd::arithmetic::div_mod::lemma_div_is_ordered(0, -a, b);
        vstd::arithmetic::div_mod::lemma_div_is_ordered(-a, bound, b);
    }
}

/// `spec_lerp` with factor 0 returns the first endpoint unchanged, and with
/// factor `ONE` returns exactly the second endpoint.
pub proof fn lemma_lerp_endpoints(a: int, b: int)
    ensures
        spec_lerp(a, b, 0) == a,
        spec_lerp(a, b, SCALE as int) == b,
{
    vstd::arithmetic::div_mod::lemma_div_of0(SCALE as int);
    if b - a >= 0 {
        vstd::arithmetic::div_mod::lemma_div_by_multiple(b - a, SCALE as int);
    } else {
        vstd::arithmetic::div_mod::lemma_div_by_multiple(a - b, SCALE as int);
        assert((b - a) * (SCALE as int) == -((a - b) * (SCALE as int))) by (nonlinear_arith);
    }
}

/// Interpolating between two values of an interval stays inside it.
pub proof fn lemma_lerp_in_range(lo: int, hi: int, a: int, b: int, t: int)
    requires
        lo <= a <= hi,
        lo <= b <= hi,
        0 <= t <= SCALE,
    ensures
        lo <= spec_lerp(a, b, t) <= hi,
{
    lemma_tdiv_scaled_range(b - a, t, SCALE as int);
}

} // verus!
