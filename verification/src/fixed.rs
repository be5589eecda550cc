//! Fixed-point arithmetic base: all colorimetric quantities in this crate
//! are integers in micro-units, so that one whole unit is `MICRO`.
use vstd::prelude::*;

verus! {

/// Number of micro-units in one whole unit.
pub const MICRO: i64 = 1_000_000;

/// Truncating division (rounding toward zero), the rounding used for every
/// fixed-point quotient in this crate.
pub open spec fn trunc_div(n: int, d: int) -> int {
    if (n >= 0) == (d >= 0) {
        abs_val(n) / abs_val(d)
    } else {
        -(abs_val(n) / abs_val(d))
    }
}

/// Absolute value of a mathematical integer.
pub open spec fn abs_val(n: int) -> int {
    if n >= 0 { n } else { -n }
}

/// Truncating division on machine integers.
pub fn div_i128(n: i128, d: i128) -> (r: i128)
    requires
        d != 0,
        n > i128::MIN,
        d > i128::MIN,
    ensures
        r == trunc_div(n as int, d as int),
        abs_val(r as int) <= abs_val(n as int),
{
    let nn: i128 = if n < 0 { -n } else { n };
    let dd: i128 = if d < 0 { -d } else { d };
    let q: i128 = nn / dd;
    proof {
        vstd::arithmetic::div_mod::lemma_div_nonincreasing(nn as int, dd as int);
        vstd::arithmetic::div_mod::lemma_div_pos_is_pos(nn as int, dd as int);
    }
    if (n < 0) != (d < 0) {
        -q
    } else {
        q
    }
}

/// A truncated quotient is bounded in magnitude by `m` when its numerator
/// is bounded by `m * d`.
pub proof fn lemma_trunc_div_abs_bound(n: int, d: int, m: int)
    requires
        d > 0,
        m >= 0,
        abs_val(n) <= m * d,
    ensures
        abs_val(trunc_div(n, d)) <= m,
{
    assert(m * d == d * m) by (nonlinear_arith);
    vstd::arithmetic::div_mod::lemma_div_is_ordered(abs_val(n), m * d, d);
    vstd::arithmetic::div_mod::lemma_div_multiples_vanish(m, d);
    vstd::arithmetic::div_mod::lemma_div_pos_is_pos(abs_val(n), d);
}

/// Truncating division is exact on exact multiples: `(a*d)/d == a` for any
/// nonzero `d`.
pub proof fn lemma_trunc_div_exact(a: int, d: int)
    requires
        d != 0,
    ensures
        trunc_div(a * d, d) == a,
{
    if d > 0 {
        if a >= 0 {
            assert(a * d >= 0 && a * d == d * a) by (nonlinear_arith)
                requires
                    a >= 0,
                    d > 0,
            ;
            vstd::arithmetic::div_mod::lemma_div_multiples_vanish(a, d);
        } else {
            assert(a * d < 0 && -(a * d) == d * (-a)) by (nonlinear_arith)
                requires
                    a < 0,
                    d > 0,
            ;
            vstd::arithmetic::div_mod::lemma_div_multiples_vanish(-a, d);
        }
    } else {
        if a >= 0 {
            assert(a * d <= 0 && -(a * d) == (-d) * a && a * (-d) == (-d) * a)
                by (nonlinear_arith)
                requires
                    a >= 0,
                    d < 0,
            ;
            vstd::arithmetic::div_mod::lemma_div_multiples_vanish(a, -d);
        } else {
            assert(a * d > 0 && a * d == (-d) * (-a)) by (nonlinear_arith)
                requires
                    a < 0,
                    d < 0,
            ;
            vstd::arithmetic::div_mod::lemma_div_multiples_vanish(-a, -d);
        }
    }
}

/// A truncated quotient of a nonnegative numerator by a positive
/// denominator is nonnegative.
pub proof fn lemma_trunc_div_nonneg(n: int, d: int)
    requires
        n >= 0,
        d > 0,
    ensures
        0 <= trunc_div(n, d),
{
    vstd::arithmetic::div_mod::lemma_div_pos_is_pos(n, d);
}

} // verus!
