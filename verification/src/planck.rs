//! The Planckian-locus approximation: converting a black-body color
//! temperature to its CIE 1931 chromaticity.
//!
//! Temperatures are in micro-Kelvin (`3_000_000_000` is 3000 K) and
//! chromaticities in micro-units, so the classic cubic approximation
//! polynomials become exact integer arithmetic here: `x` is a rational
//! function of the temperature and `y` a cubic polynomial in `x`, each
//! evaluated over a common denominator and truncated once.
use vstd::prelude::*;

use crate::color::{ColorBoundsError, XyColor};
use crate::fixed::{MICRO, abs_val, div_i128, trunc_div};

verus! {

/// Lowest temperature (micro-Kelvin) the locus approximation supports.
pub const TEMP_MIN: i64 = 1_667_000_000;

/// Highest temperature (micro-Kelvin) the locus approximation supports.
pub const TEMP_MAX: i64 = 25_000_000_000;

/// Floor for the deep-red extrapolation below the supported range.
pub const TEMP_RED_FLOOR: i64 = 1_005_000_000;

/// x chromaticity of the deep-red point the extrapolation blends toward.
pub const RED_X: i64 = 628_000;

/// y chromaticity of the deep-red point the extrapolation blends toward.
pub const RED_Y: i64 = 295_000;

/// Width (micro-Kelvin) of the blending span below `TEMP_MIN`.
pub const EXTRAPOLATION_SPAN: i64 = 667_000_000;

/// What to do with a requested color temperature outside the supported
/// range of the locus approximation.
#[derive(Clone, Copy, Debug, PartialEq, Eq, Structural)]
pub enum ClampPolicy {
    /// Refuse the request with a `ColorBoundsError`.
    Reject,
    /// Clamp the temperature to the nearest supported bound.
    Clamp,
    /// Clamp above the range; below it, blend the lowest supported
    /// chromaticity toward a fixed deep-red point. This is a heuristic,
    /// not derived from a physical model.
    ExtrapolateRed,
}

/// Numerator of the x coordinate over denominator `u^3`, for temperatures
/// of at most 4000 K.
pub open spec fn planck_x_num_low(u: int) -> int {
    179910 * (u * u * u) + 877695600000000 * (u * u) - 234359000000000000000000 * u
        - 266123900000000000000000000000000
}

/// Numerator of the x coordinate over denominator `u^3`, for temperatures
/// above 4000 K.
pub open spec fn planck_x_num_high(u: int) -> int {
    240390 * (u * u * u) + 222634700000000 * (u * u) + 2107038000000000000000000 * u
        - 3025846900000000000000000000000000
}

/// The x chromaticity (micro-units) of the locus at temperature `u`
/// (micro-Kelvin), for `u` within the supported range.
pub open spec fn planck_x_of(u: int) -> int {
    if u <= 4_000_000_000 {
        trunc_div(planck_x_num_low(u), u * u * u)
    } else {
        trunc_div(planck_x_num_high(u), u * u * u)
    }
}

/// Numerator of a cubic in the x chromaticity `xm` (micro-units), with
/// coefficients scaled by 10^8, over the denominator 10^20.
pub open spec fn planck_cubic_num(c3: int, c2: int, c1: int, c0: int, xm: int) -> int {
    c3 * (xm * xm * xm) + c2 * (xm * xm) * 1000000 + c1 * xm * 1000000000000 + c0
        * 1000000000000000000
}

/// The y chromaticity (micro-units) of the locus at temperature `u`, as a
/// cubic in the x chromaticity `xm`. The first matching temperature branch
/// is taken, which settles the overlapping ranges of the approximation.
pub open spec fn planck_y_from(u: int, xm: int) -> int {
    if u <= 2_222_000_000 {
        trunc_div(
            planck_cubic_num(-110638140, -134811020, 218555832, -20219683, xm),
            100000000000000000000,
        )
    } else if u <= 4_000_000_000 {
        trunc_div(
            planck_cubic_num(-95494760, -137418593, 209137015, -16748867, xm),
            100000000000000000000,
        )
    } else {
        trunc_div(
            planck_cubic_num(308175800, -587338670, 375112997, -37001483, xm),
            100000000000000000000,
        )
    }
}

/// The y chromaticity (micro-units) of the locus at temperature `u`.
pub open spec fn planck_y_of(u: int) -> int {
    planck_y_from(u, planck_x_of(u))
}

/// A temperature clamped to the supported range.
pub open spec fn clamped_temp(t: int) -> int {
    if t < TEMP_MIN {
        TEMP_MIN as int
    } else if t > TEMP_MAX {
        TEMP_MAX as int
    } else {
        t
    }
}

/// The x chromaticity of the deep-red extrapolation at temperature `u`,
/// for `TEMP_RED_FLOOR <= u <= TEMP_MIN`: a linear blend between the fixed
/// red point and the locus at `TEMP_MIN`, weighted by `(TEMP_MIN - u)`.
pub open spec fn extrapolated_x(u: int) -> int {
    trunc_div(
        RED_X * (TEMP_MIN - u) + planck_x_of(TEMP_MIN as int) * (u - 1_000_000_000),
        EXTRAPOLATION_SPAN as int,
    )
}

/// The y chromaticity of the deep-red extrapolation at temperature `u`.
pub open spec fn extrapolated_y(u: int) -> int {
    trunc_div(
        RED_Y * (TEMP_MIN - u) + planck_y_of(TEMP_MIN as int) * (u - 1_000_000_000),
        EXTRAPOLATION_SPAN as int,
    )
}


/// The chromaticity that `temperature_to_xy_with_policy` returns for
/// temperature `t` under `policy`, or `None` where the policy rejects `t`.
pub open spec fn temperature_xy_spec(t: int, policy: ClampPolicy) -> Option<(int, int)> {
    match policy {
        ClampPolicy::Reject => if TEMP_MIN <= t <= TEMP_MAX {
            Some((planck_x_of(t), planck_y_of(t)))
        } else {
            None
        },
        ClampPolicy::Clamp => Some(
            (planck_x_of(clamped_temp(t)), planck_y_of(clamped_temp(t))),
        ),
        ClampPolicy::ExtrapolateRed => if t >= TEMP_MIN {
            Some((planck_x_of(clamped_temp(t)), planck_y_of(clamped_temp(t))))
        } else {
            if t < TEMP_RED_FLOOR {
                Some((extrapolated_x(TEMP_RED_FLOOR as int), extrapolated_y(TEMP_RED_FLOOR as int)))
            } else {
                Some((extrapolated_x(t), extrapolated_y(t)))
            }
        },
    }
}

/// Range of the numerator of the x coordinate, low branch, low half.
proof fn lemma_x_num_range_a(u: int) by (nonlinear_arith)
    requires
        1_667_000_000 <= u <= 2_222_000_000,
    ensures
        503_000 * (u * u * u) <= planck_x_num_low(u) <= 565_000 * (u * u * u),
{
}

/// Range of the numerator of the x coordinate, low branch, high half.
proof fn lemma_x_num_range_b(u: int) by (nonlinear_arith)
    requires
        2_222_000_000 < u <= 4_000_000_000,
    ensures
        380_000 * (u * u * u) <= planck_x_num_low(u) <= 504_000 * (u * u * u),
{
}

/// Range of the numerator of the x coordinate, high branch.
proof fn lemma_x_num_range_c(u: int) by (nonlinear_arith)
    requires
        4_000_000_000 < u <= 25_000_000_000,
    ensures
        252_000 * (u * u * u) <= planck_x_num_high(u) <= 381_000 * (u * u * u),
{
}

/// Range of the y cubic numerator on the first branch's x range.
proof fn lemma_y_num_range_a(xm: int) by (nonlinear_arith)
    requires
        503_000 <= xm <= 565_000,
    ensures
        380_000 * 100000000000000000000 <= planck_cubic_num(
            -110638140,
            -134811020,
            218555832,
            -20219683,
            xm,
        ) <= 450_000 * 100000000000000000000,
{
}

/// Range of the y cubic numerator on the second branch's x range.
proof fn lemma_y_num_range_b(xm: int) by (nonlinear_arith)
    requires
        380_000 <= xm <= 504_000,
    ensures
        360_000 * 100000000000000000000 <= planck_cubic_num(
            -95494760,
            -137418593,
            209137015,
            -16748867,
            xm,
        ) <= 430_000 * 100000000000000000000,
{
}

/// Range of the y cubic numerator on the third branch's x range.
proof fn lemma_y_num_range_c(xm: int) by (nonlinear_arith)
    requires
        252_000 <= xm <= 381_000,
    ensures
        240_000 * 100000000000000000000 <= planck_cubic_num(
            308175800,
            -587338670,
            375112997,
            -37001483,
            xm,
        ) <= 390_000 * 100000000000000000000,
{
}

/// A truncated quotient lies between `lo` and `hi` when its numerator lies
/// between `lo*d` and `hi*d`, for a positive denominator and `lo >= 0`.
proof fn lemma_div_bounds(n: int, d: int, lo: int, hi: int)
    requires
        d > 0,
        lo >= 0,
        lo * d <= n <= hi * d,
    ensures
        lo <= trunc_div(n, d) <= hi,
{
    assert(lo * d >= 0 && lo * d == d * lo && hi * d == d * hi) by (nonlinear_arith)
        requires
            lo >= 0,
            d > 0,
    ;
    vstd::arithmetic::div_mod::lemma_div_is_ordered(lo * d, n, d);
    vstd::arithmetic::div_mod::lemma_div_is_ordered(n, hi * d, d);
    vstd::arithmetic::div_mod::lemma_div_multiples_vanish(lo, d);
    vstd::arithmetic::div_mod::lemma_div_multiples_vanish(hi, d);
}

/// Over the whole supported temperature range the locus stays strictly
/// inside the unit square of the chromaticity diagram, with the x
/// coordinate confined to each branch's own narrow band.
pub proof fn lemma_planck_bounds(u: int)
    requires
        TEMP_MIN <= u <= TEMP_MAX,
    ensures
        252_000 <= planck_x_of(u) <= 565_000,
        240_000 <= planck_y_of(u) <= 450_000,
        u <= 2_222_000_000 ==> 503_000 <= planck_x_of(u),
        2_222_000_000 < u <= 4_000_000_000 ==> planck_x_of(u) <= 504_000,
        4_000_000_000 < u ==> planck_x_of(u) <= 381_000,
{
    let u3 = (u * u) * u;
    assert((u * u) * u > 0) by (nonlinear_arith)
        requires
            u >= 1_667_000_000,
    ;
    let xm = planck_x_of(u);
    if u <= 2_222_000_000 {
        lemma_x_num_range_a(u);
        lemma_div_bounds(planck_x_num_low(u), u3, 503_000, 565_000);
        lemma_y_num_range_a(xm);
        lemma_div_bounds(
            planck_cubic_num(-110638140, -134811020, 218555832, -20219683, xm),
            100000000000000000000,
            380_000,
            450_000,
        );
    } else if u <= 4_000_000_000 {
        lemma_x_num_range_b(u);
        lemma_div_bounds(planck_x_num_low(u), u3, 380_000, 504_000);
        lemma_y_num_range_b(xm);
        lemma_div_bounds(
            planck_cubic_num(-95494760, -137418593, 209137015, -16748867, xm),
            100000000000000000000,
            360_000,
            430_000,
        );
    } else {
        lemma_x_num_range_c(u);
        lemma_div_bounds(planck_x_num_high(u), u3, 252_000, 381_000);
        lemma_y_num_range_c(xm);
        lemma_div_bounds(
            planck_cubic_num(308175800, -587338670, 375112997, -37001483, xm),
            100000000000000000000,
            240_000,
            390_000,
        );
    }
}

/// The x chromaticity of the locus at temperature `u`.
fn planck_x(u: i64) -> (r: i64)
    requires
        TEMP_MIN <= u <= TEMP_MAX,
    ensures
        r == planck_x_of(u as int),
        252_000 <= r <= 565_000,
{
    proof {
        lemma_planck_bounds(u as int);
    }
    let uu: i128 = u as i128;
    proof {
        assert(uu * uu <= 625_000_000_000_000_000_000 && (uu * uu) * uu
            <= 15_625_000_000_000_000_000_000_000_000_000 && uu * uu > 0 && (uu * uu) * uu > 0)
            by (nonlinear_arith)
            requires
                1_667_000_000 <= uu <= 25_000_000_000,
        ;
    }
    let u2: i128 = uu * uu;
    let u3: i128 = u2 * uu;
    let n: i128 = if u <= 4_000_000_000 {
        179910 * u3 + 877_695_600_000_000 * u2 - 234_359_000_000_000_000_000_000 * uu
            - 266_123_900_000_000_000_000_000_000_000_000
    } else {
        240390 * u3 + 222_634_700_000_000 * u2 + 2_107_038_000_000_000_000_000_000 * uu
            - 3_025_846_900_000_000_000_000_000_000_000_000
    };
    let q: i128 = div_i128(n, u3);
    q as i64
}

/// The y chromaticity of the locus at temperature `u`, from the already
/// computed x chromaticity `xm`; the first matching temperature branch of
/// the approximation is taken.
fn planck_y(u: i64, xm: i64) -> (r: i64)
    requires
        TEMP_MIN <= u <= TEMP_MAX,
        0 <= xm <= MICRO,
    ensures
        r == planck_y_from(u as int, xm as int),
        -20_000_000 <= r <= 20_000_000,
{
    let xx: i128 = xm as i128;
    proof {
        assert(xx * xx <= 1_000_000_000_000 && (xx * xx) * xx <= 1_000_000_000_000_000_000 && xx
            * xx >= 0 && (xx * xx) * xx >= 0) by (nonlinear_arith)
            requires
                0 <= xx <= 1_000_000,
        ;
    }
    let x2: i128 = xx * xx;
    let x3: i128 = x2 * xx;
    let n: i128 = if u <= 2_222_000_000 {
        -110638140 * x3 - 134811020 * x2 * 1_000_000 + 218555832 * xx * 1_000_000_000_000
            - 20219683 * 1_000_000_000_000_000_000
    } else if u <= 4_000_000_000 {
        -95494760 * x3 - 137418593 * x2 * 1_000_000 + 209137015 * xx * 1_000_000_000_000
            - 16748867 * 1_000_000_000_000_000_000
    } else {
        308175800 * x3 - 587338670 * x2 * 1_000_000 + 375112997 * xx * 1_000_000_000_000
            - 37001483 * 1_000_000_000_000_000_000
    };
    proof {
        crate::fixed::lemma_trunc_div_abs_bound(n as int, 100000000000000000000, 20_000_000);
    }
    let q: i128 = div_i128(n, 100_000_000_000_000_000_000);
    q as i64
}

/// The locus chromaticity at a temperature inside the supported range.
fn planck_point(u: i64) -> (r: XyColor)
    requires
        TEMP_MIN <= u <= TEMP_MAX,
    ensures
        r.x == planck_x_of(u as int),
        r.y == planck_y_of(u as int),
        252_000 <= r.x <= 565_000,
        240_000 <= r.y <= 450_000,
        r.wf(),
{
    proof {
        lemma_planck_bounds(u as int);
    }
    let xm: i64 = planck_x(u);
    let ym: i64 = planck_y(u, xm);
    XyColor { x: xm, y: ym }
}

/// Convert a color temperature (micro-Kelvin) to the chromaticity of the
/// Planckian locus, handling out-of-range temperatures as `policy` says.
/// Every chromaticity returned lies strictly inside the unit square.
pub fn temperature_to_xy_with_policy(t: i64, policy: ClampPolicy) -> (r: Result<
    XyColor,
    ColorBoundsError,
>)
    ensures
        match r {
            Ok(c) => {
                &&& temperature_xy_spec(t as int, policy) == Some((c.x as int, c.y as int))
                &&& 0 < c.x < MICRO
                &&& 0 < c.y < MICRO
                &&& c.wf()
            },
            Err(_) => temperature_xy_spec(t as int, policy) is None,
        },
        r is Err <==> policy is Reject && !(TEMP_MIN <= t <= TEMP_MAX),
{
    match policy {
        ClampPolicy::Reject => {
            if t < TEMP_MIN || t > TEMP_MAX {
                Err(ColorBoundsError)
            } else {
                Ok(planck_point(t))
            }
        },
        ClampPolicy::Clamp => {
            let u: i64 = if t < TEMP_MIN {
                TEMP_MIN
            } else if t > TEMP_MAX {
                TEMP_MAX
            } else {
                t
            };
            Ok(planck_point(u))
        },
        ClampPolicy::ExtrapolateRed => {
            if t >= TEMP_MIN {
                let u: i64 = if t > TEMP_MAX {
                    TEMP_MAX
                } else {
                    t
                };
                Ok(planck_point(u))
            } else {
                let uc: i64 = if t < TEMP_RED_FLOOR {
                    TEMP_RED_FLOOR
                } else {
                    t
                };
                let base: XyColor = planck_point(TEMP_MIN);
                let w_red: i64 = TEMP_MIN - uc;
                let w_base: i64 = uc - 1_000_000_000;
                proof {
                    lemma_extrapolation_bounds(uc as int, base.x as int, RED_X as int);
                    lemma_extrapolation_bounds(uc as int, base.y as int, RED_Y as int);
                    assert(0 <= RED_X as int * w_red as int <= 700_000 * 667_000_000 && 0
                        <= RED_Y as int * w_red as int <= 700_000 * 667_000_000 && 0
                        <= base.x as int * w_base as int <= 700_000 * 667_000_000 && 0
                        <= base.y as int * w_base as int <= 700_000 * 667_000_000)
                        by (nonlinear_arith)
                        requires
                            0 <= w_red <= 667_000_000,
                            0 <= w_base <= 667_000_000,
                            200_000 <= base.x <= 700_000,
                            200_000 <= base.y <= 700_000,
                            RED_X == 628_000,
                            RED_Y == 295_000,
                    ;
                }
                let xm: i128 = div_i128(
                    RED_X as i128 * w_red as i128 + base.x as i128 * w_base as i128,
                    EXTRAPOLATION_SPAN as i128,
                );
                let ym: i128 = div_i128(
                    RED_Y as i128 * w_red as i128 + base.y as i128 * w_base as i128,
                    EXTRAPOLATION_SPAN as i128,
                );
                Ok(XyColor { x: xm as i64, y: ym as i64 })
            }
        },
    }
}

/// A weighted blend of two chromaticity coordinates strictly inside the
/// unit interval stays strictly inside it.
proof fn lemma_extrapolation_bounds(uc: int, base: int, red: int)
    requires
        TEMP_RED_FLOOR <= uc <= TEMP_MIN,
        200_000 <= base <= 700_000,
        200_000 <= red <= 700_000,
    ensures
        200_000 <= trunc_div(
            red * (TEMP_MIN - uc) + base * (uc - 1_000_000_000),
            EXTRAPOLATION_SPAN as int,
        ) <= 700_000,
{
    let wr = TEMP_MIN - uc;
    let wb = uc - 1_000_000_000;
    assert(200_000 * (EXTRAPOLATION_SPAN as int) <= red * wr + base * wb <= 700_000 * (
    EXTRAPOLATION_SPAN as int)) by (nonlinear_arith)
        requires
            0 <= wr,
            5_000_000 <= wb,
            wr + wb == EXTRAPOLATION_SPAN as int,
            200_000 <= base <= 700_000,
            200_000 <= red <= 700_000,
    ;
    lemma_div_bounds(
        red * wr + base * wb,
        EXTRAPOLATION_SPAN as int,
        200_000,
        700_000,
    );
}

/// Convert a color temperature (micro-Kelvin) to a chromaticity on the
/// Planckian locus, rejecting temperatures outside the supported range.
pub fn temperature_to_xy(t: i64) -> (r: Result<XyColor, ColorBoundsError>)
    ensures
        r.is_ok() <==> TEMP_MIN <= t <= TEMP_MAX,
        match r {
            Ok(c) => {
                &&& c.x == planck_x_of(t as int)
                &&& c.y == planck_y_of(t as int)
                &&& 0 < c.x < MICRO
                &&& 0 < c.y < MICRO
                &&& c.wf()
            },
            Err(_) => true,
        },
{
    temperature_to_xy_with_policy(t, ClampPolicy::Reject)
}

/// The difference of the second and third y cubics over the x band where
/// the model switches between them.
proof fn lemma_y_num_diff_at_4000(xm: int) by (nonlinear_arith)
    requires
        379_000 <= xm <= 381_000,
    ensures
        -12 * 100000000000000000000 <= planck_cubic_num(
            -95494760,
            -137418593,
            209137015,
            -16748867,
            xm,
        ) - planck_cubic_num(308175800, -587338670, 375112997, -37001483, xm) <= 12
            * 100000000000000000000,
{
}

/// The difference of the first and second y cubics over the x band where
/// the model switches between them.
proof fn lemma_y_num_diff_at_2222(xm: int) by (nonlinear_arith)
    requires
        503_000 <= xm <= 503_300,
    ensures
        -7 * 100000000000000000000 <= planck_cubic_num(
            -110638140,
            -134811020,
            218555832,
            -20219683,
            xm,
        ) - planck_cubic_num(-95494760, -137418593, 209137015, -16748867, xm) <= 7
            * 100000000000000000000,
{
}

/// Euclidean quotients of nearby numerators over a shared positive
/// denominator are nearby.
proof fn lemma_close_quotients(a: int, b: int, d: int, k: int)
    requires
        d > 0,
        0 <= a,
        0 <= b,
        -k * d <= a - b <= k * d,
    ensures
        -(k + 1) <= a / d - b / d <= k + 1,
{
    vstd::arithmetic::div_mod::lemma_fundamental_div_mod(a, d);
    vstd::arithmetic::div_mod::lemma_fundamental_div_mod(b, d);
    vstd::arithmetic::div_mod::lemma_mod_division_less_than_divisor(a, d);
    vstd::arithmetic::div_mod::lemma_mod_division_less_than_divisor(b, d);
    vstd::arithmetic::div_mod::lemma_div_pos_is_pos(a, d);
    vstd::arithmetic::div_mod::lemma_div_pos_is_pos(b, d);
    assert(-(k + 1) <= a / d - b / d <= k + 1) by (nonlinear_arith)
        requires
            d > 0,
            a == d * (a / d) + a % d,
            b == d * (b / d) + b % d,
            0 <= a % d < d,
            0 <= b % d < d,
            -k * d <= a - b <= k * d,
    ;
}

/// The overlapping temperature branches of the y approximation are
/// designed to meet at the branch boundaries: where the model switches
/// cubics (2222 K and 4000 K), the y chromaticities that the two adjacent
/// cubics give for one and the same x differ by at most a few millionths,
/// so the locus has no jump there beyond rounding.
pub proof fn lemma_y_branches_agree_at_boundaries(u_low: int, u_high: int, xm: int)
    requires
        TEMP_MIN <= u_low <= TEMP_MAX,
        TEMP_MIN <= u_high <= TEMP_MAX,
    ensures
        u_low <= 2_222_000_000 < u_high <= 4_000_000_000 && 503_000 <= xm <= 503_300
            ==> abs_val(planck_y_from(u_low, xm) - planck_y_from(u_high, xm)) <= 8,
        u_low <= 4_000_000_000 < u_high && 2_222_000_000 < u_low && 379_000 <= xm <= 381_000
            ==> abs_val(planck_y_from(u_low, xm) - planck_y_from(u_high, xm)) <= 13,
{
    let s = 100000000000000000000;
    if u_low <= 2_222_000_000 < u_high <= 4_000_000_000 && 503_000 <= xm <= 503_300 {
        let na = planck_cubic_num(-110638140, -134811020, 218555832, -20219683, xm);
        let nb = planck_cubic_num(-95494760, -137418593, 209137015, -16748867, xm);
        lemma_y_num_range_a(xm);
        lemma_y_num_range_b(xm);
        lemma_y_num_diff_at_2222(xm);
        lemma_close_quotients(na, nb, s, 7);
        assert(planck_y_from(u_low, xm) == trunc_div(na, s) && trunc_div(na, s) == na / s);
        assert(planck_y_from(u_high, xm) == trunc_div(nb, s) && trunc_div(nb, s) == nb / s);
    }
    if u_low <= 4_000_000_000 < u_high && 2_222_000_000 < u_low && 379_000 <= xm <= 381_000 {
        let nb = planck_cubic_num(-95494760, -137418593, 209137015, -16748867, xm);
        let nc = planck_cubic_num(308175800, -587338670, 375112997, -37001483, xm);
        lemma_y_num_diff_at_4000(xm);
        lemma_y_num_diff_bounds_positive(xm);
        lemma_close_quotients(nb, nc, s, 12);
        assert(planck_y_from(u_low, xm) == trunc_div(nb, s) && trunc_div(nb, s) == nb / s);
        assert(planck_y_from(u_high, xm) == trunc_div(nc, s) && trunc_div(nc, s) == nc / s);
    }
}

/// Both cubics around the 4000 K boundary are positive on its x band.
proof fn lemma_y_num_diff_bounds_positive(xm: int) by (nonlinear_arith)
    requires
        379_000 <= xm <= 381_000,
    ensures
        0 <= planck_cubic_num(-95494760, -137418593, 209137015, -16748867, xm),
        0 <= planck_cubic_num(308175800, -587338670, 375112997, -37001483, xm),
{
}

} // verus!
