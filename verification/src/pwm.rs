//! The mixing engine for a concrete set of LED channels: a target color
//! temperature and brightness become per-channel drive duties over the
//! triangulated gamut.
//!
//! The controller holds the channel list, the gamut triangles, a gamma
//! constant and the duty resolution, plus the duties most recently
//! computed; writing those duties to the hardware is the caller's part.
use vstd::prelude::*;

use crate::color::{COORD_LIMIT, ColorBoundsError, LUMA_LIMIT, TRISTIMULUS_LIMIT, XyColor, Xyz};
use crate::fixed::{MICRO, abs_val, div_i128, trunc_div};
use crate::led::{
    DegenerateGeometryError,
    Led,
    LedGroup,
    LedTriangle,
    bary_denom,
    bary_num_a,
    bary_num_b,
    triangle_contains,
};
use crate::planck::{ClampPolicy, temperature_to_xy_with_policy, temperature_xy_spec};

verus! {

/// Largest duty-cycle resolution the controller accepts (20-bit timers).
pub const MAX_DUTY_LIMIT: u64 = 1_048_576;

/// Largest brightness input (micro-units) the mixing accepts.
pub const BRIGHT_LIMIT: i64 = 100_000_000;

/// The gamma exponent applied to brightness inputs, in micro-units.
pub const GAMMA: i64 = 2_000_000;

/// What to do when the requested chromaticity lies outside every gamut
/// triangle.
#[derive(Clone, Copy, Debug, PartialEq, Eq, Structural)]
pub enum OutOfGamutPolicy {
    /// Drive every channel to zero and report success; the lamp goes
    /// dark silently.
    AllOff,
    /// Drive every channel to zero and report the condition to the
    /// caller, who may clamp or reject the request.
    Error,
}

/// Why a mixing request was not carried out.
#[derive(Clone, Copy, Debug, PartialEq, Eq, Structural)]
pub enum MixingError {
    /// The requested color temperature was rejected by the clamp policy.
    OutOfBounds,
    /// The requested chromaticity lies outside the displayable gamut.
    OutOfGamut,
}

/// Mixing controller for a specific set of LEDs: the channels, the gamut
/// triangles over them, the tunables, and the duties most recently
/// computed (zero for every channel at the start).
pub struct Pwm {
    pub leds: Vec<Led>,
    pub triangles: Vec<LedTriangle>,
    pub gamma: i64,
    pub max_duty: u64,
    pub clamp_policy: ClampPolicy,
    pub gamut_policy: OutOfGamutPolicy,
    pub duties: Vec<u64>,
}

/// Brightness with gamma correction applied: `b^2` for the supported
/// gamma exponent of 2.0.
pub open spec fn gamma_corrected(b: int) -> int {
    trunc_div(b * b, MICRO as int)
}

/// First barycentric weight of `(px, py)` in micro-units, truncated.
pub open spec fn weight_a_of(t: LedTriangle, px: int, py: int) -> int {
    trunc_div(bary_num_a(t, px, py) * MICRO, bary_denom(t))
}

/// Second barycentric weight of `(px, py)` in micro-units, truncated.
pub open spec fn weight_b_of(t: LedTriangle, px: int, py: int) -> int {
    trunc_div(bary_num_b(t, px, py) * MICRO, bary_denom(t))
}

/// Third barycentric weight: the remainder to one whole unit.
pub open spec fn weight_c_of(t: LedTriangle, px: int, py: int) -> int {
    MICRO - weight_a_of(t, px, py) - weight_b_of(t, px, py)
}

/// The duty driven on a channel: its weight times the target luminance,
/// scaled by the duty resolution and inversely by the channel's maximum
/// brightness, truncated. A channel with a lower maximum output is driven
/// proportionally higher to contribute the same perceived share.
pub open spec fn duty_of(w: int, luma: int, max_duty: u64, max_brightness: i64) -> int {
    trunc_div(w * luma * max_duty, max_brightness * MICRO)
}

/// Every duty is zero.
pub open spec fn all_zero(s: Seq<u64>) -> bool {
    forall|i: int| 0 <= i < s.len() ==> s[i] == 0
}

impl Pwm {
    /// Channels and triangles well-formed and consistent, the duty list as
    /// long as the channel list, and the tunables in range.
    pub open spec fn wf(self) -> bool {
        &&& forall|i: int| 0 <= i < self.leds@.len() ==> #[trigger] self.leds@[i].wf()
        &&& forall|i: int|
            0 <= i < self.triangles@.len() ==> #[trigger] self.triangles@[i].wf()
                && self.triangles@[i].consistent_with(self.leds@)
        &&& self.duties@.len() == self.leds@.len()
        &&& self.gamma == GAMMA
        &&& 0 < self.max_duty <= MAX_DUTY_LIMIT
    }

    /// Everything but the duty list is the same.
    pub open spec fn same_setup(self, other: Pwm) -> bool {
        &&& self.leds@ == other.leds@
        &&& self.triangles@ == other.triangles@
        &&& self.gamma == other.gamma
        &&& self.max_duty == other.max_duty
        &&& self.clamp_policy == other.clamp_policy
        &&& self.gamut_policy == other.gamut_policy
    }

    /// Triangle `m` is the first one, in construction order, containing
    /// the point `(px, py)`.
    pub open spec fn is_first_match(self, px: int, py: int, m: int) -> bool {
        &&& 0 <= m < self.triangles@.len()
        &&& triangle_contains(self.triangles@[m], px, py)
        &&& forall|j: int| 0 <= j < m ==> !triangle_contains(#[trigger] self.triangles@[j], px, py)
    }

    /// The duty list after mixing luminance `luma` at chromaticity
    /// `(px, py)` over triangle `m`: the matched triangle's three channels
    /// get their weighted duties, every other channel is zero.
    pub open spec fn mixed_duties(self, m: int, luma: int, px: int, py: int) -> Seq<u64> {
        let t = self.triangles@[m];
        Seq::new(
            self.leds@.len(),
            |i: int|
                if i == t.a {
                    duty_of(
                        weight_a_of(t, px, py),
                        luma,
                        self.max_duty,
                        self.leds@[t.a as int].max_brightness,
                    ) as u64
                } else if i == t.b {
                    duty_of(
                        weight_b_of(t, px, py),
                        luma,
                        self.max_duty,
                        self.leds@[t.b as int].max_brightness,
                    ) as u64
                } else if i == t.c {
                    duty_of(
                        weight_c_of(t, px, py),
                        luma,
                        self.max_duty,
                        self.leds@[t.c as int].max_brightness,
                    ) as u64
                } else {
                    0u64
                },
        )
    }

    /// What `set_color` leaves behind: the setup untouched; for a black
    /// target every channel off; otherwise, duties mixed over the first
    /// triangle containing the target chromaticity, or, when none does,
    /// every channel off with the out-of-gamut policy deciding the result.
    pub open spec fn mix_outcome(prev: Pwm, next: Pwm, color: Xyz, r: Result<
        (),
        MixingError,
    >) -> bool {
        let px = XyColor::chroma_x_spec(color);
        let py = XyColor::chroma_y_spec(color);
        &&& prev.same_setup(next)
        &&& next.duties@.len() == prev.leds@.len()
        &&& if color.x + color.y + color.z == 0 {
            all_zero(next.duties@) && r is Ok
        } else if exists|m: int| prev.is_first_match(px, py, m) {
            r is Ok && exists|m: int|
                #[trigger] prev.is_first_match(px, py, m) && next.duties@ == prev.mixed_duties(
                    m,
                    color.y as int,
                    px,
                    py,
                )
        } else {
            all_zero(next.duties@) && (r is Ok <==> prev.gamut_policy is AllOff) && (r is Err
                ==> r == Result::<(), MixingError>::Err(MixingError::OutOfGamut))
        }
    }
}

/// A triangle of nonzero area consistent with a channel list refers to
/// three distinct channels: equal indices would mean equal vertices and a
/// zero denominator.
pub proof fn lemma_triangle_indices_distinct(t: LedTriangle, leds: Seq<Led>)
    requires
        bary_denom(t) != 0,
        t.consistent_with(leds),
    ensures
        t.a != t.b,
        t.a != t.c,
        t.b != t.c,
{
    if t.a == t.b {
        assert(bary_denom(t) == 0) by (nonlinear_arith)
            requires
                t.xy_a == t.xy_b,
        ;
    }
    if t.a == t.c {
        assert(bary_denom(t) == 0) by (nonlinear_arith)
            requires
                t.xy_a == t.xy_c,
        ;
    }
    if t.b == t.c {
        assert(bary_denom(t) == 0) by (nonlinear_arith)
            requires
                t.xy_b == t.xy_c,
        ;
    }
}

/// Inside a triangle the truncated barycentric weights lie between zero
/// and one whole unit, and the first two weights sum to at most one whole
/// unit, so the third is in range as well.
pub proof fn lemma_contained_weights(t: LedTriangle, px: int, py: int)
    requires
        bary_denom(t) != 0,
        triangle_contains(t, px, py),
    ensures
        0 <= weight_a_of(t, px, py) <= MICRO,
        0 <= weight_b_of(t, px, py) <= MICRO,
        weight_a_of(t, px, py) + weight_b_of(t, px, py) <= MICRO,
        0 <= weight_c_of(t, px, py) <= MICRO,
{
    let d = bary_denom(t);
    let na = bary_num_a(t, px, py);
    let nb = bary_num_b(t, px, py);
    let dd = abs_val(d);
    let ma = if d > 0 { na } else { -na };
    let mb = if d > 0 { nb } else { -nb };
    assert(dd > 0 && 0 <= ma && 0 <= mb && ma + mb <= dd);
    lemma_weight_normalized(na, d);
    lemma_weight_normalized(nb, d);
    lemma_weight_sum(ma, mb, dd);
}

/// A truncated weight equals the Euclidean quotient of its sign-normalized
/// numerator times one whole unit over the magnitude of the denominator.
proof fn lemma_weight_normalized(n: int, d: int)
    requires
        d != 0,
        d > 0 ==> n >= 0,
        d < 0 ==> n <= 0,
    ensures
        trunc_div(n * MICRO, d) == ((if d > 0 { n } else { -n }) * MICRO) / abs_val(d),
{
    if d > 0 {
        assert(n * MICRO >= 0) by (nonlinear_arith)
            requires
                n >= 0,
        ;
    } else {
        assert(n * MICRO <= 0 && -(n * MICRO) == (-n) * MICRO) by (nonlinear_arith)
            requires
                n <= 0,
        ;
    }
}

/// Euclidean quotients of two numerators over a shared denominator sum to
/// at most one whole unit when the numerators sum to at most the
/// denominator.
proof fn lemma_weight_sum(ma: int, mb: int, dd: int)
    requires
        dd > 0,
        0 <= ma,
        0 <= mb,
        ma + mb <= dd,
    ensures
        0 <= (ma * MICRO) / dd <= MICRO,
        0 <= (mb * MICRO) / dd <= MICRO,
        (ma * MICRO) / dd + (mb * MICRO) / dd <= MICRO,
{
    let wa = (ma * MICRO) / dd;
    let wb = (mb * MICRO) / dd;
    assert(0 <= ma * MICRO && 0 <= mb * MICRO && ma * MICRO <= dd * MICRO && mb * MICRO <= dd
        * MICRO) by (nonlinear_arith)
        requires
            0 <= ma,
            0 <= mb,
            ma <= dd,
            mb <= dd,
    ;
    vstd::arithmetic::div_mod::lemma_div_pos_is_pos(ma * MICRO, dd);
    vstd::arithmetic::div_mod::lemma_div_pos_is_pos(mb * MICRO, dd);
    vstd::arithmetic::div_mod::lemma_fundamental_div_mod(ma * MICRO, dd);
    vstd::arithmetic::div_mod::lemma_fundamental_div_mod(mb * MICRO, dd);
    vstd::arithmetic::div_mod::lemma_mod_division_less_than_divisor(ma * MICRO, dd);
    vstd::arithmetic::div_mod::lemma_mod_division_less_than_divisor(mb * MICRO, dd);
    assert((ma + mb) * MICRO <= dd * MICRO) by (nonlinear_arith)
        requires
            ma + mb <= dd,
    ;
    assert(dd * (wa + wb) <= (ma + mb) * MICRO) by (nonlinear_arith)
        requires
            ma * MICRO == dd * wa + (ma * MICRO) % dd,
            mb * MICRO == dd * wb + (mb * MICRO) % dd,
            0 <= (ma * MICRO) % dd,
            0 <= (mb * MICRO) % dd,
    ;
    assert(wa + wb <= MICRO) by (nonlinear_arith)
        requires
            dd * (wa + wb) <= dd * MICRO,
            dd > 0,
    ;
    assert(wa <= MICRO) by (nonlinear_arith)
        requires
            dd > 0,
            ma * MICRO <= dd * MICRO,
            ma * MICRO == dd * wa + (ma * MICRO) % dd,
            0 <= (ma * MICRO) % dd,
    ;
    assert(wb <= MICRO) by (nonlinear_arith)
        requires
            dd > 0,
            mb * MICRO <= dd * MICRO,
            mb * MICRO == dd * wb + (mb * MICRO) % dd,
            0 <= (mb * MICRO) % dd,
    ;
}

/// Well-formedness carries over to any controller with the same setup and
/// a duty list as long as its channel list.
pub proof fn lemma_same_setup_wf(a: Pwm, b: Pwm)
    requires
        a.wf(),
        a.same_setup(b),
        b.duties@.len() == b.leds@.len(),
    ensures
        b.wf(),
{
    assert forall|i: int| 0 <= i < b.leds@.len() implies #[trigger] b.leds@[i].wf() by {
        assert(b.leds@[i] == a.leds@[i]);
    }
    assert forall|i: int|
        0 <= i < b.triangles@.len() implies #[trigger] b.triangles@[i].wf()
            && b.triangles@[i].consistent_with(b.leds@) by {
        assert(b.triangles@[i] == a.triangles@[i]);
    }
}

impl Pwm {
    /// Drive every channel's stored duty to zero.
    fn zero_duties(&mut self)
        ensures
            final(self).same_setup(*old(self)),
            final(self).duties@.len() == old(self).duties@.len(),
            all_zero(final(self).duties@),
    {
        let n: usize = self.duties.len();
        let mut k: usize = 0;
        while k < n
            invariant
                k <= n,
                self.duties@.len() == n,
                self.same_setup(*old(self)),
                forall|j: int| 0 <= j < k ==> self.duties@[j] == 0,
            decreases n - k,
        {
            self.duties[k] = 0;
            k = k + 1;
        }
    }

    /// Create a mixing controller for the lamp's six LED channels, with
    /// the calibrated chromaticities and maximum-brightness values and the
    /// hand-picked partition of the gamut into six triangles. With these
    /// channels, temperatures from roughly 2150 K to 6800 K can be mixed.
    pub fn new() -> (r: Result<Pwm, DegenerateGeometryError>)
        ensures
            match r {
                Ok(p) => {
                    &&& p.wf()
                    &&& p.leds@.len() == 6
                    &&& p.triangles@.len() == 6
                    &&& p.duties@.len() == 6
                    &&& all_zero(p.duties@)
                    &&& p.leds@[0].xy_color == (XyColor { x: 640_000, y: 350_000 })
                    &&& p.leds@[0].max_brightness == 165_000_000
                    &&& p.leds@[1].xy_color == (XyColor { x: 407_000, y: 537_000 })
                    &&& p.leds@[1].max_brightness == 460_000_000
                    &&& p.leds@[2].xy_color == (XyColor { x: 147_000, y: 110_000 })
                    &&& p.leds@[2].max_brightness == 130_000_000
                    &&& p.leds@[3].xy_color == (XyColor { x: 344_700, y: 355_300 })
                    &&& p.leds@[3].max_brightness == 310_000_000
                    &&& p.leds@[4].xy_color == (XyColor { x: 506_600, y: 415_800 })
                    &&& p.leds@[4].max_brightness == 170_000_000
                    &&& p.leds@[5].xy_color == (XyColor { x: 565_000, y: 425_000 })
                    &&& p.leds@[5].max_brightness == 230_000_000
                    &&& p.triangles@[0].a == 0 && p.triangles@[0].b == 5 && p.triangles@[0].c == 4
                    &&& p.triangles@[1].a == 1 && p.triangles@[1].b == 5 && p.triangles@[1].c == 4
                    &&& p.triangles@[2].a == 0 && p.triangles@[2].b == 3 && p.triangles@[2].c == 4
                    &&& p.triangles@[3].a == 1 && p.triangles@[3].b == 3 && p.triangles@[3].c == 4
                    &&& p.triangles@[4].a == 0 && p.triangles@[4].b == 3 && p.triangles@[4].c == 2
                    &&& p.triangles@[5].a == 1 && p.triangles@[5].b == 3 && p.triangles@[5].c == 2
                    &&& p.gamma == GAMMA
                    &&& p.max_duty == 65536
                    &&& p.clamp_policy is ExtrapolateRed
                    &&& p.gamut_policy is AllOff
                },
                Err(_) => false,
            },
    {
        let mut leds: Vec<Led> = Vec::new();
        leds.push(Led::new("R", 640_000, 350_000, 165_000_000));
        leds.push(Led::new("G", 407_000, 537_000, 460_000_000));
        leds.push(Led::new("B", 147_000, 110_000, 130_000_000));
        leds.push(Led::new("CW", 344_700, 355_300, 310_000_000));
        leds.push(Led::new("WW", 506_600, 415_800, 170_000_000));
        leds.push(Led::new("PA", 565_000, 425_000, 230_000_000));
        proof {
            assert(leds@[0].xy_color == (XyColor { x: 640000, y: 350000 }));
            assert(leds@[1].xy_color == (XyColor { x: 407000, y: 537000 }));
            assert(leds@[2].xy_color == (XyColor { x: 147000, y: 110000 }));
            assert(leds@[3].xy_color == (XyColor { x: 344700, y: 355300 }));
            assert(leds@[4].xy_color == (XyColor { x: 506600, y: 415800 }));
            assert(leds@[5].xy_color == (XyColor { x: 565000, y: 425000 }));
            assert(bary_denom(
                LedTriangle {
                    a: 0,
                    b: 5,
                    c: 4,
                    xy_a: leds@[0].xy_color,
                    xy_b: leds@[5].xy_color,
                    xy_c: leds@[4].xy_color,
                },
            ) == 5070000000) by (nonlinear_arith)
                requires
                    leds@[0].xy_color == (XyColor { x: 640000, y: 350000 }),
                    leds@[5].xy_color == (XyColor { x: 565000, y: 425000 }),
                    leds@[4].xy_color == (XyColor { x: 506600, y: 415800 }),
            ;
            assert(bary_denom(
                LedTriangle {
                    a: 1,
                    b: 5,
                    c: 4,
                    xy_a: leds@[1].xy_color,
                    xy_b: leds@[5].xy_color,
                    xy_c: leds@[4].xy_color,
                },
            ) == -7994400000) by (nonlinear_arith)
                requires
                    leds@[1].xy_color == (XyColor { x: 407000, y: 537000 }),
                    leds@[5].xy_color == (XyColor { x: 565000, y: 425000 }),
                    leds@[4].xy_color == (XyColor { x: 506600, y: 415800 }),
            ;
            assert(bary_denom(
                LedTriangle {
                    a: 0,
                    b: 3,
                    c: 4,
                    xy_a: leds@[0].xy_color,
                    xy_b: leds@[3].xy_color,
                    xy_c: leds@[4].xy_color,
                },
            ) == -18723720000) by (nonlinear_arith)
                requires
                    leds@[0].xy_color == (XyColor { x: 640000, y: 350000 }),
                    leds@[3].xy_color == (XyColor { x: 344700, y: 355300 }),
                    leds@[4].xy_color == (XyColor { x: 506600, y: 415800 }),
            ;
            assert(bary_denom(
                LedTriangle {
                    a: 1,
                    b: 3,
                    c: 4,
                    xy_a: leds@[1].xy_color,
                    xy_b: leds@[3].xy_color,
                    xy_c: leds@[4].xy_color,
                },
            ) == 25648080000) by (nonlinear_arith)
                requires
                    leds@[1].xy_color == (XyColor { x: 407000, y: 537000 }),
                    leds@[3].xy_color == (XyColor { x: 344700, y: 355300 }),
                    leds@[4].xy_color == (XyColor { x: 506600, y: 415800 }),
            ;
            assert(bary_denom(
                LedTriangle {
                    a: 0,
                    b: 3,
                    c: 2,
                    xy_a: leds@[0].xy_color,
                    xy_b: leds@[3].xy_color,
                    xy_c: leds@[2].xy_color,
                },
            ) == 73484900000) by (nonlinear_arith)
                requires
                    leds@[0].xy_color == (XyColor { x: 640000, y: 350000 }),
                    leds@[3].xy_color == (XyColor { x: 344700, y: 355300 }),
                    leds@[2].xy_color == (XyColor { x: 147000, y: 110000 }),
            ;
            assert(bary_denom(
                LedTriangle {
                    a: 1,
                    b: 3,
                    c: 2,
                    xy_a: leds@[1].xy_color,
                    xy_b: leds@[3].xy_color,
                    xy_c: leds@[2].xy_color,
                },
            ) == -20639900000) by (nonlinear_arith)
                requires
                    leds@[1].xy_color == (XyColor { x: 407000, y: 537000 }),
                    leds@[3].xy_color == (XyColor { x: 344700, y: 355300 }),
                    leds@[2].xy_color == (XyColor { x: 147000, y: 110000 }),
            ;
        }
        let mut triangles: Vec<LedTriangle> = Vec::new();
        let t0: LedTriangle = match LedTriangle::new(0, 5, 4, &leds) {
            Ok(t) => t,
            Err(e) => {
                return Err(e);
            },
        };
        let t1: LedTriangle = match LedTriangle::new(1, 5, 4, &leds) {
            Ok(t) => t,
            Err(e) => {
                return Err(e);
            },
        };
        let t2: LedTriangle = match LedTriangle::new(0, 3, 4, &leds) {
            Ok(t) => t,
            Err(e) => {
                return Err(e);
            },
        };
        let t3: LedTriangle = match LedTriangle::new(1, 3, 4, &leds) {
            Ok(t) => t,
            Err(e) => {
                return Err(e);
            },
        };
        let t4: LedTriangle = match LedTriangle::new(0, 3, 2, &leds) {
            Ok(t) => t,
            Err(e) => {
                return Err(e);
            },
        };
        let t5: LedTriangle = match LedTriangle::new(1, 3, 2, &leds) {
            Ok(t) => t,
            Err(e) => {
                return Err(e);
            },
        };
        triangles.push(t0);
        triangles.push(t1);
        triangles.push(t2);
        triangles.push(t3);
        triangles.push(t4);
        triangles.push(t5);
        let duties: Vec<u64> = vec![0u64; 6];
        Ok(
            Pwm {
                leds,
                triangles,
                gamma: GAMMA,
                max_duty: 65536,
                clamp_policy: ClampPolicy::ExtrapolateRed,
                gamut_policy: OutOfGamutPolicy::AllOff,
                duties,
            },
        )
    }

    /// Create a mixing controller from an already triangulated group of
    /// channels, with the given duty resolution and policies. All duties
    /// start at zero.
    pub fn from_group(
        group: LedGroup,
        max_duty: u64,
        clamp_policy: ClampPolicy,
        gamut_policy: OutOfGamutPolicy,
    ) -> (r: Pwm)
        requires
            group.wf(),
            0 < max_duty <= MAX_DUTY_LIMIT,
        ensures
            r.wf(),
            r.leds@ == group.leds@,
            r.triangles@ == group.triangles@,
            r.gamma == GAMMA,
            r.max_duty == max_duty,
            r.clamp_policy == clamp_policy,
            r.gamut_policy == gamut_policy,
            r.duties@.len() == group.leds@.len(),
            all_zero(r.duties@),
    {
        let n: usize = group.leds.len();
        let duties: Vec<u64> = vec![0u64; n];
        Pwm { leds: group.leds, triangles: group.triangles, gamma: GAMMA, max_duty, clamp_policy, gamut_policy, duties }
    }

    /// The duty currently stored for each channel, in channel order.
    pub fn report(&self) -> (r: Vec<u64>)
        ensures
            r@ == self.duties@,
    {
        let n: usize = self.duties.len();
        let mut out: Vec<u64> = Vec::new();
        let mut k: usize = 0;
        while k < n
            invariant
                k <= n,
                n == self.duties@.len(),
                out@.len() == k,
                forall|j: int| 0 <= j < k ==> out@[j] == self.duties@[j],
            decreases n - k,
        {
            out.push(self.duties[k]);
            k = k + 1;
        }
        proof {
            assert(out@ =~= self.duties@);
        }
        out
    }

    /// Drive every channel directly with a fraction of the full duty,
    /// one fraction per channel in micro-units of one.
    pub fn set_duties(&mut self, fractions: &Vec<i64>) -> (r: Result<(), MixingError>)
        requires
            old(self).wf(),
            fractions@.len() == old(self).leds@.len(),
            forall|i: int| 0 <= i < fractions@.len() ==> 0 <= #[trigger] fractions@[i] <= MICRO,
        ensures
            final(self).wf(),
            final(self).same_setup(*old(self)),
            r is Ok,
            final(self).duties@.len() == old(self).leds@.len(),
            forall|i: int|
                0 <= i < final(self).duties@.len() ==> final(self).duties@[i] == trunc_div(
                    old(self).max_duty * fractions@[i],
                    MICRO as int,
                ),
    {
        let n: usize = self.duties.len();
        let mut k: usize = 0;
        while k < n
            invariant
                k <= n,
                old(self).wf(),
                n == self.duties@.len(),
                n == fractions@.len(),
                self.same_setup(*old(self)),
                self.duties@.len() == old(self).duties@.len(),
                forall|i: int| 0 <= i < fractions@.len() ==> 0 <= #[trigger] fractions@[i] <= MICRO,
                forall|j: int|
                    0 <= j < k ==> self.duties@[j] == trunc_div(
                        old(self).max_duty * fractions@[j],
                        MICRO as int,
                    ),
            decreases n - k,
        {
            proof {
                assert(0 <= self.max_duty as int * fractions@[k as int] <= 1_048_576_000_000)
                    by (nonlinear_arith)
                    requires
                        0 < self.max_duty <= 1_048_576,
                        0 <= fractions@[k as int] <= 1_000_000,
                ;
                crate::fixed::lemma_trunc_div_abs_bound(
                    self.max_duty as int * fractions@[k as int],
                    MICRO as int,
                    1_048_576,
                );
                crate::fixed::lemma_trunc_div_nonneg(
                    self.max_duty as int * fractions@[k as int],
                    MICRO as int,
                );
            }
            let d: i128 = div_i128(self.max_duty as i128 * fractions[k] as i128, MICRO as i128);
            self.duties[k] = d as u64;
            k = k + 1;
        }
        proof {
            lemma_same_setup_wf(*old(self), *self);
        }
        Ok(())
    }

    /// Turn every channel off and drive only the amber channel (the sixth
    /// channel of the lamp) with the given fraction of the full duty.
    pub fn set_amber(&mut self, brightness_up_to_one: i64) -> (r: Result<(), MixingError>)
        requires
            old(self).wf(),
            0 <= brightness_up_to_one <= MICRO,
            old(self).leds@.len() >= 6,
        ensures
            final(self).wf(),
            final(self).same_setup(*old(self)),
            r is Ok,
            final(self).duties@.len() == old(self).duties@.len(),
            forall|i: int|
                0 <= i < final(self).duties@.len() && i != 5 ==> final(self).duties@[i] == 0,
            final(self).duties@[5] == trunc_div(
                old(self).max_duty * brightness_up_to_one,
                MICRO as int,
            ),
    {
        self.zero_duties();
        proof {
            assert(0 <= self.max_duty as int * brightness_up_to_one <= 1_048_576_000_000)
                by (nonlinear_arith)
                requires
                    0 < self.max_duty <= 1_048_576,
                    0 <= brightness_up_to_one <= 1_000_000,
            ;
            crate::fixed::lemma_trunc_div_abs_bound(
                self.max_duty as int * brightness_up_to_one,
                MICRO as int,
                1_048_576,
            );
            crate::fixed::lemma_trunc_div_nonneg(
                self.max_duty as int * brightness_up_to_one,
                MICRO as int,
            );
        }
        let d: i128 = div_i128(
            self.max_duty as i128 * brightness_up_to_one as i128,
            MICRO as i128,
        );
        self.duties[5] = d as u64;
        proof {
            lemma_same_setup_wf(*old(self), *self);
        }
        Ok(())
    }
}

/// The target tristimulus value that `set_temperature_and_brightness`
/// mixes for temperature `t` under `policy` and brightness `b`, or `None`
/// where the policy rejects the temperature.
pub open spec fn target_of(t: int, policy: ClampPolicy, b: int) -> Option<Xyz> {
    match temperature_xy_spec(t, policy) {
        Option::None => Option::None,
        Option::Some(p) => Option::Some(
            XyColor::with_brightness_spec(
                XyColor { x: p.0 as i64, y: p.1 as i64 },
                gamma_corrected(b) as i64,
            ),
        ),
    }
}

/// All products in the containment test stay inside the machine bounds
/// for a target chromaticity derived from a bounded tristimulus value.
proof fn lemma_mix_products_bounded(t: LedTriangle, px: int, py: int)
    requires
        t.xy_a.wf(),
        t.xy_b.wf(),
        t.xy_c.wf(),
        abs_val(px) <= 400_000_000_000_000_000_000_000,
        abs_val(py) <= 400_000_000_000_000_000_000_000,
    ensures
        abs_val((t.xy_b.y - t.xy_c.y) * (px - t.xy_c.x)) <= 9_000_000_000_000_000_000_000_000_000_000,
        abs_val((t.xy_c.x - t.xy_b.x) * (py - t.xy_c.y)) <= 9_000_000_000_000_000_000_000_000_000_000,
        abs_val((t.xy_c.y - t.xy_a.y) * (px - t.xy_c.x)) <= 9_000_000_000_000_000_000_000_000_000_000,
        abs_val((t.xy_a.x - t.xy_c.x) * (py - t.xy_c.y)) <= 9_000_000_000_000_000_000_000_000_000_000,
        abs_val((t.xy_b.y - t.xy_c.y) * (t.xy_a.x - t.xy_c.x)) <= 800_000_000_000_000,
        abs_val((t.xy_c.x - t.xy_b.x) * (t.xy_a.y - t.xy_c.y)) <= 800_000_000_000_000,
        abs_val(bary_num_a(t, px, py)) <= 18_000_000_000_000_000_000_000_000_000_000,
        abs_val(bary_num_b(t, px, py)) <= 18_000_000_000_000_000_000_000_000_000_000,
        abs_val(bary_denom(t)) <= 1_600_000_000_000_000,
{
    assert forall|p: int, q: int|
        -2 * COORD_LIMIT <= p <= 2 * COORD_LIMIT && abs_val(q)
            <= 410_000_000_000_000_000_000_000 implies abs_val(#[trigger] (p * q))
        <= 9_000_000_000_000_000_000_000_000_000_000 by {
        assert(abs_val(p * q) <= 8_200_000_000_000_000_000_000_000_000_000) by (nonlinear_arith)
            requires
                -20_000_000 <= p <= 20_000_000,
                -410_000_000_000_000_000_000_000 <= q <= 410_000_000_000_000_000_000_000,
        ;
    }
    assert(abs_val((t.xy_b.y - t.xy_c.y) * (t.xy_a.x - t.xy_c.x)) <= 800_000_000_000_000
        && abs_val((t.xy_c.x - t.xy_b.x) * (t.xy_a.y - t.xy_c.y)) <= 800_000_000_000_000)
        by (nonlinear_arith)
        requires
            t.xy_a.wf(),
            t.xy_b.wf(),
            t.xy_c.wf(),
    ;
}

impl Pwm {
    /// The duty for one channel of the matched triangle, from its weight,
    /// the target luminance and the channel's calibration.
    fn duty_for(&self, w: i128, luma: i64, channel: usize) -> (r: u64)
        requires
            self.wf(),
            channel < self.leds@.len(),
            0 <= w <= MICRO,
            0 <= luma <= LUMA_LIMIT,
        ensures
            r == duty_of(
                w as int,
                luma as int,
                self.max_duty,
                self.leds@[channel as int].max_brightness,
            ),
    {
        let mb: i64 = self.leds[channel].max_brightness;
        proof {
            assert(self.leds@[channel as int].wf());
            assert(0 <= w * luma <= 10_000_000_000_000_000 && 0 <= (w * luma) * (
            self.max_duty as int) <= 20_000_000_000_000_000_000_000) by (nonlinear_arith)
                requires
                    0 <= w <= 1_000_000,
                    0 <= luma <= 10_000_000_000,
                    0 < self.max_duty <= 1_048_576,
            ;
            assert(20_000_000_000_000_000 * (mb as int * MICRO as int)
                >= 20_000_000_000_000_000_000_000 && mb as int * MICRO as int > 0)
                by (nonlinear_arith)
                requires
                    1 <= mb,
            ;
            crate::fixed::lemma_trunc_div_abs_bound(
                (w * luma) * (self.max_duty as int),
                mb as int * MICRO as int,
                20_000_000_000_000_000,
            );
            crate::fixed::lemma_trunc_div_nonneg(
                (w * luma) * (self.max_duty as int),
                mb as int * MICRO as int,
            );
        }
        let d: i128 = div_i128(w * luma as i128 * (self.max_duty as i128), mb as i128 * (
        MICRO as i128));
        d as u64
    }

    /// Set the LEDs to the given color: find the first gamut triangle
    /// containing the color's chromaticity, drive its three channels with
    /// the barycentric shares of the luminance, and clear every other
    /// channel. A black target turns every channel off. When no triangle
    /// contains the chromaticity every channel is turned off too, and the
    /// out-of-gamut policy decides whether that is reported as an error.
    pub fn set_color(&mut self, color: Xyz) -> (r: Result<(), MixingError>)
        requires
            old(self).wf(),
            -TRISTIMULUS_LIMIT <= color.x <= TRISTIMULUS_LIMIT,
            0 <= color.y <= LUMA_LIMIT,
            -TRISTIMULUS_LIMIT <= color.z <= TRISTIMULUS_LIMIT,
        ensures
            final(self).wf(),
            Self::mix_outcome(*old(self), *final(self), color, r),
    {
        let sum: i128 = color.x as i128 + color.y as i128 + color.z as i128;
        if sum == 0 {
            self.zero_duties();
            proof {
                lemma_same_setup_wf(*old(self), *self);
            }
            return Ok(());
        }
        proof {
            assert(abs_val(color.x as int * MICRO as int) <= 300_000_000_000_000_000_000_000
                && abs_val(color.y as int * MICRO as int)
                <= 300_000_000_000_000_000_000_000) by (nonlinear_arith)
                requires
                    -TRISTIMULUS_LIMIT <= color.x <= TRISTIMULUS_LIMIT,
                    0 <= color.y <= LUMA_LIMIT,
            ;
        }
        let px: i128 = div_i128(color.x as i128 * (MICRO as i128), sum);
        let py: i128 = div_i128(color.y as i128 * (MICRO as i128), sum);
        let n: usize = self.triangles.len();
        let mut i: usize = 0;
        while i < n
            invariant
                i <= n,
                n == self.triangles@.len(),
                *self == *old(self),
                old(self).wf(),
                sum == color.x + color.y + color.z,
                sum != 0,
                0 <= color.y <= LUMA_LIMIT,
                px == XyColor::chroma_x_spec(color),
                py == XyColor::chroma_y_spec(color),
                abs_val(px as int) <= 400_000_000_000_000_000_000_000,
                abs_val(py as int) <= 400_000_000_000_000_000_000_000,
                forall|j: int|
                    0 <= j < i ==> !triangle_contains(
                        #[trigger] self.triangles@[j],
                        px as int,
                        py as int,
                    ),
            decreases n - i,
        {
            let t: LedTriangle = self.triangles[i];
            proof {
                assert(self.triangles@[i as int].wf());
                lemma_mix_products_bounded(t, px as int, py as int);
            }
            let na: i128 = (t.xy_b.y - t.xy_c.y) as i128 * (px - t.xy_c.x as i128) + (t.xy_c.x
                - t.xy_b.x) as i128 * (py - t.xy_c.y as i128);
            let nb: i128 = (t.xy_c.y - t.xy_a.y) as i128 * (px - t.xy_c.x as i128) + (t.xy_a.x
                - t.xy_c.x) as i128 * (py - t.xy_c.y as i128);
            let den: i128 = (t.xy_b.y - t.xy_c.y) as i128 * (t.xy_a.x - t.xy_c.x) as i128 + (
            t.xy_c.x - t.xy_b.x) as i128 * (t.xy_a.y - t.xy_c.y) as i128;
            let nc: i128 = den - na - nb;
            let inside: bool = if den >= 0 {
                na >= 0 && nb >= 0 && nc >= 0
            } else {
                na <= 0 && nb <= 0 && nc <= 0
            };
            if inside {
                proof {
                    lemma_contained_weights(t, px as int, py as int);
                    lemma_triangle_indices_distinct(t, self.leds@);
                }
                let wa: i128 = div_i128(na * (MICRO as i128), den);
                let wb: i128 = div_i128(nb * (MICRO as i128), den);
                let wc: i128 = (MICRO as i128) - wa - wb;
                self.zero_duties();
                let da: u64 = self.duty_for(wa, color.y, t.a);
                let db: u64 = self.duty_for(wb, color.y, t.b);
                let dc: u64 = self.duty_for(wc, color.y, t.c);
                self.duties[t.a] = da;
                self.duties[t.b] = db;
                self.duties[t.c] = dc;
                proof {
                    lemma_same_setup_wf(*old(self), *self);
                    assert(old(self).is_first_match(px as int, py as int, i as int));
                    assert(self.duties@ =~= old(self).mixed_duties(
                        i as int,
                        color.y as int,
                        px as int,
                        py as int,
                    ));
                }
                return Ok(());
            }
            i = i + 1;
        }
        self.zero_duties();
        proof {
            lemma_same_setup_wf(*old(self), *self);
        }
        match self.gamut_policy {
            OutOfGamutPolicy::AllOff => Ok(()),
            OutOfGamutPolicy::Error => Err(MixingError::OutOfGamut),
        }
    }

    /// Brightness with the gamma correction applied: the lamp's gamma
    /// exponent is 2.0, so the corrected value is the square of the
    /// brightness, scaled back to micro-units.
    fn gamma_correct(&self, brightness: i64) -> (r: i64)
        requires
            self.wf(),
            0 <= brightness <= BRIGHT_LIMIT,
        ensures
            r == gamma_corrected(brightness as int),
            0 <= r <= LUMA_LIMIT,
    {
        proof {
            assert(0 <= brightness as int * brightness as int <= 10_000_000_000_000_000)
                by (nonlinear_arith)
                requires
                    0 <= brightness <= 100_000_000,
            ;
            crate::fixed::lemma_trunc_div_abs_bound(
                brightness as int * brightness as int,
                MICRO as int,
                10_000_000_000,
            );
            crate::fixed::lemma_trunc_div_nonneg(
                brightness as int * brightness as int,
                MICRO as int,
            );
        }
        let q: i128 = div_i128(brightness as i128 * brightness as i128, MICRO as i128);
        q as i64
    }

    /// Convert a color temperature to a chromaticity on the Planckian
    /// locus, handling out-of-range temperatures as this controller's
    /// clamp policy says.
    pub fn temperature_to_xy(&self, t: i64) -> (r: Result<XyColor, ColorBoundsError>)
        ensures
            match r {
                Ok(c) => {
                    &&& temperature_xy_spec(t as int, self.clamp_policy) == Some(
                        (c.x as int, c.y as int),
                    )
                    &&& 0 < c.x < MICRO
                    &&& 0 < c.y < MICRO
                    &&& c.wf()
                },
                Err(_) => temperature_xy_spec(t as int, self.clamp_policy) is None,
            },
    {
        temperature_to_xy_with_policy(t, self.clamp_policy)
    }

    /// Set the LEDs to light with a given color temperature (micro-Kelvin)
    /// and brightness (micro-units of one). The brightness is gamma
    /// corrected, combined with the temperature's chromaticity into the
    /// target color, and mixed over the gamut; a temperature the clamp
    /// policy rejects leaves the duties untouched.
    pub fn set_temperature_and_brightness(&mut self, temperature: i64, brightness: i64) -> (r:
        Result<(), MixingError>)
        requires
            old(self).wf(),
            0 <= brightness <= BRIGHT_LIMIT,
        ensures
            final(self).wf(),
            match target_of(temperature as int, old(self).clamp_policy, brightness as int) {
                Option::None => r == Result::<(), MixingError>::Err(MixingError::OutOfBounds)
                    && *final(self) == *old(self),
                Option::Some(c) => Self::mix_outcome(*old(self), *final(self), c, r),
            },
    {
        let xy: XyColor = match temperature_to_xy_with_policy(temperature, self.clamp_policy) {
            Ok(c) => c,
            Err(_) => {
                return Err(MixingError::OutOfBounds);
            },
        };
        let luma: i64 = self.gamma_correct(brightness);
        let target: Xyz = xy.with_brightness(luma);
        self.set_color(target)
    }
}

/// Zero requested brightness turns every channel off and succeeds, for
/// every controller and every temperature its clamp policy accepts: the
/// gamma-corrected brightness is zero, so the target tristimulus value is
/// black and the mixing drives every channel to zero.
pub proof fn lemma_zero_brightness_all_off(
    prev: Pwm,
    next: Pwm,
    t: int,
    r: Result<(), MixingError>,
)
    requires
        prev.wf(),
        temperature_xy_spec(t, prev.clamp_policy) is Some,
        0 < (temperature_xy_spec(t, prev.clamp_policy)->Some_0).1 < MICRO,
        target_of(t, prev.clamp_policy, 0) is Some,
        Pwm::mix_outcome(prev, next, target_of(t, prev.clamp_policy, 0)->Some_0, r),
    ensures
        r is Ok,
        all_zero(next.duties@),
{
    let p = temperature_xy_spec(t, prev.clamp_policy)->Some_0;
    let c = XyColor { x: p.0 as i64, y: p.1 as i64 };
    assert(gamma_corrected(0) == trunc_div(0, MICRO as int));
    vstd::arithmetic::div_mod::lemma_div_of0(MICRO as int);
    assert(trunc_div(0, MICRO as int) == 0);
    assert(c.x as int * 0 == 0) by (nonlinear_arith);
    assert((MICRO - c.x - c.y) as int * 0 == 0) by (nonlinear_arith);
    vstd::arithmetic::div_mod::lemma_div_of0(c.y as int);
    assert(trunc_div(0, c.y as int) == 0);
    assert(target_of(t, prev.clamp_policy, 0)->Some_0 == (Xyz { x: 0, y: 0, z: 0 }));
}

/// One smoothing step of the dimming control loop: move `current` toward
/// `target` by the fraction `speed` (micro-units of one) of the remaining
/// distance. The result never overshoots the target.
pub fn lerp(current: i64, target: i64, speed: i64) -> (r: i64)
    requires
        -1_000_000_000_000 <= current <= 1_000_000_000_000,
        -1_000_000_000_000 <= target <= 1_000_000_000_000,
        0 <= speed <= MICRO,
    ensures
        r == current + trunc_div((target - current) * speed, MICRO as int),
        current <= target ==> current <= r <= target,
        target <= current ==> target <= r <= current,
{
    let delta: i64 = target - current;
    proof {
        assert(abs_val(delta as int * speed as int) <= abs_val(delta as int) * (MICRO as int)
            && (delta >= 0 ==> delta as int * speed as int >= 0) && (delta <= 0 ==> delta as int
            * speed as int <= 0)) by (nonlinear_arith)
            requires
                0 <= speed <= MICRO,
                -2_000_000_000_000 <= delta <= 2_000_000_000_000,
        ;
        crate::fixed::lemma_trunc_div_abs_bound(
            delta as int * speed as int,
            MICRO as int,
            abs_val(delta as int),
        );
        if delta >= 0 {
            crate::fixed::lemma_trunc_div_nonneg(delta as int * speed as int, MICRO as int);
        }
    }
    let step: i128 = div_i128(delta as i128 * speed as i128, MICRO as i128);
    current + (step as i64)
}

} // verus!
