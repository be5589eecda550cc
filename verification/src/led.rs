//! LED channels and the triangulated gamut they span.
//!
//! Every LED channel has a fixed chromaticity and a maximum rated luminous
//! output. Triangles over the channel chromaticities carry the barycentric
//! color mixing; each triangle stores the indices of its three channels in
//! the owning group's channel list together with copies of their immutable
//! chromaticities.
use vstd::prelude::*;

use crate::color::{COORD_LIMIT, XyColor};
use crate::fixed::{MICRO, abs_val, div_i128, trunc_div};

verus! {

/// Largest maximum-brightness calibration value (micro-units).
pub const MAX_BRIGHTNESS_LIMIT: i64 = 1_000_000_000_000;

/// A gamut triangle has zero area, or a triangle refers to a channel that
/// does not exist: a calibration or configuration bug upstream.
#[derive(Clone, Copy, Debug, PartialEq, Eq, Structural)]
pub struct DegenerateGeometryError;

/// One physical light-emitting channel: a name, a fixed chromaticity and
/// the maximum rated luminous output in arbitrary linear micro-units.
#[derive(Clone, Copy, Debug)]
pub struct Led {
    pub name: &'static str,
    pub xy_color: XyColor,
    pub max_brightness: i64,
}

impl Led {
    /// Chromaticity in bounds and a positive, bounded brightness rating.
    pub open spec fn wf(self) -> bool {
        &&& self.xy_color.wf()
        &&& 0 < self.max_brightness <= MAX_BRIGHTNESS_LIMIT
    }

    pub fn new(name: &'static str, x: i64, y: i64, max_brightness: i64) -> (r: Self)
        requires
            -COORD_LIMIT <= x <= COORD_LIMIT,
            -COORD_LIMIT <= y <= COORD_LIMIT,
            0 < max_brightness <= MAX_BRIGHTNESS_LIMIT,
        ensures
            r.name == name,
            r.xy_color == (XyColor { x, y }),
            r.max_brightness == max_brightness,
            r.wf(),
    {
        Led { name, xy_color: XyColor { x, y }, max_brightness }
    }
}

/// An ordered triple of LED channels forming one gamut triangle: the
/// channels' indices in the owning group plus copies of their
/// chromaticities.
#[derive(Clone, Copy, Debug)]
pub struct LedTriangle {
    pub a: usize,
    pub b: usize,
    pub c: usize,
    pub xy_a: XyColor,
    pub xy_b: XyColor,
    pub xy_c: XyColor,
}

/// Twice the signed area of the triangle; also the shared denominator of
/// the barycentric weights.
pub open spec fn bary_denom(t: LedTriangle) -> int {
    (t.xy_b.y - t.xy_c.y) * (t.xy_a.x - t.xy_c.x) + (t.xy_c.x - t.xy_b.x) * (t.xy_a.y - t.xy_c.y)
}

/// Numerator of the first barycentric weight of point `(px, py)`.
pub open spec fn bary_num_a(t: LedTriangle, px: int, py: int) -> int {
    (t.xy_b.y - t.xy_c.y) * (px - t.xy_c.x) + (t.xy_c.x - t.xy_b.x) * (py - t.xy_c.y)
}

/// Numerator of the second barycentric weight of point `(px, py)`.
pub open spec fn bary_num_b(t: LedTriangle, px: int, py: int) -> int {
    (t.xy_c.y - t.xy_a.y) * (px - t.xy_c.x) + (t.xy_a.x - t.xy_c.x) * (py - t.xy_c.y)
}

/// Numerator of the third barycentric weight; the three numerators sum to
/// the denominator.
pub open spec fn bary_num_c(t: LedTriangle, px: int, py: int) -> int {
    bary_denom(t) - bary_num_a(t, px, py) - bary_num_b(t, px, py)
}

/// Whether point `(px, py)` lies inside the triangle or on its boundary:
/// all three barycentric weights are at least zero, that is, all three
/// numerators carry the sign of the denominator.
pub open spec fn triangle_contains(t: LedTriangle, px: int, py: int) -> bool {
    if bary_denom(t) >= 0 {
        bary_num_a(t, px, py) >= 0 && bary_num_b(t, px, py) >= 0 && bary_num_c(t, px, py) >= 0
    } else {
        bary_num_a(t, px, py) <= 0 && bary_num_b(t, px, py) <= 0 && bary_num_c(t, px, py) <= 0
    }
}

impl LedTriangle {
    /// Vertices in bounds and a nonzero area.
    pub open spec fn wf(self) -> bool {
        &&& self.xy_a.wf()
        &&& self.xy_b.wf()
        &&& self.xy_c.wf()
        &&& bary_denom(self) != 0
    }

    /// The triangle's vertex data is a faithful copy of the channel list.
    pub open spec fn consistent_with(self, leds: Seq<Led>) -> bool {
        &&& self.a < leds.len()
        &&& self.b < leds.len()
        &&& self.c < leds.len()
        &&& self.xy_a == leds[self.a as int].xy_color
        &&& self.xy_b == leds[self.b as int].xy_color
        &&& self.xy_c == leds[self.c as int].xy_color
    }

    /// Build the gamut triangle over channels `a`, `b` and `c` of `leds`.
    /// Fails when an index is out of range or the three chromaticities are
    /// collinear (a zero-area triangle is useless for mixing).
    pub fn new(a: usize, b: usize, c: usize, leds: &Vec<Led>) -> (r: Result<
        LedTriangle,
        DegenerateGeometryError,
    >)
        requires
            forall|i: int| 0 <= i < leds@.len() ==> #[trigger] leds@[i].wf(),
        ensures
            match r {
                Ok(t) => {
                    &&& t == (LedTriangle {
                        a,
                        b,
                        c,
                        xy_a: leds@[a as int].xy_color,
                        xy_b: leds@[b as int].xy_color,
                        xy_c: leds@[c as int].xy_color,
                    })
                    &&& t.wf()
                    &&& t.consistent_with(leds@)
                },
                Err(_) => !(a < leds@.len() && b < leds@.len() && c < leds@.len())
                    || bary_denom(
                    LedTriangle {
                        a,
                        b,
                        c,
                        xy_a: leds@[a as int].xy_color,
                        xy_b: leds@[b as int].xy_color,
                        xy_c: leds@[c as int].xy_color,
                    },
                ) == 0,
            },
    {
        let n: usize = leds.len();
        if a >= n || b >= n || c >= n {
            return Err(DegenerateGeometryError);
        }
        proof {
            assert(leds@[a as int].wf());
            assert(leds@[b as int].wf());
            assert(leds@[c as int].wf());
        }
        let t = LedTriangle {
            a,
            b,
            c,
            xy_a: leds[a].xy_color,
            xy_b: leds[b].xy_color,
            xy_c: leds[c].xy_color,
        };
        proof {
            lemma_bary_products_bounded(t, t.xy_a.x as int, t.xy_a.y as int);
        }
        let den: i128 = (t.xy_b.y - t.xy_c.y) as i128 * (t.xy_a.x - t.xy_c.x) as i128 + (t.xy_c.x
            - t.xy_b.x) as i128 * (t.xy_a.y - t.xy_c.y) as i128;
        if den == 0 {
            Err(DegenerateGeometryError)
        } else {
            Ok(t)
        }
    }

    /// The barycentric weights (micro-units) of the target chromaticity
    /// with respect to this triangle: `a` and `b` as truncated quotients of
    /// the standard numerators over the shared denominator, and `c` as the
    /// remainder to one whole unit.
    pub fn get_barycentric(&self, xy: XyColor) -> (r: [i128; 3])
        requires
            self.wf(),
            xy.wf(),
        ensures
            r[0] == trunc_div(bary_num_a(*self, xy.x as int, xy.y as int) * MICRO, bary_denom(*self)),
            r[1] == trunc_div(bary_num_b(*self, xy.x as int, xy.y as int) * MICRO, bary_denom(*self)),
            r[2] == MICRO - r[0] - r[1],
    {
        proof {
            lemma_bary_products_bounded(*self, xy.x as int, xy.y as int);
        }
        let na: i128 = (self.xy_b.y - self.xy_c.y) as i128 * (xy.x - self.xy_c.x) as i128 + (
        self.xy_c.x - self.xy_b.x) as i128 * (xy.y - self.xy_c.y) as i128;
        let nb: i128 = (self.xy_c.y - self.xy_a.y) as i128 * (xy.x - self.xy_c.x) as i128 + (
        self.xy_a.x - self.xy_c.x) as i128 * (xy.y - self.xy_c.y) as i128;
        let den: i128 = (self.xy_b.y - self.xy_c.y) as i128 * (self.xy_a.x - self.xy_c.x) as i128
            + (self.xy_c.x - self.xy_b.x) as i128 * (self.xy_a.y - self.xy_c.y) as i128;
        let wa: i128 = div_i128(na * (MICRO as i128), den);
        let wb: i128 = div_i128(nb * (MICRO as i128), den);
        let wc: i128 = (MICRO as i128) - wa - wb;
        [wa, wb, wc]
    }
}

/// All products in the barycentric formulas stay far inside the machine
/// bounds when every coordinate is within `COORD_LIMIT`.
proof fn lemma_bary_products_bounded(t: LedTriangle, px: int, py: int)
    requires
        t.xy_a.wf(),
        t.xy_b.wf(),
        t.xy_c.wf(),
        -COORD_LIMIT <= px <= COORD_LIMIT,
        -COORD_LIMIT <= py <= COORD_LIMIT,
    ensures
        abs_val(bary_num_a(t, px, py)) <= 1_600_000_000_000_000,
        abs_val(bary_num_b(t, px, py)) <= 1_600_000_000_000_000,
        abs_val(bary_denom(t)) <= 1_600_000_000_000_000,
        abs_val((t.xy_b.y - t.xy_c.y) * (px - t.xy_c.x)) <= 800_000_000_000_000,
        abs_val((t.xy_c.x - t.xy_b.x) * (py - t.xy_c.y)) <= 800_000_000_000_000,
        abs_val((t.xy_c.y - t.xy_a.y) * (px - t.xy_c.x)) <= 800_000_000_000_000,
        abs_val((t.xy_a.x - t.xy_c.x) * (py - t.xy_c.y)) <= 800_000_000_000_000,
        abs_val((t.xy_b.y - t.xy_c.y) * (t.xy_a.x - t.xy_c.x)) <= 800_000_000_000_000,
        abs_val((t.xy_c.x - t.xy_b.x) * (t.xy_a.y - t.xy_c.y)) <= 800_000_000_000_000,
{
    assert forall|p: int, q: int|
        -2 * COORD_LIMIT <= p <= 2 * COORD_LIMIT && -2 * COORD_LIMIT <= q <= 2 * COORD_LIMIT
            implies abs_val(#[trigger] (p * q)) <= 800_000_000_000_000 by {
        assert(abs_val(p * q) <= 400_000_000_000_000) by (nonlinear_arith)
            requires
                -20_000_000 <= p <= 20_000_000,
                -20_000_000 <= q <= 20_000_000,
        ;
    }
}

/// The gamut triangle described by chunk `k` of a flat index list: indices
/// `3k`, `3k+1`, `3k+2` name the triangle's channels in `leds`.
pub open spec fn chunk_triangle(indices: Seq<usize>, leds: Seq<Led>, k: int) -> LedTriangle {
    LedTriangle {
        a: indices[3 * k],
        b: indices[3 * k + 1],
        c: indices[3 * k + 2],
        xy_a: leds[indices[3 * k] as int].xy_color,
        xy_b: leds[indices[3 * k + 1] as int].xy_color,
        xy_c: leds[indices[3 * k + 2] as int].xy_color,
    }
}

/// Chunk `k` of the index list names three existing channels spanning a
/// triangle of nonzero area.
pub open spec fn chunk_valid(indices: Seq<usize>, leds: Seq<Led>, k: int) -> bool {
    &&& indices[3 * k] < leds.len()
    &&& indices[3 * k + 1] < leds.len()
    &&& indices[3 * k + 2] < leds.len()
    &&& bary_denom(chunk_triangle(indices, leds, k)) != 0
}

/// A flat index list describes a usable triangulation of `leds`: whole
/// chunks of three, each valid.
pub open spec fn valid_triangulation(indices: Seq<usize>, leds: Seq<Led>) -> bool {
    &&& indices.len() % 3 == 0
    &&& forall|k: int| 0 <= k < indices.len() / 3 ==> #[trigger] chunk_valid(indices, leds, k)
}

/// The triangles described by a flat index list, in chunk order.
pub open spec fn triangles_of(indices: Seq<usize>, leds: Seq<Led>) -> Seq<LedTriangle> {
    Seq::new((indices.len() / 3) as nat, |k: int| chunk_triangle(indices, leds, k))
}

/// The set of all LED channels plus the gamut triangles covering their
/// chromaticities. Channels are owned once, in a flat list; triangles
/// refer to them by index.
pub struct LedGroup {
    pub leds: Vec<Led>,
    pub triangles: Vec<LedTriangle>,
}

impl LedGroup {
    /// Every channel is well-formed and every triangle is a nonzero-area
    /// triangle over existing channels.
    pub open spec fn wf(self) -> bool {
        &&& forall|i: int| 0 <= i < self.leds@.len() ==> #[trigger] self.leds@[i].wf()
        &&& forall|i: int|
            0 <= i < self.triangles@.len() ==> #[trigger] self.triangles@[i].wf()
                && self.triangles@[i].consistent_with(self.leds@)
    }

    /// An empty group: no channels, no triangles.
    pub fn new() -> (r: Result<LedGroup, i32>)
        ensures
            match r {
                Ok(g) => g.leds@.len() == 0 && g.triangles@.len() == 0 && g.wf(),
                Err(_) => false,
            },
    {
        Ok(LedGroup { leds: Vec::new(), triangles: Vec::new() })
    }

    /// Add a channel to the group. The stored triangulation no longer
    /// covers the changed channel set, so it is discarded; the caller
    /// re-triangulates and installs the result with `set_triangles`.
    pub fn add_led(&mut self, led: Led)
        requires
            old(self).wf(),
            led.wf(),
        ensures
            final(self).leds@ == old(self).leds@.push(led),
            final(self).triangles@.len() == 0,
            final(self).wf(),
    {
        self.leds.push(led);
        self.triangles = Vec::new();
    }

    /// Install a triangulation of the group's channels, given as a flat
    /// list of channel indices, three per triangle, in the order a
    /// triangulator emits them. The whole list is validated first: on any
    /// out-of-range index or zero-area triangle nothing changes and a
    /// `DegenerateGeometryError` is returned.
    pub fn set_triangles(&mut self, indices: &Vec<usize>) -> (r: Result<
        (),
        DegenerateGeometryError,
    >)
        requires
            old(self).wf(),
        ensures
            final(self).leds == old(self).leds,
            final(self).wf(),
            match r {
                Ok(_) => valid_triangulation(indices@, old(self).leds@) && final(self).triangles@
                    == triangles_of(indices@, old(self).leds@),
                Err(_) => !valid_triangulation(indices@, old(self).leds@)
                    && final(self).triangles@ == old(self).triangles@,
            },
    {
        let n: usize = indices.len();
        let m: usize = n / 3;
        proof {
            vstd::arithmetic::div_mod::lemma_fundamental_div_mod(n as int, 3);
        }
        if m > n || m * 3 != n {
            return Err(DegenerateGeometryError);
        }
        let mut ts: Vec<LedTriangle> = Vec::new();
        let mut k: usize = 0;
        let mut i: usize = 0;
        while k < m
            invariant
                i == 3 * k,
                k <= m,
                3 * m == n,
                n == indices@.len(),
                old(self) == self,
                old(self).wf(),
                ts@.len() == k,
                forall|j: int| 0 <= j < k ==> #[trigger] chunk_valid(indices@, self.leds@, j),
                forall|j: int|
                    0 <= j < k ==> #[trigger] ts@[j] == chunk_triangle(indices@, self.leds@, j)
                        && ts@[j].wf() && ts@[j].consistent_with(self.leds@),
            decreases m - k,
        {
            let t: LedTriangle = match LedTriangle::new(
                indices[i],
                indices[i + 1],
                indices[i + 2],
                &self.leds,
            ) {
                Ok(t) => t,
                Err(e) => {
                    proof {
                        assert(!chunk_valid(indices@, self.leds@, k as int));
                    }
                    return Err(e);
                },
            };
            ts.push(t);
            k = k + 1;
            i = i + 3;
        }
        self.triangles = ts;
        proof {
            assert(self.triangles@ =~= triangles_of(indices@, self.leds@));
        }
        Ok(())
    }
}

/// At each of a triangle's own vertices the barycentric weights are
/// exactly one whole unit for that vertex and zero for the other two:
/// the numerator at the vertex equals the denominator and the other two
/// numerators vanish, so the truncated micro-unit weights are exact.
pub proof fn lemma_barycentric_at_vertex(t: LedTriangle)
    requires
        t.wf(),
    ensures
        bary_num_a(t, t.xy_a.x as int, t.xy_a.y as int) == bary_denom(t),
        bary_num_b(t, t.xy_a.x as int, t.xy_a.y as int) == 0,
        bary_num_c(t, t.xy_a.x as int, t.xy_a.y as int) == 0,
        bary_num_a(t, t.xy_b.x as int, t.xy_b.y as int) == 0,
        bary_num_b(t, t.xy_b.x as int, t.xy_b.y as int) == bary_denom(t),
        bary_num_c(t, t.xy_b.x as int, t.xy_b.y as int) == 0,
        bary_num_a(t, t.xy_c.x as int, t.xy_c.y as int) == 0,
        bary_num_b(t, t.xy_c.x as int, t.xy_c.y as int) == 0,
        bary_num_c(t, t.xy_c.x as int, t.xy_c.y as int) == bary_denom(t),
        trunc_div(bary_num_a(t, t.xy_a.x as int, t.xy_a.y as int) * MICRO, bary_denom(t))
            == MICRO,
        trunc_div(bary_num_b(t, t.xy_a.x as int, t.xy_a.y as int) * MICRO, bary_denom(t)) == 0,
        trunc_div(bary_num_a(t, t.xy_b.x as int, t.xy_b.y as int) * MICRO, bary_denom(t)) == 0,
        trunc_div(bary_num_b(t, t.xy_b.x as int, t.xy_b.y as int) * MICRO, bary_denom(t))
            == MICRO,
        trunc_div(bary_num_a(t, t.xy_c.x as int, t.xy_c.y as int) * MICRO, bary_denom(t)) == 0,
        trunc_div(bary_num_b(t, t.xy_c.x as int, t.xy_c.y as int) * MICRO, bary_denom(t)) == 0,
{
    let xa = t.xy_a.x as int;
    let ya = t.xy_a.y as int;
    let xb = t.xy_b.x as int;
    let yb = t.xy_b.y as int;
    let xc = t.xy_c.x as int;
    let yc = t.xy_c.y as int;
    assert(bary_num_b(t, xa, ya) == 0 && bary_num_a(t, xb, yb) == 0 && bary_num_b(t, xb, yb)
        == bary_denom(t) && bary_num_a(t, xc, yc) == 0 && bary_num_b(t, xc, yc) == 0)
        by (nonlinear_arith)
        requires
            xa == t.xy_a.x as int,
            ya == t.xy_a.y as int,
            xb == t.xy_b.x as int,
            yb == t.xy_b.y as int,
            xc == t.xy_c.x as int,
            yc == t.xy_c.y as int,
    ;
    let d = bary_denom(t);
    assert(d * MICRO == MICRO * d) by (nonlinear_arith);
    crate::fixed::lemma_trunc_div_exact(MICRO as int, d);
    assert(0 * d == 0) by (nonlinear_arith);
    crate::fixed::lemma_trunc_div_exact(0, d);
}

/// At the exact centroid of a triangle all three barycentric weights are
/// one third: each numerator is a third of the denominator, and the
/// truncated micro-unit weights come out as 333333, 333333 and, by the
/// remainder convention for the third weight, 333334.
pub proof fn lemma_barycentric_at_centroid(t: LedTriangle, px: int, py: int)
    requires
        t.wf(),
        3 * px == t.xy_a.x + t.xy_b.x + t.xy_c.x,
        3 * py == t.xy_a.y + t.xy_b.y + t.xy_c.y,
    ensures
        3 * bary_num_a(t, px, py) == bary_denom(t),
        3 * bary_num_b(t, px, py) == bary_denom(t),
        3 * bary_num_c(t, px, py) == bary_denom(t),
        trunc_div(bary_num_a(t, px, py) * MICRO, bary_denom(t)) == 333_333,
        trunc_div(bary_num_b(t, px, py) * MICRO, bary_denom(t)) == 333_333,
        MICRO - trunc_div(bary_num_a(t, px, py) * MICRO, bary_denom(t)) - trunc_div(
            bary_num_b(t, px, py) * MICRO,
            bary_denom(t),
        ) == 333_334,
{
    assert(3 * bary_num_a(t, px, py) == bary_denom(t) && 3 * bary_num_b(t, px, py)
        == bary_denom(t)) by (nonlinear_arith)
        requires
            3 * px == t.xy_a.x + t.xy_b.x + t.xy_c.x,
            3 * py == t.xy_a.y + t.xy_b.y + t.xy_c.y,
    ;
    lemma_third_of_whole(bary_num_a(t, px, py));
    lemma_third_of_whole(bary_num_b(t, px, py));
}

/// Dividing one whole micro-unit's worth of a nonzero numerator by three
/// times that numerator truncates to 333333.
proof fn lemma_third_of_whole(n: int)
    requires
        n != 0,
    ensures
        trunc_div(n * MICRO, 3 * n) == 333_333,
{
    if n > 0 {
        assert(n * MICRO == 333_333 * (3 * n) + n && 0 <= n < 3 * n) by (nonlinear_arith)
            requires
                n > 0,
        ;
        vstd::arithmetic::div_mod::lemma_fundamental_div_mod_converse(
            n * MICRO,
            3 * n,
            333_333,
            n,
        );
    } else {
        assert((-n) * MICRO == 333_333 * (3 * (-n)) + (-n) && 0 <= -n < 3 * (-n) && abs_val(
            n * MICRO,
        ) == (-n) * MICRO && abs_val(3 * n) == 3 * (-n) && n * MICRO < 0 && 3 * n < 0)
            by (nonlinear_arith)
            requires
                n < 0,
        ;
        vstd::arithmetic::div_mod::lemma_fundamental_div_mod_converse(
            (-n) * MICRO,
            3 * (-n),
            333_333,
            -n,
        );
    }
}

} // verus!
