//! CIE 1931 colorimetry: chromaticity coordinates, tristimulus values, and
//! the conversions between them.
//!
//! A chromaticity `(x, y)` describes hue and saturation without brightness;
//! combining it with a luminance `Y` gives the tristimulus value
//! `(X, Y, Z)` with `X = (Y/y)*x` and `Z = (Y/y)*(1 - x - y)`.
//! All quantities are fixed-point integers in micro-units.
use vstd::prelude::*;

use crate::fixed::{MICRO, abs_val, div_i128, trunc_div};

verus! {

/// Largest magnitude (in micro-units) of a chromaticity coordinate that the
/// mixing arithmetic accepts; well inside every machine bound.
pub const COORD_LIMIT: i64 = 10_000_000;

/// Largest luminance (in micro-units) that the mixing arithmetic accepts.
pub const LUMA_LIMIT: i64 = 10_000_000_000;

/// Largest magnitude of a tristimulus component (micro-units); chosen so
/// that `with_brightness` can never leave it.
pub const TRISTIMULUS_LIMIT: i64 = 300_000_000_000_000_000;

/// A requested color was outside the valid bounds (for example a color
/// temperature off the supported range of the Planckian-locus model).
#[derive(Clone, Copy, Debug, PartialEq, Eq, Structural)]
pub struct ColorBoundsError;

/// A chromaticity on the CIE 1931 xy chromaticity diagram, in micro-units:
/// `x = 320_000` stands for the coordinate 0.32.
///
/// This can be interpreted as the hue and saturation of light, without
/// brightness information.
#[derive(Clone, Copy, Debug, PartialEq, Eq, Structural)]
pub struct XyColor {
    pub x: i64,
    pub y: i64,
}

/// A color in the CIE XYZ color space, in micro-units. `y` is the
/// luminance; `x` and `z` carry the chrominance.
#[derive(Clone, Copy, Debug, PartialEq, Eq, Structural)]
pub struct Xyz {
    pub x: i64,
    pub y: i64,
    pub z: i64,
}

impl XyColor {
    /// Both coordinates within the bounds the mixing arithmetic accepts.
    pub open spec fn wf(self) -> bool {
        &&& -COORD_LIMIT <= self.x <= COORD_LIMIT
        &&& -COORD_LIMIT <= self.y <= COORD_LIMIT
    }

    pub fn new(x: i64, y: i64) -> (r: Self)
        requires
            -COORD_LIMIT <= x <= COORD_LIMIT,
            -COORD_LIMIT <= y <= COORD_LIMIT,
        ensures
            r == (XyColor { x, y }),
            r.wf(),
    {
        XyColor { x, y }
    }

    /// The tristimulus value of chromaticity `c` under luminance `luma`:
    /// `X = x*Y/y`, `Z = (1 - x - y)*Y/y`, each quotient truncated.
    pub open spec fn with_brightness_spec(c: XyColor, luma: i64) -> Xyz {
        Xyz {
            x: trunc_div(c.x * luma, c.y as int) as i64,
            y: luma,
            z: trunc_div((MICRO - c.x - c.y) * luma, c.y as int) as i64,
        }
    }

    /// Combine the xy value with a Y value for brightness in the xyY color
    /// space and convert the result to a color in the XYZ color space.
    pub fn with_brightness(&self, luma: i64) -> (r: Xyz)
        requires
            self.wf(),
            self.y != 0,
            0 <= luma <= LUMA_LIMIT,
        ensures
            r == Self::with_brightness_spec(*self, luma),
            -TRISTIMULUS_LIMIT <= r.x <= TRISTIMULUS_LIMIT,
            r.y == luma,
            -TRISTIMULUS_LIMIT <= r.z <= TRISTIMULUS_LIMIT,
    {
        let z: i64 = MICRO - self.x - self.y;
        proof {
            assert(abs_val(self.x as int * luma as int) <= COORD_LIMIT as int * LUMA_LIMIT as int)
                by (nonlinear_arith)
                requires
                    -COORD_LIMIT <= self.x <= COORD_LIMIT,
                    0 <= luma <= LUMA_LIMIT,
            ;
            assert(abs_val(z as int * luma as int) <= 3 * COORD_LIMIT as int * LUMA_LIMIT as int)
                by (nonlinear_arith)
                requires
                    -3 * COORD_LIMIT <= z <= 3 * COORD_LIMIT,
                    0 <= luma <= LUMA_LIMIT,
            ;
        }
        let big_x: i128 = div_i128(self.x as i128 * luma as i128, self.y as i128);
        let big_z: i128 = div_i128(z as i128 * luma as i128, self.y as i128);
        Xyz { x: big_x as i64, y: luma, z: big_z as i64 }
    }

    /// The chromaticity of a tristimulus value: `x = X/(X+Y+Z)` and
    /// `y = Y/(X+Y+Z)`, scaled to micro-units and truncated.
    pub open spec fn chroma_x_spec(c: Xyz) -> int {
        trunc_div(c.x * MICRO, c.x + c.y + c.z)
    }

    /// The y coordinate of the chromaticity of a tristimulus value.
    pub open spec fn chroma_y_spec(c: Xyz) -> int {
        trunc_div(c.y * MICRO, c.x + c.y + c.z)
    }

    /// The chromaticity of an arbitrary XYZ color, for converting a target
    /// color into its chromaticity before the gamut lookup. Fails when the
    /// components sum to zero (the chromaticity is undefined there) or when
    /// the chromaticity falls outside the coordinate bounds.
    pub fn from_xyz(xyz: &Xyz) -> (r: Result<XyColor, ColorBoundsError>)
        requires
            -TRISTIMULUS_LIMIT <= xyz.x <= TRISTIMULUS_LIMIT,
            -TRISTIMULUS_LIMIT <= xyz.y <= TRISTIMULUS_LIMIT,
            -TRISTIMULUS_LIMIT <= xyz.z <= TRISTIMULUS_LIMIT,
        ensures
            match r {
                Ok(c) => {
                    &&& xyz.x + xyz.y + xyz.z != 0
                    &&& c.x == Self::chroma_x_spec(*xyz)
                    &&& c.y == Self::chroma_y_spec(*xyz)
                    &&& c.wf()
                },
                Err(_) => xyz.x + xyz.y + xyz.z == 0 || !(
                    -COORD_LIMIT <= Self::chroma_x_spec(*xyz) <= COORD_LIMIT
                    && -COORD_LIMIT <= Self::chroma_y_spec(*xyz) <= COORD_LIMIT
                ),
            },
    {
        let sum: i128 = xyz.x as i128 + xyz.y as i128 + xyz.z as i128;
        if sum == 0 {
            return Err(ColorBoundsError);
        }
        proof {
            assert(abs_val(xyz.x as int * MICRO as int) <= TRISTIMULUS_LIMIT as int * MICRO as int
                && abs_val(xyz.y as int * MICRO as int) <= TRISTIMULUS_LIMIT as int
                * MICRO as int) by (nonlinear_arith)
                requires
                    -TRISTIMULUS_LIMIT <= xyz.x <= TRISTIMULUS_LIMIT,
                    -TRISTIMULUS_LIMIT <= xyz.y <= TRISTIMULUS_LIMIT,
            ;
        }
        let cx: i128 = div_i128(xyz.x as i128 * MICRO as i128, sum);
        let cy: i128 = div_i128(xyz.y as i128 * MICRO as i128, sum);
        if -(COORD_LIMIT as i128) <= cx && cx <= COORD_LIMIT as i128 && -(COORD_LIMIT as i128) <= cy
            && cy <= COORD_LIMIT as i128 {
            Ok(XyColor { x: cx as i64, y: cy as i64 })
        } else {
            Err(ColorBoundsError)
        }
    }
}

/// Converting a chromaticity to a tristimulus value and back recovers the
/// chromaticity exactly, before any fixed-point rounding: with the exact
/// (unrounded) tristimulus components `X = x*Y`, `Yc = y*Y`, `Z = z*Y`
/// (the common factor `1/y` cancels in the chromaticity), the chromaticity
/// formula returns `x` and `y` again, exactly, for any luminance `luma > 0`
/// and any chromaticity with `x + y + z == MICRO`.
pub proof fn lemma_chromaticity_round_trip(x: int, y: int, z: int, luma: int)
    requires
        x + y + z == MICRO,
        luma > 0,
    ensures
        trunc_div((x * luma) * MICRO, x * luma + y * luma + z * luma) == x,
        trunc_div((y * luma) * MICRO, x * luma + y * luma + z * luma) == y,
{
    assert(x * luma + y * luma + z * luma == luma * MICRO) by (nonlinear_arith)
        requires
            x + y + z == MICRO,
    ;
    assert((x * luma) * MICRO == x * (luma * MICRO)) by (nonlinear_arith);
    assert((y * luma) * MICRO == y * (luma * MICRO)) by (nonlinear_arith);
    crate::fixed::lemma_trunc_div_exact(x, luma * MICRO);
    crate::fixed::lemma_trunc_div_exact(y, luma * MICRO);
}

} // verus!
