//! Core logic of a multi-channel tunable-white LED lamp: black-body color
//! temperatures are turned into CIE 1931 chromaticities, combined with a
//! brightness into tristimulus values, and mixed into per-channel drive
//! duties over a triangulated gamut of calibrated LED channels.
//!
//! All color arithmetic is exact fixed-point arithmetic in micro-units
//! (one unit is `1_000_000`), so every result is pinned down precisely.
pub mod color;
pub mod config;
mod fixed;
pub mod led;
pub mod planck;
pub mod presence;
pub mod pwm;

pub use fixed::{MICRO, abs_val, trunc_div};
pub use color::{ColorBoundsError, XyColor, Xyz};
pub use led::{DegenerateGeometryError, Led, LedGroup, LedTriangle};
pub use planck::{ClampPolicy, temperature_to_xy};
pub use pwm::{MixingError, OutOfGamutPolicy, Pwm, lerp};
