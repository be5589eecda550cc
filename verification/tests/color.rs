//! Tests of the temperature model and the chromaticity conversions.
use bestelampe::color::XyColor;
use bestelampe::planck::{
    ClampPolicy, TEMP_MAX, TEMP_MIN, temperature_to_xy, temperature_to_xy_with_policy,
};
use bestelampe::MICRO;

fn xy(t: i64) -> (i64, i64) {
    let c = temperature_to_xy(t).expect("temperature inside the supported range");
    (c.x, c.y)
}

#[test]
fn locus_exact_values() {
    assert_eq!(xy(1_667_000_000), (564_638, 402_887));
    assert_eq!(xy(2_000_000_000), (526_902, 413_264));
    assert_eq!(xy(2_222_000_000), (503_187, 415_250));
    assert_eq!(xy(2_700_000_000), (459_313, 410_660));
    assert_eq!(xy(3_000_000_000), (436_578, 404_174));
    assert_eq!(xy(4_000_000_000), (380_528, 376_733));
    assert_eq!(xy(6_500_000_000), (313_494, 323_662));
    assert_eq!(xy(25_000_000_000), (252_472, 252_253));
}

#[test]
fn locus_rejects_out_of_range() {
    assert!(temperature_to_xy(TEMP_MIN - 1).is_err());
    assert!(temperature_to_xy(TEMP_MAX + 1).is_err());
    assert!(temperature_to_xy(0).is_err());
    assert!(temperature_to_xy(-3_000_000_000).is_err());
    assert!(temperature_to_xy(TEMP_MIN).is_ok());
    assert!(temperature_to_xy(TEMP_MAX).is_ok());
}

#[test]
fn locus_stays_inside_unit_square() {
    // Sample the whole supported range; every chromaticity must stay
    // strictly inside the unit square.
    let mut t: i64 = TEMP_MIN;
    while t <= TEMP_MAX {
        let (x, y) = xy(t);
        assert!(0 < x && x < MICRO, "x out of range at {t}: {x}");
        assert!(0 < y && y < MICRO, "y out of range at {t}: {y}");
        t += 37_000_000;
    }
}

#[test]
fn locus_continuous_at_branch_boundaries() {
    // The polynomial branches meet at 2222 K and 4000 K; one Kelvin of
    // temperature change across a boundary moves the chromaticity only
    // within rounding (well under 0.0005).
    for boundary in [2_222_000_000i64, 4_000_000_000] {
        let (x0, y0) = xy(boundary);
        let (x1, y1) = xy(boundary + 1_000_000);
        assert!((x0 - x1).abs() < 500, "x jump at {boundary}");
        assert!((y0 - y1).abs() < 500, "y jump at {boundary}");
    }
    // And over the whole range, small steps make small moves.
    let mut t: i64 = TEMP_MIN;
    while t < TEMP_MAX {
        let (x0, y0) = xy(t);
        let (x1, y1) = xy(t + 1_000_000);
        assert!((x0 - x1).abs() < 500 && (y0 - y1).abs() < 500);
        t += 499_000_000;
    }
}

#[test]
fn clamp_policy_clamps_to_bounds() {
    let low = temperature_to_xy_with_policy(1_000_000_000, ClampPolicy::Clamp).unwrap();
    assert_eq!((low.x, low.y), (564_638, 402_887));
    let high = temperature_to_xy_with_policy(30_000_000_000, ClampPolicy::Clamp).unwrap();
    assert_eq!((high.x, high.y), (252_472, 252_253));
    let mid = temperature_to_xy_with_policy(3_000_000_000, ClampPolicy::Clamp).unwrap();
    assert_eq!((mid.x, mid.y), (436_578, 404_174));
}

#[test]
fn extrapolate_red_policy_blends_toward_red() {
    let c = temperature_to_xy_with_policy(1_200_000_000, ClampPolicy::ExtrapolateRed).unwrap();
    assert_eq!((c.x, c.y), (609_000, 327_349));
    // Below the floor the extrapolation saturates at the floor's blend.
    let floor = temperature_to_xy_with_policy(1_005_000_000, ClampPolicy::ExtrapolateRed).unwrap();
    assert_eq!((floor.x, floor.y), (627_525, 295_808));
    let below = temperature_to_xy_with_policy(500_000_000, ClampPolicy::ExtrapolateRed).unwrap();
    assert_eq!((below.x, below.y), (627_525, 295_808));
    // Above the supported range it clamps like the clamp policy.
    let high = temperature_to_xy_with_policy(30_000_000_000, ClampPolicy::ExtrapolateRed).unwrap();
    assert_eq!((high.x, high.y), (252_472, 252_253));
    // Inside the range it is the plain locus.
    let mid = temperature_to_xy_with_policy(2_700_000_000, ClampPolicy::ExtrapolateRed).unwrap();
    assert_eq!((mid.x, mid.y), (459_313, 410_660));
}

#[test]
fn with_brightness_applies_the_formula() {
    let c = XyColor::new(300_000, 400_000);
    let t = c.with_brightness(500_000);
    assert_eq!((t.x, t.y, t.z), (375_000, 500_000, 375_000));
    let black = c.with_brightness(0);
    assert_eq!((black.x, black.y, black.z), (0, 0, 0));
}

#[test]
fn chromaticity_round_trip() {
    // Converting a chromaticity to a tristimulus value and back recovers
    // the chromaticity.
    for (x, y, luma) in [
        (300_000i64, 400_000i64, 500_000i64),
        (459_313, 410_660, 1_000_000),
        (200_000, 200_000, 500_000),
        (640_000, 350_000, 250_000),
    ] {
        let c = XyColor::new(x, y);
        let t = c.with_brightness(luma);
        let back = XyColor::from_xyz(&t).unwrap();
        assert!((back.x - x).abs() <= 2, "x {x} came back as {}", back.x);
        assert!((back.y - y).abs() <= 2, "y {y} came back as {}", back.y);
    }
}

#[test]
fn from_xyz_rejects_zero_sum() {
    let zero = bestelampe::Xyz { x: 0, y: 0, z: 0 };
    assert!(XyColor::from_xyz(&zero).is_err());
    let cancel = bestelampe::Xyz { x: 500_000, y: 250_000, z: -750_000 };
    assert!(XyColor::from_xyz(&cancel).is_err());
}

#[test]
fn config_defaults() {
    let c = bestelampe::config::Config::default();
    assert_eq!(c.wifi_ap_active, false);
    assert_eq!(c.wifi_client_ssid, "");
    assert_eq!(c.wifi_client_psk, "");
    assert_eq!(c.wifi_ap_ssid, "");
    assert_eq!(c.wifi_ap_psk, "");
    assert_eq!(c.time_zone, "Etc/GMT");
}
