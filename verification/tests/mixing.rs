//! Tests of the gamut geometry and the color mixing engine.
use bestelampe::color::XyColor;
use bestelampe::led::{Led, LedGroup, LedTriangle};
use bestelampe::planck::ClampPolicy;
use bestelampe::pwm::{MixingError, OutOfGamutPolicy, Pwm, lerp};
use bestelampe::MICRO;

fn unit_leds() -> Vec<Led> {
    vec![
        Led::new("A", 0, 0, MICRO),
        Led::new("B", MICRO, 0, MICRO),
        Led::new("C", 0, MICRO, MICRO),
    ]
}

fn unit_gamut(policy: OutOfGamutPolicy) -> Pwm {
    let mut group = LedGroup::new().unwrap();
    group.add_led(Led::new("A", 0, 0, MICRO));
    group.add_led(Led::new("B", MICRO, 0, MICRO));
    group.add_led(Led::new("C", 0, MICRO, MICRO));
    group.set_triangles(&vec![0, 1, 2]).unwrap();
    Pwm::from_group(group, 65_536, ClampPolicy::Reject, policy)
}

#[test]
fn barycentric_at_vertices() {
    // At each vertex of a triangle the weights are exactly one for that
    // vertex and zero for the other two.
    let leds = unit_leds();
    let t = LedTriangle::new(0, 1, 2, &leds).unwrap();
    assert_eq!(t.get_barycentric(XyColor::new(0, 0)), [MICRO as i128, 0, 0]);
    assert_eq!(t.get_barycentric(XyColor::new(MICRO, 0)), [0, MICRO as i128, 0]);
    assert_eq!(t.get_barycentric(XyColor::new(0, MICRO)), [0, 0, MICRO as i128]);
}

#[test]
fn barycentric_at_centroid() {
    // At the centroid all three weights are one third (the last one takes
    // the rounding remainder).
    let leds = vec![
        Led::new("A", 0, 0, MICRO),
        Led::new("B", 300_000, 0, MICRO),
        Led::new("C", 0, 300_000, MICRO),
    ];
    let t = LedTriangle::new(0, 1, 2, &leds).unwrap();
    let w = t.get_barycentric(XyColor::new(100_000, 100_000));
    assert_eq!(w, [333_333, 333_333, 333_334]);
}

#[test]
fn degenerate_triangles_are_rejected() {
    // Collinear chromaticities span no area.
    let leds = vec![
        Led::new("A", 0, 0, MICRO),
        Led::new("B", 100_000, 100_000, MICRO),
        Led::new("C", 300_000, 300_000, MICRO),
    ];
    assert!(LedTriangle::new(0, 1, 2, &leds).is_err());
    // An index past the channel list is refused too.
    let good = unit_leds();
    assert!(LedTriangle::new(0, 1, 3, &good).is_err());
    // Repeating a channel collapses the triangle.
    assert!(LedTriangle::new(0, 1, 1, &good).is_err());
}

#[test]
fn set_triangles_validates_the_whole_list() {
    let mut group = LedGroup::new().unwrap();
    group.add_led(Led::new("A", 0, 0, MICRO));
    group.add_led(Led::new("B", MICRO, 0, MICRO));
    group.add_led(Led::new("C", 0, MICRO, MICRO));
    // A list that is not whole triples is refused.
    assert!(group.set_triangles(&vec![0, 1]).is_err());
    assert_eq!(group.triangles.len(), 0);
    // A degenerate triple is refused and nothing is installed.
    assert!(group.set_triangles(&vec![0, 1, 1]).is_err());
    assert_eq!(group.triangles.len(), 0);
    // A valid list is installed whole.
    assert!(group.set_triangles(&vec![0, 1, 2]).is_ok());
    assert_eq!(group.triangles.len(), 1);
    // An empty triangulation (too few or collinear channels) is valid and
    // leaves no triangles.
    assert!(group.set_triangles(&vec![]).is_ok());
    assert_eq!(group.triangles.len(), 0);
}

#[test]
fn adding_a_channel_discards_stale_triangles() {
    let mut group = LedGroup::new().unwrap();
    group.add_led(Led::new("A", 0, 0, MICRO));
    group.add_led(Led::new("B", MICRO, 0, MICRO));
    group.add_led(Led::new("C", 0, MICRO, MICRO));
    group.set_triangles(&vec![0, 1, 2]).unwrap();
    assert_eq!(group.triangles.len(), 1);
    group.add_led(Led::new("D", 500_000, 500_000, MICRO));
    assert_eq!(group.leds.len(), 4);
    assert_eq!(group.triangles.len(), 0);
}

#[test]
fn set_color_inside_the_gamut() {
    // A target inside the only triangle drives all three channels, and
    // with the brightness normalization neutral (all maxima one unit) the
    // duties sum to the luminance share of the full duty.
    let mut pwm = unit_gamut(OutOfGamutPolicy::Error);
    let target = XyColor::new(200_000, 200_000).with_brightness(500_000);
    assert_eq!((target.x, target.y, target.z), (500_000, 500_000, 1_500_000));
    pwm.set_color(target).unwrap();
    let duties = pwm.report();
    assert_eq!(duties, vec![19_660, 6_553, 6_553]);
    let sum: u64 = duties.iter().sum();
    let expected: u64 = 500_000u64 * 65_536 / (MICRO as u64);
    assert!(expected - 3 <= sum && sum <= expected, "sum {sum} vs {expected}");
    assert!(duties.iter().all(|&d| d > 0));
}

#[test]
fn set_color_outside_the_gamut() {
    // A target outside every triangle reports no match and turns every
    // channel off under the error policy ...
    let mut pwm = unit_gamut(OutOfGamutPolicy::Error);
    let target = XyColor::new(2_000_000, 2_000_000).with_brightness(500_000);
    assert_eq!(pwm.set_color(target), Err(MixingError::OutOfGamut));
    assert_eq!(pwm.report(), vec![0, 0, 0]);
    // ... and silently goes dark under the all-off policy.
    let mut dark = unit_gamut(OutOfGamutPolicy::AllOff);
    assert_eq!(dark.set_color(target), Ok(()));
    assert_eq!(dark.report(), vec![0, 0, 0]);
}

#[test]
fn zero_brightness_turns_everything_off() {
    let mut pwm = Pwm::new().unwrap();
    pwm.set_temperature_and_brightness(3_000_000_000, 0).unwrap();
    assert_eq!(pwm.report(), vec![0, 0, 0, 0, 0, 0]);
}

#[test]
fn warm_white_mix_at_2700k() {
    // 2700 K at full brightness falls into the triangle of the green,
    // cold-white and warm-white channels; the blue channel stays off.
    let mut pwm = Pwm::new().unwrap();
    pwm.set_temperature_and_brightness(2_700_000_000, 1_000_000).unwrap();
    let duties = pwm.report();
    assert_eq!(duties, vec![0, 11, 0, 51, 261, 0]);
    assert_eq!(duties[2], 0, "blue must stay off at 2700 K");
    assert!(duties[1] > 0 && duties[3] > 0 && duties[4] > 0);
}

#[test]
fn rejecting_controller_refuses_out_of_range_temperatures() {
    let mut pwm = unit_gamut(OutOfGamutPolicy::Error);
    assert_eq!(
        pwm.set_temperature_and_brightness(1_000_000_000, 500_000),
        Err(MixingError::OutOfBounds)
    );
    assert_eq!(pwm.report(), vec![0, 0, 0]);
}

#[test]
fn set_amber_drives_only_the_amber_channel() {
    let mut pwm = Pwm::new().unwrap();
    pwm.set_amber(500_000).unwrap();
    assert_eq!(pwm.report(), vec![0, 0, 0, 0, 0, 32_768]);
}

#[test]
fn set_duties_scales_each_fraction() {
    let mut pwm = Pwm::new().unwrap();
    pwm.set_duties(&vec![0, MICRO, 500_000, 250_000, 0, MICRO]).unwrap();
    assert_eq!(pwm.report(), vec![0, 65_536, 32_768, 16_384, 0, 65_536]);
}

#[test]
fn lerp_moves_toward_the_target_without_overshoot() {
    assert_eq!(lerp(0, 1_000_000, 10_000), 10_000);
    assert_eq!(lerp(3_000_000, 6_500_000, 10_000), 3_035_000);
    assert_eq!(lerp(1_000, 0, 500_000), 500);
    assert_eq!(lerp(42, 42, 700_000), 42);
    assert_eq!(lerp(0, 1_000_000, MICRO), 1_000_000);
    assert_eq!(lerp(0, 1_000_000, 0), 0);
    let mut current: i64 = 0;
    for _ in 0..200 {
        let next = lerp(current, 1_000_000, 50_000);
        assert!(current <= next && next <= 1_000_000);
        current = next;
    }
    assert!(current > 900_000);
}
