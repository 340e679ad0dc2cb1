use display_adaptor::scaling::{
    curved_internal_value, scale_brightness_curved, scale_brightness_custom,
    scale_brightness_linear,
};

#[test]
fn curved_clamps_below_and_above() {
    assert_eq!(scale_brightness_curved(222, 1, 511, 222, 8191), 1);
    assert_eq!(scale_brightness_curved(0, 1, 511, 222, 8191), 1);
    assert_eq!(scale_brightness_curved(-50, 1, 511, 222, 8191), 1);
    assert_eq!(scale_brightness_curved(8191, 1, 511, 222, 8191), 511);
    assert_eq!(scale_brightness_curved(100000, 1, 511, 222, 8191), 511);
}

#[test]
fn curved_example_mapping() {
    // hwMin=1, hwMax=511, inMin=222, inMax=8191
    assert_eq!(scale_brightness_curved(222, 1, 511, 222, 8191), 1);
    assert_eq!(scale_brightness_curved(8191, 1, 511, 222, 8191), 511);
    // value 4099: percent = 3877*100/7969 = 48, internal = 1 + 56*48/70 = 39,
    // hw = 1 + 39*510/511 = 39
    assert_eq!(scale_brightness_curved(4099, 1, 511, 222, 8191), 39);
}

#[test]
fn curved_internal_table_breakpoints() {
    assert_eq!(curved_internal_value(0), 1);
    assert_eq!(curved_internal_value(70), 57);
    assert_eq!(curved_internal_value(90), 254);
    assert_eq!(curved_internal_value(100), 511);
}

#[test]
fn curved_internal_table_truncation() {
    // integer truncation inside the segments
    assert_eq!(curved_internal_value(35), 1 + 56 * 35 / 70);
    assert_eq!(curved_internal_value(71), 57 + 197 * 1 / 20);
    assert_eq!(curved_internal_value(91), 254 + 257 * 1 / 10);
    assert_eq!(curved_internal_value(-3), 511);
    assert_eq!(curved_internal_value(101), 511);
}

#[test]
fn curved_monotone_sweep() {
    let mut last = i32::MIN;
    for v in 0..=9000 {
        let r = scale_brightness_curved(v, 1, 511, 222, 8191);
        assert!(r >= last);
        assert!((1..=511).contains(&r));
        last = r;
    }
}

#[test]
fn curved_degenerate_hardware_range() {
    assert_eq!(scale_brightness_curved(50, 10, 10, 0, 100), 10);
    assert_eq!(scale_brightness_curved(50, -4, -9, 0, 100), 0);
}

#[test]
fn linear_endpoints_and_rounding() {
    assert_eq!(scale_brightness_linear(0, 0, 100, 0, 100), 0);
    assert_eq!(scale_brightness_linear(100, 0, 100, 0, 100), 100);
    assert_eq!(scale_brightness_linear(50, 0, 100, 0, 100), 50);
    // 1/3 of 10 = 3.33 rounds down, 2/3 of 10 = 6.67 rounds up
    assert_eq!(scale_brightness_linear(1, 0, 10, 0, 3), 3);
    assert_eq!(scale_brightness_linear(2, 0, 10, 0, 3), 7);
    // half-way rounds up: 1/2 of 5 = 2.5 -> 3
    assert_eq!(scale_brightness_linear(1, 0, 5, 0, 2), 3);
}

#[test]
fn linear_clamps_and_degenerate() {
    assert_eq!(scale_brightness_linear(-10, 7, 99, 0, 100), 7);
    assert_eq!(scale_brightness_linear(250, 7, 99, 0, 100), 99);
    assert_eq!(scale_brightness_linear(50, 20, 20, 0, 100), 20);
    assert_eq!(scale_brightness_linear(50, -3, -7, 0, 100), 0);
}

#[test]
fn linear_monotone_sweep() {
    let mut last = i32::MIN;
    for v in -10..=110 {
        let r = scale_brightness_linear(v, 3, 977, 0, 100);
        assert!(r >= last);
        assert!((3..=977).contains(&r));
        last = r;
    }
}

#[test]
fn custom_knee_pins_mid_point() {
    // 75% of the input range lands exactly on 255
    assert_eq!(scale_brightness_custom(75, 1, 511, 0, 100), 255);
    assert_eq!(scale_brightness_custom(3, 1, 511, 0, 4), 255);
}

#[test]
fn custom_endpoints_and_segments() {
    assert_eq!(scale_brightness_custom(0, 1, 511, 0, 100), 1);
    assert_eq!(scale_brightness_custom(100, 1, 511, 0, 100), 511);
    // below the knee: ratio 50/75 over [1, 255]
    let below = scale_brightness_custom(50, 1, 511, 0, 100);
    assert!((1..=255).contains(&below));
    // above the knee: ratio (90-75)/25 over [255, 511]
    let above = scale_brightness_custom(90, 1, 511, 0, 100);
    assert!((255..=511).contains(&above));
    assert!(below <= above);
}

#[test]
fn custom_monotone_sweep() {
    let mut last = i32::MIN;
    for v in -5..=105 {
        let r = scale_brightness_custom(v, 1, 511, 0, 100);
        assert!(r >= last);
        assert!((1..=511).contains(&r));
        last = r;
    }
}

#[test]
fn custom_mid_point_is_fixed_even_above_hw_max() {
    // the 255 mid-point does not scale with the hardware range
    assert_eq!(scale_brightness_custom(75, 0, 100, 0, 100), 255);
    assert_eq!(scale_brightness_custom(100, 0, 100, 0, 100), 100);
}
