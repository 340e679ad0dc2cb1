use display_adaptor::utils::{get_max_brightness, get_min_brightness};

#[test]
fn custom_devmax_override_wins_when_positive() {
    let c = get_max_brightness(Some(1023), Some(511), Some(400));
    assert_eq!(c.value, 1023);
    assert_eq!(c.persist, None);
    // a non-positive override is ignored
    let c = get_max_brightness(Some(0), Some(511), Some(400));
    assert_eq!(c.value, 511);
    let c = get_max_brightness(Some(-3), None, Some(400));
    assert_eq!(c.value, 400);
}

#[test]
fn cached_hw_max_wins_over_sysfs() {
    let c = get_max_brightness(None, Some(2047), Some(400));
    assert_eq!(c.value, 2047);
    assert_eq!(c.persist, None);
}

#[test]
fn detected_hw_max_is_cached_back() {
    let c = get_max_brightness(None, None, Some(400));
    assert_eq!(c.value, 400);
    assert_eq!(c.persist, Some(400));
}

#[test]
fn unreadable_hw_max_defaults() {
    let c = get_max_brightness(None, None, None);
    assert_eq!(c.value, 511);
    assert_eq!(c.persist, None);
}

#[test]
fn cached_hw_min_wins() {
    let c = get_min_brightness(Some(2), Some(5));
    assert_eq!(c.value, 2);
    assert_eq!(c.persist, None);
}

#[test]
fn detected_hw_min_zero_is_lifted_to_one() {
    let c = get_min_brightness(None, Some(0));
    assert_eq!(c.value, 1);
    assert_eq!(c.persist, Some(1));
    let c = get_min_brightness(None, Some(4));
    assert_eq!(c.value, 4);
    assert_eq!(c.persist, Some(4));
}

#[test]
fn unreadable_hw_min_defaults_to_one() {
    let c = get_min_brightness(None, None);
    assert_eq!(c.value, 1);
    assert_eq!(c.persist, None);
}
