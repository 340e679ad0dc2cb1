use display_adaptor::modes::{
    dbg_on, get_brightness_mode, is_float_mode, is_ips_mode, is_lux_aod_mode, is_lux_sentinel,
    is_oplus_panel_mode, ScalingMode,
};
use display_adaptor::parse::{parse_i32, parse_leading_i32, trim_whitespace};
use display_adaptor::state::{
    get_prop_brightness, get_prop_int, get_screen_state, ScreenState,
};
use display_adaptor::utils::is_panoramic_aod_enabled;

#[test]
fn parse_i32_accepts_plain_decimals() {
    assert_eq!(parse_i32("42"), Some(42));
    assert_eq!(parse_i32("0"), Some(0));
    assert_eq!(parse_i32("-7"), Some(-7));
    assert_eq!(parse_i32("+9"), Some(9));
    assert_eq!(parse_i32("007"), Some(7));
}

#[test]
fn parse_i32_honours_the_i32_limits() {
    assert_eq!(parse_i32("2147483647"), Some(2147483647));
    assert_eq!(parse_i32("2147483648"), None);
    assert_eq!(parse_i32("-2147483648"), Some(-2147483648));
    assert_eq!(parse_i32("-2147483649"), None);
    assert_eq!(parse_i32("99999999999999999999"), None);
}

#[test]
fn parse_i32_rejects_garbage() {
    assert_eq!(parse_i32(""), None);
    assert_eq!(parse_i32("-"), None);
    assert_eq!(parse_i32("+"), None);
    assert_eq!(parse_i32("12a"), None);
    assert_eq!(parse_i32("1 2"), None);
    assert_eq!(parse_i32(" 12"), None);
    assert_eq!(parse_i32("--5"), None);
    assert_eq!(parse_i32("1.5"), None);
}

#[test]
fn leading_parse_models_sysfs_reads() {
    assert_eq!(parse_leading_i32("123\n"), Some(123));
    assert_eq!(parse_leading_i32(" 500 "), Some(500));
    assert_eq!(parse_leading_i32("123abc"), Some(123));
    assert_eq!(parse_leading_i32("abc"), None);
    assert_eq!(parse_leading_i32(""), None);
    assert_eq!(parse_leading_i32("99999999999"), None);
    assert_eq!(parse_leading_i32("-5"), None);
}

#[test]
fn trim_strips_whitespace_like_str_trim() {
    assert_eq!(trim_whitespace("  x y\t\n"), "x y");
    assert_eq!(trim_whitespace("abc"), "abc");
    assert_eq!(trim_whitespace(" \n\t "), "");
    assert_eq!(trim_whitespace(""), "");
    // the non-ASCII White_Space characters are stripped too
    assert_eq!(trim_whitespace("\u{a0}\u{2003}1\u{3000}"), "1");
    assert_eq!(trim_whitespace("\u{a0}1\u{85}"), "\u{a0}1\u{85}".trim());
}

#[test]
fn screen_state_decoding_fails_open() {
    assert_eq!(get_screen_state(Some("0")), ScreenState::Off);
    assert_eq!(get_screen_state(Some("1")), ScreenState::OffAod);
    assert_eq!(get_screen_state(Some("2")), ScreenState::On);
    assert_eq!(get_screen_state(Some("3")), ScreenState::Doze);
    assert_eq!(get_screen_state(Some("4")), ScreenState::DozeSuspend);
    assert_eq!(get_screen_state(Some("7")), ScreenState::On);
    assert_eq!(get_screen_state(Some("junk")), ScreenState::On);
    assert_eq!(get_screen_state(None), ScreenState::On);
}

#[test]
fn brightness_decoding_takes_integer_part() {
    assert_eq!(get_prop_brightness(Some("123.45")), 123);
    assert_eq!(get_prop_brightness(Some("4099")), 4099);
    assert_eq!(get_prop_brightness(Some("0")), -1);
    assert_eq!(get_prop_brightness(Some("0.73")), -1);
    assert_eq!(get_prop_brightness(Some("abc")), 222);
    assert_eq!(get_prop_brightness(Some(".5")), 222);
    assert_eq!(get_prop_brightness(None), 222);
}

#[test]
fn prop_int_decoding() {
    assert_eq!(get_prop_int(Some("511")), Some(511));
    assert_eq!(get_prop_int(Some("x")), None);
    assert_eq!(get_prop_int(None), None);
}

#[test]
fn flag_properties_compare_exactly() {
    assert!(dbg_on(Some("true")));
    assert!(!dbg_on(Some("True")));
    assert!(!dbg_on(Some("true ")));
    assert!(!dbg_on(None));
    assert!(is_oplus_panel_mode(Some("true")));
    assert!(!is_oplus_panel_mode(Some("false")));
    assert!(is_float_mode(Some("true")));
    assert!(!is_float_mode(None));
    assert!(is_lux_aod_mode(Some("true")));
    assert!(!is_lux_aod_mode(Some("1")));
}

#[test]
fn display_type_selects_ips() {
    assert!(is_ips_mode(Some("IPS")));
    assert!(!is_ips_mode(Some("AMOLED")));
    assert!(!is_ips_mode(Some("ips")));
    assert!(!is_ips_mode(None));
}

#[test]
fn brightness_mode_selection() {
    assert_eq!(get_brightness_mode(Some("0")), ScalingMode::Curved);
    assert_eq!(get_brightness_mode(Some("1")), ScalingMode::Linear);
    assert_eq!(get_brightness_mode(Some("2")), ScalingMode::Custom);
    assert_eq!(get_brightness_mode(Some("9")), ScalingMode::Curved);
    assert_eq!(get_brightness_mode(Some("x")), ScalingMode::Curved);
    assert_eq!(get_brightness_mode(None), ScalingMode::Curved);
}

#[test]
fn panoramic_answer_is_trimmed_output_one() {
    assert!(is_panoramic_aod_enabled(Some("1")));
    assert!(is_panoramic_aod_enabled(Some(" 1\n")));
    assert!(is_panoramic_aod_enabled(Some("\u{a0}1\u{a0}")));
    assert!(!is_panoramic_aod_enabled(Some("0")));
    assert!(!is_panoramic_aod_enabled(Some("11")));
    assert!(!is_panoramic_aod_enabled(None));
}

#[test]
fn lux_sentinel_detection() {
    assert!(is_lux_sentinel(Some("2937.773")));
    assert!(is_lux_sentinel(Some("2937.773\n")));
    assert!(!is_lux_sentinel(Some("2937.772")));
    assert!(!is_lux_sentinel(None));
}
