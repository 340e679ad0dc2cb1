//! The fixed sysfs paths and property keys the adaptor works against.

use vstd::prelude::*;

verus! {

/// Sysfs file holding the hardware minimum brightness.
pub fn min_bright_path() -> (r: &'static str)
    ensures
        r@ == "/sys/class/leds/lcd-backlight/min_brightness"@,
{
    "/sys/class/leds/lcd-backlight/min_brightness"
}

/// Sysfs file holding the hardware maximum brightness.
pub fn max_bright_path() -> (r: &'static str)
    ensures
        r@ == "/sys/class/leds/lcd-backlight/max_hw_brightness"@,
{
    "/sys/class/leds/lcd-backlight/max_hw_brightness"
}

/// Writable sysfs brightness file.
pub fn bright_path() -> (r: &'static str)
    ensures
        r@ == "/sys/class/leds/lcd-backlight/brightness"@,
{
    "/sys/class/leds/lcd-backlight/brightness"
}

/// Live system-reported logical maximum.
pub fn sys_prop_max() -> (r: &'static str)
    ensures
        r@ == "sys.oplus.multibrightness"@,
{
    "sys.oplus.multibrightness"
}

/// Live system-reported logical minimum.
pub fn sys_prop_min() -> (r: &'static str)
    ensures
        r@ == "sys.oplus.multibrightness.min"@,
{
    "sys.oplus.multibrightness.min"
}

/// Persisted logical maximum.
pub fn persist_max() -> (r: &'static str)
    ensures
        r@ == "persist.sys.rianixia.multibrightness.max"@,
{
    "persist.sys.rianixia.multibrightness.max"
}

/// Persisted logical minimum.
pub fn persist_min() -> (r: &'static str)
    ensures
        r@ == "persist.sys.rianixia.multibrightness.min"@,
{
    "persist.sys.rianixia.multibrightness.min"
}

/// Log tag of the adaptor.
pub fn log_tag() -> (r: &'static str)
    ensures
        r@ == "Xia-DisplayAdaptor"@,
{
    "Xia-DisplayAdaptor"
}

/// Debug-logging toggle.
pub fn persist_dbg() -> (r: &'static str)
    ensures
        r@ == "persist.sys.rianixia.display-debug"@,
{
    "persist.sys.rianixia.display-debug"
}

/// Secondary brightness source file used in panel mode.
pub fn oplus_bright_path() -> (r: &'static str)
    ensures
        r@ == "/data/addon/oplus_display/oplus_brightness"@,
{
    "/data/addon/oplus_display/oplus_brightness"
}

/// Panel-mode logical minimum.
pub fn persist_oplus_min() -> (r: &'static str)
    ensures
        r@ == "persist.sys.rianixia-display.min"@,
{
    "persist.sys.rianixia-display.min"
}

/// Panel-mode logical maximum.
pub fn persist_oplus_max() -> (r: &'static str)
    ensures
        r@ == "persist.sys.rianixia-display.max"@,
{
    "persist.sys.rianixia-display.max"
}

/// Whether the device runs in panel mode.
pub fn is_oplus_panel_prop() -> (r: &'static str)
    ensures
        r@ == "persist.sys.rianixia.is-displaypanel.support"@,
{
    "persist.sys.rianixia.is-displaypanel.support"
}

/// Override for the device maximum used in scaling.
pub fn persist_custom_devmax_prop() -> (r: &'static str)
    ensures
        r@ == "persist.sys.rianixia.custom.devmax.brightness"@,
{
    "persist.sys.rianixia.custom.devmax.brightness"
}

/// Panel type, `IPS` or `AMOLED`.
pub fn display_type_prop() -> (r: &'static str)
    ensures
        r@ == "persist.sys.rianixia.display.type"@,
{
    "persist.sys.rianixia.display.type"
}

/// Cached hardware minimum.
pub fn persist_hw_min() -> (r: &'static str)
    ensures
        r@ == "persist.sys.rianixia.hw_min"@,
{
    "persist.sys.rianixia.hw_min"
}

/// Cached hardware maximum.
pub fn persist_hw_max() -> (r: &'static str)
    ensures
        r@ == "persist.sys.rianixia.hw_max"@,
{
    "persist.sys.rianixia.hw_max"
}

/// Selected scaling curve: `0` curved, `1` linear, `2` custom.
pub fn persist_bright_mode_prop() -> (r: &'static str)
    ensures
        r@ == "persist.sys.rianixia.brightness.mode"@,
{
    "persist.sys.rianixia.brightness.mode"
}

/// Lux-AOD feature toggle.
pub fn persist_lux_aod_prop() -> (r: &'static str)
    ensures
        r@ == "persist.sys.rianixia.oplus.lux_aod"@,
{
    "persist.sys.rianixia.oplus.lux_aod"
}

/// Forced brightness while lux-AOD content is shown.
pub fn persist_lux_aod_brightness_prop() -> (r: &'static str)
    ensures
        r@ == "persist.sys.rianixia.oplus.lux_aod.brightness"@,
{
    "persist.sys.rianixia.oplus.lux_aod.brightness"
}

/// Float-format brightness property toggle.
pub fn is_float_prop() -> (r: &'static str)
    ensures
        r@ == "persist.sys.rianixia.brightness.isfloat"@,
{
    "persist.sys.rianixia.brightness.isfloat"
}

/// The property carrying the OS-reported brightness.
pub fn brightness_prop() -> (r: &'static str)
    ensures
        r@ == "debug.tracing.screen_brightness"@,
{
    "debug.tracing.screen_brightness"
}

/// The property carrying the screen-state code.
pub fn screen_state_prop() -> (r: &'static str)
    ensures
        r@ == "debug.tracing.screen_state"@,
{
    "debug.tracing.screen_state"
}

} // verus!
