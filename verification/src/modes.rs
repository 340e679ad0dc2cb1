//! The per-tick decision logic of the two operating modes.
//!
//! `run` is one step of the default control loop: it folds the sampled
//! screen state and brightness into the loop state and decides what, if
//! anything, should be handed to the writer.  `panel_step` is one step of
//! the panel-mode loop, which ramps the written value toward the scaled
//! target instead of jumping.  The surrounding loop — the sleeps, property
//! reads and file I/O — lives outside the library and feeds both functions
//! plain sampled values.

use vstd::prelude::*;
use crate::constants::BRIGHTNESS_OFF;
use crate::parse::{spec_parse_i32, spec_trim, str_content_eq, trim_whitespace};
use crate::range::BrightnessRange;
use crate::scaling::{
    scale_brightness_curved, scale_brightness_custom, scale_brightness_linear, spec_scale_curved,
    spec_scale_custom, spec_scale_linear,
};
use crate::state::{get_prop_int, ScreenState};

verus! {

/// The selected scaling curve.
#[derive(Clone, Copy, PartialEq, Eq, Structural, Debug)]
pub enum ScalingMode {
    Curved,
    Linear,
    Custom,
}

/// The curve a brightness-mode code selects; unknown and unreadable codes
/// select the curved default.
pub open spec fn spec_mode_of_code(code: Option<i32>) -> ScalingMode {
    match code {
        Some(1) => ScalingMode::Linear,
        Some(2) => ScalingMode::Custom,
        _ => ScalingMode::Curved,
    }
}

/// Whether a boolean property value reads `true`.
pub fn dbg_on(value: Option<&str>) -> (r: bool)
    ensures
        r == (value matches Some(s) && s@ == "true"@),
{
    match value {
        Some(s) => str_content_eq(s, "true"),
        None => false,
    }
}

/// Whether the device runs in panel mode.
pub fn is_oplus_panel_mode(value: Option<&str>) -> (r: bool)
    ensures
        r == (value matches Some(s) && s@ == "true"@),
{
    match value {
        Some(s) => str_content_eq(s, "true"),
        None => false,
    }
}

/// Whether the brightness property carries a float in `0.0..=1.0`.
pub fn is_float_mode(value: Option<&str>) -> (r: bool)
    ensures
        r == (value matches Some(s) && s@ == "true"@),
{
    match value {
        Some(s) => str_content_eq(s, "true"),
        None => false,
    }
}

/// Whether the panel is an IPS type, which has no AOD.
pub fn is_ips_mode(value: Option<&str>) -> (r: bool)
    ensures
        r == (value matches Some(s) && s@ == "IPS"@),
{
    match value {
        Some(s) => str_content_eq(s, "IPS"),
        None => false,
    }
}

/// Whether the lux-AOD feature is switched on.
pub fn is_lux_aod_mode(value: Option<&str>) -> (r: bool)
    ensures
        r == (value matches Some(s) && s@ == "true"@),
{
    match value {
        Some(s) => str_content_eq(s, "true"),
        None => false,
    }
}

/// The scaling curve the brightness-mode property selects.
pub fn get_brightness_mode(value: Option<&str>) -> (r: ScalingMode)
    ensures
        value is None ==> r == ScalingMode::Curved,
        value matches Some(s) ==> r == spec_mode_of_code(spec_parse_i32(s@)),
{
    match get_prop_int(value) {
        Some(1) => ScalingMode::Linear,
        Some(2) => ScalingMode::Custom,
        _ => ScalingMode::Curved,
    }
}

/// Whether the raw brightness property carries the sentinel reading that
/// marks lux-AOD content in doze.
pub fn is_lux_sentinel(value: Option<&str>) -> (r: bool)
    ensures
        r == (value matches Some(s) && spec_trim(s@) == "2937.773"@),
{
    match value {
        Some(s) => {
            let t = trim_whitespace(s);
            str_content_eq(t, "2937.773")
        },
        None => false,
    }
}

/// The selected curve applied to a value.
pub open spec fn spec_scale(
    mode: ScalingMode,
    val: int,
    hw_min: int,
    hw_max: int,
    in_min: int,
    in_max: int,
) -> int {
    match mode {
        ScalingMode::Linear => spec_scale_linear(val, hw_min, hw_max, in_min, in_max),
        ScalingMode::Custom => spec_scale_custom(val, hw_min, hw_max, in_min, in_max),
        ScalingMode::Curved => spec_scale_curved(val, hw_min, hw_max, in_min, in_max),
    }
}

/// The selected curve applied to a value.
pub fn scale_brightness(
    mode: ScalingMode,
    val: i32,
    hw_min: i32,
    hw_max: i32,
    input_min: i32,
    input_max: i32,
) -> (r: i32)
    ensures
        r as int == spec_scale(
            mode,
            val as int,
            hw_min as int,
            hw_max as int,
            input_min as int,
            input_max as int,
        ),
{
    match mode {
        ScalingMode::Linear => scale_brightness_linear(val, hw_min, hw_max, input_min, input_max),
        ScalingMode::Custom => scale_brightness_custom(val, hw_min, hw_max, input_min, input_max),
        ScalingMode::Curved => scale_brightness_curved(val, hw_min, hw_max, input_min, input_max),
    }
}

/// Law: whichever curve is selected, values at or below `in_min` map to
/// `hw_min`, values at or above `in_max` map to `hw_max`, and the result
/// stays in `[hw_min, hw_max]`.  The custom curve asks that its fixed
/// mid-point 255 lie inside the hardware range.
pub proof fn lemma_scale_clamps(
    mode: ScalingMode,
    val: int,
    hw_min: int,
    hw_max: int,
    in_min: int,
    in_max: int,
)
    requires
        hw_min < hw_max,
        in_min < in_max,
        mode is Custom ==> hw_min <= 255 <= hw_max,
    ensures
        val <= in_min ==> spec_scale(mode, val, hw_min, hw_max, in_min, in_max) == hw_min,
        val >= in_max ==> spec_scale(mode, val, hw_min, hw_max, in_min, in_max) == hw_max,
        hw_min <= spec_scale(mode, val, hw_min, hw_max, in_min, in_max) <= hw_max,
{
    match mode {
        ScalingMode::Curved => crate::scaling::lemma_scale_curved_clamps(
            val,
            hw_min,
            hw_max,
            in_min,
            in_max,
        ),
        ScalingMode::Linear => crate::scaling::lemma_scale_linear_clamps(
            val,
            hw_min,
            hw_max,
            in_min,
            in_max,
        ),
        ScalingMode::Custom => {
            crate::scaling::lemma_scale_custom_endpoints(val, hw_min, hw_max, in_min, in_max);
            crate::scaling::lemma_scale_custom_bounds(val, hw_min, hw_max, in_min, in_max);
        },
    }
}

/// Law: whichever curve is selected, scaling is monotone non-decreasing in
/// the input value, under the same range conditions as `lemma_scale_clamps`.
pub proof fn lemma_scale_monotone(
    mode: ScalingMode,
    v1: int,
    v2: int,
    hw_min: int,
    hw_max: int,
    in_min: int,
    in_max: int,
)
    requires
        hw_min < hw_max,
        in_min < in_max,
        v1 <= v2,
        mode is Custom ==> hw_min <= 255 <= hw_max,
    ensures
        spec_scale(mode, v1, hw_min, hw_max, in_min, in_max) <= spec_scale(
            mode,
            v2,
            hw_min,
            hw_max,
            in_min,
            in_max,
        ),
{
    match mode {
        ScalingMode::Curved => crate::scaling::lemma_scale_curved_monotone(
            v1,
            v2,
            hw_min,
            hw_max,
            in_min,
            in_max,
        ),
        ScalingMode::Linear => crate::scaling::lemma_scale_linear_monotone(
            v1,
            v2,
            hw_min,
            hw_max,
            in_min,
            in_max,
        ),
        ScalingMode::Custom => crate::scaling::lemma_scale_custom_monotone(
            v1,
            v2,
            hw_min,
            hw_max,
            in_min,
            in_max,
        ),
    }
}

/// What the loop remembers between ticks.
#[derive(Clone, Copy, PartialEq, Eq, Structural, Debug)]
pub struct LoopState {
    pub prev_state: ScreenState,
    pub prev_bright: i32,
}

/// One tick's sampled inputs.
#[derive(Clone, Copy, PartialEq, Eq, Structural, Debug)]
pub struct TickInputs {
    pub cur_state: ScreenState,
    pub raw_bright: i32,
    pub mode: ScalingMode,
    pub is_ips: bool,
    pub is_lux_aod: bool,
    pub panoramic: bool,
    pub lux_target: Option<i32>,
    pub lux_sentinel: bool,
}

/// What a tick decided: whether to debounce-sleep first, and the value to
/// hand to the writer, if any.
#[derive(Clone, Copy, PartialEq, Eq, Structural, Debug)]
pub struct TickDecision {
    pub sleep_before: bool,
    pub write: Option<i32>,
}

/// The brightness a tick works with: a raw reading of `-1` (the skip
/// sentinel) keeps the previous value.
pub open spec fn spec_effective_bright(raw: int, prev: int) -> int {
    if raw == -1 {
        prev
    } else {
        raw
    }
}

/// The decision table: the hardware value a tick aims for, given the
/// states, the effective brightness, and the feature flags.  `last_val`
/// stands for "keep what is written".
pub open spec fn spec_tick_target(
    prev_state: ScreenState,
    cur_state: ScreenState,
    cur_bright: int,
    last_val: int,
    hw_min: int,
    hw_max: int,
    in_min: int,
    in_max: int,
    mode: ScalingMode,
    is_ips: bool,
    is_lux_aod: bool,
    panoramic: bool,
    lux_target: Option<i32>,
    lux_sentinel: bool,
) -> int {
    if cur_state is On {
        spec_scale(mode, cur_bright, hw_min, hw_max, in_min, in_max)
    } else if is_ips {
        BRIGHTNESS_OFF as int
    } else if cur_state is Off || cur_state is OffAod {
        BRIGHTNESS_OFF as int
    } else {
        // the remaining states are Doze and DozeSuspend
        if is_lux_aod && panoramic {
            if lux_target is Some && lux_target->0 > 0 {
                lux_target->0 as int
            } else {
                last_val
            }
        } else if cur_state is Doze && is_lux_aod {
            if lux_sentinel {
                if lux_target is Some {
                    lux_target->0 as int
                } else {
                    1
                }
            } else {
                spec_scale(mode, cur_bright, hw_min, hw_max, in_min, in_max)
            }
        } else if panoramic {
            last_val
        } else {
            BRIGHTNESS_OFF as int
        }
    }
}

/// The decision one default-mode tick produces: nothing when neither the
/// effective brightness nor the screen state changed; otherwise the table's
/// target, submitted only when it differs from the last written value, with
/// a debounce sleep on the wake transition.
pub open spec fn spec_run(
    st: LoopState,
    last_val: int,
    hw_min: int,
    hw_max: int,
    range: BrightnessRange,
    inp: TickInputs,
) -> TickDecision {
    let cur = spec_effective_bright(inp.raw_bright as int, st.prev_bright as int);
    if cur == st.prev_bright as int && inp.cur_state == st.prev_state {
        TickDecision { sleep_before: false, write: None }
    } else {
        let target = spec_tick_target(
            st.prev_state,
            inp.cur_state,
            cur,
            last_val,
            hw_min,
            hw_max,
            range.min as int,
            range.max as int,
            inp.mode,
            inp.is_ips,
            inp.is_lux_aod,
            inp.panoramic,
            inp.lux_target,
            inp.lux_sentinel,
        );
        TickDecision {
            sleep_before: inp.cur_state is On && !(st.prev_state is On),
            write: if target == last_val {
                None
            } else {
                Some(target as i32)
            },
        }
    }
}

/// One tick of the default control loop.  Folds the sampled inputs into the
/// loop state and returns the tick's decision.
pub fn run(
    st: &mut LoopState,
    last_val: i32,
    hw_min: i32,
    hw_max: i32,
    range: &BrightnessRange,
    inp: &TickInputs,
) -> (d: TickDecision)
    ensures
        final(st).prev_state == inp.cur_state,
        final(st).prev_bright as int == spec_effective_bright(
            inp.raw_bright as int,
            old(st).prev_bright as int,
        ),
        d == spec_run(*old(st), last_val as int, hw_min as int, hw_max as int, *range, *inp),
{
    let cur_bright: i32 = if inp.raw_bright == -1 {
        st.prev_bright
    } else {
        inp.raw_bright
    };
    let changed = cur_bright != st.prev_bright || inp.cur_state != st.prev_state;
    let d = if !changed {
        TickDecision { sleep_before: false, write: None }
    } else {
        let target: i32 = if inp.cur_state == ScreenState::On {
            scale_brightness(inp.mode, cur_bright, hw_min, hw_max, range.min, range.max)
        } else if inp.is_ips {
            BRIGHTNESS_OFF
        } else if inp.cur_state == ScreenState::Off || inp.cur_state == ScreenState::OffAod {
            BRIGHTNESS_OFF
        } else {
            if inp.is_lux_aod && inp.panoramic {
                match inp.lux_target {
                    Some(t) if t > 0 => t,
                    _ => last_val,
                }
            } else if inp.cur_state == ScreenState::Doze && inp.is_lux_aod {
                if inp.lux_sentinel {
                    match inp.lux_target {
                        Some(t) => t,
                        None => 1,
                    }
                } else {
                    scale_brightness(inp.mode, cur_bright, hw_min, hw_max, range.min, range.max)
                }
            } else if inp.panoramic {
                last_val
            } else {
                BRIGHTNESS_OFF
            }
        };
        TickDecision {
            sleep_before: inp.cur_state == ScreenState::On && st.prev_state != ScreenState::On,
            write: if target != last_val {
                Some(target)
            } else {
                None
            },
        }
    };
    st.prev_bright = cur_bright;
    st.prev_state = inp.cur_state;
    d
}

/// Whether a tick's decision consults the panoramic-AOD flag at all: only
/// a changed tick in one of the two doze states on a non-IPS panel does.
pub open spec fn spec_needs_panoramic(
    st: LoopState,
    cur_state: ScreenState,
    raw_bright: int,
    is_ips: bool,
) -> bool {
    let cur = spec_effective_bright(raw_bright, st.prev_bright as int);
    let changed = cur != st.prev_bright as int || cur_state != st.prev_state;
    changed && !is_ips && (cur_state is Doze || cur_state is DozeSuspend)
}

/// Whether the coming tick will consult the panoramic-AOD flag.  The loop
/// asks this before running the external settings query, so unchanged ticks
/// and ticks whose decision never reads the flag spawn no query.
pub fn needs_panoramic(st: &LoopState, cur_state: ScreenState, raw_bright: i32, is_ips: bool) -> (r:
    bool)
    ensures
        r == spec_needs_panoramic(*st, cur_state, raw_bright as int, is_ips),
{
    let cur_bright: i32 = if raw_bright == -1 {
        st.prev_bright
    } else {
        raw_bright
    };
    let changed = cur_bright != st.prev_bright || cur_state != st.prev_state;
    changed && !is_ips && (cur_state == ScreenState::Doze || cur_state == ScreenState::DozeSuspend)
}

/// Law: when `spec_needs_panoramic` is false, the tick's decision does not
/// depend on the panoramic flag — whatever value stands in for it, the
/// decision is the same.
pub proof fn lemma_unneeded_panoramic_is_ignored(
    st: LoopState,
    last_val: int,
    hw_min: int,
    hw_max: int,
    range: BrightnessRange,
    inp: TickInputs,
    other: bool,
)
    requires
        !spec_needs_panoramic(st, inp.cur_state, inp.raw_bright as int, inp.is_ips),
    ensures
        spec_run(st, last_val, hw_min, hw_max, range, inp) == spec_run(
            st,
            last_val,
            hw_min,
            hw_max,
            range,
            TickInputs { panoramic: other, ..inp },
        ),
{
}

/// Truncating division by 4, as machine division computes it.
pub open spec fn spec_trunc_div4(diff: int) -> int {
    if diff >= 0 {
        diff / 4
    } else {
        -((-diff) / 4)
    }
}

/// The next value on the ramp from `cur` toward `target`: a quarter of the
/// distance, at least one step, and never past the target.
pub open spec fn spec_ramp_next(cur: int, target: int) -> int
    recommends
        cur != target,
{
    let diff = target - cur;
    let q = spec_trunc_div4(diff);
    let step = if q == 0 {
        if diff > 0 {
            1
        } else {
            -1
        }
    } else {
        q
    };
    let moved = cur + step;
    if (step > 0 && moved > target) || (step < 0 && moved < target) {
        target
    } else {
        moved
    }
}

/// What one panel-mode tick does to the tracked current value, and the
/// value it submits to the writer: a source reading of zero blanks the
/// panel at once, any other reading ramps toward its scaled target.
pub open spec fn spec_panel_step(
    cur0: int,
    source: Option<i32>,
    mode: ScalingMode,
    hw_min: int,
    hw_max: int,
    in_min: int,
    in_max: int,
) -> (int, Option<i32>) {
    match source {
        None => (cur0, None),
        Some(sv) => if sv == 0 {
            if cur0 != BRIGHTNESS_OFF as int {
                (BRIGHTNESS_OFF as int, Some(BRIGHTNESS_OFF))
            } else {
                (cur0, None)
            }
        } else {
            let target = spec_scale(mode, sv as int, hw_min, hw_max, in_min, in_max);
            if cur0 == target {
                (cur0, None)
            } else {
                let nxt = spec_ramp_next(cur0, target);
                (nxt, Some(nxt as i32))
            }
        },
    }
}

/// One tick of the panel-mode loop.  `file_val` is the brightness file's
/// current reading (kept when unreadable), `source_val` the secondary
/// source's reading; the returned value, if any, goes to the writer.
pub fn panel_step(
    current_val: &mut i32,
    file_val: Option<i32>,
    source_val: Option<i32>,
    mode: ScalingMode,
    hw_min: i32,
    hw_max: i32,
    input_min: i32,
    input_max: i32,
) -> (w: Option<i32>)
    ensures
        ({
            let cur0 = if file_val is Some {
                file_val->0 as int
            } else {
                *old(current_val) as int
            };
            (*final(current_val) as int, w) == spec_panel_step(
                cur0,
                source_val,
                mode,
                hw_min as int,
                hw_max as int,
                input_min as int,
                input_max as int,
            )
        }),
{
    let cur0: i32 = match file_val {
        Some(v) => v,
        None => *current_val,
    };
    *current_val = cur0;
    match source_val {
        None => None,
        Some(sv) => {
            if sv == 0 {
                if cur0 != BRIGHTNESS_OFF {
                    *current_val = BRIGHTNESS_OFF;
                    Some(BRIGHTNESS_OFF)
                } else {
                    None
                }
            } else {
                let target = scale_brightness(mode, sv, hw_min, hw_max, input_min, input_max);
                if cur0 == target {
                    None
                } else {
                    let diff: i64 = target as i64 - cur0 as i64;
                    let q: i64 = if diff >= 0 {
                        diff / 4
                    } else {
                        -((-diff) / 4)
                    };
                    let step: i64 = if q == 0 {
                        if diff > 0 {
                            1i64
                        } else {
                            -1i64
                        }
                    } else {
                        q
                    };
                    let mut moved: i64 = cur0 as i64 + step;
                    if (step > 0 && moved > target as i64) || (step < 0 && moved < target as i64) {
                        moved = target as i64;
                    }
                    *current_val = moved as i32;
                    Some(moved as i32)
                }
            }
        },
    }
}

/// Law: the ramp always makes progress and never overshoots — from below it
/// climbs by at least one and at most to the target, from above it falls by
/// at least one and at most to the target.
pub proof fn lemma_ramp_never_overshoots(cur: int, target: int)
    requires
        cur != target,
    ensures
        cur < target ==> cur < spec_ramp_next(cur, target) <= target,
        cur > target ==> target <= spec_ramp_next(cur, target) < cur,
{
}

} // verus!
