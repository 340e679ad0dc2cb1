//! Decoding of the sampled property signals: screen state codes and the
//! dotted brightness value.

use vstd::prelude::*;
use crate::constants::FALLBACK_MIN;
use crate::parse::{parse_i32, prefix_before_dot, spec_before_dot, spec_parse_i32};

verus! {

/// Display power state as the screen-state property reports it.
#[derive(Clone, Copy, PartialEq, Eq, Structural, Debug)]
pub enum ScreenState {
    Off,
    OffAod,
    On,
    Doze,
    DozeSuspend,
}

/// The state a decoded code stands for.  Codes outside the known range and
/// unreadable values fail open to `On`, so a read error never leaves the
/// display dark.
pub open spec fn spec_screen_state_of_code(code: Option<i32>) -> ScreenState {
    match code {
        Some(0) => ScreenState::Off,
        Some(1) => ScreenState::OffAod,
        Some(3) => ScreenState::Doze,
        Some(4) => ScreenState::DozeSuspend,
        _ => ScreenState::On,
    }
}

/// Decimal reading of a whole property value, when one was found.
pub fn get_prop_int(value: Option<&str>) -> (r: Option<i32>)
    ensures
        value is None ==> r is None,
        value matches Some(s) ==> r == spec_parse_i32(s@),
{
    match value {
        Some(s) => parse_i32(s),
        None => None,
    }
}

/// Screen state from the raw screen-state property value.
pub fn get_screen_state(value: Option<&str>) -> (r: ScreenState)
    ensures
        value is None ==> r == ScreenState::On,
        value matches Some(s) ==> r == spec_screen_state_of_code(spec_parse_i32(s@)),
{
    let code = match value {
        Some(s) => parse_i32(s),
        None => None,
    };
    match code {
        Some(0) => ScreenState::Off,
        Some(1) => ScreenState::OffAod,
        Some(3) => ScreenState::Doze,
        Some(4) => ScreenState::DozeSuspend,
        _ => ScreenState::On,
    }
}

/// The logical brightness a brightness property value decodes to: the
/// integer part before any `.`, with `0` turned into the skip sentinel `-1`
/// and an unreadable value falling back to the conservative minimum.
pub open spec fn spec_prop_brightness(s: Seq<char>) -> int {
    match spec_parse_i32(spec_before_dot(s)) {
        Some(0) => -1,
        Some(v) => v as int,
        None => FALLBACK_MIN as int,
    }
}

/// Logical brightness from the raw brightness property value.  A missing
/// property falls back to the conservative minimum; a reading of zero
/// becomes `-1`, the caller's signal to skip the sample.
pub fn get_prop_brightness(value: Option<&str>) -> (r: i32)
    ensures
        value is None ==> r == FALLBACK_MIN,
        value matches Some(s) ==> r as int == spec_prop_brightness(s@),
{
    match value {
        Some(s) => {
            let head = prefix_before_dot(s);
            match parse_i32(head) {
                Some(v) => {
                    if v == 0 {
                        -1
                    } else {
                        v
                    }
                },
                None => FALLBACK_MIN,
            }
        },
        None => FALLBACK_MIN,
    }
}

} // verus!
