//! Start-up decisions on the hardware range and the panoramic-AOD answer.

use vstd::prelude::*;
use crate::parse::{spec_trim, str_content_eq, trim_whitespace};

verus! {

/// A chosen hardware bound, together with the value to cache back into a
/// property, if any.
#[derive(Clone, Copy, PartialEq, Eq, Structural, Debug)]
pub struct HwChoice {
    pub value: i32,
    pub persist: Option<i32>,
}

/// The hardware maximum `get_max_brightness` settles on: a positive custom
/// override wins, then the cached property, then the sysfs reading (which is
/// cached back), and finally the default 511.
pub open spec fn spec_max_brightness(
    custom: Option<i32>,
    cached: Option<i32>,
    file_val: Option<i32>,
) -> HwChoice {
    if custom is Some && custom->0 > 0 {
        HwChoice { value: custom->0, persist: None }
    } else if cached is Some {
        HwChoice { value: cached->0, persist: None }
    } else if file_val is Some {
        HwChoice { value: file_val->0, persist: Some(file_val->0) }
    } else {
        HwChoice { value: 511, persist: None }
    }
}

/// The hardware minimum `get_min_brightness` settles on: the cached property
/// wins, then the sysfs reading with `0` lifted to `1` (cached back), and
/// finally the default 1.
pub open spec fn spec_min_brightness(cached: Option<i32>, file_val: Option<i32>) -> HwChoice {
    if cached is Some {
        HwChoice { value: cached->0, persist: None }
    } else if file_val is Some {
        let v = if file_val->0 == 0 {
            1
        } else {
            file_val->0
        };
        HwChoice { value: v, persist: Some(v) }
    } else {
        HwChoice { value: 1, persist: None }
    }
}

/// Hardware maximum from the custom override, the cached property and the
/// sysfs reading.
pub fn get_max_brightness(custom: Option<i32>, cached: Option<i32>, file_val: Option<i32>) -> (r:
    HwChoice)
    ensures
        r == spec_max_brightness(custom, cached, file_val),
{
    match custom {
        Some(c) if c > 0 => HwChoice { value: c, persist: None },
        _ => match cached {
            Some(m) => HwChoice { value: m, persist: None },
            None => match file_val {
                Some(v) => HwChoice { value: v, persist: Some(v) },
                None => HwChoice { value: 511, persist: None },
            },
        },
    }
}

/// Hardware minimum from the cached property and the sysfs reading.
pub fn get_min_brightness(cached: Option<i32>, file_val: Option<i32>) -> (r: HwChoice)
    ensures
        r == spec_min_brightness(cached, file_val),
{
    match cached {
        Some(m) => HwChoice { value: m, persist: None },
        None => match file_val {
            Some(v) => {
                let v = if v == 0 {
                    1
                } else {
                    v
                };
                HwChoice { value: v, persist: Some(v) }
            },
            None => HwChoice { value: 1, persist: None },
        },
    }
}

/// Whether the settings query reported panoramic AOD as enabled: the query
/// succeeded and printed `1` (up to surrounding whitespace).  A failed or
/// unreadable query counts as disabled.
pub fn is_panoramic_aod_enabled(output: Option<&str>) -> (r: bool)
    ensures
        r == (output matches Some(s) && spec_trim(s@) == "1"@),
{
    match output {
        Some(s) => {
            let t = trim_whitespace(s);
            str_content_eq(t, "1")
        },
        None => false,
    }
}

} // verus!
