//! Fallback constants of the brightness adaptor.

use vstd::prelude::*;

verus! {

/// Fallback logical maximum when no range signal is available.
pub const FALLBACK_MAX: i32 = 8191;

/// Fallback logical minimum when no range signal is available.
pub const FALLBACK_MIN: i32 = 222;

/// Hardware value meaning "screen off".
pub const BRIGHTNESS_OFF: i32 = 0;

/// Panel-mode fallback logical maximum.
pub const OS14_MAX: i32 = 5118;

/// Panel-mode fallback logical minimum.
pub const OS14_MIN: i32 = 22;

} // verus!
