//! Adaptive backlight control core.
//!
//! The library turns the OS-reported brightness and screen-state signals into
//! physical backlight commands: runtime range calibration with one-shot
//! locking, three interchangeable scaling curves, the per-tick screen-state
//! decision policy, and the debounced writer model.  All I/O (system
//! properties, sysfs files, the settings query) stays outside; the functions
//! here take the sampled values as plain arguments and are verified.

pub mod constants;
pub mod modes;
pub mod parse;
pub mod paths;
pub mod range;
pub mod scaling;
pub mod state;
pub mod utils;
pub mod writer;
