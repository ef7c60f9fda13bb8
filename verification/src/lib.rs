//! Coordination engine for a touch-strip function row: button layout and
//! hit-testing, touch tracking, backlight dimming and anti-burn-in pixel
//! shifting, all as verified state machines over plain values.

use vstd::prelude::*;

pub mod arith;
pub mod backlight;
pub mod config;
pub mod coordinator;
pub mod display;
pub mod fonts;
pub mod layer;
pub mod pixel_shift;

verus! {

/// Base poll interval of the event loop, in milliseconds.
pub const TIMEOUT_MS: i32 = 10000;

} // verus!
