//! Dimensions of the display and of its presentation, and the pace of a run.
use vstd::prelude::*;

verus! {

/// Width of the display in pixels.
pub const WIDTH: usize = 64;

/// Height of the display in pixels.
pub const HEIGHT: usize = 32;

/// Side, in host pixels, of the square that presents one display pixel.
pub const SCALE: usize = 10;

/// Instructions executed per frame, that is per tick of the timers.
pub const TICKS_PER_FRAME: usize = 30;

} // verus!
