//! The size of the idle animation's surface.

use vstd::prelude::*;

verus! {

/// Pixels in a row of the surface.
pub const WINDOW_WIDTH: i32 = 160;

/// Rows of the surface.
pub const WINDOW_HEIGHT: i32 = 128;

} // verus!
