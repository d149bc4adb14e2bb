//! The screen geometry: an immutable width/height pair, fixed for the run.

use vstd::prelude::*;
use crate::fx::FX_ONE;

verus! {

/// Largest screen dimension the simulation admits, in pixels; keeps every
/// pixel index and fixed-point coordinate comfortably inside `i64`.
pub const SCREEN_DIM_LIMIT: u32 = 16384;

/// Width and height of the presentation surface, in pixels.
///
/// Created once at startup and never mutated afterwards; a zero-sized
/// screen is a contract violation by the caller, so well-formedness
/// demands positive dimensions.
#[derive(Clone, Copy)]
pub struct ScreenDetails {
    pub width: u32,
    pub height: u32,
}

impl ScreenDetails {
    pub open spec fn wf(self) -> bool {
        &&& 1 <= self.width <= SCREEN_DIM_LIMIT
        &&& 1 <= self.height <= SCREEN_DIM_LIMIT
    }

    /// The width as a fixed-point coordinate.
    pub open spec fn width_fx(self) -> int {
        self.width * FX_ONE
    }

    /// The height as a fixed-point coordinate.
    pub open spec fn height_fx(self) -> int {
        self.height * FX_ONE
    }

    pub fn width_fx_exec(&self) -> (r: i64)
        requires
            self.wf(),
        ensures
            r == self.width_fx(),
    {
        (self.width as i64) * FX_ONE
    }

    pub fn height_fx_exec(&self) -> (r: i64)
        requires
            self.wf(),
        ensures
            r == self.height_fx(),
    {
        (self.height as i64) * FX_ONE
    }
}

} // verus!
