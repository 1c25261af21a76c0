//! The pixel rectangle of a draw call.

use crate::bounds::clamp_int;
use vstd::prelude::*;

verus! {

/// An inclusive rectangle of pixel coordinates, both corners clamped to the
/// size of a raster.
///
/// A corner may sit on the raster's far edge, one past its last pixel; the
/// scans that take a rectangle visit the pixels of it that the raster has.
pub struct FillRect {
    pub x0: u32,
    pub x1: u32,
    pub y0: u32,
    pub y1: u32,
}

impl FillRect {
    /// Pixel `(x, y)` lies in the rectangle.
    pub open spec fn contains(&self, x: int, y: int) -> bool {
        self.x0 <= x <= self.x1 && self.y0 <= y <= self.y1
    }

    /// The rectangle from pixel `(x_lo, y_lo)` to pixel `(x_hi, y_hi)`, each
    /// coordinate clamped to `0..=bound_x` or `0..=bound_y`.
    ///
    /// The corners are whole pixel coordinates: the low corner of an area
    /// rounded down, the high corner rounded up.
    pub fn new(x_lo: i64, y_lo: i64, x_hi: i64, y_hi: i64, bound_x: u32, bound_y: u32) -> (rect:
        Self)
        ensures
            rect.x0 == clamp_int(x_lo as int, 0, bound_x as int),
            rect.y0 == clamp_int(y_lo as int, 0, bound_y as int),
            rect.x1 == clamp_int(x_hi as int, 0, bound_x as int),
            rect.y1 == clamp_int(y_hi as int, 0, bound_y as int),
    {
        FillRect {
            x0: clamp_to(x_lo as i128, bound_x),
            x1: clamp_to(x_hi as i128, bound_x),
            y0: clamp_to(y_lo as i128, bound_y),
            y1: clamp_to(y_hi as i128, bound_y),
        }
    }

    /// The rectangle of [`FillRect::new`], first widened by `bias_x` pixels
    /// to the left and to the right and by `bias_y` pixels up and down.
    pub fn new_with_bias(
        bias: (u32, u32),
        x_lo: i64,
        y_lo: i64,
        x_hi: i64,
        y_hi: i64,
        bound_x: u32,
        bound_y: u32,
    ) -> (rect: Self)
        ensures
            rect.x0 == clamp_int(x_lo - bias.0, 0, bound_x as int),
            rect.y0 == clamp_int(y_lo - bias.1, 0, bound_y as int),
            rect.x1 == clamp_int(x_hi + bias.0, 0, bound_x as int),
            rect.y1 == clamp_int(y_hi + bias.1, 0, bound_y as int),
    {
        FillRect {
            x0: clamp_to(x_lo as i128 - bias.0 as i128, bound_x),
            x1: clamp_to(x_hi as i128 + bias.0 as i128, bound_x),
            y0: clamp_to(y_lo as i128 - bias.1 as i128, bound_y),
            y1: clamp_to(y_hi as i128 + bias.1 as i128, bound_y),
        }
    }
}

/// `v` clamped to `0..=bound`.
fn clamp_to(v: i128, bound: u32) -> (c: u32)
    ensures
        c == clamp_int(v as int, 0, bound as int),
{
    if v < 0 {
        0
    } else if v > bound as i128 {
        bound
    } else {
        v as u32
    }
}

} // verus!
