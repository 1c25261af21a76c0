//! Pixel windows of a filter kernel.
//!
//! A kernel centred somewhere inside a pixel can only be nonzero over a small
//! window of neighbouring pixels. [`RelativeBounds`] is that window as signed
//! offsets from the pixel; [`RelativeBounds::offset`] places it on a concrete
//! pixel and cuts it down to the raster, giving [`Bounds`].

use core::ops::RangeInclusive;
use vstd::prelude::*;

verus! {

/// `RangeInclusive::start` of std. The documentation gives the lower bound of
/// the range and leaves the value open once the range has been iterated to
/// exhaustion, so the contract speaks of ranges that have not been.
pub assume_specification<Idx>[ RangeInclusive::<Idx>::start ](r: &RangeInclusive<Idx>) -> (bound:
    &Idx)
    ensures
        !r@.exhausted ==> *bound == r@.start,
;

/// `RangeInclusive::end` of std. The documentation gives the upper bound of
/// the range and leaves the value open once the range has been iterated to
/// exhaustion, so the contract speaks of ranges that have not been.
pub assume_specification<Idx>[ RangeInclusive::<Idx>::end ](r: &RangeInclusive<Idx>) -> (bound:
    &Idx)
    ensures
        !r@.exhausted ==> *bound == r@.end,
;

/// `Clone::clone` of std's `RangeInclusive`, which hands back a duplicate:
/// a clone of each bound, and the same state of iteration.
pub assume_specification<Idx: Clone>[ <RangeInclusive<Idx> as Clone>::clone ](
    r: &RangeInclusive<Idx>,
) -> (copy: RangeInclusive<Idx>)
    ensures
        cloned(r@.start, copy@.start),
        cloned(r@.end, copy@.end),
        copy@.exhausted == r@.exhausted,
;

/// `v` moved into the closed interval `[lo, hi]`.
pub open spec fn clamp_int(v: int, lo: int, hi: int) -> int {
    if v < lo {
        lo
    } else if v > hi {
        hi
    } else {
        v
    }
}

/// An absolute window of pixels: two inclusive ranges of pixel coordinates.
#[derive(Debug)]
pub struct Bounds {
    pub x: RangeInclusive<u32>,
    pub y: RangeInclusive<u32>,
}

/// A window of pixels relative to some pixel: two inclusive ranges of offsets.
#[derive(Debug)]
pub struct RelativeBounds {
    pub x: RangeInclusive<i32>,
    pub y: RangeInclusive<i32>,
}

impl Clone for Bounds {
    /// A window with the same ranges, in the same state of iteration.
    fn clone(&self) -> (copy: Self)
        ensures
            copy.x@ == self.x@,
            copy.y@ == self.y@,
    {
        Bounds { x: self.x.clone(), y: self.y.clone() }
    }
}

impl Clone for RelativeBounds {
    /// A window with the same ranges, in the same state of iteration.
    fn clone(&self) -> (copy: Self)
        ensures
            copy.x@ == self.x@,
            copy.y@ == self.y@,
    {
        RelativeBounds { x: self.x.clone(), y: self.y.clone() }
    }
}

impl Bounds {
    /// Both ranges are as they were built: nothing has iterated them away.
    pub open spec fn wf(&self) -> bool {
        !self.x@.exhausted && !self.y@.exhausted
    }

    /// This is `rel` placed on pixel `(ox, oy)` of a raster of `upper_x` by
    /// `upper_y` pixels.
    pub open spec fn is_placed(
        &self,
        rel: &RelativeBounds,
        ox: u32,
        oy: u32,
        upper_x: u32,
        upper_y: u32,
    ) -> bool {
        &&& self.wf()
        &&& (self.x@.start as int, self.x@.end as int, self.y@.start as int, self.y@.end as int)
            == rel.spec_offset(ox, oy, upper_x, upper_y)
    }

    /// The window lies inside a raster of `upper_x` by `upper_y` pixels.
    pub open spec fn within(&self, upper_x: int, upper_y: int) -> bool {
        &&& self.x@.start < upper_x
        &&& self.x@.end < upper_x
        &&& self.y@.start < upper_y
        &&& self.y@.end < upper_y
    }
}

impl RelativeBounds {
    /// Both ranges are as they were built: nothing has iterated them away.
    pub open spec fn wf(&self) -> bool {
        !self.x@.exhausted && !self.y@.exhausted
    }

    /// The window placed on pixel `(ox, oy)` of a raster of `upper_x` by
    /// `upper_y` pixels: every end is shifted by the pixel's coordinate and
    /// then moved into the raster.
    pub open spec fn spec_offset(&self, ox: u32, oy: u32, upper_x: u32, upper_y: u32) -> (
        int,
        int,
        int,
        int,
    ) {
        (
            clamp_int(self.x@.start + ox, 0, upper_x - 1),
            clamp_int(self.x@.end + ox, 0, upper_x - 1),
            clamp_int(self.y@.start + oy, 0, upper_y - 1),
            clamp_int(self.y@.end + oy, 0, upper_y - 1),
        )
    }

    /// Places the window on pixel `(ox, oy)` and clamps it into a raster of
    /// `upper_x` by `upper_y` pixels. An empty raster has no pixel to clamp
    /// to, so both sizes must be at least one.
    pub fn offset(&self, ox: u32, oy: u32, upper_x: u32, upper_y: u32) -> (bounds: Bounds)
        requires
            self.wf(),
            upper_x >= 1,
            upper_y >= 1,
        ensures
            bounds.is_placed(self, ox, oy, upper_x, upper_y),
            bounds.within(upper_x as int, upper_y as int),
    {
        let start_x = shift_into(*self.x.start(), ox, upper_x);
        let end_x = shift_into(*self.x.end(), ox, upper_x);
        let start_y = shift_into(*self.y.start(), oy, upper_y);
        let end_y = shift_into(*self.y.end(), oy, upper_y);
        Bounds { x: start_x..=end_x, y: start_y..=end_y }
    }
}

/// One end of a window: `rel` shifted by `origin` and clamped to `0..upper`.
fn shift_into(rel: i32, origin: u32, upper: u32) -> (abs: u32)
    requires
        upper >= 1,
    ensures
        abs == clamp_int(rel + origin, 0, upper - 1),
        abs < upper,
{
    let shifted: i64 = rel as i64 + origin as i64;
    let last: i64 = upper as i64 - 1;
    if shifted < 0 {
        0
    } else if shifted > last {
        upper - 1
    } else {
        shifted as u32
    }
}

/// A window whose ranges are in order stays in order when placed: the start
/// of each range is not past its end.
pub proof fn lemma_offset_keeps_order(
    rel: RelativeBounds,
    ox: u32,
    oy: u32,
    upper_x: u32,
    upper_y: u32,
)
    requires
        upper_x >= 1,
        upper_y >= 1,
        rel.x@.start <= rel.x@.end,
        rel.y@.start <= rel.y@.end,
    ensures
        rel.spec_offset(ox, oy, upper_x, upper_y).0 <= rel.spec_offset(ox, oy, upper_x, upper_y).1,
        rel.spec_offset(ox, oy, upper_x, upper_y).2 <= rel.spec_offset(ox, oy, upper_x, upper_y).3,
{
}

/// A window that contains offset zero still contains its pixel once placed,
/// as long as the pixel itself is inside the raster.
pub proof fn lemma_offset_contains_origin(
    rel: RelativeBounds,
    ox: u32,
    oy: u32,
    upper_x: u32,
    upper_y: u32,
)
    requires
        ox < upper_x,
        oy < upper_y,
        rel.x@.start <= 0 <= rel.x@.end,
        rel.y@.start <= 0 <= rel.y@.end,
    ensures
        rel.spec_offset(ox, oy, upper_x, upper_y).0 <= ox <= rel.spec_offset(
            ox,
            oy,
            upper_x,
            upper_y,
        ).1,
        rel.spec_offset(ox, oy, upper_x, upper_y).2 <= oy <= rel.spec_offset(
            ox,
            oy,
            upper_x,
            upper_y,
        ).3,
{
}

} // verus!
