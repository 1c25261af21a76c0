//! The scans that write a framebuffer: one value per sample of every texel
//! of a rectangle.

use crate::framebuffer::{lemma_slot_in_range, lemma_slots_are_disjoint, Framebuffer};
use crate::rect::FillRect;
use vstd::prelude::*;

verus! {

/// The direction in which a curve crosses an axis through the sample point:
/// `+1` when it starts at or below the axis and ends above it, `-1` when it
/// starts above and ends at or below, and `0` when both ends lie on one side.
pub open spec fn spec_crossing_sign(start_above: bool, end_above: bool) -> int {
    (if end_above {
        1int
    } else {
        0int
    }) - (if start_above {
        1int
    } else {
        0int
    })
}

/// The direction in which a curve crosses an axis through the sample point,
/// from whether its start and its end lie above the axis.
pub fn crossing_sign(start_above: bool, end_above: bool) -> (sign: i32)
    ensures
        sign == spec_crossing_sign(start_above, end_above),
{
    let up: i32 = if end_above {
        1
    } else {
        0
    };
    let down: i32 = if start_above {
        1
    } else {
        0
    };
    up - down
}

/// Sample `s` of texel `(x, y)` has been written once a scan of `rect`, row
/// by row, texel by texel and layer by layer, stands at layer `sc` of texel
/// `(xc, yc)`.
spec fn scanned(rect: &FillRect, x: int, y: int, s: int, xc: int, yc: int, sc: int) -> bool {
    rect.contains(x, y) && (y < yc || (y == yc && (x < xc || (x == xc && s < sc))))
}

/// The framebuffer `now` is `start` after a scan of `rect` that stands at
/// layer `sc` of texel `(xc, yc)`: the samples written so far hold what
/// `coverage` returned for them, and all others are as they were.
spec fn scan_state<S, F: Fn(u32, u32, glam::Vec2) -> S>(
    now: &Framebuffer<S>,
    start: &Framebuffer<S>,
    rect: &FillRect,
    coverage: F,
    xc: int,
    yc: int,
    sc: int,
) -> bool {
    &&& now.width == start.width
    &&& now.height == start.height
    &&& now.sample_pos@ == start.sample_pos@
    &&& now.samples@.len() == start.samples@.len()
    &&& forall|x: u32, y: u32, s: usize|
        x < start.width && y < start.height && s < start.num_layers() ==> if scanned(
            rect,
            x as int,
            y as int,
            s as int,
            xc,
            yc,
            sc,
        ) {
            coverage.ensures(
                (x, y, start.sample_pos@[s as int]),
                #[trigger] now.spec_sample(x as int, y as int, s as int),
            )
        } else {
            now.spec_sample(x as int, y as int, s as int) == start.spec_sample(
                x as int,
                y as int,
                s as int,
            )
        }
}

/// Evaluates `coverage` for every sample of every texel of `fill_rect` that
/// the raster has, and stores what it returns.
///
/// `coverage` is handed the texel's coordinates and the position of the
/// sample inside the texel. Samples outside the rectangle keep their value.
/// All sample layers must have been added: the framebuffer is complete.
pub fn rasterize_each<S, F>(framebuffer: &mut Framebuffer<S>, fill_rect: &FillRect, coverage: F) where
    F: Fn(u32, u32, glam::Vec2) -> S,

    requires
        old(framebuffer).spec_is_complete(),
        forall|x: u32, y: u32, s: usize|
            x < old(framebuffer).width && y < old(framebuffer).height && s < old(
                framebuffer,
            ).num_layers() && fill_rect.contains(x as int, y as int)
                ==> #[trigger] coverage.requires((x, y, old(framebuffer).sample_pos@[s as int])),
    ensures
        final(framebuffer).width == old(framebuffer).width,
        final(framebuffer).height == old(framebuffer).height,
        final(framebuffer).sample_pos@ == old(framebuffer).sample_pos@,
        final(framebuffer).samples@.len() == old(framebuffer).samples@.len(),
        final(framebuffer).spec_is_complete(),
        forall|x: u32, y: u32, s: usize|
            x < old(framebuffer).width && y < old(framebuffer).height && s < old(
                framebuffer,
            ).num_layers() ==> if fill_rect.contains(x as int, y as int) {
                coverage.ensures(
                    (x, y, old(framebuffer).sample_pos@[s as int]),
                    #[trigger] final(framebuffer).spec_sample(x as int, y as int, s as int),
                )
            } else {
                final(framebuffer).spec_sample(x as int, y as int, s as int) == old(
                    framebuffer,
                ).spec_sample(x as int, y as int, s as int)
            },
{
    let ghost start = *framebuffer;
    let width: u32 = framebuffer.width;
    let height: u32 = framebuffer.height;
    let layers: usize = framebuffer.sample_pos.len();
    let mut y: u32 = fill_rect.y0;
    while y <= fill_rect.y1 && y < height
        invariant
            start.spec_is_complete(),
            width == start.width,
            height == start.height,
            layers == start.num_layers(),
            fill_rect.y0 <= y,
            forall|x: u32, y: u32, s: usize|
                x < start.width && y < start.height && s < start.num_layers()
                    && fill_rect.contains(x as int, y as int) ==> #[trigger] coverage.requires(
                    (x, y, start.sample_pos@[s as int]),
                ),
            scan_state(framebuffer, &start, fill_rect, coverage, 0, y as int, 0),
        decreases height - y,
    {
        let mut x: u32 = fill_rect.x0;
        while x <= fill_rect.x1 && x < width
            invariant
                start.spec_is_complete(),
                width == start.width,
                height == start.height,
                layers == start.num_layers(),
                fill_rect.y0 <= y <= fill_rect.y1,
                y < height,
                fill_rect.x0 <= x,
                forall|x: u32, y: u32, s: usize|
                    x < start.width && y < start.height && s < start.num_layers()
                        && fill_rect.contains(x as int, y as int)
                        ==> #[trigger] coverage.requires((x, y, start.sample_pos@[s as int])),
                scan_state(framebuffer, &start, fill_rect, coverage, x as int, y as int, 0),
            decreases width - x,
        {
            let mut s: usize = 0;
            while s < layers
                invariant
                    start.spec_is_complete(),
                    width == start.width,
                    height == start.height,
                    layers == start.num_layers(),
                    fill_rect.contains(x as int, y as int),
                    x < width,
                    y < height,
                    s <= layers,
                    forall|x: u32, y: u32, s: usize|
                        x < start.width && y < start.height && s < start.num_layers()
                            && fill_rect.contains(x as int, y as int)
                            ==> #[trigger] coverage.requires((x, y, start.sample_pos@[s as int])),
                    scan_state(
                        framebuffer,
                        &start,
                        fill_rect,
                        coverage,
                        x as int,
                        y as int,
                        s as int,
                    ),
                decreases layers - s,
            {
                let position = framebuffer.sample_pos[s];
                let value = coverage(x, y, position);
                let at: usize = framebuffer.sample_index(x, y, s);
                let ghost before = *framebuffer;
                framebuffer.samples[at] = value;
                proof {
                    assert forall|px: u32, py: u32, ps: usize|
                        px < width && py < height && ps < layers implies if scanned(
                        fill_rect,
                        px as int,
                        py as int,
                        ps as int,
                        x as int,
                        y as int,
                        s + 1,
                    ) {
                        coverage.ensures(
                            (px, py, start.sample_pos@[ps as int]),
                            #[trigger] framebuffer.spec_sample(px as int, py as int, ps as int),
                        )
                    } else {
                        framebuffer.spec_sample(px as int, py as int, ps as int)
                            == start.spec_sample(px as int, py as int, ps as int)
                    } by {
                        if px == x && py == y && ps == s {
                        } else {
                            if before.spec_sample_index(px as int, py as int, ps as int)
                                == before.spec_sample_index(x as int, y as int, s as int) {
                                lemma_slots_are_disjoint(
                                    width as int,
                                    layers as int,
                                    px as int,
                                    py as int,
                                    ps as int,
                                    x as int,
                                    y as int,
                                    s as int,
                                );
                            }
                            lemma_slot_in_range(
                                width as int,
                                height as int,
                                layers as int,
                                px as int,
                                py as int,
                                ps as int,
                            );
                            assert(framebuffer.spec_sample(px as int, py as int, ps as int)
                                == before.spec_sample(px as int, py as int, ps as int));
                        }
                    }
                }
                s += 1;
            }
            x += 1;
        }
        y += 1;
    }
}

/// Stamps `value` on every sample of every texel of `fill_rect` that the
/// raster has. Samples outside the rectangle keep their value. All sample
/// layers must have been added: the framebuffer is complete.
pub fn cmd_fill<S: Copy>(framebuffer: &mut Framebuffer<S>, fill_rect: &FillRect, value: S)
    requires
        old(framebuffer).spec_is_complete(),
    ensures
        final(framebuffer).width == old(framebuffer).width,
        final(framebuffer).height == old(framebuffer).height,
        final(framebuffer).sample_pos@ == old(framebuffer).sample_pos@,
        final(framebuffer).samples@.len() == old(framebuffer).samples@.len(),
        final(framebuffer).spec_is_complete(),
        forall|x: u32, y: u32, s: usize|
            x < old(framebuffer).width && y < old(framebuffer).height && s < old(
                framebuffer,
            ).num_layers() ==> #[trigger] final(framebuffer).spec_sample(
                x as int,
                y as int,
                s as int,
            ) == if fill_rect.contains(x as int, y as int) {
                value
            } else {
                old(framebuffer).spec_sample(x as int, y as int, s as int)
            },
{
    let stamp = |x: u32, y: u32, position: glam::Vec2| -> (stamped: S)
        ensures
            stamped == value,
        { value };
    rasterize_each(framebuffer, fill_rect, stamp);
}

} // verus!
