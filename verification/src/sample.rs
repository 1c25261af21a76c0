//! Placement of sample layers.

use crate::framebuffer::{
    lemma_one_more_layer, lemma_row_major_order, lemma_slot_in_range, Framebuffer,
};
use vstd::prelude::*;

verus! {

/// A regular grid of `nx` by `ny` samples per texel.
pub struct UniformSampler {
    pub nx: usize,
    pub ny: usize,
}

impl UniformSampler {
    /// Number of samples per texel.
    pub open spec fn spec_count(&self) -> nat {
        (self.nx as nat) * (self.ny as nat)
    }

    /// Adds one sample layer for every cell of the grid, row by row.
    ///
    /// `place` is asked for the position of each cell `(x, y)` inside the
    /// texel, with `x < nx` and `y < ny`; the layer of cell `(x, y)` is the
    /// `y * nx + x`-th that is added. Every layer brings one default value
    /// per texel into the store, so the store must have room for them.
    pub fn populate<S: Default, F: Fn(usize, usize) -> glam::Vec2>(
        &self,
        framebuffer: &mut Framebuffer<S>,
        place: F,
    )
        requires
            old(framebuffer).samples@.len() + self.spec_count() * old(framebuffer).spec_num_texels()
                <= usize::MAX,
            old(framebuffer).sample_pos@.len() + self.spec_count() <= usize::MAX,
            forall|x: usize, y: usize| x < self.nx && y < self.ny ==> #[trigger] place.requires((x, y)),
        ensures
            final(framebuffer).width == old(framebuffer).width,
            final(framebuffer).height == old(framebuffer).height,
            final(framebuffer).sample_pos@.len() == old(framebuffer).sample_pos@.len()
                + self.spec_count(),
            final(framebuffer).sample_pos@.subrange(0, old(framebuffer).sample_pos@.len() as int)
                == old(framebuffer).sample_pos@,
            forall|x: usize, y: usize|
                x < self.nx && y < self.ny ==> #[trigger] place.ensures(
                    (x, y),
                    final(framebuffer).sample_pos@[old(framebuffer).sample_pos@.len() + y * self.nx
                        + x],
                ),
            final(framebuffer).samples@.len() == old(framebuffer).samples@.len() + self.spec_count()
                * old(framebuffer).spec_num_texels(),
            final(framebuffer).samples@.subrange(0, old(framebuffer).samples@.len() as int) == old(
                framebuffer,
            ).samples@,
            forall|i: int|
                old(framebuffer).samples@.len() <= i < final(framebuffer).samples@.len()
                    ==> call_ensures(S::default, (), #[trigger] final(framebuffer).samples@[i]),
            old(framebuffer).spec_is_complete() ==> final(framebuffer).spec_is_complete(),
    {
        let ghost start = *framebuffer;
        let ghost texels = start.spec_num_texels();
        let ghost layers0 = start.sample_pos@.len();
        let ghost stored0 = start.samples@.len();
        let nx: usize = self.nx;
        let ny: usize = self.ny;
        proof {
            assert(framebuffer.sample_pos@.subrange(0, layers0 as int) =~= start.sample_pos@);
            assert(framebuffer.samples@.subrange(0, stored0 as int) =~= start.samples@);
            assert((0 * (nx as int) + 0) * texels == 0) by (nonlinear_arith);
        }
        let mut y: usize = 0;
        while y < ny
            invariant
                nx == self.nx,
                ny == self.ny,
                y <= ny,
                texels == start.spec_num_texels(),
                layers0 == start.sample_pos@.len(),
                stored0 == start.samples@.len(),
                stored0 + self.spec_count() * texels <= usize::MAX,
                layers0 + self.spec_count() <= usize::MAX,
                forall|x: usize, y: usize| x < nx && y < ny ==> #[trigger] place.requires((x, y)),
                grid_state(framebuffer, &start, place, nx as int, 0, y as int),
            decreases ny - y,
        {
            let mut x: usize = 0;
            while x < nx
                invariant
                    nx == self.nx,
                    ny == self.ny,
                    y < ny,
                    x <= nx,
                    texels == start.spec_num_texels(),
                    layers0 == start.sample_pos@.len(),
                    stored0 == start.samples@.len(),
                    stored0 + self.spec_count() * texels <= usize::MAX,
                    layers0 + self.spec_count() <= usize::MAX,
                    forall|x: usize, y: usize|
                        x < nx && y < ny ==> #[trigger] place.requires((x, y)),
                    grid_state(framebuffer, &start, place, nx as int, x as int, y as int),
                decreases nx - x,
            {
                let position = place(x, y);
                let ghost before = *framebuffer;
                proof {
                    lemma_slot_in_range(nx as int, ny as int, 1, x as int, y as int, 0);
                    lemma_grid_room(
                        (y * nx + x) as nat,
                        self.spec_count(),
                        texels,
                    );
                    lemma_one_more_layer(texels, (y * nx + x) as nat);
                    assert(self.spec_count() == nx * ny) by (nonlinear_arith)
                        requires
                            nx == self.nx,
                            ny == self.ny,
                            self.spec_count() == (self.nx as nat) * (self.ny as nat),
                    ;
                }
                framebuffer.add_sample_pos(position);
                proof {
                    assert forall|px: usize, py: usize|
                        px < nx && (py < y || (py == y && px < x + 1)) implies #[trigger] place.ensures(
                        (px, py),
                        framebuffer.sample_pos@[layers0 + py * nx + px],
                    ) by {
                        lemma_row_major_order(nx as int, px as int, py as int, x as int, y as int);
                        if px == x && py == y {
                        } else {
                            assert(framebuffer.sample_pos@[layers0 + py * nx + px]
                                == before.sample_pos@[layers0 + py * nx + px]);
                        }
                    }
                    assert(framebuffer.sample_pos@.subrange(0, layers0 as int)
                        =~= start.sample_pos@);
                    assert(framebuffer.samples@.subrange(0, stored0 as int) =~= start.samples@) by {
                        assert forall|i: int| 0 <= i < stored0 implies framebuffer.samples@[i]
                            == start.samples@[i] by {
                            assert(framebuffer.samples@[i] == framebuffer.samples@.subrange(
                                0,
                                before.samples@.len() as int,
                            )[i]);
                            assert(before.samples@[i] == before.samples@.subrange(
                                0,
                                stored0 as int,
                            )[i]);
                        }
                    }
                    assert forall|i: int|
                        stored0 <= i < framebuffer.samples@.len() implies call_ensures(
                        S::default,
                        (),
                        #[trigger] framebuffer.samples@[i],
                    ) by {
                        if i < before.samples@.len() {
                            assert(framebuffer.samples@[i] == framebuffer.samples@.subrange(
                                0,
                                before.samples@.len() as int,
                            )[i]);
                        }
                    }
                    assert((y * nx + x + 1) * texels == (y * nx + x) * texels + texels)
                        by (nonlinear_arith);
                }
                x += 1;
            }
            proof {
                assert((y + 1) * nx + 0 == y * nx + nx) by (nonlinear_arith);
            }
            y += 1;
        }
        proof {
            assert(ny * nx == self.spec_count()) by (nonlinear_arith)
                requires
                    nx == self.nx,
                    ny == self.ny,
                    self.spec_count() == (self.nx as nat) * (self.ny as nat),
            ;
            if start.spec_is_complete() {
                assert(texels * layers0 + self.spec_count() * texels == texels * (layers0
                    + self.spec_count())) by (nonlinear_arith);
            }
        }
    }
}

/// The framebuffer `now` is `start` after the layers of the grid cells
/// before cell `(xc, yc)` have been added, row by row, in a grid `nx` wide.
spec fn grid_state<S: Default, F: Fn(usize, usize) -> glam::Vec2>(
    now: &Framebuffer<S>,
    start: &Framebuffer<S>,
    place: F,
    nx: int,
    xc: int,
    yc: int,
) -> bool {
    let added = yc * nx + xc;
    &&& now.width == start.width
    &&& now.height == start.height
    &&& 0 <= added
    &&& now.sample_pos@.len() == start.sample_pos@.len() + added
    &&& now.sample_pos@.subrange(0, start.sample_pos@.len() as int) == start.sample_pos@
    &&& forall|x: usize, y: usize|
        x < nx && (y < yc || (y == yc && x < xc)) ==> #[trigger] place.ensures(
            (x, y),
            now.sample_pos@[start.sample_pos@.len() + y * nx + x],
        )
    &&& now.samples@.len() == start.samples@.len() + added * start.spec_num_texels()
    &&& now.samples@.subrange(0, start.samples@.len() as int) == start.samples@
    &&& forall|i: int|
        start.samples@.len() <= i < now.samples@.len() ==> call_ensures(
            S::default,
            (),
            #[trigger] now.samples@[i],
        )
}

/// With `done` of `count` layers added, the store has room for one more.
proof fn lemma_grid_room(done: nat, count: nat, texels: nat)
    requires
        done < count,
    ensures
        done * texels + texels <= count * texels,
{
    assert(done * texels + texels <= count * texels) by (nonlinear_arith)
        requires
            done < count,
    ;
}

} // verus!
