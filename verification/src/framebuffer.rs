//! The multi-sample framebuffer: one coverage value for every sample of every
//! texel.
//!
//! The store is interleaved. With `n` sample layers, the value of sample `s`
//! of texel `(x, y)` sits at `s + n * (y * width + x)`. The type of a value
//! is a parameter of the framebuffer: nothing here computes with one.

use vstd::prelude::*;

verus! {

/// Sample storage for a raster of `width` by `height` texels.
pub struct Framebuffer<S> {
    pub width: u32,
    pub height: u32,
    /// Where each sample layer sits inside its texel.
    pub sample_pos: Vec<glam::Vec2>,
    /// The stored values, interleaved by sample layer.
    pub samples: Vec<S>,
}

impl<S> Framebuffer<S> {
    /// Number of texels of the raster.
    pub open spec fn spec_num_texels(&self) -> nat {
        (self.width as nat) * (self.height as nat)
    }

    /// Number of sample layers.
    pub open spec fn num_layers(&self) -> nat {
        self.sample_pos@.len()
    }

    /// The store holds exactly one value for every sample of every texel.
    pub open spec fn spec_is_complete(&self) -> bool {
        self.samples@.len() == self.spec_num_texels() * self.num_layers()
    }

    /// Position in the store of sample `sample_id` of texel `(x, y)`.
    pub open spec fn spec_sample_index(&self, x: int, y: int, sample_id: int) -> int {
        sample_id + self.num_layers() * (y * self.width + x)
    }

    /// The stored value of sample `sample_id` of texel `(x, y)`.
    pub open spec fn spec_sample(&self, x: int, y: int, sample_id: int) -> S {
        self.samples@[self.spec_sample_index(x, y, sample_id)]
    }

    /// A framebuffer without sample layers and without stored values.
    pub fn new(width: u32, height: u32) -> (fb: Self)
        ensures
            fb.width == width,
            fb.height == height,
            fb.sample_pos@ == Seq::<glam::Vec2>::empty(),
            fb.samples@ == Seq::<S>::empty(),
            fb.spec_is_complete(),
    {
        proof {
            lemma_empty_store(width as nat, height as nat, 0);
        }
        Framebuffer { width, height, sample_pos: Vec::new(), samples: Vec::new() }
    }

    /// Drops every sample layer and every stored value; the raster keeps its
    /// size.
    pub fn reset(&mut self)
        ensures
            final(self).width == old(self).width,
            final(self).height == old(self).height,
            final(self).sample_pos@ == Seq::<glam::Vec2>::empty(),
            final(self).samples@ == Seq::<S>::empty(),
            final(self).spec_is_complete(),
    {
        proof {
            lemma_empty_store(self.width as nat, self.height as nat, 0);
        }
        self.sample_pos.clear();
        self.samples.clear();
    }

    /// Drops every stored value and keeps the sample layers.
    pub fn clear(&mut self)
        ensures
            final(self).width == old(self).width,
            final(self).height == old(self).height,
            final(self).sample_pos@ == old(self).sample_pos@,
            final(self).samples@ == Seq::<S>::empty(),
            final(self).spec_is_complete() <==> (old(self).spec_num_texels() == 0 || old(
                self,
            ).num_layers() == 0),
    {
        proof {
            lemma_empty_store(
                self.width as nat,
                self.height as nat,
                self.sample_pos@.len(),
            );
        }
        self.samples.clear();
    }

    /// Number of texels of the raster.
    pub fn num_texels(&self) -> (n: usize)
        requires
            self.spec_num_texels() <= usize::MAX,
        ensures
            n == self.spec_num_texels(),
    {
        (self.width as usize) * (self.height as usize)
    }

    /// Whether the store holds exactly one value for every sample of every
    /// texel. Any raster and any store can be asked.
    pub fn is_complete(&self) -> (complete: bool)
        ensures
            complete == self.spec_is_complete(),
    {
        let width: u128 = self.width as u128;
        let height: u128 = self.height as u128;
        let layers: u128 = self.sample_pos.len() as u128;
        assert(width * height <= 0xffff_ffff * 0xffff_ffff) by (nonlinear_arith)
            requires
                width <= 0xffff_ffff,
                height <= 0xffff_ffff,
        ;
        let texels: u128 = width * height;
        assert(texels * layers <= 0xffff_ffff * 0xffff_ffff * 0xffff_ffff_ffff_ffff)
            by (nonlinear_arith)
            requires
                texels <= 0xffff_ffff * 0xffff_ffff,
                layers <= 0xffff_ffff_ffff_ffff,
        ;
        self.samples.len() as u128 == texels * layers
    }

    /// Position in the store of sample `sample_id` of texel `(x, y)`, for a
    /// texel of the raster and a layer that exists.
    pub fn sample_index(&self, x: u32, y: u32, sample_id: usize) -> (index: usize)
        requires
            self.spec_is_complete(),
            x < self.width,
            y < self.height,
            sample_id < self.num_layers(),
        ensures
            index == self.spec_sample_index(x as int, y as int, sample_id as int),
            index < self.samples@.len(),
    {
        proof {
            lemma_slot_in_range(
                self.width as int,
                self.height as int,
                self.num_layers() as int,
                x as int,
                y as int,
                sample_id as int,
            );
            assert(self.samples.len() == self.samples@.len());
        }
        let texel: usize = (y as usize) * (self.width as usize) + (x as usize);
        sample_id + self.sample_pos.len() * texel
    }
}

impl<S: Default> Framebuffer<S> {
    /// Registers one more sample layer at `position` and grows the store by
    /// one value per texel, each of them the default of the value type.
    pub fn add_sample_pos(&mut self, position: glam::Vec2)
        requires
            old(self).sample_pos@.len() < usize::MAX,
            old(self).samples@.len() + old(self).spec_num_texels() <= usize::MAX,
        ensures
            final(self).width == old(self).width,
            final(self).height == old(self).height,
            final(self).sample_pos@ == old(self).sample_pos@.push(position),
            final(self).samples@.len() == old(self).samples@.len() + old(self).spec_num_texels(),
            final(self).samples@.subrange(0, old(self).samples@.len() as int) == old(self).samples@,
            forall|i: int|
                old(self).samples@.len() <= i < final(self).samples@.len() ==> call_ensures(
                    S::default,
                    (),
                    #[trigger] final(self).samples@[i],
                ),
            old(self).spec_is_complete() ==> final(self).spec_is_complete(),
    {
        proof {
            lemma_one_more_layer(old(self).spec_num_texels(), old(self).num_layers());
        }
        self.sample_pos.push(position);
        let texels: usize = self.num_texels();
        let ghost before = self.samples@;
        let mut added: usize = 0;
        while added < texels
            invariant
                added <= texels,
                before.len() + texels <= usize::MAX,
                self.width == old(self).width,
                self.height == old(self).height,
                self.sample_pos@ == old(self).sample_pos@.push(position),
                self.samples@.len() == before.len() + added,
                self.samples@.subrange(0, before.len() as int) == before,
                forall|i: int|
                    before.len() <= i < self.samples@.len() ==> call_ensures(
                        S::default,
                        (),
                        #[trigger] self.samples@[i],
                    ),
            decreases texels - added,
        {
            self.samples.push(S::default());
            added += 1;
        }
    }
}

/// An empty store is complete exactly when there is nothing to store: no
/// texel, or no sample layer.
pub proof fn lemma_empty_store(width: nat, height: nat, layers: nat)
    ensures
        0 == (width * height) * layers <==> (width * height == 0 || layers == 0),
{
    assert(0 == (width * height) * layers <==> (width * height == 0 || layers == 0))
        by (nonlinear_arith);
}

/// One more layer asks for one more value per texel.
pub proof fn lemma_one_more_layer(texels: nat, layers: nat)
    ensures
        texels * layers + texels == texels * (layers + 1),
{
    assert(texels * layers + texels == texels * (layers + 1)) by (nonlinear_arith);
}

/// The texel number `y * width + x` of a texel of the raster is below the
/// number of texels, and the slot of each of its samples is below the size
/// of a complete store.
pub proof fn lemma_slot_in_range(width: int, height: int, layers: int, x: int, y: int, s: int)
    requires
        0 <= x < width,
        0 <= y < height,
        0 <= s < layers,
    ensures
        0 <= y * width,
        0 <= y * width + x < width * height,
        0 <= layers * (y * width + x),
        0 <= s + layers * (y * width + x) < width * height * layers,
        width * height <= width * height * layers,
{
    assert(0 <= y * width && y * width + width <= width * height) by (nonlinear_arith)
        requires
            0 <= y < height,
            0 < width,
    ;
    let texel = y * width + x;
    let texels = width * height;
    assert(0 <= layers * texel && layers * texel + layers <= texels * layers && texels <= texels
        * layers) by (nonlinear_arith)
        requires
            0 <= texel < texels,
            0 < layers,
    ;
}

/// Texels earlier in a row-by-row walk of a raster have smaller numbers.
pub proof fn lemma_row_major_order(width: int, x1: int, y1: int, x2: int, y2: int)
    requires
        0 <= x1 < width,
        0 <= x2 < width,
        0 <= y1,
        0 <= y2,
    ensures
        (y1 < y2 || (y1 == y2 && x1 < x2)) <==> y1 * width + x1 < y2 * width + x2,
{
    if y1 < y2 {
        assert(y1 * width + width <= y2 * width) by (nonlinear_arith)
            requires
                y1 < y2,
                0 < width,
        ;
    } else if y2 < y1 {
        assert(y2 * width + width <= y1 * width) by (nonlinear_arith)
            requires
                y2 < y1,
                0 < width,
        ;
    }
}

/// A framebuffer without stored values is complete exactly when there is
/// nothing to store: no texel, or no sample layer. So it is complete right
/// after `new` and after `reset`, and after `clear` only if it has no layer
/// or no texel.
pub proof fn lemma_complete_without_values<S>(fb: Framebuffer<S>)
    requires
        fb.samples@.len() == 0,
    ensures
        fb.spec_is_complete() <==> (fb.spec_num_texels() == 0 || fb.num_layers() == 0),
{
    lemma_empty_store(fb.width as nat, fb.height as nat, fb.num_layers());
}

/// A complete framebuffer stays complete when a layer is added together
/// with one value per texel.
pub proof fn lemma_complete_with_one_more_layer<S>(before: Framebuffer<S>, after: Framebuffer<S>)
    requires
        before.spec_is_complete(),
        after.width == before.width,
        after.height == before.height,
        after.num_layers() == before.num_layers() + 1,
        after.samples@.len() == before.samples@.len() + before.spec_num_texels(),
    ensures
        after.spec_is_complete(),
{
    lemma_one_more_layer(before.spec_num_texels(), before.num_layers());
}

/// Every slot of a complete store is the slot of a sample: of layer
/// `i % layers` of the texel numbered `i / layers`. Together with
/// [`lemma_slots_are_disjoint`], what is said of every sample of every texel
/// is said of the whole store.
pub proof fn lemma_every_slot_is_a_sample(width: int, height: int, layers: int, i: int) -> (sample:
    (int, int, int))
    requires
        0 <= width,
        0 <= height,
        0 <= layers,
        0 <= i < width * height * layers,
    ensures
        sample == ((i / layers) % width, (i / layers) / width, i % layers),
        0 <= sample.0 < width,
        0 <= sample.1 < height,
        0 <= sample.2 < layers,
        i == sample.2 + layers * (sample.1 * width + sample.0),
{
    assert(0 < layers && 0 < width && 0 < height) by (nonlinear_arith)
        requires
            0 <= width,
            0 <= height,
            0 <= layers,
            0 < width * height * layers,
    ;
    let texel = i / layers;
    vstd::arithmetic::div_mod::lemma_fundamental_div_mod(i, layers);
    vstd::arithmetic::div_mod::lemma_mod_bound(i, layers);
    vstd::arithmetic::div_mod::lemma_div_pos_is_pos(i, layers);
    assert(width * height * layers == layers * (width * height)) by (nonlinear_arith);
    vstd::arithmetic::div_mod::lemma_multiply_divide_lt(i, layers, width * height);
    vstd::arithmetic::div_mod::lemma_fundamental_div_mod(texel, width);
    vstd::arithmetic::div_mod::lemma_mod_bound(texel, width);
    vstd::arithmetic::div_mod::lemma_div_pos_is_pos(texel, width);
    vstd::arithmetic::div_mod::lemma_multiply_divide_lt(texel, width, height);
    assert((texel / width) * width == width * (texel / width)) by (nonlinear_arith);
    ((i / layers) % width, (i / layers) / width, i % layers)
}

/// Two samples share a slot only if they are the same sample of the same
/// texel: the layout never stores two values in one place.
pub proof fn lemma_slots_are_disjoint(
    width: int,
    layers: int,
    x1: int,
    y1: int,
    s1: int,
    x2: int,
    y2: int,
    s2: int,
)
    requires
        0 <= x1 < width,
        0 <= x2 < width,
        0 <= s1 < layers,
        0 <= s2 < layers,
        s1 + layers * (y1 * width + x1) == s2 + layers * (y2 * width + x2),
    ensures
        x1 == x2,
        y1 == y2,
        s1 == s2,
{
    let t1 = y1 * width + x1;
    let t2 = y2 * width + x2;
    assert(t1 == t2) by (nonlinear_arith)
        requires
            0 <= s1 < layers,
            0 <= s2 < layers,
            s1 + layers * t1 == s2 + layers * t2,
    ;
    assert(y1 == y2) by (nonlinear_arith)
        requires
            0 <= x1 < width,
            0 <= x2 < width,
            y1 * width + x1 == y2 * width + x2,
    ;
}

} // verus!
