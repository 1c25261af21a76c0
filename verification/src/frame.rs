//! The frame: one packed colour word per pixel, and the scan that fills it
//! from a framebuffer.

use crate::bounds::{Bounds, RelativeBounds};
use crate::framebuffer::{lemma_row_major_order, lemma_slot_in_range, Framebuffer};
use vstd::prelude::*;

verus! {

/// Transfer function applied to an intensity before it is quantised.
#[derive(Debug, Clone, Copy)]
pub enum Colorspace {
    Linear,
    Srgb,
}

impl Colorspace {
    /// The other colour space.
    pub open spec fn spec_toggled(self) -> Colorspace {
        match self {
            Colorspace::Linear => Colorspace::Srgb,
            Colorspace::Srgb => Colorspace::Linear,
        }
    }

    /// The other colour space.
    pub fn toggled(self) -> (other: Colorspace)
        ensures
            other == self.spec_toggled(),
    {
        match self {
            Colorspace::Linear => Colorspace::Srgb,
            Colorspace::Srgb => Colorspace::Linear,
        }
    }
}

/// A display-resolution pixel buffer, row-major and top to bottom.
pub struct Frame {
    pub width: u32,
    pub height: u32,
    pub data: Vec<u32>,
}

/// The colour word of a gray level: full alpha, and the level in each of the
/// three colour channels.
pub open spec fn spec_pack_gray(level: u8) -> u32 {
    (0xff00_0000 + 0x1_0000 * level + 0x100 * level + level) as u32
}

/// Packs a gray level into a colour word with full alpha.
pub fn pack_gray(level: u8) -> (pixel: u32)
    ensures
        pixel == spec_pack_gray(level),
{
    let value: u32 = level as u32;
    assert(0xffu32 << 24 | value << 16 | value << 8 | value << 0 == 0xff00_0000 + 0x1_0000 * value
        + 0x100 * value + value) by (bit_vector)
        requires
            value <= 0xff,
    ;
    0xff << 24 | value << 16 | value << 8 | value << 0
}

/// `pixel` is what `shade` makes of pixel `(x, y)`: the colour word of a gray
/// level that `shade` may return when it is handed the framebuffer, the
/// pixel, the window `window` placed on that pixel, and the colour space.
pub open spec fn is_shaded<S, F: Fn(&Framebuffer<S>, u32, u32, &Bounds, Colorspace) -> u8>(
    shade: F,
    framebuffer: &Framebuffer<S>,
    window: &RelativeBounds,
    colorspace: Colorspace,
    x: u32,
    y: u32,
    pixel: u32,
) -> bool {
    exists|bounds: Bounds, level: u8|
        {
            &&& bounds.is_placed(window, x, y, framebuffer.width, framebuffer.height)
            &&& #[trigger] shade.ensures((framebuffer, x, y, &bounds, colorspace), level)
            &&& pixel == spec_pack_gray(level)
        }
}

impl Frame {
    /// The frame holds one word for every pixel.
    pub open spec fn wf(&self) -> bool {
        self.data@.len() == self.width * self.height
    }

    /// The word of pixel `(x, y)`.
    pub open spec fn spec_pixel(&self, x: int, y: int) -> u32 {
        self.data@[y * self.width + x]
    }

    /// Fills every pixel of the frame from `framebuffer`.
    ///
    /// For each pixel, row by row, `window` is placed on the pixel and cut
    /// down to the raster, `shade` resolves the samples under it to a gray
    /// level, and the level is packed into the pixel's word. Frame and
    /// framebuffer must be of one size, and the framebuffer complete.
    pub fn reconstruct<S, F>(
        &mut self,
        framebuffer: &Framebuffer<S>,
        window: &RelativeBounds,
        colorspace: Colorspace,
        shade: F,
    ) where F: Fn(&Framebuffer<S>, u32, u32, &Bounds, Colorspace) -> u8
        requires
            old(self).wf(),
            old(self).width == framebuffer.width,
            old(self).height == framebuffer.height,
            framebuffer.spec_is_complete(),
            window.wf(),
            forall|x: u32, y: u32, bounds: Bounds|
                x < framebuffer.width && y < framebuffer.height && bounds.is_placed(
                    window,
                    x,
                    y,
                    framebuffer.width,
                    framebuffer.height,
                ) ==> #[trigger] shade.requires((framebuffer, x, y, &bounds, colorspace)),
        ensures
            final(self).width == old(self).width,
            final(self).height == old(self).height,
            final(self).wf(),
            forall|x: u32, y: u32|
                x < final(self).width && y < final(self).height ==> is_shaded(
                    shade,
                    framebuffer,
                    window,
                    colorspace,
                    x,
                    y,
                    #[trigger] final(self).spec_pixel(x as int, y as int),
                ),
    {
        let width: u32 = self.width;
        let height: u32 = self.height;
        let mut y: u32 = 0;
        while y < height
            invariant
                y <= height,
                self.width == width,
                self.height == height,
                framebuffer.width == width,
                framebuffer.height == height,
                self.wf(),
                window.wf(),
                forall|x: u32, y: u32, bounds: Bounds|
                    x < framebuffer.width && y < framebuffer.height && bounds.is_placed(
                        window,
                        x,
                        y,
                        framebuffer.width,
                        framebuffer.height,
                    ) ==> #[trigger] shade.requires((framebuffer, x, y, &bounds, colorspace)),
                forall|px: u32, py: u32|
                    px < width && py < y ==> is_shaded(
                        shade,
                        framebuffer,
                        window,
                        colorspace,
                        px,
                        py,
                        #[trigger] self.spec_pixel(px as int, py as int),
                    ),
            decreases height - y,
        {
            let mut x: u32 = 0;
            while x < width
                invariant
                    x <= width,
                    y < height,
                    self.width == width,
                    self.height == height,
                    framebuffer.width == width,
                    framebuffer.height == height,
                    self.wf(),
                    window.wf(),
                    forall|x: u32, y: u32, bounds: Bounds|
                        x < framebuffer.width && y < framebuffer.height && bounds.is_placed(
                            window,
                            x,
                            y,
                            framebuffer.width,
                            framebuffer.height,
                        ) ==> #[trigger] shade.requires((framebuffer, x, y, &bounds, colorspace)),
                    forall|px: u32, py: u32|
                        px < width && (py < y || (py == y && px < x)) ==> is_shaded(
                            shade,
                            framebuffer,
                            window,
                            colorspace,
                            px,
                            py,
                            #[trigger] self.spec_pixel(px as int, py as int),
                        ),
                decreases width - x,
            {
                let bounds = window.offset(x, y, width, height);
                let level: u8 = shade(framebuffer, x, y, &bounds, colorspace);
                proof {
                    lemma_slot_in_range(width as int, height as int, 1, x as int, y as int, 0);
                    assert(self.data.len() == self.data@.len());
                }
                let at: usize = (y as usize) * (width as usize) + (x as usize);
                let ghost before = *self;
                self.data[at] = pack_gray(level);
                proof {
                    assert forall|px: u32, py: u32|
                        px < width && (py < y || (py == y && px < x + 1)) implies is_shaded(
                        shade,
                        framebuffer,
                        window,
                        colorspace,
                        px,
                        py,
                        #[trigger] self.spec_pixel(px as int, py as int),
                    ) by {
                        lemma_row_major_order(
                            width as int,
                            px as int,
                            py as int,
                            x as int,
                            y as int,
                        );
                        if px == x && py == y {
                            assert(self.spec_pixel(px as int, py as int) == spec_pack_gray(
                                level,
                            ));
                        } else {
                            assert(self.spec_pixel(px as int, py as int) == before.spec_pixel(
                                px as int,
                                py as int,
                            ));
                        }
                    }
                }
                x += 1;
            }
            y += 1;
        }
    }

    /// A frame of `width` by `height` pixels, every word zero.
    pub fn new(width: u32, height: u32) -> (frame: Self)
        requires
            width * height <= usize::MAX,
        ensures
            frame.width == width,
            frame.height == height,
            frame.data@ == Seq::new((width * height) as nat, |i: int| 0u32),
            frame.wf(),
    {
        let pixels: usize = (width as usize) * (height as usize);
        let data: Vec<u32> = vec![0; pixels];
        assert(data@ =~= Seq::new((width * height) as nat, |i: int| 0u32));
        Frame { width, height, data }
    }
}

} // verus!
