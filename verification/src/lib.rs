//! The raster side of a coverage rasterizer for paths of lines and quadratic
//! curves.
//!
//! A path is drawn with a [`PathBuilder`], joined into one list of curves by
//! [`create_path`], and rasterized into a [`Framebuffer`]: one coverage value
//! for every sample of every texel. A [`Frame`] is then reconstructed from
//! the framebuffer, one colour word per pixel.
//!
//! What is proved here is where values go: the layout of the framebuffer,
//! which samples a scan writes and which it leaves alone, which window of
//! texels a pixel is reconstructed from, and how a gray level is packed.
//! What a value is, the coverage of a sample or the weight of a kernel, is
//! arithmetic on floating-point numbers, which the verifier does not take.
//! The scans are therefore handed a function that computes it, and their
//! contracts speak of what that function returns:
//!
//! - [`rasterize_each`] and [`cmd_fill`] write the samples of a rectangle;
//! - [`Frame::reconstruct`] fills a frame, pixel by pixel;
//! - [`UniformSampler::populate`] adds the sample layers of a grid;
//! - [`PathBuilder::monotonize`] replaces curves by their pieces.
//!
//! Points are `glam::Vec2` values and are only stored and handed on.

pub mod bounds;
pub mod frame;
pub mod framebuffer;
pub mod paths;
pub mod point;
pub mod raster;
pub mod rect;
pub mod sample;
pub mod select;

pub use crate::bounds::{Bounds, RelativeBounds};
pub use crate::frame::{pack_gray, Colorspace, Frame};
pub use crate::framebuffer::Framebuffer;
pub use crate::paths::{create_path, Curve, PathBuilder, Pen, Segment};
pub use crate::raster::{cmd_fill, crossing_sign, rasterize_each};
pub use crate::rect::FillRect;
pub use crate::sample::UniformSampler;
pub use crate::select::{Controls, Selector};
