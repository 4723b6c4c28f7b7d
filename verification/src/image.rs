use vstd::prelude::*;
use vstd::arithmetic::div_mod::{
    lemma_div_pos_is_pos, lemma_div_basics_5, lemma_div_is_ordered, lemma_div_multiples_vanish,
};
use crate::fixed::{trunc_div, clamp, SCALE};
use crate::vec3::{Vec3, V3, v_add, v_zero};
use crate::geometry::color_in_unit;
use crate::camera::IMAGE_DIM_MAX;

verus! {

/// Largest number of samples a pixel may accumulate; keeps the running
/// color sum inside `i64`.
pub const PIXEL_SAMPLES_MAX: usize = 0x100_0000;

/// One output pixel: a 4-byte RGBA tuple, channels in `[0, 255]`.
#[derive(Clone, Copy, PartialEq, Eq, Structural, Debug)]
pub struct Rgba {
    pub r: u8,
    pub g: u8,
    pub b: u8,
    pub a: u8,
}

/// One mean color channel scaled to an 8-bit value: the mean of the
/// accumulated sum, multiplied by 256, truncated (not rounded) and
/// clamped to `[0, 255]`.
pub open spec fn channel_byte(sum: int, n: int) -> int {
    clamp(trunc_div(trunc_div(sum, n) * 256, SCALE as int), 0, 255)
}

/// The finalized pixel: every channel byte-scaled, with opaque alpha.
pub open spec fn spec_finalize(sum: V3, n: int) -> Rgba {
    Rgba {
        r: channel_byte(sum.x, n) as u8,
        g: channel_byte(sum.y, n) as u8,
        b: channel_byte(sum.z, n) as u8,
        a: 255,
    }
}

/// The base coordinate of pixel `i` of `dim`, spread over `[0, 1]`
/// fixed-point; zero when the image is a single pixel wide that way.
pub open spec fn pixel_coord(i: int, dim: int) -> int {
    if dim > 1 {
        i * SCALE as int / (dim - 1)
    } else {
        0
    }
}

/// Accumulates the sampled colors of one pixel, then finalizes once
/// into an RGBA value; created by `Image::next` with the pixel's base
/// coordinates.
pub struct Pixel {
    pub u: i64,
    pub v: i64,
    pub samples: usize,
    pub color: Vec3,
}

impl Pixel {
    /// The running sum stays bounded by one unit of color per sample.
    pub open spec fn wf(self) -> bool {
        &&& self.samples <= PIXEL_SAMPLES_MAX
        &&& 0 <= self.color@.x <= self.samples * SCALE
        &&& 0 <= self.color@.y <= self.samples * SCALE
        &&& 0 <= self.color@.z <= self.samples * SCALE
    }

    /// The pixel's horizontal base coordinate in `[0, 1]`.
    pub fn u(&self) -> (r: i64)
        ensures
            r == self.u,
    {
        self.u
    }

    /// The pixel's vertical base coordinate in `[0, 1]`.
    pub fn v(&self) -> (r: i64)
        ensures
            r == self.v,
    {
        self.v
    }

    /// Add one sampled color to the running sum.
    pub fn add_sample(&mut self, color: Vec3)
        requires
            old(self).wf(),
            old(self).samples < PIXEL_SAMPLES_MAX,
            color_in_unit(color@),
        ensures
            final(self).samples == old(self).samples + 1,
            final(self).color@ == v_add(old(self).color@, color@),
            final(self).u == old(self).u,
            final(self).v == old(self).v,
            final(self).wf(),
    {
        proof {
            let s = old(self).samples as int;
            assert(s * SCALE <= PIXEL_SAMPLES_MAX * SCALE && (s + 1) * SCALE == s * SCALE
                + SCALE) by (nonlinear_arith)
                requires
                    0 <= s <= PIXEL_SAMPLES_MAX as int,
            ;
        }
        self.samples = self.samples + 1;
        self.color = self.color.add(&color);
    }

    /// Finalize the pixel: the mean of the accumulated samples, scaled
    /// to 8-bit channels with opaque alpha. Finalizing with no samples
    /// is a caller error, excluded by the requires.
    pub fn finalize(self) -> (px: Rgba)
        requires
            self.wf(),
            self.samples > 0,
        ensures
            px == spec_finalize(self.color@, self.samples as int),
    {
        let n = self.samples as u64;
        let r = channel(self.color.x, n);
        let g = channel(self.color.y, n);
        let b = channel(self.color.z, n);
        Rgba { r, g, b, a: 255 }
    }
}

/// One channel of a finalized pixel.
fn channel(c: i64, n: u64) -> (b: u8)
    requires
        0 < n,
        0 <= c <= 0x100_0000_0000,
    ensures
        b as int == channel_byte(c as int, n as int),
{
    let mean = (c as u64) / n;
    proof {
        lemma_div_pos_is_pos(c as int, n as int);
        lemma_div_basics_5(c as int, n as int);
    }
    let scaled = (mean * 256) / (SCALE as u64);
    proof {
        lemma_div_pos_is_pos(mean as int * 256, SCALE as int);
    }
    if scaled > 255 {
        255
    } else {
        scaled as u8
    }
}

/// Walks the output raster in row-major order (left to right, top to
/// bottom) and hands out one fresh pixel accumulator per coordinate.
pub struct Image {
    pub width: usize,
    pub height: usize,
    pub row: usize,
    pub col: usize,
}

impl Image {
    /// Dimensions in range and the cursor inside the raster (or just
    /// past its last row).
    pub open spec fn wf(self) -> bool {
        &&& 1 <= self.width <= IMAGE_DIM_MAX
        &&& 1 <= self.height <= IMAGE_DIM_MAX
        &&& self.col < self.width
        &&& self.row <= self.height
    }

    /// How many pixels have been handed out so far.
    pub open spec fn emitted(self) -> int {
        self.row * self.width + self.col
    }

    pub fn new(width: usize, height: usize) -> (img: Image)
        requires
            1 <= width <= IMAGE_DIM_MAX,
            1 <= height <= IMAGE_DIM_MAX,
        ensures
            img.wf(),
            img.width == width,
            img.height == height,
            img.emitted() == 0,
    {
        Image { width, height, row: 0, col: 0 }
    }

    pub fn width(&self) -> (w: usize)
        ensures
            w == self.width,
    {
        self.width
    }

    pub fn height(&self) -> (h: usize)
        ensures
            h == self.height,
    {
        self.height
    }

    /// The next pixel in row-major order: a fresh, empty accumulator
    /// carrying the pixel's base coordinates; `None` once every pixel
    /// of the raster has been handed out.
    pub fn next(&mut self) -> (px: Option<Pixel>)
        requires
            old(self).wf(),
        ensures
            final(self).wf(),
            final(self).width == old(self).width,
            final(self).height == old(self).height,
            old(self).row < old(self).height ==> (px matches Some(p) && p.samples == 0
                && p.color@ == v_zero() && p.u == pixel_coord(
                old(self).col as int,
                old(self).width as int,
            ) && p.v == pixel_coord(old(self).row as int, old(self).height as int)
                && final(self).emitted() == old(self).emitted() + 1),
            old(self).row >= old(self).height ==> px is None && *final(self) == *old(self),
    {
        if self.row >= self.height {
            None
        } else {
            let u = coord(self.col, self.width);
            let v = coord(self.row, self.height);
            self.col = self.col + 1;
            if self.col >= self.width {
                self.col = 0;
                self.row = self.row + 1;
                proof {
                    let r = old(self).row as int;
                    let w = old(self).width as int;
                    assert((r + 1) * w == r * w + w) by (nonlinear_arith);
                }
            }
            Some(Pixel { u, v, samples: 0, color: Vec3::new(0, 0, 0) })
        }
    }
}

/// The base coordinate of pixel `i` of `dim`.
fn coord(i: usize, dim: usize) -> (c: i64)
    requires
        i < dim,
        dim <= IMAGE_DIM_MAX,
    ensures
        c as int == pixel_coord(i as int, dim as int),
        0 <= c <= SCALE,
{
    if dim > 1 {
        proof {
            assert(i as int * SCALE as int <= 0x1_0000_0000 && 0 <= i as int * SCALE as int)
                by (nonlinear_arith)
                requires
                    0 <= i as int <= 0x1_0000,
        ;
        }
        let prod = (i as u64) * (SCALE as u64);
        let q = prod / ((dim - 1) as u64);
        proof {
            lemma_div_pos_is_pos(prod as int, dim as int - 1);
            assert(i as int * SCALE as int <= (dim as int - 1) * SCALE as int)
                by (nonlinear_arith)
                requires
                    i as int <= dim as int - 1,
            ;
            lemma_div_is_ordered(prod as int, (dim as int - 1) * SCALE as int, dim as int - 1);
            lemma_div_multiples_vanish(SCALE as int, dim as int - 1);
        }
        q as i64
    } else {
        0
    }
}

} // verus!
