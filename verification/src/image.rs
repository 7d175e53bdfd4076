//! The pixel data model: RGBA-8 colors, an immutable two-dimensional image
//! buffer, and the error taxonomy of the decomposition pipeline.

use vstd::prelude::*;

verus! {

/// One RGBA pixel, eight bits per channel.
#[derive(Clone, Copy, PartialEq, Eq, Structural, Debug, Hash)]
pub struct Color {
    pub r: u8,
    pub g: u8,
    pub b: u8,
    pub a: u8,
}

/// Why a decomposition was aborted. Every failure is a typed, expected
/// outcome: no path of the pipeline panics.
#[derive(Clone, Copy, PartialEq, Eq, Structural, Debug)]
pub enum ImageError {
    /// The source asset could not be converted to RGBA-8 before analysis.
    /// Reported by the caller's asset-loading layer, never by this crate.
    DecodeFailed,
    /// No color reached the required sample majority of `find_background`.
    BackgroundNotDetermined,
    /// An expected non-background pixel was absent along a required scan axis.
    NetNotFound,
    /// A geometric consistency check on the measured boundaries failed.
    NotAligned,
    /// A face crop could not be placed inside the source image, or the
    /// output dimensions would not be representable.
    CopyError,
    /// The image handle did not resolve. Reported by the caller's
    /// asset-loading layer, never by this crate.
    AssetNotFound,
}

/// A two-dimensional buffer of RGBA-8 pixels, stored row-major.
/// Origin top-left, x to the right, y downward.
#[derive(Clone, Debug, PartialEq, Eq)]
pub struct Image {
    pub(crate) width: u32,
    pub(crate) height: u32,
    pub(crate) data: Vec<Color>,
}

impl Image {
    /// The buffer holds exactly one pixel per coordinate pair.
    pub closed spec fn wf(&self) -> bool {
        self.data@.len() == (self.width as int) * (self.height as int)
            && (self.width as int) * (self.height as int) <= usize::MAX as int
    }

    /// A well-formed image's pixel count is addressable.
    pub proof fn lemma_area_bounded(&self)
        requires
            self.wf(),
        ensures
            (self.spec_width() as int) * (self.spec_height() as int) <= usize::MAX as int,
    {
    }

    pub closed spec fn spec_width(&self) -> u32 {
        self.width
    }

    pub closed spec fn spec_height(&self) -> u32 {
        self.height
    }

    /// The pixel at column `x`, row `y`.
    pub closed spec fn spec_pixel(&self, x: int, y: int) -> Color {
        self.data@[y * (self.width as int) + x]
    }

    #[verifier::when_used_as_spec(spec_width)]
    pub fn width(&self) -> (w: u32)
        ensures
            w == self.spec_width(),
    {
        self.width
    }

    #[verifier::when_used_as_spec(spec_height)]
    pub fn height(&self) -> (h: u32)
        ensures
            h == self.spec_height(),
    {
        self.height
    }

    /// A fresh image with every pixel set to `fill`.
    pub fn new(width: u32, height: u32, fill: Color) -> (im: Image)
        requires
            (width as int) * (height as int) <= usize::MAX as int,
        ensures
            im.wf(),
            im.spec_width() == width,
            im.spec_height() == height,
            forall|x: int, y: int|
                0 <= x < width && 0 <= y < height ==> im.spec_pixel(x, y) == fill,
    {
        let n: usize = (width as usize) * (height as usize);
        let mut data: Vec<Color> = Vec::new();
        let mut i: usize = 0;
        while i < n
            invariant
                i <= n,
                data@.len() == i,
                forall|k: int| 0 <= k < i ==> data@[k] == fill,
            decreases n - i,
        {
            data.push(fill);
            i = i + 1;
        }
        let im = Image { width, height, data };
        proof {
            assert forall|x: int, y: int|
                0 <= x < width && 0 <= y < height implies im.spec_pixel(x, y) == fill by {
                assert(y * (width as int) + x < (width as int) * (height as int)) by (nonlinear_arith)
                    requires
                        0 <= x < width as int,
                        0 <= y < height as int,
                ;
                assert(0 <= y * (width as int) + x) by (nonlinear_arith)
                    requires
                        0 <= x,
                        0 <= y,
                        0 <= width as int,
                ;
            }
        }
        im
    }

    /// Reads the pixel at column `x`, row `y`.
    pub fn pixel(&self, x: u32, y: u32) -> (c: Color)
        requires
            self.wf(),
            x < self.spec_width(),
            y < self.spec_height(),
        ensures
            c == self.spec_pixel(x as int, y as int),
    {
        proof {
            lemma_index_in_bounds(self.width as int, self.height as int, x as int, y as int);
        }
        let n: usize = self.data.len();
        let idx: usize = (y as usize) * (self.width as usize) + (x as usize);
        assert(idx < n);
        self.data[idx]
    }

    /// Replaces the pixel at column `x`, row `y`, leaving every other pixel
    /// and both dimensions unchanged.
    pub fn set_pixel(&mut self, x: u32, y: u32, c: Color)
        requires
            old(self).wf(),
            x < old(self).spec_width(),
            y < old(self).spec_height(),
        ensures
            final(self).wf(),
            final(self).spec_width() == old(self).spec_width(),
            final(self).spec_height() == old(self).spec_height(),
            final(self).spec_pixel(x as int, y as int) == c,
            forall|x2: int, y2: int|
                0 <= x2 < old(self).spec_width() && 0 <= y2 < old(self).spec_height()
                    && !(x2 == x as int && y2 == y as int)
                    ==> final(self).spec_pixel(x2, y2) == old(self).spec_pixel(x2, y2),
    {
        proof {
            lemma_index_in_bounds(self.width as int, self.height as int, x as int, y as int);
        }
        let n: usize = self.data.len();
        let idx: usize = (y as usize) * (self.width as usize) + (x as usize);
        assert(idx < n);
        self.data.set(idx, c);
        proof {
            assert forall|x2: int, y2: int|
                0 <= x2 < self.width as int && 0 <= y2 < self.height as int
                    && !(x2 == x as int && y2 == y as int)
                    implies self.spec_pixel(x2, y2) == old(self).spec_pixel(x2, y2) by {
                lemma_index_in_bounds(self.width as int, self.height as int, x2, y2);
                lemma_distinct_coords_distinct_index(
                    self.width as int, x as int, y as int, x2, y2,
                );
            }
        }
    }
}

/// Two images agree in their dimensions and in every pixel.
pub open spec fn same_pixels(a: Image, b: Image) -> bool {
    &&& a.spec_width() == b.spec_width()
    &&& a.spec_height() == b.spec_height()
    &&& forall|x: int, y: int|
        0 <= x < a.spec_width() && 0 <= y < a.spec_height()
            ==> #[trigger] a.spec_pixel(x, y) == b.spec_pixel(x, y)
}

/// A pixel's row-major index lies inside the buffer.
proof fn lemma_index_in_bounds(w: int, h: int, x: int, y: int)
    requires
        0 <= x < w,
        0 <= y < h,
    ensures
        0 <= y * w + x < w * h,
{
    assert(y * w + x < w * h) by (nonlinear_arith)
        requires
            0 <= x < w,
            0 <= y < h,
    ;
    assert(0 <= y * w + x) by (nonlinear_arith)
        requires
            0 <= x,
            0 <= y,
            0 < w,
    ;
}

/// Distinct coordinate pairs have distinct row-major indices.
proof fn lemma_distinct_coords_distinct_index(w: int, x1: int, y1: int, x2: int, y2: int)
    requires
        0 <= x1 < w,
        0 <= x2 < w,
        0 <= y1,
        0 <= y2,
        !(x1 == x2 && y1 == y2),
    ensures
        y1 * w + x1 != y2 * w + x2,
{
    if y1 == y2 {
        assert(y1 * w + x1 != y2 * w + x2);
    } else {
        assert(y1 * w + x1 != y2 * w + x2) by (nonlinear_arith)
            requires
                0 <= x1 < w,
                0 <= x2 < w,
                y1 != y2,
        ;
    }
}

} // verus!
