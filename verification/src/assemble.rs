//! Face extraction and strip assembly: derives the common face side length
//! from the measurements and copies the six faces of the net into one
//! output image of width `side` and height `6 * side`, in the fixed layer
//! order +X, -X, +Y, -Y, +Z, -Z.

use vstd::arithmetic::div_mod::lemma_fundamental_div_mod_converse;
use vstd::prelude::*;

use crate::image::{Color, Image, ImageError};
use crate::measure::{
    fits_in, measurements_model, side_model, view_inv, x_interval, y_interval, ImageMeasurements,
    MeasurementsView,
};

verus! {

/// Which x interval holds face `k` of the output order +X, -X, +Y, -Y, +Z, -Z.
pub open spec fn face_x_index(k: int) -> int {
    if k == 0 {
        3
    } else if k == 1 {
        1
    } else if k == 5 {
        0
    } else {
        2
    }
}

/// Which y interval holds face `k` of the output order.
pub open spec fn face_y_index(k: int) -> int {
    if k == 2 {
        0
    } else if k == 3 {
        2
    } else {
        1
    }
}

/// Leftmost source column of face `k`: its crop is centered in its interval.
pub open spec fn face_src_x(mv: MeasurementsView, k: int) -> int {
    mv.vec_x[face_x_index(k)] + (x_interval(mv, face_x_index(k)) - side_model(mv)) / 2
}

/// Topmost source row of face `k`: its crop is centered in its interval.
pub open spec fn face_src_y(mv: MeasurementsView, k: int) -> int {
    mv.vec_y[face_y_index(k)] + (y_interval(mv, face_y_index(k)) - side_model(mv)) / 2
}

/// The centered `side` by `side` crop of face `k` lies fully inside the
/// source image `im`.
pub open spec fn crop_fits(mv: MeasurementsView, im: Image, k: int) -> bool {
    &&& face_src_x(mv, k) + side_model(mv) <= im.spec_width()
    &&& face_src_y(mv, k) + side_model(mv) <= im.spec_height()
}

/// The measured faces can be assembled: each of the six crops lies inside
/// the source image and the output height `6 * side` is a representable
/// pixel count.
pub open spec fn assemble_ok(mv: MeasurementsView, im: Image) -> bool {
    (forall|k: int| 0 <= k < 6 ==> crop_fits(mv, im, k)) && 6 * side_model(mv) <= u32::MAX
}

/// Boundaries that lie inside an image keep every centered crop inside it:
/// each crop stays within its own interval, which ends at or before the
/// outermost boundary.
pub proof fn lemma_fits_in_crops(mv: MeasurementsView, im: Image)
    requires
        view_inv(mv),
        fits_in(mv, im),
    ensures
        forall|k: int| 0 <= k < 6 ==> crop_fits(mv, im, k),
{
    let side = side_model(mv);
    assert forall|k: int| 0 <= k < 6 implies crop_fits(mv, im, k) by {
        let xi = face_x_index(k);
        let yi = face_y_index(k);
        assert(side <= x_interval(mv, xi));
        assert(side <= y_interval(mv, yi));
        assert(face_src_x(mv, k) + side <= mv.vec_x[xi + 1]);
        assert(face_src_y(mv, k) + side <= mv.vec_y[yi + 1]);
        assert(mv.vec_x[1] <= mv.vec_x[2]);
        assert(mv.vec_x[2] <= mv.vec_x[3]);
        assert(mv.vec_x[3] <= mv.vec_x[4]);
        assert(mv.vec_y[1] <= mv.vec_y[2]);
        assert(mv.vec_y[2] <= mv.vec_y[3]);
    }
}

/// The assembled strip: `side` wide, `6 * side` tall, and every pixel of
/// layer `k = y / side` comes from the centered crop of face `k`.
pub open spec fn strip_matches(out: Image, mv: MeasurementsView, im: Image) -> bool {
    let side = side_model(mv);
    &&& out.spec_width() == side
    &&& out.spec_height() == 6 * side
    &&& forall|x: int, y: int|
        0 <= x < side && 0 <= y < 6 * side ==> #[trigger] out.spec_pixel(x, y)
            == im.spec_pixel(face_src_x(mv, y / side) + x, face_src_y(mv, y / side) + y % side)
}

/// Everything `get_skybox` promises: the result mirrors the measurement
/// model, and an accepted image yields exactly the assembled strip.
pub open spec fn skybox_post(im: Image, r: Result<Image, ImageError>) -> bool {
    match measurements_model(im) {
        Err(e) => r == Err::<Image, ImageError>(e),
        Ok(mv) => if assemble_ok(mv, im) {
            r matches Ok(out) && out.wf() && strip_matches(out, mv, im)
        } else {
            r == Err::<Image, ImageError>(ImageError::CopyError)
        },
    }
}

/// Exec table of `face_x_index`.
fn face_x_index_of(k: u32) -> (xi: usize)
    requires
        k < 6,
    ensures
        xi as int == face_x_index(k as int),
        xi < 4,
{
    if k == 0 {
        3
    } else if k == 1 {
        1
    } else if k == 5 {
        0
    } else {
        2
    }
}

/// Exec table of `face_y_index`.
fn face_y_index_of(k: u32) -> (yi: usize)
    requires
        k < 6,
    ensures
        yi as int == face_y_index(k as int),
        yi < 3,
{
    if k == 2 {
        0
    } else if k == 3 {
        2
    } else {
        1
    }
}

/// A row inside one layer band keeps its layer under division.
proof fn lemma_layer_div(y: int, s: int, k: int)
    requires
        s >= 1,
        k * s <= y < (k + 1) * s,
    ensures
        y / s == k,
        y % s == y - k * s,
{
    assert((k + 1) * s == k * s + s) by (nonlinear_arith);
    lemma_fundamental_div_mod_converse(y, s, k, y - k * s);
}

/// Copies a `side` by `side` block from `im` at `(sx, sy)` into layer
/// `layer` of the strip `out`, leaving every other pixel of `out` unchanged.
fn copy_face(im: &Image, out: &mut Image, side: u32, sx: u32, sy: u32, layer: u32)
    requires
        im.wf(),
        old(out).wf(),
        old(out).spec_width() == side,
        old(out).spec_height() == 6 * side,
        layer < 6,
        sx + side <= im.spec_width(),
        sy + side <= im.spec_height(),
    ensures
        final(out).wf(),
        final(out).spec_width() == side,
        final(out).spec_height() == 6 * side,
        forall|x: int, y: int|
            0 <= x < side && layer * side <= y < (layer + 1) * side
                ==> #[trigger] final(out).spec_pixel(x, y)
                    == im.spec_pixel(sx + x, sy + y - layer * side),
        forall|x: int, y: int|
            0 <= x < side && 0 <= y < 6 * side && !(layer * side <= y < (layer + 1) * side)
                ==> #[trigger] final(out).spec_pixel(x, y) == old(out).spec_pixel(x, y),
{
    proof {
        assert(6 * (side as int) <= u32::MAX as int);
        assert((layer as int) * (side as int) + side as int <= 6 * (side as int))
            by (nonlinear_arith)
            requires
                0 <= layer as int <= 5,
                0 <= side as int,
        ;
    }
    let base: u32 = layer * side;
    let ghost out0 = *out;
    let mut v: u32 = 0;
    while v < side
        invariant
            im.wf(),
            out.wf(),
            out.spec_width() == side,
            out.spec_height() == 6 * side,
            layer < 6,
            base == layer * side,
            base + side <= 6 * side,
            sx + side <= im.spec_width(),
            sy + side <= im.spec_height(),
            v <= side,
            forall|x: int, y: int|
                0 <= x < side && base <= y < base + v
                    ==> #[trigger] out.spec_pixel(x, y) == im.spec_pixel(sx + x, sy + y - base),
            forall|x: int, y: int|
                0 <= x < side && 0 <= y < 6 * side && !(base <= y < base + v)
                    ==> #[trigger] out.spec_pixel(x, y) == out0.spec_pixel(x, y),
        decreases side - v,
    {
        let mut u: u32 = 0;
        while u < side
            invariant
                im.wf(),
                out.wf(),
                out.spec_width() == side,
                out.spec_height() == 6 * side,
                layer < 6,
                base == layer * side,
                base + side <= 6 * side,
                sx + side <= im.spec_width(),
                sy + side <= im.spec_height(),
                v < side,
                u <= side,
                forall|x: int, y: int|
                    0 <= x < side && base <= y < base + v
                        ==> #[trigger] out.spec_pixel(x, y) == im.spec_pixel(sx + x, sy + y - base),
                forall|x: int|
                    0 <= x < u ==> #[trigger] out.spec_pixel(x, base + v)
                        == im.spec_pixel(sx + x, sy + v),
                forall|x: int, y: int|
                    0 <= x < side && 0 <= y < 6 * side && !(base <= y < base + v)
                        && !(y == base + v && 0 <= x < u)
                        ==> #[trigger] out.spec_pixel(x, y) == out0.spec_pixel(x, y),
            decreases side - u,
        {
            let c = im.pixel(sx + u, sy + v);
            out.set_pixel(u, base + v, c);
            u = u + 1;
        }
        v = v + 1;
    }
    proof {
        assert((layer as int + 1) * (side as int) == layer as int * side as int + side as int)
            by (nonlinear_arith);
    }
}

impl ImageMeasurements {
    /// The top-left source corner of face `k`'s crop, centered in the
    /// face's measured interval.
    fn face_origin(&self, side: u32, k: u32) -> (o: (u32, u32))
        requires
            view_inv(self@),
            k < 6,
            side as int == side_model(self@),
        ensures
            o.0 as int == face_src_x(self@, k as int),
            o.1 as int == face_src_y(self@, k as int),
    {
        let xi = face_x_index_of(k);
        let yi = face_y_index_of(k);
        proof {
            assert(side as int <= x_interval(self@, xi as int));
            assert(side as int <= y_interval(self@, yi as int));
        }
        let dx = self.vec_x()[xi + 1] - self.vec_x()[xi];
        let dyv = self.vec_y()[yi + 1] - self.vec_y()[yi];
        (self.vec_x()[xi] + (dx - side) / 2, self.vec_y()[yi] + (dyv - side) / 2)
    }

    /// Derives the side length, checks that every face crop lies fully
    /// inside `im` — the first crop outside aborts with `CopyError` — and
    /// assembles the six faces into the output strip.
    pub fn to_image(&self, im: &Image) -> (r: Result<Image, ImageError>)
        requires
            im.wf(),
            view_inv(self@),
        ensures
            match r {
                Ok(out) => assemble_ok(self@, *im) && out.wf() && strip_matches(out, self@, *im),
                Err(e) => e == ImageError::CopyError && !assemble_ok(self@, *im),
            },
    {
        let side = self.measure_side_length();
        let w = im.width();
        let h = im.height();
        if side > u32::MAX / 6 {
            proof {
                assert(6 * (u32::MAX as int / 6) <= u32::MAX as int);
            }
            return Err(ImageError::CopyError);
        }
        let side6: u32 = 6 * side;
        let mut k: u32 = 0;
        while k < 6
            invariant
                im.wf(),
                view_inv(self@),
                side as int == side_model(self@),
                w == im.spec_width(),
                h == im.spec_height(),
                k <= 6,
                forall|j: int| 0 <= j < k ==> crop_fits(self@, *im, j),
            decreases 6 - k,
        {
            let (sx, sy) = self.face_origin(side, k);
            if !((sx as u64) + (side as u64) <= (w as u64)
                && (sy as u64) + (side as u64) <= (h as u64)) {
                proof {
                    assert(!crop_fits(self@, *im, k as int));
                }
                return Err(ImageError::CopyError);
            }
            k = k + 1;
        }
        proof {
            assert(crop_fits(self@, *im, 0));
            assert(crop_fits(self@, *im, 3));
            im.lemma_area_bounded();
            assert(4 * (side as int) <= w as int) by {
                assert(self@.vec_x[3] - self@.vec_x[0] == x_interval(self@, 0)
                    + x_interval(self@, 1) + x_interval(self@, 2));
                assert(face_src_x(self@, 0) >= self@.vec_x[3]);
            }
            assert(3 * (side as int) <= h as int) by {
                assert(self@.vec_y[2] - self@.vec_y[0] == y_interval(self@, 0)
                    + y_interval(self@, 1));
                assert(face_src_y(self@, 3) >= self@.vec_y[2]);
            }
            assert((side as int) * (side6 as int) <= (w as int) * (h as int)) by (nonlinear_arith)
                requires
                    side6 == 6 * (side as int),
                    0 <= side,
                    4 * (side as int) <= w as int,
                    3 * (side as int) <= h as int,
            ;
        }
        let mut out = Image::new(side, side6, Color { r: 0, g: 0, b: 0, a: 0 });
        let mut k2: u32 = 0;
        while k2 < 6
            invariant
                im.wf(),
                out.wf(),
                view_inv(self@),
                side as int == side_model(self@),
                side >= 1,
                side6 == 6 * side,
                out.spec_width() == side,
                out.spec_height() == side6,
                forall|j: int| 0 <= j < 6 ==> crop_fits(self@, *im, j),
                k2 <= 6,
                forall|x: int, y: int|
                    0 <= x < side && 0 <= y < k2 * side ==> #[trigger] out.spec_pixel(x, y)
                        == im.spec_pixel(
                            face_src_x(self@, y / (side as int)) + x,
                            face_src_y(self@, y / (side as int)) + y % (side as int),
                        ),
            decreases 6 - k2,
        {
            let k = k2;
            let (sx, sy) = self.face_origin(side, k);
            proof {
                assert(crop_fits(self@, *im, k as int));
            }
            let ghost out_before = out;
            copy_face(im, &mut out, side, sx, sy, k);
            proof {
                assert((k as int) * (side as int) + side as int <= 6 * (side as int))
                    by (nonlinear_arith)
                    requires
                        0 <= k as int <= 5,
                        0 <= side as int,
                ;
                assert forall|x: int, y: int|
                    0 <= x < side && 0 <= y < (k + 1) * (side as int)
                        implies #[trigger] out.spec_pixel(x, y)
                            == im.spec_pixel(
                                face_src_x(self@, y / (side as int)) + x,
                                face_src_y(self@, y / (side as int)) + y % (side as int),
                            ) by {
                    if y < k * (side as int) {
                        assert(out.spec_pixel(x, y) == out_before.spec_pixel(x, y));
                    } else {
                        lemma_layer_div(y, side as int, k as int);
                        assert(out.spec_pixel(x, y)
                            == im.spec_pixel(sx + x, sy + y - k as int * side as int));
                    }
                }
            }
            k2 = k2 + 1;
        }
        Ok(out)
    }
}

/// Decomposes the net image `im` into the six-face strip: measures the
/// cross layout, then assembles the faces. The first failing stage aborts
/// the decomposition with its typed error.
pub fn get_skybox(im: &Image) -> (r: Result<Image, ImageError>)
    requires
        im.wf(),
        im.spec_width() >= 1,
        im.spec_height() >= 1,
    ensures
        skybox_post(*im, r),
{
    let m = match ImageMeasurements::find_measurements(im) {
        Ok(m) => m,
        Err(e) => {
            return Err(e);
        },
    };
    match m.to_image(im) {
        Ok(out) => Ok(out),
        Err(e) => Err(e),
    }
}

} // verus!
