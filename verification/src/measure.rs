//! Net measurement: orchestrates the directional scans against the fixed
//! cross layout and validates the geometry of what they find.
//!
//! The cross convention: the middle horizontal band of the image spans four
//! face cells; the top and bottom bands cross only the single central
//! column. Scanning those three bands yields five x boundaries; scanning
//! three derived columns yields four y boundaries.

use vstd::prelude::*;

use crate::background::{background_model, find_background};
use crate::image::{Color, Image, ImageError};
use crate::scan::{
    lemma_scan_bottom_some, lemma_scan_left_some, lemma_scan_right_some, lemma_scan_top_some,
    scan_bottom, scan_left, scan_right, scan_top, search_from_bottom, search_from_left,
    search_from_right, search_from_top,
};

verus! {

/// Two independent measurements of the same geometric edge may differ by at
/// most this many pixels before the net is rejected as `NotAligned`.
pub const EDGE_ALIGN_TOLERANCE: u32 = 8;

/// The extents of the face cells along one axis may spread by at most this
/// many pixels between the narrowest and the widest cell.
pub const SPACING_TOLERANCE: u32 = 16;

/// The smaller of two integers.
pub open spec fn min_int(a: int, b: int) -> int {
    if a <= b {
        a
    } else {
        b
    }
}

/// The larger of two integers.
pub open spec fn max_int(a: int, b: int) -> int {
    if a >= b {
        a
    } else {
        b
    }
}

/// The absolute difference of two integers.
pub open spec fn abs_diff(a: int, b: int) -> int {
    if a >= b {
        a - b
    } else {
        b - a
    }
}

/// A boundary list as mathematical integers.
pub open spec fn to_ints(s: Seq<u32>) -> Seq<int> {
    s.map_values(|u: u32| u as int)
}

/// The measured boundary lists of a net, as mathematical sequences:
/// five x boundaries and four y boundaries.
pub struct MeasurementsView {
    pub vec_x: Seq<int>,
    pub vec_y: Seq<int>,
}

/// Extent of the `i`-th face column, `0 <= i < 4`.
pub open spec fn x_interval(mv: MeasurementsView, i: int) -> int {
    mv.vec_x[i + 1] - mv.vec_x[i]
}

/// Extent of the `i`-th face row, `0 <= i < 3`.
pub open spec fn y_interval(mv: MeasurementsView, i: int) -> int {
    mv.vec_y[i + 1] - mv.vec_y[i]
}

/// The four x extents are positive and spread by at most the tolerance.
pub open spec fn x_spacing_ok(vx: Seq<int>) -> bool {
    let d0 = vx[1] - vx[0];
    let d1 = vx[2] - vx[1];
    let d2 = vx[3] - vx[2];
    let d3 = vx[4] - vx[3];
    let lo = min_int(min_int(d0, d1), min_int(d2, d3));
    let hi = max_int(max_int(d0, d1), max_int(d2, d3));
    hi - lo <= SPACING_TOLERANCE && lo >= 1
}

/// The three y extents are positive and spread by at most the tolerance.
pub open spec fn y_spacing_ok(vy: Seq<int>) -> bool {
    let d0 = vy[1] - vy[0];
    let d1 = vy[2] - vy[1];
    let d2 = vy[3] - vy[2];
    let lo = min_int(min_int(d0, d1), d2);
    let hi = max_int(max_int(d0, d1), d2);
    hi - lo <= SPACING_TOLERANCE && lo >= 1
}

/// What the x measurement stage returns: the five x boundaries
/// `[mid_x_min, (short_x_min + mid_x_min) / 2, short_x_min, short_x_max, mid_x_max]`
/// of the cross, or the first error of the stage.
pub open spec fn x_bounds_model(im: Image, bg: Color) -> Result<Seq<int>, ImageError> {
    let dy = im.spec_height() as int / 6;
    match (
        scan_left(im, bg, 3 * dy),
        scan_right(im, bg, 3 * dy),
        scan_left(im, bg, 1 * dy),
        scan_right(im, bg, 1 * dy),
        scan_left(im, bg, 5 * dy),
        scan_right(im, bg, 5 * dy),
    ) {
        (
            Some(mid_x_min),
            Some(mid_x_max),
            Some(top_x_min),
            Some(top_x_max),
            Some(bot_x_min),
            Some(bot_x_max),
        ) => {
            if abs_diff(top_x_min, bot_x_min) > EDGE_ALIGN_TOLERANCE
                || abs_diff(top_x_max, bot_x_max) > EDGE_ALIGN_TOLERANCE {
                Err(ImageError::NotAligned)
            } else {
                let short_x_min = (top_x_min + bot_x_min) / 2;
                let short_x_max = (top_x_max + bot_x_max) / 2;
                let vx = seq![
                    mid_x_min,
                    (short_x_min + mid_x_min) / 2,
                    short_x_min,
                    short_x_max,
                    mid_x_max,
                ];
                if x_spacing_ok(vx) {
                    Ok(vx)
                } else {
                    Err(ImageError::NotAligned)
                }
            }
        },
        _ => Err(ImageError::NetNotFound),
    }
}

/// What the y measurement stage returns, given the x boundaries: the four
/// y boundaries `[mid_y_min, short_y_min, short_y_max, mid_y_max]` of the
/// cross, or the first error of the stage.
pub open spec fn y_bounds_model(im: Image, bg: Color, vx: Seq<int>) -> Result<Seq<int>, ImageError> {
    let cx_mid = (vx[2] + vx[3]) / 2;
    let cx_left = vx[1];
    let cx_right = (vx[3] + vx[4]) / 2;
    match (
        scan_top(im, bg, cx_mid),
        scan_bottom(im, bg, cx_mid),
        scan_top(im, bg, cx_left),
        scan_bottom(im, bg, cx_left),
        scan_top(im, bg, cx_right),
        scan_bottom(im, bg, cx_right),
    ) {
        (
            Some(mid_y_min),
            Some(mid_y_max),
            Some(left_y_min),
            Some(left_y_max),
            Some(right_y_min),
            Some(right_y_max),
        ) => {
            if abs_diff(left_y_min, right_y_min) > EDGE_ALIGN_TOLERANCE
                || abs_diff(left_y_max, right_y_max) > EDGE_ALIGN_TOLERANCE {
                Err(ImageError::NotAligned)
            } else {
                let short_y_min = (left_y_min + right_y_min) / 2;
                let short_y_max = (left_y_max + right_y_max) / 2;
                let vy = seq![mid_y_min, short_y_min, short_y_max, mid_y_max];
                if y_spacing_ok(vy) {
                    Ok(vy)
                } else {
                    Err(ImageError::NotAligned)
                }
            }
        },
        _ => Err(ImageError::NetNotFound),
    }
}

/// What `find_measurements` returns: the boundary lists of the net, or the
/// first error of the pipeline.
pub open spec fn measurements_model(im: Image) -> Result<MeasurementsView, ImageError> {
    match background_model(im) {
        None => Err(ImageError::BackgroundNotDetermined),
        Some(bg) => match x_bounds_model(im, bg) {
            Err(e) => Err(e),
            Ok(vx) => match y_bounds_model(im, bg, vx) {
                Err(e) => Err(e),
                Ok(vy) => Ok(MeasurementsView { vec_x: vx, vec_y: vy }),
            },
        },
    }
}

/// The shape invariant of measured boundaries: five strictly increasing x
/// boundaries and four strictly increasing y boundaries, all non-negative.
pub open spec fn view_inv(mv: MeasurementsView) -> bool {
    &&& mv.vec_x.len() == 5
    &&& mv.vec_y.len() == 4
    &&& mv.vec_x[0] >= 0
    &&& mv.vec_y[0] >= 0
    &&& forall|i: int| 0 <= i < 4 ==> #[trigger] mv.vec_x[i] + 1 <= mv.vec_x[i + 1]
    &&& forall|i: int| 0 <= i < 3 ==> #[trigger] mv.vec_y[i] + 1 <= mv.vec_y[i + 1]
}

/// The measured boundaries lie inside the image `im`.
pub open spec fn fits_in(mv: MeasurementsView, im: Image) -> bool {
    mv.vec_x[4] <= im.spec_width() && mv.vec_y[3] <= im.spec_height()
}

/// Boundaries accepted by the model satisfy the shape invariant and lie
/// inside the measured image.
#[verifier::rlimit(50)]
pub proof fn lemma_model_ok_inv(im: Image, mv: MeasurementsView)
    requires
        measurements_model(im) == Ok::<MeasurementsView, ImageError>(mv),
    ensures
        view_inv(mv),
        fits_in(mv, im),
{
    let bg = background_model(im)->Some_0;
    let dy = im.spec_height() as int / 6;
    let vx = mv.vec_x;
    let vy = mv.vec_y;
    assert(background_model(im) is Some);
    assert(x_bounds_model(im, bg) == Ok::<Seq<int>, ImageError>(vx));
    assert(y_bounds_model(im, bg, vx) == Ok::<Seq<int>, ImageError>(vy));
    assert(x_spacing_ok(vx));
    assert(y_spacing_ok(vy));
    lemma_scan_left_some(im, bg, 3 * dy, vx[0]);
    lemma_scan_right_some(im, bg, 3 * dy, vx[4]);
    let cx_mid = (vx[2] + vx[3]) / 2;
    lemma_scan_top_some(im, bg, cx_mid, vy[0]);
    lemma_scan_bottom_some(im, bg, cx_mid, vy[3]);
}

/// Measured boundary positions of a net image.
/// See the module documentation for the meaning of the indices.
#[derive(Clone, Debug, PartialEq, Eq)]
pub struct ImageMeasurements {
    pub(crate) vec_x: Vec<u32>,
    pub(crate) vec_y: Vec<u32>,
}

impl View for ImageMeasurements {
    type V = MeasurementsView;

    closed spec fn view(&self) -> MeasurementsView {
        MeasurementsView { vec_x: to_ints(self.vec_x@), vec_y: to_ints(self.vec_y@) }
    }
}

impl ImageMeasurements {
    /// The five measured x boundaries, left to right.
    pub fn vec_x(&self) -> (v: &Vec<u32>)
        ensures
            to_ints(v@) == self@.vec_x,
    {
        &self.vec_x
    }

    /// The four measured y boundaries, top to bottom.
    pub fn vec_y(&self) -> (v: &Vec<u32>)
        ensures
            to_ints(v@) == self@.vec_y,
    {
        &self.vec_y
    }

    /// Finds the boundaries of the cross-layout net in `im`, validating the
    /// alignment and spacing of everything it measures.
    pub fn find_measurements(im: &Image) -> (r: Result<ImageMeasurements, ImageError>)
        requires
            im.wf(),
            im.spec_width() >= 1,
            im.spec_height() >= 1,
        ensures
            match r {
                Ok(m) => measurements_model(*im) == Ok::<MeasurementsView, ImageError>(m@)
                    && view_inv(m@) && fits_in(m@, *im),
                Err(e) => measurements_model(*im) == Err::<MeasurementsView, ImageError>(e),
            },
    {
        let bg = match find_background(im) {
            Ok(c) => c,
            Err(e) => {
                return Err(e);
            },
        };
        let vec_x = match find_x_bounds(im, bg) {
            Ok(v) => v,
            Err(e) => {
                return Err(e);
            },
        };
        let vec_y = match find_y_bounds(im, bg, &vec_x) {
            Ok(v) => v,
            Err(e) => {
                return Err(e);
            },
        };
        let m = ImageMeasurements { vec_x, vec_y };
        proof {
            assert(m@ == measurements_model(*im)->Ok_0);
            lemma_model_ok_inv(*im, m@);
        }
        Ok(m)
    }

    /// The common side length of the six faces: the minimum extent over all
    /// four x intervals and all three y intervals, so that every side-sized
    /// crop fits inside its measured interval.
    pub fn measure_side_length(&self) -> (side: u32)
        requires
            view_inv(self@),
        ensures
            side as int == side_model(self@),
            side >= 1,
            forall|i: int| 0 <= i < 4 ==> side as int <= x_interval(self@, i),
            forall|i: int| 0 <= i < 3 ==> side as int <= y_interval(self@, i),
    {
        let dx0 = self.vec_x[1] - self.vec_x[0];
        let dx1 = self.vec_x[2] - self.vec_x[1];
        let dx2 = self.vec_x[3] - self.vec_x[2];
        let dx3 = self.vec_x[4] - self.vec_x[3];
        let dy0 = self.vec_y[1] - self.vec_y[0];
        let dy1 = self.vec_y[2] - self.vec_y[1];
        let dy2 = self.vec_y[3] - self.vec_y[2];
        let min_x = min_u32(min_u32(dx0, dx1), min_u32(dx2, dx3));
        let min_y = min_u32(min_u32(dy0, dy1), dy2);
        min_u32(min_x, min_y)
    }
}

/// The side length the model assigns to measured boundaries: the least of
/// the seven interval extents.
pub open spec fn side_model(mv: MeasurementsView) -> int {
    min_int(
        min_int(
            min_int(x_interval(mv, 0), x_interval(mv, 1)),
            min_int(x_interval(mv, 2), x_interval(mv, 3)),
        ),
        min_int(min_int(y_interval(mv, 0), y_interval(mv, 1)), y_interval(mv, 2)),
    )
}

/// The smaller of two pixel counts.
fn min_u32(a: u32, b: u32) -> (m: u32)
    ensures
        m as int == min_int(a as int, b as int),
{
    if a <= b {
        a
    } else {
        b
    }
}

/// The absolute difference of two pixel positions.
fn abs_diff_u32(a: u32, b: u32) -> (d: u32)
    ensures
        d as int == abs_diff(a as int, b as int),
{
    if a >= b {
        a - b
    } else {
        b - a
    }
}

/// The midpoint of two pixel positions, rounding down.
fn midpoint_u32(a: u32, b: u32) -> (m: u32)
    ensures
        m as int == (a as int + b as int) / 2,
{
    let s: u64 = (a as u64) + (b as u64);
    (s / 2) as u32
}

/// The x measurement stage: scans the three horizontal bands and validates
/// alignment and spacing, yielding the five x boundaries.
fn find_x_bounds(im: &Image, bg: Color) -> (r: Result<Vec<u32>, ImageError>)
    requires
        im.wf(),
        im.spec_width() >= 1,
        im.spec_height() >= 1,
    ensures
        match r {
            Ok(v) => x_bounds_model(*im, bg) == Ok::<Seq<int>, ImageError>(to_ints(v@))
                && v@.len() == 5,
            Err(e) => x_bounds_model(*im, bg) == Err::<Seq<int>, ImageError>(e),
        },
{
    let h = im.height();
    let dy = h / 6;
    proof {
        assert(6 * (h as int / 6) <= h as int);
        assert(dy == 0 ==> 5 * dy < h);
        assert(dy >= 1 ==> 5 * dy < h as int);
    }
    let mid_x_min = match search_from_left(im, bg, 3 * dy) {
        Ok(v) => v,
        Err(e) => {
            return Err(e);
        },
    };
    let mid_x_max = match search_from_right(im, bg, 3 * dy) {
        Ok(v) => v,
        Err(e) => {
            return Err(e);
        },
    };
    let top_x_min = match search_from_left(im, bg, 1 * dy) {
        Ok(v) => v,
        Err(e) => {
            return Err(e);
        },
    };
    let top_x_max = match search_from_right(im, bg, 1 * dy) {
        Ok(v) => v,
        Err(e) => {
            return Err(e);
        },
    };
    let bot_x_min = match search_from_left(im, bg, 5 * dy) {
        Ok(v) => v,
        Err(e) => {
            return Err(e);
        },
    };
    let bot_x_max = match search_from_right(im, bg, 5 * dy) {
        Ok(v) => v,
        Err(e) => {
            return Err(e);
        },
    };
    if abs_diff_u32(top_x_min, bot_x_min) > EDGE_ALIGN_TOLERANCE
        || abs_diff_u32(top_x_max, bot_x_max) > EDGE_ALIGN_TOLERANCE {
        return Err(ImageError::NotAligned);
    }
    let short_x_min = midpoint_u32(top_x_min, bot_x_min);
    let short_x_max = midpoint_u32(top_x_max, bot_x_max);
    let half_x = midpoint_u32(short_x_min, mid_x_min);
    let mut v: Vec<u32> = Vec::new();
    v.push(mid_x_min);
    v.push(half_x);
    v.push(short_x_min);
    v.push(short_x_max);
    v.push(mid_x_max);
    proof {
        assert(to_ints(v@) =~= seq![
            mid_x_min as int,
            half_x as int,
            short_x_min as int,
            short_x_max as int,
            mid_x_max as int,
        ]);
    }
    if !check_spacing_x(&v) {
        return Err(ImageError::NotAligned);
    }
    Ok(v)
}

/// Whether the five x boundaries pass the spacing validation.
fn check_spacing_x(v: &Vec<u32>) -> (ok: bool)
    requires
        v@.len() == 5,
    ensures
        ok == x_spacing_ok(to_ints(v@)),
{
    let d0: i64 = (v[1] as i64) - (v[0] as i64);
    let d1: i64 = (v[2] as i64) - (v[1] as i64);
    let d2: i64 = (v[3] as i64) - (v[2] as i64);
    let d3: i64 = (v[4] as i64) - (v[3] as i64);
    let lo = min_i64(min_i64(d0, d1), min_i64(d2, d3));
    let hi = max_i64(max_i64(d0, d1), max_i64(d2, d3));
    hi - lo <= SPACING_TOLERANCE as i64 && lo >= 1
}

/// Whether the four y boundaries pass the spacing validation.
fn check_spacing_y(v: &Vec<u32>) -> (ok: bool)
    requires
        v@.len() == 4,
    ensures
        ok == y_spacing_ok(to_ints(v@)),
{
    let d0: i64 = (v[1] as i64) - (v[0] as i64);
    let d1: i64 = (v[2] as i64) - (v[1] as i64);
    let d2: i64 = (v[3] as i64) - (v[2] as i64);
    let lo = min_i64(min_i64(d0, d1), d2);
    let hi = max_i64(max_i64(d0, d1), d2);
    hi - lo <= SPACING_TOLERANCE as i64 && lo >= 1
}

/// The smaller of two signed extents.
fn min_i64(a: i64, b: i64) -> (m: i64)
    ensures
        m as int == min_int(a as int, b as int),
{
    if a <= b {
        a
    } else {
        b
    }
}

/// The larger of two signed extents.
fn max_i64(a: i64, b: i64) -> (m: i64)
    ensures
        m as int == max_int(a as int, b as int),
{
    if a >= b {
        a
    } else {
        b
    }
}

/// The y measurement stage: scans the three derived columns and validates
/// alignment and spacing, yielding the four y boundaries.
fn find_y_bounds(im: &Image, bg: Color, vx: &Vec<u32>) -> (r: Result<Vec<u32>, ImageError>)
    requires
        im.wf(),
        im.spec_width() >= 1,
        im.spec_height() >= 1,
        vx@.len() == 5,
        x_bounds_model(*im, bg) == Ok::<Seq<int>, ImageError>(to_ints(vx@)),
    ensures
        match r {
            Ok(v) => y_bounds_model(*im, bg, to_ints(vx@))
                == Ok::<Seq<int>, ImageError>(to_ints(v@)) && v@.len() == 4,
            Err(e) => y_bounds_model(*im, bg, to_ints(vx@)) == Err::<Seq<int>, ImageError>(e),
        },
{
    proof {
        lemma_x_bounds_ok_props(*im, bg, to_ints(vx@));
    }
    let cx_mid = midpoint_u32(vx[2], vx[3]);
    let cx_left = vx[1];
    let cx_right = midpoint_u32(vx[3], vx[4]);
    let mid_y_min = match search_from_top(im, bg, cx_mid) {
        Ok(v) => v,
        Err(e) => {
            return Err(e);
        },
    };
    let mid_y_max = match search_from_bottom(im, bg, cx_mid) {
        Ok(v) => v,
        Err(e) => {
            return Err(e);
        },
    };
    let left_y_min = match search_from_top(im, bg, cx_left) {
        Ok(v) => v,
        Err(e) => {
            return Err(e);
        },
    };
    let left_y_max = match search_from_bottom(im, bg, cx_left) {
        Ok(v) => v,
        Err(e) => {
            return Err(e);
        },
    };
    let right_y_min = match search_from_top(im, bg, cx_right) {
        Ok(v) => v,
        Err(e) => {
            return Err(e);
        },
    };
    let right_y_max = match search_from_bottom(im, bg, cx_right) {
        Ok(v) => v,
        Err(e) => {
            return Err(e);
        },
    };
    if abs_diff_u32(left_y_min, right_y_min) > EDGE_ALIGN_TOLERANCE
        || abs_diff_u32(left_y_max, right_y_max) > EDGE_ALIGN_TOLERANCE {
        return Err(ImageError::NotAligned);
    }
    let short_y_min = midpoint_u32(left_y_min, right_y_min);
    let short_y_max = midpoint_u32(left_y_max, right_y_max);
    let mut v: Vec<u32> = Vec::new();
    v.push(mid_y_min);
    v.push(short_y_min);
    v.push(short_y_max);
    v.push(mid_y_max);
    proof {
        assert(to_ints(v@) =~= seq![
            mid_y_min as int,
            short_y_min as int,
            short_y_max as int,
            mid_y_max as int,
        ]);
    }
    if !check_spacing_y(&v) {
        return Err(ImageError::NotAligned);
    }
    Ok(v)
}

/// Boundaries accepted by the x stage are strictly increasing, start at or
/// after zero, end at or before the image width, and keep all three scan
/// columns derived from them strictly inside the image.
proof fn lemma_x_bounds_ok_props(im: Image, bg: Color, vx: Seq<int>)
    requires
        x_bounds_model(im, bg) == Ok::<Seq<int>, ImageError>(vx),
    ensures
        vx.len() == 5,
        forall|i: int| 0 <= i < 4 ==> #[trigger] vx[i] + 1 <= vx[i + 1],
        0 <= vx[0],
        vx[4] <= im.spec_width(),
        0 <= vx[1] < im.spec_width(),
        0 <= (vx[2] + vx[3]) / 2 < im.spec_width(),
        0 <= (vx[3] + vx[4]) / 2 < im.spec_width(),
{
    let dy = im.spec_height() as int / 6;
    lemma_scan_left_some(im, bg, 3 * dy, vx[0]);
    lemma_scan_right_some(im, bg, 3 * dy, vx[4]);
}

} // verus!
