//! The laws of the decomposition, stated and proved over the measurement
//! model: what an accepted net guarantees, that the pipeline is a pure
//! function of the pixels, and how the boundary validations reject inputs.

use vstd::prelude::*;

use crate::assemble::{assemble_ok, skybox_post, strip_matches};
use crate::background::{
    background_model, has_majority, lemma_count_color_all, lemma_first_majority_finds,
    lemma_first_majority_none, samples, sample_coord_x, sample_coord_y,
};
use crate::image::{same_pixels, Color, Image, ImageError};
use crate::measure::{
    abs_diff, fits_in, lemma_model_ok_inv, measurements_model, side_model, view_inv,
    x_bounds_model, x_interval, x_spacing_ok, y_bounds_model, y_interval, y_spacing_ok,
    MeasurementsView, EDGE_ALIGN_TOLERANCE,
};
use crate::scan::{
    first_mismatch_from_left, first_mismatch_from_top, last_mismatch_from_bottom,
    last_mismatch_from_right, lemma_scan_bottom_char, lemma_scan_left_char,
    lemma_scan_right_char, lemma_scan_top_char, scan_left, scan_right,
};

verus! {

/// Boundaries accepted by the measurement stage always have five x values,
/// four y values, a positive side length, and lie inside the image; with a
/// representable output height the faces can therefore be assembled.
pub proof fn lemma_accepted_net_shape(im: Image, mv: MeasurementsView)
    requires
        measurements_model(im) == Ok::<MeasurementsView, ImageError>(mv),
    ensures
        mv.vec_x.len() == 5,
        mv.vec_y.len() == 4,
        view_inv(mv),
        fits_in(mv, im),
        side_model(mv) >= 1,
        6 * side_model(mv) <= u32::MAX ==> assemble_ok(mv, im),
{
    lemma_model_ok_inv(im, mv);
    crate::assemble::lemma_fits_in_crops(mv, im);
}

/// Decomposing an accepted net returns the assembled strip: a positive
/// width and a height of exactly six times the width.
pub proof fn lemma_accepted_net_decomposes(
    im: Image,
    mv: MeasurementsView,
    r: Result<Image, ImageError>,
)
    requires
        skybox_post(im, r),
        measurements_model(im) == Ok::<MeasurementsView, ImageError>(mv),
        6 * side_model(mv) <= u32::MAX,
    ensures
        r matches Ok(out) && out.spec_width() == side_model(mv) && out.spec_width() >= 1
            && out.spec_height() == 6 * out.spec_width(),
{
    lemma_accepted_net_shape(im, mv);
}

/// Decomposition is a pure function of the pixels: two runs on the same
/// image fail identically or yield pixel-identical strips.
pub proof fn lemma_decompose_idempotent(
    im: Image,
    r1: Result<Image, ImageError>,
    r2: Result<Image, ImageError>,
)
    requires
        skybox_post(im, r1),
        skybox_post(im, r2),
    ensures
        r1 is Ok <==> r2 is Ok,
        r1 matches Err(e1) ==> (r2 matches Err(e2) ==> e1 == e2),
        r1 matches Ok(o1) ==> (r2 matches Ok(o2) ==> same_pixels(o1, o2)),
{
    match measurements_model(im) {
        Err(e) => {
        },
        Ok(mv) => {
            if assemble_ok(mv, im) {
                let o1 = r1->Ok_0;
                let o2 = r2->Ok_0;
                assert(strip_matches(o1, mv, im));
                assert(strip_matches(o2, mv, im));
            }
        },
    }
}

/// Any strip the decomposition returns is exactly six times as tall as it
/// is wide.
pub proof fn lemma_output_shape(im: Image, r: Result<Image, ImageError>, out: Image)
    requires
        skybox_post(im, r),
        r == Ok::<Image, ImageError>(out),
    ensures
        out.spec_height() == 6 * out.spec_width(),
{
}

/// A uniformly colored image has a unanimous background — all eight
/// samples agree — and is then rejected by the very first edge scan.
pub proof fn lemma_uniform_image_rejected(im: Image, c: Color)
    requires
        im.wf(),
        im.spec_width() >= 1,
        im.spec_height() >= 1,
        forall|x: int, y: int|
            0 <= x < im.spec_width() && 0 <= y < im.spec_height()
                ==> #[trigger] im.spec_pixel(x, y) == c,
    ensures
        background_model(im) == Some(c),
        measurements_model(im) == Err::<MeasurementsView, ImageError>(ImageError::NetNotFound),
{
    let w = im.spec_width() as int;
    let h = im.spec_height() as int;
    let s = samples(im);
    assert forall|i: int| 0 <= i < s.len() implies s[i] == c by {
        let m = 2 * (i / 2) + 1;
        assert(1 <= m <= 7);
        assert(m * w <= 7 * w) by (nonlinear_arith)
            requires
                1 <= m <= 7,
                w >= 1,
        ;
        assert(0 <= sample_coord_x(im, i) < w);
        let my = 4 * (i % 2) + 1;
        assert(1 <= my <= 5);
        assert(my * h <= 5 * h) by (nonlinear_arith)
            requires
                1 <= my <= 5,
                h >= 1,
        ;
        assert(0 <= sample_coord_y(im, i) < h);
    }
    lemma_count_color_all(s, c);
    assert(has_majority(s, s[0]));
    assert(background_model(im) == Some(c));

    let dy = im.spec_height() as int / 6;
    assert(0 <= 3 * dy < h);
    crate::scan::lemma_uniform_row_no_edge(im, c, 3 * dy);
    assert(scan_left(im, c, 3 * dy) is None);
}

/// A majority color among the samples guarantees that background
/// detection succeeds, with a background that itself holds a majority.
pub proof fn lemma_majority_accepted(im: Image, c: Color)
    requires
        has_majority(samples(im), c),
    ensures
        background_model(im) is Some,
        has_majority(samples(im), background_model(im)->Some_0),
{
    lemma_first_majority_finds(samples(im), c);
}

/// Without any majority color — for instance when at most three of the
/// eight samples agree — the pipeline stops with `BackgroundNotDetermined`.
pub proof fn lemma_no_majority_rejected(im: Image)
    requires
        forall|c: Color| !has_majority(samples(im), c),
    ensures
        background_model(im) is None,
        measurements_model(im)
            == Err::<MeasurementsView, ImageError>(ImageError::BackgroundNotDetermined),
{
    lemma_first_majority_none(samples(im), 0);
}

/// A net whose top-band and bottom-band x edges differ by more than the
/// alignment tolerance is rejected as `NotAligned`.
pub proof fn lemma_misaligned_rejected(
    im: Image,
    bg: Color,
    tx_min: int,
    tx_max: int,
    bx_min: int,
    bx_max: int,
)
    requires
        background_model(im) == Some(bg),
        scan_left(im, bg, 3 * (im.spec_height() as int / 6)) is Some,
        scan_right(im, bg, 3 * (im.spec_height() as int / 6)) is Some,
        scan_left(im, bg, 1 * (im.spec_height() as int / 6)) == Some(tx_min),
        scan_right(im, bg, 1 * (im.spec_height() as int / 6)) == Some(tx_max),
        scan_left(im, bg, 5 * (im.spec_height() as int / 6)) == Some(bx_min),
        scan_right(im, bg, 5 * (im.spec_height() as int / 6)) == Some(bx_max),
        abs_diff(tx_min, bx_min) > EDGE_ALIGN_TOLERANCE
            || abs_diff(tx_max, bx_max) > EDGE_ALIGN_TOLERANCE,
    ensures
        measurements_model(im) == Err::<MeasurementsView, ImageError>(ImageError::NotAligned),
{
}

/// `(x, y)` lies on one of the six face cells of the canonical cross with
/// top-left corner `(mx0, y0)` and face side `s`: four cells across the
/// middle row, and the central column's top and bottom cells.
pub open spec fn in_cross(mx0: int, y0: int, s: int, x: int, y: int) -> bool {
    ||| (mx0 <= x < mx0 + 4 * s && y0 + s <= y < y0 + 2 * s)
    ||| (mx0 + 2 * s <= x < mx0 + 3 * s && y0 <= y < y0 + 3 * s)
}

/// `im` is a geometrically well-formed cross-layout net: six square face
/// cells of side `s` at the canonical positions, every face pixel
/// differing from the single background color `bg`, everything else
/// showing `bg`, and each of the three scan bands passing through its
/// intended row of cells.
pub open spec fn well_formed_net(im: Image, bg: Color, mx0: int, y0: int, s: int) -> bool {
    &&& im.wf()
    &&& s >= 1
    &&& mx0 >= 0
    &&& y0 >= 0
    &&& mx0 + 4 * s <= im.spec_width()
    &&& y0 + 3 * s <= im.spec_height()
    &&& y0 <= im.spec_height() as int / 6 < y0 + s
    &&& y0 + s <= 3 * (im.spec_height() as int / 6) < y0 + 2 * s
    &&& y0 + 2 * s <= 5 * (im.spec_height() as int / 6) < y0 + 3 * s
    &&& forall|x: int, y: int|
        0 <= x < im.spec_width() && 0 <= y < im.spec_height()
            ==> (#[trigger] im.spec_pixel(x, y) == bg <==> !in_cross(mx0, y0, s, x, y))
}

/// The background color of a well-formed net covers a sample majority:
/// each of the two sampled rows crosses only the central column of the
/// cross, whose width `s` can hold at most one of each row's two
/// half-width-apart sample column pairs.
proof fn lemma_net_sample_majority(im: Image, bg: Color, mx0: int, y0: int, s: int)
    requires
        well_formed_net(im, bg, mx0, y0, s),
    ensures
        has_majority(samples(im), bg),
{
    let w = im.spec_width() as int;
    let h = im.spec_height() as int;
    let sq = samples(im);
    // A sample row is never inside the middle-row band, so a sample whose
    // column misses the central window shows the background.
    assert forall|i: int| 0 <= i < 8
        && !(mx0 + 2 * s <= sample_coord_x(im, i) < mx0 + 3 * s) implies sq[i] == bg by {
        let m = 2 * (i / 2) + 1;
        assert(1 <= m <= 7);
        assert(m * w <= 7 * w) by (nonlinear_arith)
            requires
                1 <= m <= 7,
                w >= 1,
        ;
        assert(0 <= sample_coord_x(im, i) < w);
        let my = 4 * (i % 2) + 1;
        assert(my == 1 || my == 5);
        assert(my * h <= 5 * h) by (nonlinear_arith)
            requires
                1 <= my <= 5,
                h >= 1,
        ;
        let sy = sample_coord_y(im, i);
        assert(0 <= sy < h);
        if i % 2 == 0 {
            assert(sy == (1 * h) / 6);
            assert(sy < y0 + s);
        } else {
            assert(sy == (5 * h) / 6);
            assert(5 * h == (5 * (h / 6)) * 6 + 5 * (h % 6)) by (nonlinear_arith)
                requires
                    h == (h / 6) * 6 + h % 6,
            ;
            assert(sy == 5 * (h / 6) + (5 * (h % 6)) / 6);
            assert(sy >= y0 + 2 * s);
        }
        assert(!in_cross(mx0, y0, s, sample_coord_x(im, i), sy));
    }
    // Sample columns two apart lie at least half the width apart, which
    // is at least 2s, so no width-s window holds both.
    assert forall|i: int| 0 <= i < 4 implies
        sample_coord_x(im, i + 4) - #[trigger] sample_coord_x(im, i) >= s by {
        let m = 2 * (i / 2) + 1;
        let a = m * w;
        let b = (m + 4) * w;
        assert(b - a == 4 * w) by (nonlinear_arith)
            requires
                a == m * w,
                b == (m + 4) * w,
        ;
        assert(2 * ((i + 4) / 2) + 1 == m + 4);
        assert(sample_coord_x(im, i) == a / 8);
        assert(sample_coord_x(im, i + 4) == b / 8);
        assert(8 * (a / 8) <= a < 8 * (a / 8) + 8);
        assert(8 * (b / 8) <= b < 8 * (b / 8) + 8);
        assert(8 * (b / 8 - a / 8) > 4 * w - 8);
        assert(4 * w >= 16 * s);
        assert(sample_coord_x(im, i + 4) - sample_coord_x(im, i) >= 2 * s - 1);
    }
    assert(sq[0] == bg || sq[4] == bg);
    assert(sq[1] == bg || sq[5] == bg);
    assert(sq[2] == bg || sq[6] == bg);
    assert(sq[3] == bg || sq[7] == bg);
    crate::background::lemma_count_color8(sq, bg);
}

/// The x measurement stage of a well-formed net finds exactly the five
/// equally spaced cell boundaries of the cross.
proof fn lemma_net_x_stage(im: Image, bg: Color, mx0: int, y0: int, s: int)
    requires
        well_formed_net(im, bg, mx0, y0, s),
    ensures
        x_bounds_model(im, bg) == Ok::<Seq<int>, ImageError>(
            seq![mx0, mx0 + s, mx0 + 2 * s, mx0 + 3 * s, mx0 + 4 * s],
        ),
{
    let w = im.spec_width() as int;
    let h = im.spec_height() as int;
    let dy = h / 6;
    let rm = 3 * dy;
    let rt = 1 * dy;
    let rb = 5 * dy;

    // The middle band crosses the whole four-cell row.
    assert(first_mismatch_from_left(im, bg, rm, mx0)) by {
        assert(in_cross(mx0, y0, s, mx0, rm));
        assert(im.spec_pixel(mx0, rm) != bg);
        assert forall|x2: int| 0 <= x2 < mx0 implies im.spec_pixel(x2, rm) == bg by {
            assert(!in_cross(mx0, y0, s, x2, rm));
        }
    }
    lemma_scan_left_char(im, bg, rm, mx0);
    assert(last_mismatch_from_right(im, bg, rm, mx0 + 4 * s - 1)) by {
        assert(in_cross(mx0, y0, s, mx0 + 4 * s - 1, rm));
        assert(im.spec_pixel(mx0 + 4 * s - 1, rm) != bg);
        assert forall|x2: int| mx0 + 4 * s - 1 < x2 < w implies im.spec_pixel(x2, rm) == bg by {
            assert(!in_cross(mx0, y0, s, x2, rm));
        }
    }
    lemma_scan_right_char(im, bg, rm, mx0 + 4 * s - 1);

    // The top and bottom bands cross only the central column.
    assert(first_mismatch_from_left(im, bg, rt, mx0 + 2 * s)) by {
        assert(in_cross(mx0, y0, s, mx0 + 2 * s, rt));
        assert(im.spec_pixel(mx0 + 2 * s, rt) != bg);
        assert forall|x2: int| 0 <= x2 < mx0 + 2 * s implies im.spec_pixel(x2, rt) == bg by {
            assert(!in_cross(mx0, y0, s, x2, rt));
        }
    }
    lemma_scan_left_char(im, bg, rt, mx0 + 2 * s);
    assert(last_mismatch_from_right(im, bg, rt, mx0 + 3 * s - 1)) by {
        assert(in_cross(mx0, y0, s, mx0 + 3 * s - 1, rt));
        assert(im.spec_pixel(mx0 + 3 * s - 1, rt) != bg);
        assert forall|x2: int| mx0 + 3 * s - 1 < x2 < w implies im.spec_pixel(x2, rt) == bg by {
            assert(!in_cross(mx0, y0, s, x2, rt));
        }
    }
    lemma_scan_right_char(im, bg, rt, mx0 + 3 * s - 1);
    assert(first_mismatch_from_left(im, bg, rb, mx0 + 2 * s)) by {
        assert(in_cross(mx0, y0, s, mx0 + 2 * s, rb));
        assert(im.spec_pixel(mx0 + 2 * s, rb) != bg);
        assert forall|x2: int| 0 <= x2 < mx0 + 2 * s implies im.spec_pixel(x2, rb) == bg by {
            assert(!in_cross(mx0, y0, s, x2, rb));
        }
    }
    lemma_scan_left_char(im, bg, rb, mx0 + 2 * s);
    assert(last_mismatch_from_right(im, bg, rb, mx0 + 3 * s - 1)) by {
        assert(in_cross(mx0, y0, s, mx0 + 3 * s - 1, rb));
        assert(im.spec_pixel(mx0 + 3 * s - 1, rb) != bg);
        assert forall|x2: int| mx0 + 3 * s - 1 < x2 < w implies im.spec_pixel(x2, rb) == bg by {
            assert(!in_cross(mx0, y0, s, x2, rb));
        }
    }
    lemma_scan_right_char(im, bg, rb, mx0 + 3 * s - 1);

    let vx = seq![mx0, mx0 + s, mx0 + 2 * s, mx0 + 3 * s, mx0 + 4 * s];
    assert((mx0 + 2 * s + mx0) / 2 == mx0 + s);
    assert(x_spacing_ok(vx)) by {
        assert(vx[0] == mx0 && vx[1] == mx0 + s && vx[2] == mx0 + 2 * s
            && vx[3] == mx0 + 3 * s && vx[4] == mx0 + 4 * s);
    }
    assert(x_bounds_model(im, bg) == Ok::<Seq<int>, ImageError>(vx));
}

/// The y measurement stage of a well-formed net finds exactly the four
/// equally spaced cell boundaries of the cross.
proof fn lemma_net_y_stage(im: Image, bg: Color, mx0: int, y0: int, s: int)
    requires
        well_formed_net(im, bg, mx0, y0, s),
    ensures
        y_bounds_model(
            im,
            bg,
            seq![mx0, mx0 + s, mx0 + 2 * s, mx0 + 3 * s, mx0 + 4 * s],
        ) == Ok::<Seq<int>, ImageError>(seq![y0, y0 + s, y0 + 2 * s, y0 + 3 * s]),
{
    let w = im.spec_width() as int;
    let h = im.spec_height() as int;
    let vx = seq![mx0, mx0 + s, mx0 + 2 * s, mx0 + 3 * s, mx0 + 4 * s];
    assert(vx[1] == mx0 + s && vx[2] == mx0 + 2 * s && vx[3] == mx0 + 3 * s
        && vx[4] == mx0 + 4 * s);
    let cm = (vx[2] + vx[3]) / 2;
    let cl = vx[1];
    let cr = (vx[3] + vx[4]) / 2;
    assert(cm == mx0 + 2 * s + s / 2);
    assert(cr == mx0 + 3 * s + s / 2);
    assert(mx0 + 2 * s <= cm < mx0 + 3 * s);
    assert(mx0 + 3 * s <= cr < mx0 + 4 * s);

    // The central column is non-background over the full three-cell span.
    assert(first_mismatch_from_top(im, bg, cm, y0)) by {
        assert(in_cross(mx0, y0, s, cm, y0));
        assert(im.spec_pixel(cm, y0) != bg);
        assert forall|y2: int| 0 <= y2 < y0 implies im.spec_pixel(cm, y2) == bg by {
            assert(!in_cross(mx0, y0, s, cm, y2));
        }
    }
    lemma_scan_top_char(im, bg, cm, y0);
    assert(last_mismatch_from_bottom(im, bg, cm, y0 + 3 * s - 1)) by {
        assert(in_cross(mx0, y0, s, cm, y0 + 3 * s - 1));
        assert(im.spec_pixel(cm, y0 + 3 * s - 1) != bg);
        assert forall|y2: int| y0 + 3 * s - 1 < y2 < h implies im.spec_pixel(cm, y2) == bg by {
            assert(!in_cross(mx0, y0, s, cm, y2));
        }
    }
    lemma_scan_bottom_char(im, bg, cm, y0 + 3 * s - 1);

    // The side arms are non-background over the middle row only.
    assert(first_mismatch_from_top(im, bg, cl, y0 + s)) by {
        assert(in_cross(mx0, y0, s, cl, y0 + s));
        assert(im.spec_pixel(cl, y0 + s) != bg);
        assert forall|y2: int| 0 <= y2 < y0 + s implies im.spec_pixel(cl, y2) == bg by {
            assert(!in_cross(mx0, y0, s, cl, y2));
        }
    }
    lemma_scan_top_char(im, bg, cl, y0 + s);
    assert(last_mismatch_from_bottom(im, bg, cl, y0 + 2 * s - 1)) by {
        assert(in_cross(mx0, y0, s, cl, y0 + 2 * s - 1));
        assert(im.spec_pixel(cl, y0 + 2 * s - 1) != bg);
        assert forall|y2: int| y0 + 2 * s - 1 < y2 < h implies im.spec_pixel(cl, y2) == bg by {
            assert(!in_cross(mx0, y0, s, cl, y2));
        }
    }
    lemma_scan_bottom_char(im, bg, cl, y0 + 2 * s - 1);
    assert(first_mismatch_from_top(im, bg, cr, y0 + s)) by {
        assert(in_cross(mx0, y0, s, cr, y0 + s));
        assert(im.spec_pixel(cr, y0 + s) != bg);
        assert forall|y2: int| 0 <= y2 < y0 + s implies im.spec_pixel(cr, y2) == bg by {
            assert(!in_cross(mx0, y0, s, cr, y2));
        }
    }
    lemma_scan_top_char(im, bg, cr, y0 + s);
    assert(last_mismatch_from_bottom(im, bg, cr, y0 + 2 * s - 1)) by {
        assert(in_cross(mx0, y0, s, cr, y0 + 2 * s - 1));
        assert(im.spec_pixel(cr, y0 + 2 * s - 1) != bg);
        assert forall|y2: int| y0 + 2 * s - 1 < y2 < h implies im.spec_pixel(cr, y2) == bg by {
            assert(!in_cross(mx0, y0, s, cr, y2));
        }
    }
    lemma_scan_bottom_char(im, bg, cr, y0 + 2 * s - 1);

    let vy = seq![y0, y0 + s, y0 + 2 * s, y0 + 3 * s];
    assert((y0 + s + (y0 + s)) / 2 == y0 + s);
    assert((y0 + 2 * s + (y0 + 2 * s)) / 2 == y0 + 2 * s);
    assert(y_spacing_ok(vy)) by {
        assert(vy[0] == y0 && vy[1] == y0 + s && vy[2] == y0 + 2 * s && vy[3] == y0 + 3 * s);
    }
    assert(y_bounds_model(im, bg, vx) == Ok::<Seq<int>, ImageError>(vy));
}

/// Every geometrically well-formed net whose background is the unique
/// sample-majority color is accepted, with exactly the cell boundaries of
/// the cross and the face side `s`.
pub proof fn lemma_well_formed_net_accepted(im: Image, bg: Color, mx0: int, y0: int, s: int)
    requires
        well_formed_net(im, bg, mx0, y0, s),
        forall|c: Color| c != bg ==> !has_majority(samples(im), c),
    ensures
        background_model(im) == Some(bg),
        measurements_model(im) == Ok::<MeasurementsView, ImageError>(
            MeasurementsView {
                vec_x: seq![mx0, mx0 + s, mx0 + 2 * s, mx0 + 3 * s, mx0 + 4 * s],
                vec_y: seq![y0, y0 + s, y0 + 2 * s, y0 + 3 * s],
            },
        ),
        side_model(measurements_model(im)->Ok_0) == s,
{
    lemma_net_sample_majority(im, bg, mx0, y0, s);
    lemma_majority_accepted(im, bg);
    let b = background_model(im)->Some_0;
    assert(b == bg);
    lemma_net_x_stage(im, bg, mx0, y0, s);
    lemma_net_y_stage(im, bg, mx0, y0, s);
    let mv = measurements_model(im)->Ok_0;
    assert(x_interval(mv, 0) == s && x_interval(mv, 1) == s && x_interval(mv, 2) == s
        && x_interval(mv, 3) == s);
    assert(y_interval(mv, 0) == s && y_interval(mv, 1) == s && y_interval(mv, 2) == s);
}

/// The side length never exceeds any of the four x extents nor any of the
/// three y extents it was derived from.
pub proof fn lemma_side_length_bound(mv: MeasurementsView)
    ensures
        forall|i: int| 0 <= i < 4 ==> side_model(mv) <= #[trigger] x_interval(mv, i),
        forall|i: int| 0 <= i < 3 ==> side_model(mv) <= #[trigger] y_interval(mv, i),
{
}

} // verus!
