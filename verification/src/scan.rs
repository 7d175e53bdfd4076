//! Directional edge scans: linear searches along one row or one column for
//! the first pixel that differs from the background color.

use vstd::prelude::*;

use crate::image::{Color, Image, ImageError};

verus! {

/// `x` is the leftmost pixel of row `y` that differs from `bg`.
pub open spec fn first_mismatch_from_left(im: Image, bg: Color, y: int, x: int) -> bool {
    &&& 0 <= x < im.spec_width()
    &&& im.spec_pixel(x, y) != bg
    &&& forall|x2: int| 0 <= x2 < x ==> im.spec_pixel(x2, y) == bg
}

/// `x` is the rightmost pixel of row `y` that differs from `bg`.
pub open spec fn last_mismatch_from_right(im: Image, bg: Color, y: int, x: int) -> bool {
    &&& 0 <= x < im.spec_width()
    &&& im.spec_pixel(x, y) != bg
    &&& forall|x2: int| x < x2 < im.spec_width() ==> im.spec_pixel(x2, y) == bg
}

/// `y` is the topmost pixel of column `x` that differs from `bg`.
pub open spec fn first_mismatch_from_top(im: Image, bg: Color, x: int, y: int) -> bool {
    &&& 0 <= y < im.spec_height()
    &&& im.spec_pixel(x, y) != bg
    &&& forall|y2: int| 0 <= y2 < y ==> im.spec_pixel(x, y2) == bg
}

/// `y` is the bottommost pixel of column `x` that differs from `bg`.
pub open spec fn last_mismatch_from_bottom(im: Image, bg: Color, x: int, y: int) -> bool {
    &&& 0 <= y < im.spec_height()
    &&& im.spec_pixel(x, y) != bg
    &&& forall|y2: int| y < y2 < im.spec_height() ==> im.spec_pixel(x, y2) == bg
}

/// Every pixel of row `y` equals `bg`.
pub open spec fn row_uniform(im: Image, bg: Color, y: int) -> bool {
    forall|x: int| 0 <= x < im.spec_width() ==> im.spec_pixel(x, y) == bg
}

/// Every pixel of column `x` equals `bg`.
pub open spec fn col_uniform(im: Image, bg: Color, x: int) -> bool {
    forall|y: int| 0 <= y < im.spec_height() ==> im.spec_pixel(x, y) == bg
}

/// The inclusive left edge of row `y`: the first mismatching x, if any.
pub open spec fn scan_left(im: Image, bg: Color, y: int) -> Option<int> {
    if exists|x: int| first_mismatch_from_left(im, bg, y, x) {
        Some(choose|x: int| first_mismatch_from_left(im, bg, y, x))
    } else {
        None
    }
}

/// The exclusive right edge of row `y`: one past the last mismatching x, if any.
pub open spec fn scan_right(im: Image, bg: Color, y: int) -> Option<int> {
    if exists|x: int| last_mismatch_from_right(im, bg, y, x) {
        Some(1 + choose|x: int| last_mismatch_from_right(im, bg, y, x))
    } else {
        None
    }
}

/// The inclusive top edge of column `x`: the first mismatching y, if any.
pub open spec fn scan_top(im: Image, bg: Color, x: int) -> Option<int> {
    if exists|y: int| first_mismatch_from_top(im, bg, x, y) {
        Some(choose|y: int| first_mismatch_from_top(im, bg, x, y))
    } else {
        None
    }
}

/// The exclusive bottom edge of column `x`: one past the last mismatching y, if any.
pub open spec fn scan_bottom(im: Image, bg: Color, x: int) -> Option<int> {
    if exists|y: int| last_mismatch_from_bottom(im, bg, x, y) {
        Some(1 + choose|y: int| last_mismatch_from_bottom(im, bg, x, y))
    } else {
        None
    }
}

/// The leftmost mismatch of a row is unique, so `scan_left` names exactly it.
pub proof fn lemma_scan_left_char(im: Image, bg: Color, y: int, x: int)
    requires
        first_mismatch_from_left(im, bg, y, x),
    ensures
        scan_left(im, bg, y) == Some(x),
{
    let x0 = choose|x0: int| first_mismatch_from_left(im, bg, y, x0);
    assert(first_mismatch_from_left(im, bg, y, x0));
    if x0 < x {
        assert(im.spec_pixel(x0, y) == bg);
    } else if x < x0 {
        assert(im.spec_pixel(x, y) == bg);
    }
}

/// The rightmost mismatch of a row is unique, so `scan_right` names exactly it.
pub proof fn lemma_scan_right_char(im: Image, bg: Color, y: int, x: int)
    requires
        last_mismatch_from_right(im, bg, y, x),
    ensures
        scan_right(im, bg, y) == Some(x + 1),
{
    let x0 = choose|x0: int| last_mismatch_from_right(im, bg, y, x0);
    assert(last_mismatch_from_right(im, bg, y, x0));
    if x0 < x {
        assert(im.spec_pixel(x, y) == bg);
    } else if x < x0 {
        assert(im.spec_pixel(x0, y) == bg);
    }
}

/// The topmost mismatch of a column is unique, so `scan_top` names exactly it.
pub proof fn lemma_scan_top_char(im: Image, bg: Color, x: int, y: int)
    requires
        first_mismatch_from_top(im, bg, x, y),
    ensures
        scan_top(im, bg, x) == Some(y),
{
    let y0 = choose|y0: int| first_mismatch_from_top(im, bg, x, y0);
    assert(first_mismatch_from_top(im, bg, x, y0));
    if y0 < y {
        assert(im.spec_pixel(x, y0) == bg);
    } else if y < y0 {
        assert(im.spec_pixel(x, y) == bg);
    }
}

/// The bottommost mismatch of a column is unique, so `scan_bottom` names exactly it.
pub proof fn lemma_scan_bottom_char(im: Image, bg: Color, x: int, y: int)
    requires
        last_mismatch_from_bottom(im, bg, x, y),
    ensures
        scan_bottom(im, bg, x) == Some(y + 1),
{
    let y0 = choose|y0: int| last_mismatch_from_bottom(im, bg, x, y0);
    assert(last_mismatch_from_bottom(im, bg, x, y0));
    if y0 < y {
        assert(im.spec_pixel(x, y) == bg);
    } else if y < y0 {
        assert(im.spec_pixel(x, y0) == bg);
    }
}

/// A row of pure background has no edge to find in either direction.
pub proof fn lemma_uniform_row_no_edge(im: Image, bg: Color, y: int)
    requires
        row_uniform(im, bg, y),
    ensures
        scan_left(im, bg, y) is None,
        scan_right(im, bg, y) is None,
{
    if exists|x: int| first_mismatch_from_left(im, bg, y, x) {
        let x = choose|x: int| first_mismatch_from_left(im, bg, y, x);
        assert(im.spec_pixel(x, y) == bg);
    }
    if exists|x: int| last_mismatch_from_right(im, bg, y, x) {
        let x = choose|x: int| last_mismatch_from_right(im, bg, y, x);
        assert(im.spec_pixel(x, y) == bg);
    }
}

/// A successful `scan_left` names a genuine leftmost mismatch.
pub proof fn lemma_scan_left_some(im: Image, bg: Color, y: int, x: int)
    requires
        scan_left(im, bg, y) == Some(x),
    ensures
        first_mismatch_from_left(im, bg, y, x),
{
    assert(exists|x0: int| first_mismatch_from_left(im, bg, y, x0));
}

/// A successful `scan_right` names one past a genuine rightmost mismatch.
pub proof fn lemma_scan_right_some(im: Image, bg: Color, y: int, x: int)
    requires
        scan_right(im, bg, y) == Some(x),
    ensures
        last_mismatch_from_right(im, bg, y, x - 1),
{
    assert(exists|x0: int| last_mismatch_from_right(im, bg, y, x0));
}

/// A successful `scan_top` names a genuine topmost mismatch.
pub proof fn lemma_scan_top_some(im: Image, bg: Color, x: int, y: int)
    requires
        scan_top(im, bg, x) == Some(y),
    ensures
        first_mismatch_from_top(im, bg, x, y),
{
    assert(exists|y0: int| first_mismatch_from_top(im, bg, x, y0));
}

/// A successful `scan_bottom` names one past a genuine bottommost mismatch.
pub proof fn lemma_scan_bottom_some(im: Image, bg: Color, x: int, y: int)
    requires
        scan_bottom(im, bg, x) == Some(y),
    ensures
        last_mismatch_from_bottom(im, bg, x, y - 1),
{
    assert(exists|y0: int| last_mismatch_from_bottom(im, bg, x, y0));
}

/// Scans row `y` from the left for the first pixel that differs from `bg`.
///
/// Returns that pixel's x, or `NetNotFound` when the whole row is background.
pub fn search_from_left(im: &Image, bg: Color, y: u32) -> (r: Result<u32, ImageError>)
    requires
        im.wf(),
        y < im.spec_height(),
    ensures
        match r {
            Ok(x) => scan_left(*im, bg, y as int) == Some(x as int)
                && first_mismatch_from_left(*im, bg, y as int, x as int),
            Err(e) => e == ImageError::NetNotFound
                && scan_left(*im, bg, y as int) is None
                && row_uniform(*im, bg, y as int),
        },
{
    let w = im.width();
    let mut x: u32 = 0;
    while x < w
        invariant
            im.wf(),
            y < im.spec_height(),
            w == im.spec_width(),
            x <= w,
            forall|x2: int| 0 <= x2 < x ==> im.spec_pixel(x2, y as int) == bg,
        decreases w - x,
    {
        if im.pixel(x, y) != bg {
            proof {
                lemma_scan_left_char(*im, bg, y as int, x as int);
            }
            return Ok(x);
        }
        x = x + 1;
    }
    proof {
        if exists|x0: int| first_mismatch_from_left(*im, bg, y as int, x0) {
            let x0 = choose|x0: int| first_mismatch_from_left(*im, bg, y as int, x0);
            assert(im.spec_pixel(x0, y as int) == bg);
        }
    }
    Err(ImageError::NetNotFound)
}

/// Scans row `y` from the right for the first pixel that differs from `bg`.
///
/// Returns one past that pixel's x (an exclusive right boundary), or
/// `NetNotFound` when the whole row is background.
pub fn search_from_right(im: &Image, bg: Color, y: u32) -> (r: Result<u32, ImageError>)
    requires
        im.wf(),
        y < im.spec_height(),
    ensures
        match r {
            Ok(x) => scan_right(*im, bg, y as int) == Some(x as int)
                && last_mismatch_from_right(*im, bg, y as int, x as int - 1),
            Err(e) => e == ImageError::NetNotFound
                && scan_right(*im, bg, y as int) is None
                && row_uniform(*im, bg, y as int),
        },
{
    let w = im.width();
    let mut x: u32 = w;
    while x > 0
        invariant
            im.wf(),
            y < im.spec_height(),
            w == im.spec_width(),
            x <= w,
            forall|x2: int| x <= x2 < w ==> im.spec_pixel(x2, y as int) == bg,
        decreases x,
    {
        x = x - 1;
        if im.pixel(x, y) != bg {
            proof {
                lemma_scan_right_char(*im, bg, y as int, x as int);
            }
            return Ok(x + 1);
        }
    }
    proof {
        if exists|x0: int| last_mismatch_from_right(*im, bg, y as int, x0) {
            let x0 = choose|x0: int| last_mismatch_from_right(*im, bg, y as int, x0);
            assert(im.spec_pixel(x0, y as int) == bg);
        }
    }
    Err(ImageError::NetNotFound)
}

/// Scans column `x` from the top for the first pixel that differs from `bg`.
///
/// Returns that pixel's y, or `NetNotFound` when the whole column is background.
pub fn search_from_top(im: &Image, bg: Color, x: u32) -> (r: Result<u32, ImageError>)
    requires
        im.wf(),
        x < im.spec_width(),
    ensures
        match r {
            Ok(y) => scan_top(*im, bg, x as int) == Some(y as int)
                && first_mismatch_from_top(*im, bg, x as int, y as int),
            Err(e) => e == ImageError::NetNotFound
                && scan_top(*im, bg, x as int) is None
                && col_uniform(*im, bg, x as int),
        },
{
    let h = im.height();
    let mut y: u32 = 0;
    while y < h
        invariant
            im.wf(),
            x < im.spec_width(),
            h == im.spec_height(),
            y <= h,
            forall|y2: int| 0 <= y2 < y ==> im.spec_pixel(x as int, y2) == bg,
        decreases h - y,
    {
        if im.pixel(x, y) != bg {
            proof {
                lemma_scan_top_char(*im, bg, x as int, y as int);
            }
            return Ok(y);
        }
        y = y + 1;
    }
    proof {
        if exists|y0: int| first_mismatch_from_top(*im, bg, x as int, y0) {
            let y0 = choose|y0: int| first_mismatch_from_top(*im, bg, x as int, y0);
            assert(im.spec_pixel(x as int, y0) == bg);
        }
    }
    Err(ImageError::NetNotFound)
}

/// Scans column `x` from the bottom for the first pixel that differs from `bg`.
///
/// Returns one past that pixel's y (an exclusive bottom boundary), or
/// `NetNotFound` when the whole column is background.
pub fn search_from_bottom(im: &Image, bg: Color, x: u32) -> (r: Result<u32, ImageError>)
    requires
        im.wf(),
        x < im.spec_width(),
    ensures
        match r {
            Ok(y) => scan_bottom(*im, bg, x as int) == Some(y as int)
                && last_mismatch_from_bottom(*im, bg, x as int, y as int - 1),
            Err(e) => e == ImageError::NetNotFound
                && scan_bottom(*im, bg, x as int) is None
                && col_uniform(*im, bg, x as int),
        },
{
    let h = im.height();
    let mut y: u32 = h;
    while y > 0
        invariant
            im.wf(),
            x < im.spec_width(),
            h == im.spec_height(),
            y <= h,
            forall|y2: int| y <= y2 < h ==> im.spec_pixel(x as int, y2) == bg,
        decreases y,
    {
        y = y - 1;
        if im.pixel(x, y) != bg {
            proof {
                lemma_scan_bottom_char(*im, bg, x as int, y as int);
            }
            return Ok(y + 1);
        }
    }
    proof {
        if exists|y0: int| last_mismatch_from_bottom(*im, bg, x as int, y0) {
            let y0 = choose|y0: int| last_mismatch_from_bottom(*im, bg, x as int, y0);
            assert(im.spec_pixel(x as int, y0) == bg);
        }
    }
    Err(ImageError::NetNotFound)
}

} // verus!
