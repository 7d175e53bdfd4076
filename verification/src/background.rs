//! Background-color inference: the padding color of a net image is taken by
//! majority vote over eight sparse samples placed in the corner and edge
//! regions, where padding is expected even when faces fill the center.

use vstd::prelude::*;

use crate::image::{Color, Image, ImageError};

verus! {

/// A color must cover at least this many of the eight samples to be
/// accepted as the background: an inclusive majority, robust against a few
/// samples landing on face artwork.
pub const MAJORITY_THRESHOLD: usize = 4;

/// Number of background samples taken from an image.
pub const SAMPLE_COUNT: usize = 8;

/// Column of the `i`-th sample: `(2k + 1) * width / 8` for `k = i / 2`.
pub open spec fn sample_coord_x(im: Image, i: int) -> int {
    ((2 * (i / 2) + 1) * im.spec_width()) / 8
}

/// Row of the `i`-th sample: `(4k + 1) * height / 6` for `k = i % 2`.
pub open spec fn sample_coord_y(im: Image, i: int) -> int {
    ((4 * (i % 2) + 1) * im.spec_height()) / 6
}

/// The eight sampled colors, in sampling order.
pub open spec fn samples(im: Image) -> Seq<Color> {
    Seq::new(SAMPLE_COUNT as nat, |i: int| im.spec_pixel(sample_coord_x(im, i), sample_coord_y(im, i)))
}

/// How many entries of `s` equal `c`.
pub open spec fn count_color(s: Seq<Color>, c: Color) -> int
    decreases s.len(),
{
    if s.len() == 0 {
        0
    } else {
        count_color(s.drop_last(), c) + if s.last() == c { 1int } else { 0int }
    }
}

/// `c` covers at least the required majority of the samples `s`.
pub open spec fn has_majority(s: Seq<Color>, c: Color) -> bool {
    count_color(s, c) >= MAJORITY_THRESHOLD
}

/// The first sample from index `i` on whose color covers a majority of `s`.
pub open spec fn first_majority_from(s: Seq<Color>, i: int) -> Option<Color>
    decreases s.len() - i,
{
    if i < 0 || i >= s.len() {
        None
    } else if has_majority(s, s[i]) {
        Some(s[i])
    } else {
        first_majority_from(s, i + 1)
    }
}

/// The background color of `im`: the first sampled color that covers a
/// majority of the samples, if any does.
pub open spec fn background_model(im: Image) -> Option<Color> {
    first_majority_from(samples(im), 0)
}

/// A count over eight samples is the sum of the eight indicators.
pub proof fn lemma_count_color8(s: Seq<Color>, c: Color)
    requires
        s.len() == 8,
    ensures
        count_color(s, c) == (if s[0] == c { 1int } else { 0int })
            + (if s[1] == c { 1int } else { 0int })
            + (if s[2] == c { 1int } else { 0int })
            + (if s[3] == c { 1int } else { 0int })
            + (if s[4] == c { 1int } else { 0int })
            + (if s[5] == c { 1int } else { 0int })
            + (if s[6] == c { 1int } else { 0int })
            + (if s[7] == c { 1int } else { 0int }),
{
    let s7 = s.drop_last();
    let s6 = s7.drop_last();
    let s5 = s6.drop_last();
    let s4 = s5.drop_last();
    let s3 = s4.drop_last();
    let s2 = s3.drop_last();
    let s1 = s2.drop_last();
    let s0 = s1.drop_last();
    assert(count_color(s, c) == count_color(s7, c) + (if s[7] == c { 1int } else { 0int }));
    assert(count_color(s7, c) == count_color(s6, c) + (if s[6] == c { 1int } else { 0int }));
    assert(count_color(s6, c) == count_color(s5, c) + (if s[5] == c { 1int } else { 0int }));
    assert(count_color(s5, c) == count_color(s4, c) + (if s[4] == c { 1int } else { 0int }));
    assert(count_color(s4, c) == count_color(s3, c) + (if s[3] == c { 1int } else { 0int }));
    assert(count_color(s3, c) == count_color(s2, c) + (if s[2] == c { 1int } else { 0int }));
    assert(count_color(s2, c) == count_color(s1, c) + (if s[1] == c { 1int } else { 0int }));
    assert(count_color(s1, c) == count_color(s0, c) + (if s[0] == c { 1int } else { 0int }));
    assert(count_color(s0, c) == 0);
}

/// A color with a positive count occurs at some index.
pub proof fn lemma_count_color_pos(s: Seq<Color>, c: Color)
    requires
        count_color(s, c) > 0,
    ensures
        exists|i: int| 0 <= i < s.len() && s[i] == c,
    decreases s.len(),
{
    if s.last() == c {
        assert(s[s.len() - 1] == c);
    } else {
        lemma_count_color_pos(s.drop_last(), c);
        let i = choose|i: int| 0 <= i < s.drop_last().len() && s.drop_last()[i] == c;
        assert(s[i] == c);
    }
}

/// Skipping over sampled colors without a majority does not change the
/// first majority color.
proof fn lemma_first_majority_skip(s: Seq<Color>, j: int)
    requires
        0 <= j <= s.len(),
        forall|k: int| 0 <= k < j ==> !has_majority(s, s[k]),
    ensures
        first_majority_from(s, 0) == first_majority_from(s, j),
    decreases j,
{
    if j > 0 {
        lemma_first_majority_skip(s, j - 1);
        assert(!has_majority(s, s[j - 1]));
    }
}

/// When no sampled color reaches the majority, no color at all does.
pub proof fn lemma_no_sample_majority(s: Seq<Color>)
    requires
        forall|k: int| 0 <= k < s.len() ==> !has_majority(s, s[k]),
    ensures
        forall|c: Color| !has_majority(s, c),
{
    assert forall|c: Color| !has_majority(s, c) by {
        if has_majority(s, c) {
            assert(count_color(s, c) > 0);
            lemma_count_color_pos(s, c);
            let i = choose|i: int| 0 <= i < s.len() && s[i] == c;
            assert(!has_majority(s, s[i]));
        }
    }
}

/// A sequence of one repeated color counts that color at every entry.
pub proof fn lemma_count_color_all(s: Seq<Color>, c: Color)
    requires
        forall|i: int| 0 <= i < s.len() ==> s[i] == c,
    ensures
        count_color(s, c) == s.len(),
    decreases s.len(),
{
    if s.len() > 0 {
        lemma_count_color_all(s.drop_last(), c);
    }
}

/// From any starting index on, a sampled color with a majority guarantees
/// that the search finds one.
proof fn lemma_first_majority_finds_from(s: Seq<Color>, j: int, i: int)
    requires
        0 <= j <= i < s.len(),
        has_majority(s, s[i]),
    ensures
        first_majority_from(s, j) is Some,
        has_majority(s, first_majority_from(s, j)->Some_0),
    decreases i - j,
{
    if !has_majority(s, s[j]) {
        lemma_first_majority_finds_from(s, j + 1, i);
    }
}

/// A color with a majority among the samples guarantees a background.
pub proof fn lemma_first_majority_finds(s: Seq<Color>, c: Color)
    requires
        has_majority(s, c),
        s.len() > 0,
    ensures
        first_majority_from(s, 0) is Some,
        has_majority(s, first_majority_from(s, 0)->Some_0),
{
    lemma_count_color_pos(s, c);
    let i = choose|i: int| 0 <= i < s.len() && s[i] == c;
    lemma_first_majority_finds_from(s, 0, i);
}

/// Without any majority color the search comes up empty.
pub proof fn lemma_first_majority_none(s: Seq<Color>, j: int)
    requires
        0 <= j <= s.len(),
        forall|c: Color| !has_majority(s, c),
    ensures
        first_majority_from(s, j) is None,
    decreases s.len() - j,
{
    if j < s.len() {
        assert(!has_majority(s, s[j]));
        lemma_first_majority_none(s, j + 1);
    }
}

/// Counts how many pixels in `v` equal `c`.
fn count_matches(v: &Vec<Color>, c: Color) -> (n: usize)
    ensures
        n == count_color(v@, c),
{
    let mut n: usize = 0;
    let mut k: usize = 0;
    while k < v.len()
        invariant
            k <= v@.len(),
            n == count_color(v@.take(k as int), c),
            n <= k,
        decreases v@.len() - k,
    {
        proof {
            assert(v@.take(k + 1).drop_last() =~= v@.take(k as int));
            assert(v@.take(k + 1).last() == v@[k as int]);
        }
        if v[k] == c {
            n = n + 1;
        }
        k = k + 1;
    }
    proof {
        assert(v@.take(v@.len() as int) =~= v@);
    }
    n
}

/// Infers the background color of `im` by sampling eight points in its
/// corner and edge regions and taking the most common color; succeeds only
/// when that color covers at least `MAJORITY_THRESHOLD` of the samples.
pub fn find_background(im: &Image) -> (r: Result<Color, ImageError>)
    requires
        im.wf(),
        im.spec_width() >= 1,
        im.spec_height() >= 1,
    ensures
        match r {
            Ok(c) => background_model(*im) == Some(c) && has_majority(samples(*im), c),
            Err(e) => e == ImageError::BackgroundNotDetermined
                && background_model(*im) is None
                && forall|c: Color| !has_majority(samples(*im), c),
        },
{
    let w = im.width();
    let h = im.height();
    let ghost s = samples(*im);

    let mut sv: Vec<Color> = Vec::new();
    let mut i: usize = 0;
    while i < SAMPLE_COUNT
        invariant
            im.wf(),
            im.spec_width() >= 1,
            im.spec_height() >= 1,
            w == im.spec_width(),
            h == im.spec_height(),
            s == samples(*im),
            i <= SAMPLE_COUNT,
            sv@.len() == i,
            forall|k: int| 0 <= k < i ==> sv@[k] == s[k],
        decreases SAMPLE_COUNT - i,
    {
        let xk: u64 = (i as u64) / 2;
        let yk: u64 = (i as u64) % 2;
        let mx: u64 = 2 * xk + 1;
        let my: u64 = 4 * yk + 1;
        proof {
            assert((mx as int) * (w as int) <= 7 * 0xFFFF_FFFF) by (nonlinear_arith)
                requires
                    0 <= mx <= 7,
                    0 <= w <= 0xFFFF_FFFFu32,
            ;
            assert((my as int) * (h as int) <= 5 * 0xFFFF_FFFF) by (nonlinear_arith)
                requires
                    0 <= my <= 5,
                    0 <= h <= 0xFFFF_FFFFu32,
            ;
        }
        let px64: u64 = mx * (w as u64) / 8;
        let py64: u64 = my * (h as u64) / 6;
        proof {
            assert((mx as int) * (w as int) < 8 * (w as int)) by (nonlinear_arith)
                requires
                    mx <= 7,
                    w >= 1,
            ;
            assert(px64 < w);
            assert((my as int) * (h as int) < 6 * (h as int)) by (nonlinear_arith)
                requires
                    my <= 5,
                    h >= 1,
            ;
            assert(py64 < h);
            assert(px64 as int == sample_coord_x(*im, i as int));
            assert(py64 as int == sample_coord_y(*im, i as int));
        }
        let c = im.pixel(px64 as u32, py64 as u32);
        sv.push(c);
        i = i + 1;
    }
    proof {
        assert(sv@ =~= s);
    }

    let mut j: usize = 0;
    while j < SAMPLE_COUNT
        invariant
            s == samples(*im),
            sv@ == s,
            j <= SAMPLE_COUNT,
            forall|k: int| 0 <= k < j ==> !has_majority(s, s[k]),
        decreases SAMPLE_COUNT - j,
    {
        let c = sv[j];
        let n = count_matches(&sv, c);
        if n >= MAJORITY_THRESHOLD {
            proof {
                lemma_first_majority_skip(s, j as int);
            }
            return Ok(c);
        }
        j = j + 1;
    }
    proof {
        lemma_first_majority_skip(s, SAMPLE_COUNT as int);
        lemma_no_sample_majority(s);
    }
    Err(ImageError::BackgroundNotDetermined)
}

} // verus!
