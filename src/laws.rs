//! Properties of the box blur, proved over the model.
use vstd::arithmetic::div_mod::{
    lemma_fundamental_div_mod, lemma_fundamental_div_mod_converse, lemma_mod_pos_bound,
};
use vstd::prelude::*;

use crate::model::{
    blurred, blurred_sample, rect_sum, row_sum, sample_index, valid_buffer, window_count,
    window_hi, window_lo, window_sum,
};

verus! {

/// Sample `i` of a valid buffer is channel `i % 4` of an in-bounds pixel
/// `((i / 4) % w, (i / 4) / w)`.
proof fn lemma_sample_coords(s: Seq<u8>, w: int, h: int, i: int)
    requires
        0 <= w,
        0 <= h,
        valid_buffer(s, w, h),
        0 <= i < s.len(),
    ensures
        0 < w,
        0 <= (i / 4) % w < w,
        0 <= (i / 4) / w < h,
        0 <= i % 4 < 4,
        i == sample_index(w, (i / 4) % w, (i / 4) / w, i % 4),
{
    assert(w != 0) by (nonlinear_arith)
        requires
            0 <= i < s.len(),
            s.len() == w * h * 4,
    ;
    let p = i / 4;
    let x = p % w;
    let y = p / w;
    assert(i == p * 4 + i % 4);
    lemma_fundamental_div_mod(p, w);
    lemma_mod_pos_bound(p, w);
    assert(p == y * w + x) by (nonlinear_arith)
        requires
            p == w * (p / w) + p % w,
            x == p % w,
            y == p / w,
    ;
    assert(0 <= y < h) by (nonlinear_arith)
        requires
            p == y * w + x,
            0 <= x < w,
            0 <= p * 4 < w * h * 4,
    ;
}

/// Channel `c` of a pixel `(x, y)` in bounds reads a sample with remainder `c`.
proof fn lemma_index_in_range(w: int, h: int, x: int, y: int, c: int)
    requires
        0 <= x < w,
        0 <= y < h,
        0 <= c < 4,
    ensures
        0 <= sample_index(w, x, y, c) < w * h * 4,
        sample_index(w, x, y, c) % 4 == c,
{
    assert(0 <= y * w + x < w * h) by (nonlinear_arith)
        requires
            0 <= x < w,
            0 <= y < h,
    ;
    lemma_fundamental_div_mod_converse(sample_index(w, x, y, c), 4, y * w + x, c);
}

/// A buffer whose pixels all hold the same four channel values.
pub open spec fn is_uniform(s: Seq<u8>) -> bool {
    forall|i: int| 0 <= i < s.len() ==> #[trigger] s[i] == s[i % 4]
}

proof fn lemma_uniform_row(s: Seq<u8>, w: int, h: int, c: int, y: int, x0: int, x1: int)
    requires
        valid_buffer(s, w, h),
        is_uniform(s),
        0 <= c < 4,
        0 <= y < h,
        0 <= x0 <= x1 <= w,
    ensures
        row_sum(s, w, c, y, x0, x1) == (x1 - x0) * s[c],
    decreases x1 - x0,
{
    if x0 < x1 {
        lemma_uniform_row(s, w, h, c, y, x0, x1 - 1);
        lemma_index_in_range(w, h, x1 - 1, y, c);
        let k = sample_index(w, x1 - 1, y, c);
        assert(s[k] == s[k % 4]);
        assert((x1 - 1 - x0) * s[c] + s[c] == (x1 - x0) * s[c]) by (nonlinear_arith);
    } else {
        assert((x1 - x0) * s[c] == 0) by (nonlinear_arith)
            requires
                x1 == x0,
        ;
    }
}

proof fn lemma_uniform_rect(s: Seq<u8>, w: int, h: int, c: int, y0: int, y1: int, x0: int, x1: int)
    requires
        valid_buffer(s, w, h),
        is_uniform(s),
        0 <= c < 4,
        0 <= y0 <= y1 <= h,
        0 <= x0 <= x1 <= w,
    ensures
        rect_sum(s, w, c, y0, y1, x0, x1) == (x1 - x0) * (y1 - y0) * s[c],
    decreases y1 - y0,
{
    if y0 < y1 {
        lemma_uniform_rect(s, w, h, c, y0, y1 - 1, x0, x1);
        lemma_uniform_row(s, w, h, c, y1 - 1, x0, x1);
        assert((x1 - x0) * (y1 - 1 - y0) * s[c] + (x1 - x0) * s[c] == (x1 - x0) * (y1 - y0)
            * s[c]) by (nonlinear_arith);
    } else {
        assert((x1 - x0) * (y1 - y0) * s[c] == 0) by (nonlinear_arith)
            requires
                y1 == y0,
        ;
    }
}

/// Blurring a buffer whose pixels are all alike leaves it unchanged, for
/// every radius: the mean of equal values is that value.
pub proof fn lemma_uniform_unchanged(s: Seq<u8>, width: u32, height: u32, radius: u32)
    requires
        valid_buffer(s, width as int, height as int),
        is_uniform(s),
    ensures
        blurred(s, width as int, height as int, radius as int) == s,
{
    let w = width as int;
    let h = height as int;
    let r = radius as int;
    let b = blurred(s, w, h, r);
    assert forall|i: int| 0 <= i < s.len() implies #[trigger] b[i] == s[i] by {
        lemma_sample_coords(s, w, h, i);
        let x = (i / 4) % w;
        let y = (i / 4) / w;
        let c = i % 4;
        let n = window_count(w, h, r, x, y);
        lemma_uniform_rect(
            s,
            w,
            h,
            c,
            window_lo(y, r),
            window_hi(y, r, h),
            window_lo(x, r),
            window_hi(x, r, w),
        );
        assert(window_sum(s, w, h, r, x, y, c) == n * s[c]);
        assert(0 < n) by (nonlinear_arith)
            requires
                n == (window_hi(x, r, w) - window_lo(x, r)) * (window_hi(y, r, h) - window_lo(y, r)),
                window_lo(x, r) < window_hi(x, r, w),
                window_lo(y, r) < window_hi(y, r, h),
        ;
        assert((n * s[c]) / n == s[c]) by (nonlinear_arith)
            requires
                0 < n,
        ;
        assert(s[i] == s[c]);
    }
    assert(b =~= s);
}

/// A blur with radius 0 leaves every valid buffer unchanged: each window
/// holds its own pixel alone.
pub proof fn lemma_radius_zero_identity(s: Seq<u8>, width: u32, height: u32)
    requires
        valid_buffer(s, width as int, height as int),
    ensures
        blurred(s, width as int, height as int, 0) == s,
{
    let w = width as int;
    let h = height as int;
    let b = blurred(s, w, h, 0);
    assert forall|i: int| 0 <= i < s.len() implies #[trigger] b[i] == s[i] by {
        lemma_sample_coords(s, w, h, i);
        let x = (i / 4) % w;
        let y = (i / 4) / w;
        let c = i % 4;
        assert(rect_sum(s, w, c, y, y, x, x + 1) == 0);
        assert(row_sum(s, w, c, y, x, x) == 0);
        assert(window_sum(s, w, h, 0, x, y, c) == s[i]);
        assert(window_hi(x, 0, w) - window_lo(x, 0) == 1);
        assert(window_hi(y, 0, h) - window_lo(y, 0) == 1);
        assert(window_count(w, h, 0, x, y) == 1) by (nonlinear_arith)
            requires
                window_hi(x, 0, w) - window_lo(x, 0) == 1,
                window_hi(y, 0, h) - window_lo(y, 0) == 1,
                window_count(w, h, 0, x, y) == (window_hi(x, 0, w) - window_lo(x, 0)) * (
                window_hi(y, 0, h) - window_lo(y, 0)),
        ;
        assert(blurred_sample(s, w, h, 0, x, y, c) == s[i]);
    }
    assert(b =~= s);
}

/// A one-pixel image comes out of a blur as it went in, whatever the
/// radius: no neighbour outside the image is counted.
pub proof fn lemma_single_pixel_unchanged(s: Seq<u8>, radius: u32)
    requires
        s.len() == 4,
    ensures
        blurred(s, 1, 1, radius as int) == s,
{
    assert forall|i: int| 0 <= i < s.len() implies #[trigger] s[i] == s[i % 4] by {
        assert(i % 4 == i);
    }
    lemma_uniform_unchanged(s, 1, 1, radius);
}

} // verus!
