//! The mathematical meaning of a box blur, over `Seq<u8>` buffers.
use vstd::prelude::*;

verus! {

/// First coordinate of the window around `c` that lies inside the image.
pub open spec fn window_lo(c: int, radius: int) -> int {
    if c - radius < 0 {
        0
    } else {
        c - radius
    }
}

/// One past the last coordinate of the window around `c` that lies inside
/// an image of extent `n`.
pub open spec fn window_hi(c: int, radius: int, n: int) -> int {
    if c + radius + 1 > n {
        n
    } else {
        c + radius + 1
    }
}

/// Offset of channel `ch` of pixel `(x, y)` in a buffer of row width `w`.
pub open spec fn sample_index(w: int, x: int, y: int, ch: int) -> int {
    (y * w + x) * 4 + ch
}

/// Sum of channel `ch` over the pixels `x0 .. x1` of row `y`.
pub open spec fn row_sum(s: Seq<u8>, w: int, ch: int, y: int, x0: int, x1: int) -> int
    decreases x1 - x0,
{
    if x1 <= x0 {
        0
    } else {
        row_sum(s, w, ch, y, x0, x1 - 1) + s[sample_index(w, x1 - 1, y, ch)]
    }
}

/// Sum of channel `ch` over the rectangle of rows `y0 .. y1` and columns
/// `x0 .. x1`.
pub open spec fn rect_sum(s: Seq<u8>, w: int, ch: int, y0: int, y1: int, x0: int, x1: int) -> int
    decreases y1 - y0,
{
    if y1 <= y0 {
        0
    } else {
        rect_sum(s, w, ch, y0, y1 - 1, x0, x1) + row_sum(s, w, ch, y1 - 1, x0, x1)
    }
}

/// Number of in-bounds pixels in the window around `(x, y)`.
pub open spec fn window_count(w: int, h: int, radius: int, x: int, y: int) -> int {
    (window_hi(x, radius, w) - window_lo(x, radius)) * (window_hi(y, radius, h) - window_lo(
        y,
        radius,
    ))
}

/// Sum of channel `ch` over the in-bounds pixels of the window around `(x, y)`.
pub open spec fn window_sum(s: Seq<u8>, w: int, h: int, radius: int, x: int, y: int, ch: int) -> int {
    rect_sum(
        s,
        w,
        ch,
        window_lo(y, radius),
        window_hi(y, radius, h),
        window_lo(x, radius),
        window_hi(x, radius, w),
    )
}

/// Blurred value of channel `ch` of pixel `(x, y)`: the window's mean,
/// truncated toward zero.
pub open spec fn blurred_sample(s: Seq<u8>, w: int, h: int, radius: int, x: int, y: int, ch: int) -> int {
    window_sum(s, w, h, radius, x, y, ch) / window_count(w, h, radius, x, y)
}

/// The whole blurred buffer: sample `i` belongs to pixel `i / 4`, which sits
/// at column `(i / 4) % w` of row `(i / 4) / w`, and to channel `i % 4`.
pub open spec fn blurred(s: Seq<u8>, w: int, h: int, radius: int) -> Seq<u8> {
    Seq::new(
        s.len(),
        |i: int| blurred_sample(s, w, h, radius, (i / 4) % w, (i / 4) / w, i % 4) as u8,
    )
}

/// A buffer that holds exactly `w * h` RGBA pixels.
pub open spec fn valid_buffer(s: Seq<u8>, w: int, h: int) -> bool {
    s.len() == w * h * 4
}

} // verus!
