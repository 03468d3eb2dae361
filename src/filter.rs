//! The executable box blur.
use vstd::arithmetic::div_mod::{lemma_fundamental_div_mod_converse, lemma_multiply_divide_le};
use vstd::prelude::*;
use vstd::slice::slice_to_vec;

use crate::model::{
    blurred, blurred_sample, rect_sum, row_sum, sample_index, valid_buffer, window_count,
    window_hi, window_lo,
};

verus! {

/// Per-channel sums over a rectangle of pixels, with the number of pixels.
struct WindowTotals {
    red: u128,
    green: u128,
    blue: u128,
    alpha: u128,
    count: u128,
}

/// Row `y` of a `w`-wide image starts at pixel `y * w` and ends within the image.
proof fn lemma_row_in_bounds(w: int, h: int, y: int) by (nonlinear_arith)
    requires
        0 <= w,
        0 <= y < h,
    ensures
        0 <= y * w,
        y * w + w <= w * h,
{
}

/// One more pixel in the current row keeps the count within the rows seen so far.
proof fn lemma_count_step(rows: int, cols: int, done: int, h: int, w: int) by (nonlinear_arith)
    requires
        0 <= done < cols <= w,
        0 <= rows < h,
    ensures
        rows * cols + done + 1 <= (rows + 1) * cols,
        (rows + 1) * cols <= h * w,
{
}

/// A finished row adds `cols` pixels to the count.
proof fn lemma_next_row(rows: int, cols: int, h: int, w: int) by (nonlinear_arith)
    requires
        0 <= cols <= w,
        0 <= rows < h,
    ensures
        (rows + 1) * cols == rows * cols + cols,
        (rows + 1) * cols <= h * w,
{
}

/// A buffer that fits in memory bounds the pixel count, and so every channel total.
proof fn lemma_area_bound(w: int, h: int) by (nonlinear_arith)
    requires
        0 <= w,
        0 <= h,
        w * h * 4 <= usize::MAX,
    ensures
        w * h < 0x1_0000_0000_0000_0000,
        255 * (w * h) + 255 < 0x1_0000_0000_0000_0000_0000_0000_0000_0000,
{
}

/// Sums each channel of `src` over rows `y0 .. y1` and columns `x0 .. x1`.
fn window_totals(src: &Vec<u8>, w: usize, h: usize, y0: usize, y1: usize, x0: usize, x1: usize) -> (t: WindowTotals)
    requires
        valid_buffer(src@, w as int, h as int),
        y0 <= y1 <= h,
        x0 <= x1 <= w,
    ensures
        t.count == (y1 - y0) * (x1 - x0),
        t.red == rect_sum(src@, w as int, 0, y0 as int, y1 as int, x0 as int, x1 as int),
        t.green == rect_sum(src@, w as int, 1, y0 as int, y1 as int, x0 as int, x1 as int),
        t.blue == rect_sum(src@, w as int, 2, y0 as int, y1 as int, x0 as int, x1 as int),
        t.alpha == rect_sum(src@, w as int, 3, y0 as int, y1 as int, x0 as int, x1 as int),
        t.red <= 255 * t.count,
        t.green <= 255 * t.count,
        t.blue <= 255 * t.count,
        t.alpha <= 255 * t.count,
{
    let ghost s = src@;
    proof {
        assert(s.len() == src.len());
        lemma_area_bound(w as int, h as int);
    }
    let mut t = WindowTotals { red: 0, green: 0, blue: 0, alpha: 0, count: 0 };
    let mut ny = y0;
    while ny < y1
        invariant
            s == src@,
            valid_buffer(s, w as int, h as int),
            w * h < 0x1_0000_0000_0000_0000,
            w * h * 4 <= usize::MAX,
            y0 <= ny <= y1 <= h,
            x0 <= x1 <= w,
            t.count == (ny - y0) * (x1 - x0),
            t.count <= (ny - y0) * (x1 - x0) <= h * w,
            t.red == rect_sum(s, w as int, 0, y0 as int, ny as int, x0 as int, x1 as int),
            t.green == rect_sum(s, w as int, 1, y0 as int, ny as int, x0 as int, x1 as int),
            t.blue == rect_sum(s, w as int, 2, y0 as int, ny as int, x0 as int, x1 as int),
            t.alpha == rect_sum(s, w as int, 3, y0 as int, ny as int, x0 as int, x1 as int),
            t.red <= 255 * t.count,
            t.green <= 255 * t.count,
            t.blue <= 255 * t.count,
            t.alpha <= 255 * t.count,
        decreases y1 - ny,
    {
        proof {
            lemma_row_in_bounds(w as int, h as int, ny as int);
        }
        let row = ny * w;
        let ghost rows = ny - y0;
        let ghost base_red = t.red;
        let ghost base_green = t.green;
        let ghost base_blue = t.blue;
        let ghost base_alpha = t.alpha;
        let mut nx = x0;
        while nx < x1
            invariant
                s == src@,
                valid_buffer(s, w as int, h as int),
                w * h < 0x1_0000_0000_0000_0000,
                w * h * 4 <= usize::MAX,
            w * h * 4 <= usize::MAX,
                y0 <= ny < y1 <= h,
                x0 <= nx <= x1 <= w,
                row == ny * w,
                row + w <= w * h,
                rows == ny - y0,
                t.count == rows * (x1 - x0) + (nx - x0),
                t.count <= h * w,
                t.red == base_red + row_sum(s, w as int, 0, ny as int, x0 as int, nx as int),
                t.green == base_green + row_sum(s, w as int, 1, ny as int, x0 as int, nx as int),
                t.blue == base_blue + row_sum(s, w as int, 2, ny as int, x0 as int, nx as int),
                t.alpha == base_alpha + row_sum(s, w as int, 3, ny as int, x0 as int, nx as int),
                t.red <= 255 * t.count,
                t.green <= 255 * t.count,
                t.blue <= 255 * t.count,
                t.alpha <= 255 * t.count,
            decreases x1 - nx,
        {
            proof {
                lemma_count_step(rows, x1 - x0, nx - x0, h as int, w as int);
            }
            let i = (row + nx) * 4;
            assert(i == sample_index(w as int, nx as int, ny as int, 0));
            t.red = t.red + src[i] as u128;
            t.green = t.green + src[i + 1] as u128;
            t.blue = t.blue + src[i + 2] as u128;
            t.alpha = t.alpha + src[i + 3] as u128;
            t.count = t.count + 1;
            nx = nx + 1;
        }
        proof {
            lemma_next_row(rows, x1 - x0, h as int, w as int);
        }
        ny = ny + 1;
    }
    t
}

/// Truncated mean of `total` over `count` pixels of 8-bit samples.
fn mean(total: u128, count: u128) -> (m: u8)
    requires
        0 < count,
        total <= 255 * count,
    ensures
        m == total / count,
{
    proof {
        lemma_multiply_divide_le(total as int, count as int, 255);
    }
    (total / count) as u8
}

/// Where sample `c` of pixel `(x, y)` sits, read back through `/` and `%`.
proof fn lemma_sample_position(w: int, h: int, x: int, y: int, c: int)
    requires
        0 <= x < w,
        0 <= y < h,
        0 <= c < 4,
    ensures
        ((y * w + x) * 4 + c) / 4 == y * w + x,
        ((y * w + x) * 4 + c) % 4 == c,
        (y * w + x) / w == y,
        (y * w + x) % w == x,
{
    lemma_fundamental_div_mod_converse((y * w + x) * 4 + c, 4, y * w + x, c);
    lemma_fundamental_div_mod_converse(y * w + x, w, y, x);
}

/// Blurs `data`, a buffer of `width * height` RGBA pixels, in place: every
/// sample becomes the truncated mean of its channel over the in-bounds
/// pixels of the square window of side `2 * radius + 1` around its pixel.
/// All reads come from a copy of the buffer taken before the first write.
pub fn blur(data: &mut [u8], width: u32, height: u32, radius: u32)
    requires
        valid_buffer(old(data)@, width as int, height as int),
    ensures
        final(data)@ == blurred(old(data)@, width as int, height as int, radius as int),
{
    let original = slice_to_vec(data);
    let ghost s = original@;
    let w = width as usize;
    let h = height as usize;
    let r = radius as usize;
    let ghost target = blurred(s, w as int, h as int, r as int);
    proof {
        assert(s.len() == original.len());
    }
    let mut p: usize = 0;
    let mut y: usize = 0;
    while y < h
        invariant
            s == original@,
            target == blurred(s, w as int, h as int, r as int),
            valid_buffer(s, w as int, h as int),
            w * h * 4 <= usize::MAX,
            data@.len() == s.len(),
            y <= h,
            p == y * w,
            forall|i: int| 0 <= i < p * 4 ==> data@[i] == target[i],
        decreases h - y,
    {
        proof {
            lemma_row_in_bounds(w as int, h as int, y as int);
        }
        let y0 = if y >= r { y - r } else { 0 };
        let y1 = if r < h - y { y + r + 1 } else { h };
        let mut x: usize = 0;
        while x < w
            invariant
                s == original@,
                target == blurred(s, w as int, h as int, r as int),
                valid_buffer(s, w as int, h as int),
                w * h * 4 <= usize::MAX,
                data@.len() == s.len(),
                y < h,
                x <= w,
                y * w + w <= w * h,
                p == y * w + x,
                y0 == window_lo(y as int, r as int),
                y1 == window_hi(y as int, r as int, h as int),
                forall|i: int| 0 <= i < p * 4 ==> data@[i] == target[i],
            decreases w - x,
        {
            let x0 = if x >= r { x - r } else { 0 };
            let x1 = if r < w - x { x + r + 1 } else { w };
            let t = window_totals(&original, w, h, y0, y1, x0, x1);
            proof {
                assert(t.count == window_count(w as int, h as int, r as int, x as int, y as int))
                    by (nonlinear_arith)
                    requires
                        t.count == (y1 - y0) * (x1 - x0),
                        x0 == window_lo(x as int, r as int),
                        x1 == window_hi(x as int, r as int, w as int),
                        y0 == window_lo(y as int, r as int),
                        y1 == window_hi(y as int, r as int, h as int),
                ;
                assert(0 < t.count) by (nonlinear_arith)
                    requires
                        t.count == (y1 - y0) * (x1 - x0),
                        y0 < y1,
                        x0 < x1,
                ;
                assert forall|c: int| 0 <= c < 4 implies #[trigger] target[p * 4 + c]
                    == blurred_sample(s, w as int, h as int, r as int, x as int, y as int, c)
                    as u8 by {
                    lemma_sample_position(w as int, h as int, x as int, y as int, c);
                }
            }
            let i = p * 4;
            data[i] = mean(t.red, t.count);
            data[i + 1] = mean(t.green, t.count);
            data[i + 2] = mean(t.blue, t.count);
            data[i + 3] = mean(t.alpha, t.count);
            // The four samples just written now match the model.
            proof {
                assert(target[p * 4 + 0] == data@[p * 4 + 0]);
                assert(target[p * 4 + 1] == data@[p * 4 + 1]);
                assert(target[p * 4 + 2] == data@[p * 4 + 2]);
                assert(target[p * 4 + 3] == data@[p * 4 + 3]);
            }
            p = p + 1;
            x = x + 1;
        }
        proof {
            assert(p == (y + 1) * w) by (nonlinear_arith)
                requires
                    p == y * w + w,
            ;
        }
        y = y + 1;
    }
    assert(p * 4 == s.len()) by (nonlinear_arith)
        requires
            p == h * w,
            s.len() == w * h * 4,
    ;
    assert(data@ =~= target);
}

/// Why a buffer was refused before any pixel was touched.
#[derive(Clone, Copy, Debug, PartialEq, Eq, Structural)]
pub enum BlurError {
    /// The buffer's length is not `width * height * 4`.
    InvalidBufferLength,
}

/// Blurs `data` like [`blur`], after checking that it holds exactly
/// `width * height` RGBA pixels. A buffer of any other length is refused
/// with [`BlurError::InvalidBufferLength`] and left as it was.
pub fn blur_checked(data: &mut [u8], width: u32, height: u32, radius: u32) -> (res: Result<(), BlurError>)
    ensures
        res is Ok <==> valid_buffer(old(data)@, width as int, height as int),
        res is Ok ==> final(data)@ == blurred(
            old(data)@,
            width as int,
            height as int,
            radius as int,
        ),
        res is Err ==> res == Err::<(), BlurError>(BlurError::InvalidBufferLength),
        res is Err ==> final(data)@ == old(data)@,
{
    assert(width as int * height as int <= 0xffff_ffff * 0xffff_ffff) by (nonlinear_arith)
        requires
            width <= 0xffff_ffff,
            height <= 0xffff_ffff,
    ;
    let expected = width as u128 * height as u128 * 4;
    if data.len() as u128 != expected {
        return Err(BlurError::InvalidBufferLength);
    }
    blur(data, width, height, radius);
    Ok(())
}

} // verus!
