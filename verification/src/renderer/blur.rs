//! Separable box blur of a render buffer: a horizontal then a vertical
//! sliding-window mean, each window clipped to the buffer.
use crate::renderer::buffer::{
    lemma_offset_bounds, lemma_offset_distinct, pixel_offset, RenderBuffer, MAX_BLUR_RADIUS,
    MAX_BUFFER_PIXELS, MAX_DIMENSION, zeros,
};
use vstd::prelude::*;

verus! {

/// `f(lo) + ... + f(hi - 1)`.
pub open spec fn range_sum(f: spec_fn(int) -> int, lo: int, hi: int) -> int
    decreases hi - lo,
{
    if hi <= lo {
        0
    } else {
        range_sum(f, lo, hi - 1) + f(hi - 1)
    }
}

pub proof fn lemma_range_sum_drop_first(f: spec_fn(int) -> int, lo: int, hi: int)
    requires
        lo < hi,
    ensures
        range_sum(f, lo, hi) == f(lo) + range_sum(f, lo + 1, hi),
    decreases hi - lo,
{
    if lo + 1 < hi {
        lemma_range_sum_drop_first(f, lo, hi - 1);
    } else {
        assert(range_sum(f, lo, lo) == 0);
        assert(range_sum(f, lo + 1, hi) == 0);
    }
}

pub proof fn lemma_range_sum_bounds(f: spec_fn(int) -> int, lo: int, hi: int)
    requires
        lo <= hi,
        forall|i: int| lo <= i < hi ==> 0 <= #[trigger] f(i) <= 255,
    ensures
        0 <= range_sum(f, lo, hi) <= 255 * (hi - lo),
    decreases hi - lo,
{
    if lo < hi {
        lemma_range_sum_bounds(f, lo, hi - 1);
    }
}

pub proof fn lemma_range_sum_ext(f: spec_fn(int) -> int, g: spec_fn(int) -> int, lo: int, hi: int)
    requires
        forall|i: int| lo <= i < hi ==> #[trigger] f(i) == g(i),
    ensures
        range_sum(f, lo, hi) == range_sum(g, lo, hi),
    decreases hi - lo,
{
    if lo < hi {
        lemma_range_sum_ext(f, g, lo, hi - 1);
    }
}

proof fn lemma_mean_bound(s: int, n: int)
    requires
        0 <= s <= 255 * n,
        n > 0,
    ensures
        0 <= s / n <= 255,
{
    assert(0 <= s / n <= 255) by (nonlinear_arith)
        requires
            0 <= s <= 255 * n,
            n > 0,
    ;
}

/// First index of the window of radius `r` around `i`.
pub open spec fn win_lo(i: int, r: int) -> int {
    if i - r > 0 {
        i - r
    } else {
        0
    }
}

/// One past the last index of the window of radius `r` around `i` in a
/// line of `n` samples.
pub open spec fn win_hi(i: int, r: int, n: int) -> int {
    if i + r + 1 < n {
        i + r + 1
    } else {
        n
    }
}

/// Channel `c` of the pixels of row `y`, as a function of the column.
pub open spec fn row_fn(p: Seq<u8>, w: int, y: int, c: int) -> spec_fn(int) -> int {
    |x: int| p[pixel_offset(w, x, y) + c] as int
}

/// Channel `c` of the pixels of column `x`, as a function of the row.
pub open spec fn col_fn(p: Seq<u8>, w: int, x: int, c: int) -> spec_fn(int) -> int {
    |y: int| p[pixel_offset(w, x, y) + c] as int
}

/// Channel `c` of pixel `(x, y)` after the horizontal pass of radius `r`:
/// the floored mean of the row window.
pub open spec fn hmean(p: Seq<u8>, w: int, x: int, y: int, c: int, r: int) -> int {
    range_sum(row_fn(p, w, y, c), win_lo(x, r), win_hi(x, r, w)) / (win_hi(x, r, w) - win_lo(x, r))
}

/// Channel `c` of pixel `(x, y)` after the vertical pass of radius `r`
/// over `p`: the floored mean of the column window.
pub open spec fn vmean(p: Seq<u8>, w: int, h: int, x: int, y: int, c: int, r: int) -> int {
    range_sum(col_fn(p, w, x, c), win_lo(y, r), win_hi(y, r, h)) / (win_hi(y, r, h) - win_lo(y, r))
}

/// The horizontal pass of channel `c` of the pixels of column `x`, as a
/// function of the row.
pub open spec fn hcol_fn(p: Seq<u8>, w: int, x: int, c: int, rx: int) -> spec_fn(int) -> int {
    |y: int| hmean(p, w, x, y, c, rx)
}

/// Channel `c` of pixel `(x, y)` after both passes: the floored column
/// mean (radius `ry`) of the floored row means (radius `rx`).
pub open spec fn blurred(p: Seq<u8>, w: int, h: int, x: int, y: int, c: int, rx: int, ry: int) -> int {
    range_sum(hcol_fn(p, w, x, c, rx), win_lo(y, ry), win_hi(y, ry, h)) / (win_hi(y, ry, h)
        - win_lo(y, ry))
}

/// Dimensions of a well-formed buffer and a byte sequence of its size.
pub open spec fn dims_ok(w: int, h: int, len: int) -> bool {
    &&& 0 < w <= MAX_DIMENSION
    &&& 0 < h <= MAX_DIMENSION
    &&& w * h <= MAX_BUFFER_PIXELS
    &&& len == w * h * 4
}

proof fn lemma_byte_distinct(w: int, h: int, x1: int, y1: int, c1: int, x2: int, y2: int, c2: int)
    requires
        0 <= x1 < w,
        0 <= x2 < w,
        0 <= y1 < h,
        0 <= y2 < h,
        0 <= c1 < 4,
        0 <= c2 < 4,
        x1 != x2 || y1 != y2 || c1 != c2,
    ensures
        pixel_offset(w, x1, y1) + c1 != pixel_offset(w, x2, y2) + c2,
{
    if x1 != x2 || y1 != y2 {
        lemma_offset_distinct(w, x1, y1, x2, y2);
    }
}

/// Horizontal pass of channel `c` over row `y`.
fn blur_row_channel(p: &Vec<u8>, out: &mut Vec<u8>, w: u32, h: u32, y: u32, c: u32, rx: u32)
    requires
        dims_ok(w as int, h as int, p@.len() as int),
        old(out)@.len() == p@.len(),
        y < h,
        c < 4,
        rx <= MAX_BLUR_RADIUS,
    ensures
        final(out)@.len() == p@.len(),
        forall|x: int|
            0 <= x < w ==> #[trigger] final(out)@[pixel_offset(w as int, x, y as int) + c] == hmean(
                p@,
                w as int,
                x,
                y as int,
                c as int,
                rx as int,
            ),
        forall|x: int, yy: int, cc: int|
            0 <= x < w && 0 <= yy < h && 0 <= cc < 4 && (yy != y || cc != c)
                ==> #[trigger] final(out)@[pixel_offset(w as int, x, yy) + cc]
                == old(out)@[pixel_offset(w as int, x, yy) + cc],
{
    let ghost f = row_fn(p@, w as int, y as int, c as int);
    let ghost wi = w as int;
    let ghost r = rx as int;
    proof {
        assert forall|i: int| 0 <= i < wi implies 0 <= #[trigger] f(i) <= 255 by {}
    }
    proof {
        lemma_offset_bounds(wi, h as int, 0, y as int);
    }
    let base: usize = ((y as usize) * (w as usize)) * 4 + (c as usize);
    assert(base == pixel_offset(wi, 0, y as int) + c);
    let hi0: u32 = if rx + 1 < w {
        rx + 1
    } else {
        w
    };
    let mut sum: u32 = 0;
    let mut sx: u32 = 0;
    while sx < hi0
        invariant
            sx <= hi0,
            hi0 == win_hi(0, r, wi),
            hi0 <= w,
            dims_ok(wi, h as int, p@.len() as int),
            wi == w,
            y < h,
            c < 4,
            base == pixel_offset(wi, 0, y as int) + c,
            f == row_fn(p@, wi, y as int, c as int),
            sum == range_sum(f, 0, sx as int),
            sum <= 255 * sx,
        decreases hi0 - sx,
    {
        proof {
            lemma_offset_bounds(wi, h as int, sx as int, y as int);
            assert(pixel_offset(wi, sx as int, y as int) + c == base + sx * 4);
        }
        sum = sum + p[base + (sx as usize) * 4] as u32;
        sx += 1;
    }
    let mut count: u32 = hi0;
    proof {
        lemma_range_sum_bounds(f, 0, hi0 as int);
        lemma_mean_bound(sum as int, count as int);
        lemma_offset_bounds(wi, h as int, 0, y as int);
    }
    let ghost orig = out@;
    out.set(base, (sum / count) as u8);
    proof {
        assert(out@[pixel_offset(wi, 0, y as int) + c] == hmean(p@, wi, 0, y as int, c as int, r));
        assert forall|xx: int, yy: int, cc: int|
            0 <= xx < w && 0 <= yy < h && 0 <= cc < 4 && (yy != y || cc != c) implies #[trigger] out@[pixel_offset(
                wi,
                xx,
                yy,
            ) + cc] == orig[pixel_offset(wi, xx, yy) + cc] by {
            lemma_offset_bounds(wi, h as int, xx, yy);
            lemma_byte_distinct(wi, h as int, xx, yy, cc as int, 0, y as int, c as int);
        }
    }
    let mut x: u32 = 1;
    while x < w
        invariant
            1 <= x <= w,
            dims_ok(wi, h as int, p@.len() as int),
            wi == w,
            r == rx,
            rx <= MAX_BLUR_RADIUS,
            y < h,
            c < 4,
            base == pixel_offset(wi, 0, y as int) + c,
            f == row_fn(p@, wi, y as int, c as int),
            forall|i: int| 0 <= i < wi ==> 0 <= #[trigger] f(i) <= 255,
            sum == range_sum(f, win_lo(x - 1, r), win_hi(x - 1, r, wi)),
            count == win_hi(x - 1, r, wi) - win_lo(x - 1, r),
            out@.len() == p@.len(),
            orig.len() == p@.len(),
            forall|xx: int|
                0 <= xx < x ==> #[trigger] out@[pixel_offset(wi, xx, y as int) + c] == hmean(
                    p@,
                    wi,
                    xx,
                    y as int,
                    c as int,
                    r,
                ),
            forall|xx: int, yy: int, cc: int|
                0 <= xx < w && 0 <= yy < h && 0 <= cc < 4 && (yy != y || cc != c) ==> #[trigger] out@[pixel_offset(
                    wi,
                    xx,
                    yy,
                ) + cc] == orig[pixel_offset(wi, xx, yy) + cc],
        decreases w - x,
    {
        let ghost lo0 = win_lo(x - 1, r);
        let ghost hi0g = win_hi(x - 1, r, wi);
        let ghost hi1 = win_hi(x as int, r, wi);
        if x + rx < w {
            proof {
                lemma_offset_bounds(wi, h as int, (x + rx) as int, y as int);
                assert(pixel_offset(wi, (x + rx) as int, y as int) + c == base + (x + rx) * 4);
                lemma_range_sum_bounds(f, lo0, hi0g + 1);
            }
            sum = sum + p[base + ((x + rx) as usize) * 4] as u32;
            count = count + 1;
        }
        assert(sum == range_sum(f, lo0, hi1));
        assert(count == hi1 - lo0);
        if x > rx {
            let rm = x - rx - 1;
            proof {
                lemma_offset_bounds(wi, h as int, rm as int, y as int);
                assert(pixel_offset(wi, rm as int, y as int) + c == base + rm * 4);
                lemma_range_sum_drop_first(f, rm as int, hi1);
                lemma_range_sum_bounds(f, rm + 1, hi1);
            }
            sum = sum - p[base + (rm as usize) * 4] as u32;
            count = count - 1;
        }
        proof {
            assert(sum == range_sum(f, win_lo(x as int, r), win_hi(x as int, r, wi)));
            lemma_range_sum_bounds(f, win_lo(x as int, r), win_hi(x as int, r, wi));
            lemma_mean_bound(sum as int, count as int);
            lemma_offset_bounds(wi, h as int, x as int, y as int);
            assert(pixel_offset(wi, x as int, y as int) + c == base + x * 4);
        }
        let ghost before = out@;
        out.set(base + (x as usize) * 4, (sum / count) as u8);
        proof {
            assert forall|xx: int| 0 <= xx < x implies #[trigger] out@[pixel_offset(wi, xx, y as int) + c]
                == hmean(p@, wi, xx, y as int, c as int, r) by {
                lemma_offset_bounds(wi, h as int, xx, y as int);
                lemma_byte_distinct(wi, h as int, xx, y as int, c as int, x as int, y as int, c as int);
            }
            assert forall|xx: int, yy: int, cc: int|
                0 <= xx < w && 0 <= yy < h && 0 <= cc < 4 && (yy != y || cc != c) implies #[trigger] out@[pixel_offset(
                    wi,
                    xx,
                    yy,
                ) + cc] == orig[pixel_offset(wi, xx, yy) + cc] by {
                lemma_offset_bounds(wi, h as int, xx, yy);
                lemma_byte_distinct(wi, h as int, xx, yy, cc as int, x as int, y as int, c as int);
            }
        }
        x += 1;
    }
}

/// Vertical pass of channel `c` over column `x` of `src`, into `dst`.
fn blur_col_channel(src: &Vec<u8>, dst: &mut Vec<u8>, w: u32, h: u32, x: u32, c: u32, ry: u32)
    requires
        dims_ok(w as int, h as int, src@.len() as int),
        old(dst)@.len() == src@.len(),
        x < w,
        c < 4,
        ry <= MAX_BLUR_RADIUS,
    ensures
        final(dst)@.len() == src@.len(),
        forall|y: int|
            0 <= y < h ==> #[trigger] final(dst)@[pixel_offset(w as int, x as int, y) + c] == vmean(
                src@,
                w as int,
                h as int,
                x as int,
                y,
                c as int,
                ry as int,
            ),
        forall|xx: int, yy: int, cc: int|
            0 <= xx < w && 0 <= yy < h && 0 <= cc < 4 && (xx != x || cc != c)
                ==> #[trigger] final(dst)@[pixel_offset(w as int, xx, yy) + cc]
                == old(dst)@[pixel_offset(w as int, xx, yy) + cc],
{
    let ghost f = col_fn(src@, w as int, x as int, c as int);
    let ghost wi = w as int;
    let ghost hi_ = h as int;
    let ghost r = ry as int;
    proof {
        assert forall|i: int| 0 <= i < hi_ implies 0 <= #[trigger] f(i) <= 255 by {}
        lemma_offset_bounds(wi, hi_, x as int, 0);
    }
    let base: usize = (x as usize) * 4 + (c as usize);
    let stride: usize = (w as usize) * 4;
    assert(base == pixel_offset(wi, x as int, 0) + c);
    let hi0: u32 = if ry + 1 < h {
        ry + 1
    } else {
        h
    };
    let mut sum: u32 = 0;
    let mut sy: u32 = 0;
    while sy < hi0
        invariant
            sy <= hi0,
            hi0 == win_hi(0, r, hi_),
            hi0 <= h,
            dims_ok(wi, hi_, src@.len() as int),
            wi == w,
            hi_ == h,
            x < w,
            c < 4,
            base == pixel_offset(wi, x as int, 0) + c,
            stride == wi * 4,
            f == col_fn(src@, wi, x as int, c as int),
            sum == range_sum(f, 0, sy as int),
            sum <= 255 * sy,
        decreases hi0 - sy,
    {
        proof {
            lemma_offset_bounds(wi, hi_, x as int, sy as int);
            assert(pixel_offset(wi, x as int, sy as int) + c == base + sy * stride) by (nonlinear_arith)
                requires
                    base == pixel_offset(wi, x as int, 0) + c,
                    stride == wi * 4,
            ;
            assert(0 <= sy * stride <= pixel_offset(wi, x as int, sy as int)) by (nonlinear_arith)
                requires
                    stride == wi * 4,
                    0 <= x,
                    0 <= sy,
            ;
        }
        sum = sum + src[base + (sy as usize) * stride] as u32;
        sy += 1;
    }
    let mut count: u32 = hi0;
    proof {
        lemma_range_sum_bounds(f, 0, hi0 as int);
        lemma_mean_bound(sum as int, count as int);
    }
    let ghost orig = dst@;
    dst.set(base, (sum / count) as u8);
    proof {
        assert(dst@[pixel_offset(wi, x as int, 0) + c] == vmean(src@, wi, hi_, x as int, 0, c as int, r));
        assert forall|xx: int, yy: int, cc: int|
            0 <= xx < w && 0 <= yy < h && 0 <= cc < 4 && (xx != x || cc != c) implies #[trigger] dst@[pixel_offset(
                wi,
                xx,
                yy,
            ) + cc] == orig[pixel_offset(wi, xx, yy) + cc] by {
            lemma_offset_bounds(wi, hi_, xx, yy);
            lemma_byte_distinct(wi, hi_, xx, yy, cc as int, x as int, 0, c as int);
        }
    }
    let mut y: u32 = 1;
    while y < h
        invariant
            1 <= y <= h,
            dims_ok(wi, hi_, src@.len() as int),
            wi == w,
            hi_ == h,
            r == ry,
            ry <= MAX_BLUR_RADIUS,
            x < w,
            c < 4,
            base == pixel_offset(wi, x as int, 0) + c,
            stride == wi * 4,
            f == col_fn(src@, wi, x as int, c as int),
            forall|i: int| 0 <= i < hi_ ==> 0 <= #[trigger] f(i) <= 255,
            sum == range_sum(f, win_lo(y - 1, r), win_hi(y - 1, r, hi_)),
            count == win_hi(y - 1, r, hi_) - win_lo(y - 1, r),
            dst@.len() == src@.len(),
            orig.len() == src@.len(),
            forall|yy: int|
                0 <= yy < y ==> #[trigger] dst@[pixel_offset(wi, x as int, yy) + c] == vmean(
                    src@,
                    wi,
                    hi_,
                    x as int,
                    yy,
                    c as int,
                    r,
                ),
            forall|xx: int, yy: int, cc: int|
                0 <= xx < w && 0 <= yy < h && 0 <= cc < 4 && (xx != x || cc != c) ==> #[trigger] dst@[pixel_offset(
                    wi,
                    xx,
                    yy,
                ) + cc] == orig[pixel_offset(wi, xx, yy) + cc],
        decreases h - y,
    {
        let ghost lo0 = win_lo(y - 1, r);
        let ghost hi0g = win_hi(y - 1, r, hi_);
        let ghost hi1 = win_hi(y as int, r, hi_);
        if y + ry < h {
            let ay = y + ry;
            proof {
                lemma_offset_bounds(wi, hi_, x as int, ay as int);
                assert(pixel_offset(wi, x as int, ay as int) + c == base + ay * stride) by (nonlinear_arith)
                    requires
                        base == pixel_offset(wi, x as int, 0) + c,
                        stride == wi * 4,
                ;
                assert(0 <= ay * stride <= pixel_offset(wi, x as int, ay as int)) by (nonlinear_arith)
                    requires
                        stride == wi * 4,
                        0 <= x,
                        0 <= ay,
                ;
                lemma_range_sum_bounds(f, lo0, hi0g + 1);
            }
            sum = sum + src[base + (ay as usize) * stride] as u32;
            count = count + 1;
        }
        assert(sum == range_sum(f, lo0, hi1));
        assert(count == hi1 - lo0);
        if y > ry {
            let rm = y - ry - 1;
            proof {
                lemma_offset_bounds(wi, hi_, x as int, rm as int);
                assert(pixel_offset(wi, x as int, rm as int) + c == base + rm * stride) by (nonlinear_arith)
                    requires
                        base == pixel_offset(wi, x as int, 0) + c,
                        stride == wi * 4,
                ;
                assert(0 <= rm * stride <= pixel_offset(wi, x as int, rm as int)) by (nonlinear_arith)
                    requires
                        stride == wi * 4,
                        0 <= x,
                        0 <= rm,
                ;
                lemma_range_sum_drop_first(f, rm as int, hi1);
                lemma_range_sum_bounds(f, rm + 1, hi1);
            }
            sum = sum - src[base + (rm as usize) * stride] as u32;
            count = count - 1;
        }
        proof {
            assert(sum == range_sum(f, win_lo(y as int, r), hi1));
            lemma_range_sum_bounds(f, win_lo(y as int, r), hi1);
            lemma_mean_bound(sum as int, count as int);
            lemma_offset_bounds(wi, hi_, x as int, y as int);
            assert(pixel_offset(wi, x as int, y as int) + c == base + y * stride) by (nonlinear_arith)
                requires
                    base == pixel_offset(wi, x as int, 0) + c,
                    stride == wi * 4,
            ;
            assert(0 <= y * stride <= pixel_offset(wi, x as int, y as int)) by (nonlinear_arith)
                requires
                    stride == wi * 4,
                    0 <= x,
                    0 <= y,
            ;
        }
        let ghost before = dst@;
        dst.set(base + (y as usize) * stride, (sum / count) as u8);
        proof {
            assert forall|yy: int| 0 <= yy < y implies #[trigger] dst@[pixel_offset(wi, x as int, yy) + c]
                == vmean(src@, wi, hi_, x as int, yy, c as int, r) by {
                lemma_offset_bounds(wi, hi_, x as int, yy);
                lemma_byte_distinct(wi, hi_, x as int, yy, c as int, x as int, y as int, c as int);
            }
            assert forall|xx: int, yy: int, cc: int|
                0 <= xx < w && 0 <= yy < h && 0 <= cc < 4 && (xx != x || cc != c) implies #[trigger] dst@[pixel_offset(
                    wi,
                    xx,
                    yy,
                ) + cc] == orig[pixel_offset(wi, xx, yy) + cc] by {
                lemma_offset_bounds(wi, hi_, xx, yy);
                lemma_byte_distinct(wi, hi_, xx, yy, cc as int, x as int, y as int, c as int);
            }
        }
        y += 1;
    }
}

/// A blur radius clamped to `MAX_BLUR_RADIUS`.
pub open spec fn clamp_radius(r: u32) -> int {
    if r > MAX_BLUR_RADIUS {
        MAX_BLUR_RADIUS as int
    } else {
        r as int
    }
}

proof fn lemma_range_sum_const(f: spec_fn(int) -> int, lo: int, hi: int, k: int)
    requires
        lo <= hi,
        forall|i: int| lo <= i < hi ==> #[trigger] f(i) == k,
    ensures
        range_sum(f, lo, hi) == k * (hi - lo),
    decreases hi - lo,
{
    if lo < hi {
        lemma_range_sum_const(f, lo, hi - 1, k);
        assert(f(hi - 1) == k);
        assert(k * (hi - 1 - lo) + k == k * (hi - lo)) by (nonlinear_arith);
    } else {
        assert(k * (hi - lo) == 0) by (nonlinear_arith)
            requires
                hi == lo,
        ;
    }
}

proof fn lemma_mean_of_const(k: int, n: int)
    requires
        n > 0,
    ensures
        (k * n) / n == k,
{
    assert((k * n) / n == k) by (nonlinear_arith)
        requires
            n > 0,
    ;
}

proof fn lemma_window(i: int, r: int, n: int)
    requires
        0 <= i < n,
        r >= 0,
    ensures
        0 <= win_lo(i, r) <= i < win_hi(i, r, n) <= n,
{
}

/// Every pixel of a `w` x `h` buffer holds the value of the first.
pub open spec fn uniform(p: Seq<u8>, w: int, h: int) -> bool {
    forall|x: int, y: int, c: int|
        0 <= x < w && 0 <= y < h && 0 <= c < 4 ==> #[trigger] p[pixel_offset(w, x, y) + c] == p[c]
}

/// A buffer whose pixels all hold the same value `q` blurs to itself:
/// every window mean of a constant is that constant, for any radii.
pub proof fn lemma_blur_of_constant(p: Seq<u8>, w: int, h: int, rx: int, ry: int, q: Seq<u8>)
    requires
        0 < w,
        0 < h,
        rx >= 0,
        ry >= 0,
        q.len() == 4,
        forall|x: int, y: int, c: int|
            0 <= x < w && 0 <= y < h && 0 <= c < 4 ==> #[trigger] p[pixel_offset(w, x, y) + c] == q[c],
    ensures
        forall|x: int, y: int, c: int|
            0 <= x < w && 0 <= y < h && 0 <= c < 4 ==> #[trigger] blurred(p, w, h, x, y, c, rx, ry) == q[c],
{
    assert forall|x: int, y: int, c: int| 0 <= x < w && 0 <= y < h && 0 <= c < 4 implies #[trigger] blurred(
        p,
        w,
        h,
        x,
        y,
        c,
        rx,
        ry,
    ) == q[c] by {
        let k = q[c] as int;
        assert forall|yy: int| win_lo(y, ry) <= yy < win_hi(y, ry, h) implies #[trigger] hcol_fn(
            p,
            w,
            x,
            c,
            rx,
        )(yy) == k by {
            lemma_window(y, ry, h);
            lemma_window(x, rx, w);
            let f = row_fn(p, w, yy, c);
            assert forall|xx: int| win_lo(x, rx) <= xx < win_hi(x, rx, w) implies #[trigger] f(xx) == k by {
                assert(p[pixel_offset(w, xx, yy) + c] == q[c]);
            }
            lemma_range_sum_const(f, win_lo(x, rx), win_hi(x, rx, w), k);
            lemma_mean_of_const(k, win_hi(x, rx, w) - win_lo(x, rx));
        }
        lemma_window(y, ry, h);
        lemma_range_sum_const(hcol_fn(p, w, x, c, rx), win_lo(y, ry), win_hi(y, ry, h), k);
        lemma_mean_of_const(k, win_hi(y, ry, h) - win_lo(y, ry));
    }
}

/// Radii past `MAX_BLUR_RADIUS` blur as `MAX_BLUR_RADIUS` does: the
/// blur of any radius is the blur of the clamped radius.
pub proof fn lemma_clamp_radius_idempotent(r: u32)
    ensures
        clamp_radius(r) == clamp_radius(if r > MAX_BLUR_RADIUS {
            MAX_BLUR_RADIUS
        } else {
            r
        }),
        0 <= clamp_radius(r) <= MAX_BLUR_RADIUS,
{
}

impl RenderBuffer {
    /// Box blur with the same radius on both axes (one pass; callers
    /// repeat it to approach a Gaussian).
    pub fn box_blur(&mut self, radius: u32)
        requires
            old(self).wf(),
        ensures
            final(self).wf(),
            final(self).width == old(self).width,
            final(self).height == old(self).height,
            clamp_radius(radius) == 0 ==> final(self).pixels@ == old(self).pixels@,
            clamp_radius(radius) > 0 ==> forall|x: int, y: int, c: int|
                0 <= x < old(self).width && 0 <= y < old(self).height && 0 <= c < 4
                    ==> #[trigger] final(self).pixels@[pixel_offset(old(self).width as int, x, y) + c]
                    == blurred(
                    old(self).pixels@,
                    old(self).width as int,
                    old(self).height as int,
                    x,
                    y,
                    c,
                    clamp_radius(radius),
                    clamp_radius(radius),
                ),
            uniform(old(self).pixels@, old(self).width as int, old(self).height as int) ==> forall|
                x: int,
                y: int,
                c: int,
            |
                0 <= x < old(self).width && 0 <= y < old(self).height && 0 <= c < 4
                    ==> #[trigger] final(self).pixels@[pixel_offset(old(self).width as int, x, y) + c]
                    == old(self).pixels@[pixel_offset(old(self).width as int, x, y) + c],
    {
        self.box_blur_xy(radius, radius);
    }

    /// Box blur with radius `radius_x` along rows, then `radius_y` along
    /// columns, each clamped to `MAX_BLUR_RADIUS`; every window is clipped
    /// to the buffer and every mean floored.
    pub fn box_blur_xy(&mut self, radius_x: u32, radius_y: u32)
        requires
            old(self).wf(),
        ensures
            final(self).wf(),
            final(self).width == old(self).width,
            final(self).height == old(self).height,
            clamp_radius(radius_x) == 0 && clamp_radius(radius_y) == 0 ==> final(self).pixels@ == old(
                self,
            ).pixels@,
            clamp_radius(radius_x) > 0 || clamp_radius(radius_y) > 0 ==> forall|x: int, y: int, c: int|
                0 <= x < old(self).width && 0 <= y < old(self).height && 0 <= c < 4
                    ==> #[trigger] final(self).pixels@[pixel_offset(old(self).width as int, x, y) + c]
                    == blurred(
                    old(self).pixels@,
                    old(self).width as int,
                    old(self).height as int,
                    x,
                    y,
                    c,
                    clamp_radius(radius_x),
                    clamp_radius(radius_y),
                ),
            uniform(old(self).pixels@, old(self).width as int, old(self).height as int) ==> forall|
                x: int,
                y: int,
                c: int,
            |
                0 <= x < old(self).width && 0 <= y < old(self).height && 0 <= c < 4
                    ==> #[trigger] final(self).pixels@[pixel_offset(old(self).width as int, x, y) + c]
                    == old(self).pixels@[pixel_offset(old(self).width as int, x, y) + c],
    {
        let rx = if radius_x > MAX_BLUR_RADIUS {
            MAX_BLUR_RADIUS
        } else {
            radius_x
        };
        let ry = if radius_y > MAX_BLUR_RADIUS {
            MAX_BLUR_RADIUS
        } else {
            radius_y
        };
        if rx == 0 && ry == 0 {
            return;
        }
        let w = self.width;
        let h = self.height;
        let ghost p = self.pixels@;
        let ghost wi = w as int;
        let ghost hi_ = h as int;
        let mut out = zeros(self.pixels.len());
        let mut y: u32 = 0;
        while y < h
            invariant
                self.wf(),
                self.pixels@ == p,
                w == self.width,
                h == self.height,
                wi == w,
                hi_ == h,
                rx <= MAX_BLUR_RADIUS,
                y <= h,
                out@.len() == p.len(),
                forall|xx: int, yy: int, cc: int|
                    0 <= xx < w && 0 <= yy < y && 0 <= cc < 4 ==> #[trigger] out@[pixel_offset(wi, xx, yy) + cc]
                        == hmean(p, wi, xx, yy, cc, rx as int),
            decreases h - y,
        {
            let mut c: u32 = 0;
            while c < 4
                invariant
                    self.wf(),
                    self.pixels@ == p,
                    w == self.width,
                    h == self.height,
                    wi == w,
                    hi_ == h,
                    rx <= MAX_BLUR_RADIUS,
                    y < h,
                    c <= 4,
                    out@.len() == p.len(),
                    forall|xx: int, yy: int, cc: int|
                        0 <= xx < w && 0 <= yy < h && 0 <= cc < 4 && (yy < y || (yy == y && cc < c))
                            ==> #[trigger] out@[pixel_offset(wi, xx, yy) + cc] == hmean(
                            p,
                            wi,
                            xx,
                            yy,
                            cc,
                            rx as int,
                        ),
                decreases 4 - c,
            {
                blur_row_channel(&self.pixels, &mut out, w, h, y, c, rx);
                c += 1;
            }
            y += 1;
        }
        let mut dst = zeros(self.pixels.len());
        let mut x: u32 = 0;
        while x < w
            invariant
                self.wf(),
                self.pixels@ == p,
                w == self.width,
                h == self.height,
                wi == w,
                hi_ == h,
                ry <= MAX_BLUR_RADIUS,
                x <= w,
                out@.len() == p.len(),
                dst@.len() == p.len(),
                forall|xx: int, yy: int, cc: int|
                    0 <= xx < w && 0 <= yy < h && 0 <= cc < 4 ==> #[trigger] out@[pixel_offset(wi, xx, yy) + cc]
                        == hmean(p, wi, xx, yy, cc, rx as int),
                forall|xx: int, yy: int, cc: int|
                    0 <= xx < x && 0 <= yy < h && 0 <= cc < 4 ==> #[trigger] dst@[pixel_offset(wi, xx, yy) + cc]
                        == vmean(out@, wi, hi_, xx, yy, cc, ry as int),
            decreases w - x,
        {
            let mut c: u32 = 0;
            while c < 4
                invariant
                    self.wf(),
                    self.pixels@ == p,
                    w == self.width,
                    h == self.height,
                    wi == w,
                    hi_ == h,
                    ry <= MAX_BLUR_RADIUS,
                    x < w,
                    c <= 4,
                    out@.len() == p.len(),
                    dst@.len() == p.len(),
                    forall|xx: int, yy: int, cc: int|
                        0 <= xx < w && 0 <= yy < h && 0 <= cc < 4 && (xx < x || (xx == x && cc < c))
                            ==> #[trigger] dst@[pixel_offset(wi, xx, yy) + cc] == vmean(
                            out@,
                            wi,
                            hi_,
                            xx,
                            yy,
                            cc,
                            ry as int,
                        ),
                decreases 4 - c,
            {
                blur_col_channel(&out, &mut dst, w, h, x, c, ry);
                c += 1;
            }
            x += 1;
        }
        proof {
            assert forall|x: int, y: int, c: int|
                0 <= x < w && 0 <= y < h && 0 <= c < 4 implies #[trigger] dst@[pixel_offset(wi, x, y) + c]
                == blurred(p, wi, hi_, x, y, c, rx as int, ry as int) by {
                let lo = win_lo(y, ry as int);
                let hi = win_hi(y, ry as int, hi_);
                assert forall|i: int| lo <= i < hi implies #[trigger] col_fn(out@, wi, x, c)(i) == hcol_fn(
                    p,
                    wi,
                    x,
                    c,
                    rx as int,
                )(i) by {}
                lemma_range_sum_ext(col_fn(out@, wi, x, c), hcol_fn(p, wi, x, c, rx as int), lo, hi);
            }
            if uniform(p, wi, hi_) {
                lemma_offset_bounds(wi, hi_, 0, 0);
                let q = p.subrange(0, 4);
                assert forall|x: int, y: int, c: int|
                    0 <= x < wi && 0 <= y < hi_ && 0 <= c < 4 implies #[trigger] p[pixel_offset(wi, x, y) + c] == q[c] by {
                    assert(p[pixel_offset(wi, x, y) + c] == p[c]);
                }
                lemma_blur_of_constant(p, wi, hi_, rx as int, ry as int, q);
            }
        }
        self.pixels = dst;
    }
}

} // verus!
