//! Clipping (rectangular and mask), opaque boxes and fade ramps.
use crate::renderer::buffer::{
    filled, lemma_offset_bounds, lemma_offset_distinct, pixel_at, pixel_offset, spec_rect,
    RenderBuffer,
};
use vstd::prelude::*;

verus! {

// ---------------------------------------------------------------------
// Alpha masks
// ---------------------------------------------------------------------
/// The mask factor of a mask alpha: the alpha itself, or its complement
/// for an inverse clip.
pub open spec fn mask_factor(m: u8, inverse: bool) -> int {
    if inverse {
        255 - m
    } else {
        m as int
    }
}

/// Multiply the buffer's alpha channel by a same-size mask's alpha
/// (`\clip` with a drawing), or by its complement with `inverse`
/// (`\iclip`). A mask of another size changes nothing.
pub fn apply_alpha_mask(buffer: &mut RenderBuffer, mask: &RenderBuffer, inverse: bool)
    requires
        old(buffer).wf(),
        mask.wf(),
    ensures
        final(buffer).wf(),
        final(buffer).width == old(buffer).width,
        final(buffer).height == old(buffer).height,
        old(buffer).width != mask.width || old(buffer).height != mask.height ==> final(buffer).pixels@
            == old(buffer).pixels@,
        old(buffer).width == mask.width && old(buffer).height == mask.height ==> forall|i: int|
            0 <= i < old(buffer).pixels@.len() ==> #[trigger] final(buffer).pixels@[i] == if i % 4
                == 3 {
                (old(buffer).pixels@[i] * mask_factor(mask.pixels@[i], inverse) / 255) as u8
            } else {
                old(buffer).pixels@[i]
            },
{
    if buffer.width != mask.width || buffer.height != mask.height {
        return;
    }
    let ghost orig = buffer.pixels@;
    let n = buffer.pixels.len();
    let mut i: usize = 3;
    while i < n
        invariant
            buffer.wf(),
            buffer.width == old(buffer).width,
            buffer.height == old(buffer).height,
            buffer.width == mask.width,
            buffer.height == mask.height,
            orig == old(buffer).pixels@,
            n == orig.len(),
            mask.pixels@.len() == n,
            buffer.pixels@.len() == n,
            i % 4 == 3,
            3 <= i,
            forall|k: int| 0 <= k < n ==> #[trigger] buffer.pixels@[k] == if k % 4 == 3 && k < i {
                (orig[k] * mask_factor(mask.pixels@[k], inverse) / 255) as u8
            } else {
                orig[k]
            },
        decreases n + 4 - i,
    {
        let m = mask.pixels[i];
        let factor: u32 = if inverse {
            255 - m as u32
        } else {
            m as u32
        };
        let a = buffer.pixels[i] as u32;
        proof {
            assert(a * factor <= 255 * 255) by (nonlinear_arith)
                requires
                    a <= 255,
                    factor <= 255,
            ;
            assert(a * factor / 255 <= 255) by (nonlinear_arith)
                requires
                    a * factor <= 255 * 255,
            ;
        }
        buffer.pixels.set(i, (a * factor / 255) as u8);
        i += 4;
    }
}

// ---------------------------------------------------------------------
// Opaque boxes
// ---------------------------------------------------------------------
/// `v` saturated to the `i32` range.
pub open spec fn sat_i32(v: int) -> int {
    if v < i32::MIN {
        i32::MIN as int
    } else if v > i32::MAX {
        i32::MAX as int
    } else {
        v
    }
}

/// `v` clamped to the `i32` range.
fn saturate(v: i64) -> (r: i32)
    ensures
        r == sat_i32(v as int),
{
    if v < i32::MIN as i64 {
        i32::MIN
    } else if v > i32::MAX as i64 {
        i32::MAX
    } else {
        v as i32
    }
}

/// The box of border style 3: the text block grown by the (non-negative)
/// padding on every side, with saturating arithmetic, as `(x, y, w, h)`.
pub open spec fn opaque_box(x: i32, y: i32, width: i32, height: i32, pad_x: i32, pad_y: i32) -> (
    int,
    int,
    int,
    int,
) {
    let px = if pad_x > 0 { pad_x as int } else { 0 };
    let py = if pad_y > 0 { pad_y as int } else { 0 };
    (sat_i32(x - px), sat_i32(y - py), sat_i32(width + sat_i32(px * 2)), sat_i32(height + sat_i32(py * 2)))
}

/// Border style 3: fill the text block grown by the padding on every
/// side with `fill_color` (straight `[r, g, b, opacity]`, source-over).
pub fn apply_opaque_box(
    buffer: &mut RenderBuffer,
    x: i32,
    y: i32,
    width: i32,
    height: i32,
    pad_x: i32,
    pad_y: i32,
    fill_color: [u8; 4],
)
    requires
        old(buffer).wf(),
    ensures
        final(buffer).wf(),
        final(buffer).width == old(buffer).width,
        final(buffer).height == old(buffer).height,
        ({
            let (bx, by, bw, bh) = opaque_box(x, y, width, height, pad_x, pad_y);
            forall|qx: int, qy: int|
                0 <= qx < old(buffer).width && 0 <= qy < old(buffer).height ==> #[trigger] pixel_at(
                    final(buffer).pixels@,
                    pixel_offset(old(buffer).width as int, qx, qy),
                ) == filled(
                    old(buffer).pixels@,
                    old(buffer).width as int,
                    spec_rect(old(buffer).width as int, old(buffer).height as int, bx, by, bw, bh),
                    qx,
                    qy,
                    fill_color[0],
                    fill_color[1],
                    fill_color[2],
                    fill_color[3],
                )
        }),
{
    let pad_x = if pad_x > 0 {
        pad_x
    } else {
        0
    };
    let pad_y = if pad_y > 0 {
        pad_y
    } else {
        0
    };
    let box_x = saturate(x as i64 - pad_x as i64);
    let box_y = saturate(y as i64 - pad_y as i64);
    let box_w = saturate(width as i64 + saturate(pad_x as i64 * 2) as i64);
    let box_h = saturate(height as i64 + saturate(pad_y as i64 * 2) as i64);
    buffer.fill_rect(
        box_x,
        box_y,
        box_w,
        box_h,
        fill_color[0],
        fill_color[1],
        fill_color[2],
        fill_color[3],
    );
}

// ---------------------------------------------------------------------
// Rectangular clips
// ---------------------------------------------------------------------
/// The clip rectangle `(x1, y1, x2, y2)` (corners in either order,
/// inclusive) limited to a `w` x `h` buffer, as inclusive
/// `(x0, y0, x1, y1)`; `None` when nothing of it is inside.
pub open spec fn spec_normalize_clip(w: int, h: int, clip: (i32, i32, i32, i32)) -> Option<
    (int, int, int, int),
> {
    let (x1, y1, x2, y2) = clip;
    let rx0 = if x1 < x2 { x1 as int } else { x2 as int };
    let rx1 = if x1 < x2 { x2 as int } else { x1 as int };
    let ry0 = if y1 < y2 { y1 as int } else { y2 as int };
    let ry1 = if y1 < y2 { y2 as int } else { y1 as int };
    let cx0 = if rx0 > 0 { rx0 } else { 0 };
    let cy0 = if ry0 > 0 { ry0 } else { 0 };
    let cx1 = if rx1 < w - 1 { rx1 } else { w - 1 };
    let cy1 = if ry1 < h - 1 { ry1 } else { h - 1 };
    if w == 0 || h == 0 || cx0 > cx1 || cy0 > cy1 {
        None
    } else {
        Some((cx0, cy0, cx1, cy1))
    }
}

pub open spec fn in_clip(c: Option<(int, int, int, int)>, x: int, y: int) -> bool {
    match c {
        Some((x0, y0, x1, y1)) => x0 <= x <= x1 && y0 <= y <= y1,
        None => false,
    }
}

/// The part of a clip rectangle inside the buffer (inclusive corners).
pub fn normalize_clip(buffer: &RenderBuffer, clip_rect: (i32, i32, i32, i32)) -> (r: Option<
    (i64, i64, i64, i64),
>)
    ensures
        match r {
            Some((a, b, c, d)) => spec_normalize_clip(
                buffer.width as int,
                buffer.height as int,
                clip_rect,
            ) == Some((a as int, b as int, c as int, d as int)),
            None => spec_normalize_clip(buffer.width as int, buffer.height as int, clip_rect) is None,
        },
{
    if buffer.width == 0 || buffer.height == 0 {
        return None;
    }
    let (x1, y1, x2, y2) = clip_rect;
    let rx0: i64 = if x1 < x2 { x1 as i64 } else { x2 as i64 };
    let rx1: i64 = if x1 < x2 { x2 as i64 } else { x1 as i64 };
    let ry0: i64 = if y1 < y2 { y1 as i64 } else { y2 as i64 };
    let ry1: i64 = if y1 < y2 { y2 as i64 } else { y1 as i64 };
    let cx0: i64 = if rx0 > 0 { rx0 } else { 0 };
    let cy0: i64 = if ry0 > 0 { ry0 } else { 0 };
    let wl: i64 = buffer.width as i64 - 1;
    let hl: i64 = buffer.height as i64 - 1;
    let cx1: i64 = if rx1 < wl { rx1 } else { wl };
    let cy1: i64 = if ry1 < hl { ry1 } else { hl };
    if cx0 > cx1 || cy0 > cy1 {
        return None;
    }
    Some((cx0, cy0, cx1, cy1))
}

/// Zero every byte of the pixels `(x, y)` with `x0 <= x <= x1` and
/// `y0 <= y <= y1` (inclusive); an empty range changes nothing.
fn clear_rect(buffer: &mut RenderBuffer, x0: i64, y0: i64, x1: i64, y1: i64)
    requires
        old(buffer).wf(),
        x0 > x1 || y0 > y1 || (0 <= x0 && x1 < old(buffer).width && 0 <= y0 && y1 < old(
            buffer,
        ).height),
    ensures
        final(buffer).wf(),
        final(buffer).width == old(buffer).width,
        final(buffer).height == old(buffer).height,
        forall|x: int, y: int, c: int|
            0 <= x < old(buffer).width && 0 <= y < old(buffer).height && 0 <= c < 4
                ==> #[trigger] final(buffer).pixels@[pixel_offset(old(buffer).width as int, x, y) + c]
                == if x0 <= x <= x1 && y0 <= y <= y1 {
                0u8
            } else {
                old(buffer).pixels@[pixel_offset(old(buffer).width as int, x, y) + c]
            },
{
    if x0 > x1 || y0 > y1 {
        return;
    }
    let ghost orig = buffer.pixels@;
    let ghost w = buffer.width as int;
    let ghost h = buffer.height as int;
    let mut y = y0;
    while y <= y1
        invariant
            buffer.wf(),
            buffer.width == old(buffer).width,
            buffer.height == old(buffer).height,
            orig == old(buffer).pixels@,
            w == buffer.width,
            h == buffer.height,
            0 <= x0 <= x1 < w,
            0 <= y0 <= y,
            y <= y1 + 1,
            y1 < h,
            forall|x: int, yy: int, c: int|
                0 <= x < w && 0 <= yy < h && 0 <= c < 4 ==> #[trigger] buffer.pixels@[pixel_offset(
                    w,
                    x,
                    yy,
                ) + c] == if x0 <= x <= x1 && y0 <= yy < y {
                    0u8
                } else {
                    orig[pixel_offset(w, x, yy) + c]
                },
        decreases y1 + 1 - y,
    {
        let mut x = x0;
        while x <= x1
            invariant
                buffer.wf(),
                buffer.width == old(buffer).width,
                buffer.height == old(buffer).height,
                orig == old(buffer).pixels@,
                w == buffer.width,
                h == buffer.height,
                0 <= x0 <= x,
                x <= x1 + 1,
                x1 < w,
                0 <= y0 <= y <= y1,
                y1 < h,
                forall|xx: int, yy: int, c: int|
                    0 <= xx < w && 0 <= yy < h && 0 <= c < 4 ==> #[trigger] buffer.pixels@[pixel_offset(
                        w,
                        xx,
                        yy,
                    ) + c] == if x0 <= xx <= x1 && (y0 <= yy < y || (yy == y && xx < x)) {
                        0u8
                    } else {
                        orig[pixel_offset(w, xx, yy) + c]
                    },
            decreases x1 + 1 - x,
        {
            let ghost before = buffer.pixels@;
            buffer.set_pixel(x as u32, y as u32, 0, 0, 0, 0);
            proof {
                let off = pixel_offset(w, x as int, y as int);
                lemma_offset_bounds(w, h, x as int, y as int);
                assert forall|xx: int, yy: int, c: int|
                    0 <= xx < w && 0 <= yy < h && 0 <= c < 4 implies #[trigger] buffer.pixels@[pixel_offset(
                        w,
                        xx,
                        yy,
                    ) + c] == if x0 <= xx <= x1 && (y0 <= yy < y || (yy == y && xx < x + 1)) {
                        0u8
                    } else {
                        orig[pixel_offset(w, xx, yy) + c]
                    } by {
                    lemma_offset_bounds(w, h, xx, yy);
                    if xx != x || yy != y {
                        lemma_offset_distinct(w, x as int, y as int, xx, yy);
                    }
                }
            }
            x += 1;
        }
        y += 1;
    }
}

/// `\clip(x1, y1, x2, y2)`: clear everything outside the rectangle
/// (inclusive corners, either order); a rectangle entirely outside the
/// buffer clears it all.
pub fn apply_clip(buffer: &mut RenderBuffer, clip_rect: (i32, i32, i32, i32))
    requires
        old(buffer).wf(),
    ensures
        final(buffer).wf(),
        final(buffer).width == old(buffer).width,
        final(buffer).height == old(buffer).height,
        forall|x: int, y: int, c: int|
            0 <= x < old(buffer).width && 0 <= y < old(buffer).height && 0 <= c < 4
                ==> #[trigger] final(buffer).pixels@[pixel_offset(old(buffer).width as int, x, y) + c]
                == if in_clip(
                spec_normalize_clip(old(buffer).width as int, old(buffer).height as int, clip_rect),
                x,
                y,
            ) {
                old(buffer).pixels@[pixel_offset(old(buffer).width as int, x, y) + c]
            } else {
                0u8
            },
{
    let w = buffer.width as i64;
    let h = buffer.height as i64;
    let ghost orig = buffer.pixels@;
    let ghost wi = w as int;
    let ghost hi = h as int;
    let (cx0, cy0, cx1, cy1) = match normalize_clip(buffer, clip_rect) {
        Some(q) => q,
        None => {
            clear_rect(buffer, 0, 0, w - 1, h - 1);
            return;
        },
    };
    clear_rect(buffer, 0, 0, w - 1, cy0 - 1);
    let ghost s1 = buffer.pixels@;
    clear_rect(buffer, 0, cy1 + 1, w - 1, h - 1);
    let ghost s2 = buffer.pixels@;
    clear_rect(buffer, 0, cy0, cx0 - 1, cy1);
    let ghost s3 = buffer.pixels@;
    clear_rect(buffer, cx1 + 1, cy0, w - 1, cy1);
    proof {
        assert forall|x: int, y: int, c: int|
            0 <= x < wi && 0 <= y < hi && 0 <= c < 4 implies #[trigger] buffer.pixels@[pixel_offset(
                wi,
                x,
                y,
            ) + c] == if cx0 <= x <= cx1 && cy0 <= y <= cy1 {
                orig[pixel_offset(wi, x, y) + c]
            } else {
                0u8
            } by {
            assert(s1[pixel_offset(wi, x, y) + c] == if 0 <= y <= cy0 - 1 {
                0u8
            } else {
                orig[pixel_offset(wi, x, y) + c]
            });
        }
    }
}

/// `\iclip(x1, y1, x2, y2)`: clear everything inside the rectangle
/// (inclusive corners, either order).
pub fn apply_inverse_clip(buffer: &mut RenderBuffer, clip_rect: (i32, i32, i32, i32))
    requires
        old(buffer).wf(),
    ensures
        final(buffer).wf(),
        final(buffer).width == old(buffer).width,
        final(buffer).height == old(buffer).height,
        forall|x: int, y: int, c: int|
            0 <= x < old(buffer).width && 0 <= y < old(buffer).height && 0 <= c < 4
                ==> #[trigger] final(buffer).pixels@[pixel_offset(old(buffer).width as int, x, y) + c]
                == if in_clip(
                spec_normalize_clip(old(buffer).width as int, old(buffer).height as int, clip_rect),
                x,
                y,
            ) {
                0u8
            } else {
                old(buffer).pixels@[pixel_offset(old(buffer).width as int, x, y) + c]
            },
{
    match normalize_clip(buffer, clip_rect) {
        Some((cx0, cy0, cx1, cy1)) => clear_rect(buffer, cx0, cy0, cx1, cy1),
        None => {},
    }
}

// ---------------------------------------------------------------------
// Fades
// ---------------------------------------------------------------------
/// `n / d` rounded toward zero (`d > 0`).
pub open spec fn div_trunc(n: int, d: int) -> int {
    if n >= 0 {
        n / d
    } else {
        -((-n) / d)
    }
}

/// `a` at `now == lo` moving linearly to `b` at `now == hi`, rounded
/// toward zero: `(a * (hi - now) + b * (now - lo)) / (hi - lo)`.
pub open spec fn lerp_trunc(now: int, lo: int, hi: int, a: int, b: int) -> int {
    div_trunc(a * (hi - now) + b * (now - lo), hi - lo)
}

/// The piecewise-linear fade value of libass's `interpolate_alpha`: `a1`
/// before `t1`, ramping to `a2` at `t2`, `a2` until `t3`, ramping to
/// `a3` at `t4`, `a3` after. An empty ramp is an instant jump.
pub open spec fn spec_interpolate_alpha(
    now: int,
    t1: int,
    t2: int,
    t3: int,
    t4: int,
    a1: int,
    a2: int,
    a3: int,
) -> int {
    if now < t1 {
        a1
    } else if now < t2 {
        lerp_trunc(now, t1, t2, a1, a2)
    } else if now < t3 {
        a2
    } else if now < t4 {
        lerp_trunc(now, t3, t4, a2, a3)
    } else {
        a3
    }
}

proof fn lemma_lerp_between(now: int, lo: int, hi: int, a: int, b: int)
    requires
        lo <= now < hi,
    ensures
        (a <= b ==> a <= lerp_trunc(now, lo, hi, a, b) <= b),
        (b <= a ==> b <= lerp_trunc(now, lo, hi, a, b) <= a),
{
    let d = hi - lo;
    let n = a * (hi - now) + b * (now - lo);
    let lo_v = if a <= b { a } else { b };
    let hi_v = if a <= b { b } else { a };
    assert(lo_v * d <= n <= hi_v * d) by (nonlinear_arith)
        requires
            lo <= now < hi,
            d == hi - lo,
            n == a * (hi - now) + b * (now - lo),
            lo_v <= a,
            lo_v <= b,
            a <= hi_v,
            b <= hi_v,
    ;
    assert(lo_v <= div_trunc(n, d) <= hi_v) by (nonlinear_arith)
        requires
            lo_v * d <= n <= hi_v * d,
            d > 0,
    {
        if n >= 0 {
            assert(n / d * d <= n);
            assert(n < (n / d + 1) * d);
        } else {
            let m = -n;
            assert(m / d * d <= m);
            assert(m < (m / d + 1) * d);
        }
    }
}

/// `(a * (hi - now) + b * (now - lo)) / (hi - lo)` rounded toward zero.
fn lerp_exec(now: i64, lo: i64, hi: i64, a: i32, b: i32) -> (r: i32)
    requires
        lo <= now < hi,
    ensures
        r == lerp_trunc(now as int, lo as int, hi as int, a as int, b as int),
{
    proof {
        lemma_lerp_between(now as int, lo as int, hi as int, a as int, b as int);
        assert(-0x8000_0000 * 0x1_0000_0000_0000_0000 <= (a as int) * (hi - now) <= 0x8000_0000 * 0x1_0000_0000_0000_0000) by (nonlinear_arith)
            requires
                -0x8000_0000 <= a <= 0x7fff_ffff,
                0 <= hi - now <= 0x1_0000_0000_0000_0000,
        ;
        assert(-0x8000_0000 * 0x1_0000_0000_0000_0000 <= (b as int) * (now - lo) <= 0x8000_0000 * 0x1_0000_0000_0000_0000) by (nonlinear_arith)
            requires
                -0x8000_0000 <= b <= 0x7fff_ffff,
                0 <= now - lo <= 0x1_0000_0000_0000_0000,
        ;
    }
    let d: i128 = hi as i128 - lo as i128;
    let n: i128 = a as i128 * (hi as i128 - now as i128) + b as i128 * (now as i128 - lo as i128);
    let q: i128 = if n >= 0 {
        n / d
    } else {
        -((-n) / d)
    };
    q as i32
}

/// libass's `interpolate_alpha` on exact rationals: `a1` before `t1`,
/// a linear ramp to `a2` at `t2`, `a2` until `t3`, a ramp to `a3` at
/// `t4`, `a3` after; ramp values round toward zero.
///
/// The ramp is the exact quotient, truncated. Evaluated in binary
/// floating point (`cf = (now - lo) / (hi - lo)`, then
/// `a * (1 - cf) + b * cf`), each step rounds, and the sum lies within
/// `(|a| + |b|) * 2^-51` of the exact value. With alphas in `0..=255` and
/// a ramp shorter than `2^40` ms, an exact value that is not a whole
/// number is at least `1 / (hi - lo)` from every whole number, so both
/// truncate alike; the two can differ only where the exact value is a
/// whole number, and then the `f64` result is one nearer zero. Example:
/// 4 ms into a 5 ms ramp from 255 to 0 is exactly 51, and 50.999... in
/// `f64`, which truncates to 50.
pub fn interpolate_alpha(now: i64, t1: i64, t2: i64, t3: i64, t4: i64, a1: i32, a2: i32, a3: i32) -> (r: i32)
    ensures
        r == spec_interpolate_alpha(
            now as int,
            t1 as int,
            t2 as int,
            t3 as int,
            t4 as int,
            a1 as int,
            a2 as int,
            a3 as int,
        ),
{
    if now < t1 {
        a1
    } else if now < t2 {
        lerp_exec(now, t1, t2, a1, a2)
    } else if now < t3 {
        a2
    } else if now < t4 {
        lerp_exec(now, t3, t4, a2, a3)
    } else {
        a3
    }
}

/// `v` limited to `i64::MAX`.
pub open spec fn cap_i64(v: int) -> int {
    if v > i64::MAX {
        i64::MAX as int
    } else {
        v
    }
}

/// Opacity of a `\fad(fade_in, fade_out)` event at `time_ms` (255 fully
/// opaque, 0 transparent): outside `[start, end)` it is 0; inside, the
/// libass ramp over `(0, fade_in, duration - fade_out, duration)` from
/// transparent to visible and back, a non-positive value meaning fully
/// opaque.
pub open spec fn spec_fade_alpha(time_ms: u64, start_ms: u64, end_ms: u64, fade_in: i32, fade_out: i32) -> int {
    if time_ms < start_ms || time_ms >= end_ms {
        0
    } else {
        let duration = cap_i64(end_ms - start_ms);
        let elapsed = cap_i64(time_ms - start_ms);
        let t3 = if duration - fade_out > i64::MAX {
            i64::MAX as int
        } else {
            duration - fade_out
        };
        let a = spec_interpolate_alpha(elapsed, 0, fade_in as int, t3, duration, 255, 0, 255);
        if a <= 0 {
            255
        } else if a > 255 {
            0
        } else {
            255 - a
        }
    }
}

/// Opacity of a `\fad(fade_in_ms, fade_out_ms)` event at `time_ms`.
/// The ramp value comes from [`interpolate_alpha`], exact: where it is
/// a whole number reached inside a ramp, an `f64` evaluation can give
/// an opacity one higher (`calculate_fade_alpha(4, 0, 10000, 5, 0)` is
/// 204 here, 205 in `f64`).
pub fn calculate_fade_alpha(time_ms: u64, start_ms: u64, end_ms: u64, fade_in_ms: i32, fade_out_ms: i32) -> (r: u8)
    ensures
        r == spec_fade_alpha(time_ms, start_ms, end_ms, fade_in_ms, fade_out_ms),
{
    if time_ms < start_ms || time_ms >= end_ms {
        return 0;
    }
    let duration_u = end_ms - start_ms;
    let elapsed_u = time_ms - start_ms;
    let duration: i64 = if duration_u > i64::MAX as u64 {
        i64::MAX
    } else {
        duration_u as i64
    };
    let elapsed: i64 = if elapsed_u > i64::MAX as u64 {
        i64::MAX
    } else {
        elapsed_u as i64
    };
    let t3: i64 = if fade_out_ms < 0 && duration > i64::MAX + fade_out_ms as i64 {
        i64::MAX
    } else {
        duration - fade_out_ms as i64
    };
    let a = interpolate_alpha(elapsed, 0, fade_in_ms as i64, t3, duration, 255, 0, 255);
    if a <= 0 {
        255
    } else if a > 255 {
        0
    } else {
        (255 - a) as u8
    }
}

} // verus!
