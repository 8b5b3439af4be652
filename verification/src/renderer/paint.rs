//! Paint stages on a render buffer: glyph fills, opaque boxes, and the
//! small karaoke and drawing-mode rules the compositor applies.
use crate::renderer::buffer::{
    add_coord, in_rect, lemma_offset_bounds, lemma_offset_distinct, over_pixel, pixel_at,
    pixel_offset, put_pixel, spec_rect, RenderBuffer,
};
use crate::renderer::effects::{apply_opaque_box, opaque_box, sat_i32};
use vstd::prelude::*;

verus! {

/// `\ko`: the outline is hidden before the syllable starts and shown
/// from its start instant on.
pub fn karaoke_outline_suppressed(elapsed_ms: u64, start_ms: u64) -> (b: bool)
    ensures
        b == (elapsed_ms < start_ms),
{
    elapsed_ms < start_ms
}

/// The drawing mode of a segment: the last `\pN` among its tags (given
/// as `Some(N)`, other tags as `None`), else the event's mode.
pub open spec fn spec_drawing_mode(tags: Seq<Option<i32>>, event_mode: i32) -> i32
    decreases tags.len(),
{
    if tags.len() == 0 {
        event_mode
    } else {
        match tags.last() {
            Some(m) => m,
            None => spec_drawing_mode(tags.drop_last(), event_mode),
        }
    }
}

pub fn segment_drawing_mode(tags: &[Option<i32>], event_mode: i32) -> (m: i32)
    ensures
        m == spec_drawing_mode(tags@, event_mode),
{
    let mut k = tags.len();
    assert(tags@.take(k as int) =~= tags@);
    while k > 0
        invariant
            k <= tags@.len(),
            spec_drawing_mode(tags@, event_mode) == spec_drawing_mode(tags@.take(k as int), event_mode),
        decreases k,
    {
        assert(tags@.take(k as int).drop_last() =~= tags@.take(k - 1));
        match tags[k - 1] {
            Some(m) => {
                return m;
            },
            None => {},
        }
        k -= 1;
    }
    m_default(event_mode)
}

fn m_default(event_mode: i32) -> (m: i32)
    ensures
        m == event_mode,
{
    event_mode
}

// ---------------------------------------------------------------------
// Glyph fills
// ---------------------------------------------------------------------
/// A glyph bitmap's size and the buffer position of its top-left pixel.
#[derive(Debug, Clone, Copy)]
pub struct GlyphGeom {
    pub w: u32,
    pub h: u32,
    pub gx: i32,
    pub gy: i32,
}

/// Coverage of bitmap pixel `(px, py)`; missing bytes count as zero.
pub open spec fn coverage(bitmap: Seq<u8>, w: int, px: int, py: int) -> int {
    let idx = py * w + px;
    if 0 <= idx < bitmap.len() {
        bitmap[idx] as int
    } else {
        0
    }
}

/// Fill alpha: coverage times colour alpha times fade, each scaled to
/// 255 and floored.
pub open spec fn fill_alpha(cov: int, color_alpha: int, fade: int) -> int {
    (cov * color_alpha / 255) * fade / 255
}

/// Buffer pixel `(qx, qy)` after painting a glyph fill: the bitmap pixel
/// over it, if covered, blends its column's colour source-over.
pub open spec fn glyph_filled(
    p: Seq<u8>,
    bw: int,
    geom: GlyphGeom,
    bitmap: Seq<u8>,
    fade: u8,
    pick: Seq<([u8; 4], u8)>,
    qx: int,
    qy: int,
) -> Seq<u8> {
    let px = qx - geom.gx;
    let py = qy - geom.gy;
    let off = pixel_offset(bw, qx, qy);
    if 0 <= px < geom.w && 0 <= py < geom.h && coverage(bitmap, geom.w as int, px, py) > 0 {
        let (color, ca) = pick[px];
        over_pixel(
            pixel_at(p, off),
            color[0],
            color[1],
            color[2],
            fill_alpha(coverage(bitmap, geom.w as int, px, py), ca as int, fade as int) as u8,
        )
    } else {
        pixel_at(p, off)
    }
}

proof fn lemma_fill_alpha_bound(cov: int, ca: int, fade: int)
    requires
        0 <= cov <= 255,
        0 <= ca <= 255,
        0 <= fade <= 255,
    ensures
        0 <= cov * ca <= 255 * 255,
        0 <= cov * ca / 255 <= 255,
        0 <= (cov * ca / 255) * fade <= 255 * 255,
        0 <= fill_alpha(cov, ca, fade) <= 255,
{
    assert(0 <= cov * ca <= 255 * 255) by (nonlinear_arith)
        requires
            0 <= cov <= 255,
            0 <= ca <= 255,
    ;
    let q = cov * ca / 255;
    assert(0 <= q * fade <= 255 * 255) by (nonlinear_arith)
        requires
            0 <= q <= 255,
            0 <= fade <= 255,
    ;
}

/// Paint one glyph's fill: every covered bitmap pixel that lands in the
/// buffer blends the colour of its column (`pick[px]`, straight RGB and
/// alpha) at coverage x alpha x `fade_alpha`.
pub fn paint_glyph_fill(
    buffer: &mut RenderBuffer,
    bitmap: &[u8],
    geom: GlyphGeom,
    fade_alpha: u8,
    pick: &[([u8; 4], u8)],
)
    requires
        old(buffer).wf(),
        pick@.len() >= geom.w,
        geom.w * geom.h <= usize::MAX,
    ensures
        final(buffer).wf(),
        final(buffer).width == old(buffer).width,
        final(buffer).height == old(buffer).height,
        forall|qx: int, qy: int|
            0 <= qx < old(buffer).width && 0 <= qy < old(buffer).height ==> #[trigger] pixel_at(
                final(buffer).pixels@,
                pixel_offset(old(buffer).width as int, qx, qy),
            ) == glyph_filled(
                old(buffer).pixels@,
                old(buffer).width as int,
                geom,
                bitmap@,
                fade_alpha,
                pick@,
                qx,
                qy,
            ),
{
    let ghost orig = buffer.pixels@;
    let ghost bw = buffer.width as int;
    let ghost bh = buffer.height as int;
    let mut py: u32 = 0;
    while py < geom.h
        invariant
            buffer.wf(),
            buffer.width == old(buffer).width,
            buffer.height == old(buffer).height,
            orig == old(buffer).pixels@,
            bw == buffer.width,
            bh == buffer.height,
            py <= geom.h,
            pick@.len() >= geom.w,
            geom.w * geom.h <= usize::MAX,
            forall|qx: int, qy: int|
                0 <= qx < bw && 0 <= qy < bh ==> #[trigger] pixel_at(
                    buffer.pixels@,
                    pixel_offset(bw, qx, qy),
                ) == if qy - geom.gy < py {
                    glyph_filled(orig, bw, geom, bitmap@, fade_alpha, pick@, qx, qy)
                } else {
                    pixel_at(orig, pixel_offset(bw, qx, qy))
                },
        decreases geom.h - py,
    {
        let mut px: u32 = 0;
        while px < geom.w
            invariant
                buffer.wf(),
                buffer.width == old(buffer).width,
                buffer.height == old(buffer).height,
                orig == old(buffer).pixels@,
                bw == buffer.width,
                bh == buffer.height,
                py < geom.h,
                px <= geom.w,
                pick@.len() >= geom.w,
                geom.w * geom.h <= usize::MAX,
                forall|qx: int, qy: int|
                    0 <= qx < bw && 0 <= qy < bh ==> #[trigger] pixel_at(
                        buffer.pixels@,
                        pixel_offset(bw, qx, qy),
                    ) == if qy - geom.gy < py || (qy - geom.gy == py && qx - geom.gx < px) {
                        glyph_filled(orig, bw, geom, bitmap@, fade_alpha, pick@, qx, qy)
                    } else {
                        pixel_at(orig, pixel_offset(bw, qx, qy))
                    },
            decreases geom.w - px,
        {
            proof {
                assert((py as int) * (geom.w as int) + (px as int) < (geom.w as int) * (geom.h as int))
                    by (nonlinear_arith)
                    requires
                        px < geom.w,
                        py < geom.h,
                ;
                assert(0 <= (py as int) * (geom.w as int)) by (nonlinear_arith)
                    requires
                        0 <= py,
                        0 <= geom.w,
                ;
            }
            let idx = (py as usize) * (geom.w as usize) + (px as usize);
            let cov: u8 = if idx < bitmap.len() {
                bitmap[idx]
            } else {
                0
            };
            let ghost cv = coverage(bitmap@, geom.w as int, px as int, py as int);
            assert(cov == cv);
            if cov > 0 {
                let (color, color_alpha) = pick[px as usize];
                proof {
                    lemma_fill_alpha_bound(cov as int, color_alpha as int, fade_alpha as int);
                }
                let a = ((cov as u32 * color_alpha as u32 / 255) * fade_alpha as u32 / 255) as u8;
                match (add_coord(geom.gx, px, buffer.width), add_coord(geom.gy, py, buffer.height)) {
                    (Some(sx), Some(sy)) => {
                        let ghost before = buffer.pixels@;
                        let ghost off = pixel_offset(bw, sx as int, sy as int);
                        proof {
                            lemma_offset_bounds(bw, bh, sx as int, sy as int);
                        }
                        buffer.blend_pixel(sx, sy, color[0], color[1], color[2], a);
                        proof {
                            let npx = over_pixel(pixel_at(before, off), color[0], color[1], color[2], a);
                            assert(pixel_at(put_pixel(before, off, npx), off) =~= npx);
                            assert forall|qx: int, qy: int|
                                0 <= qx < bw && 0 <= qy < bh && (qx != sx || qy != sy) implies #[trigger] pixel_at(
                                    buffer.pixels@,
                                    pixel_offset(bw, qx, qy),
                                ) == pixel_at(before, pixel_offset(bw, qx, qy)) by {
                                lemma_offset_distinct(bw, sx as int, sy as int, qx, qy);
                                lemma_offset_bounds(bw, bh, qx, qy);
                                assert(pixel_at(put_pixel(before, off, npx), pixel_offset(bw, qx, qy))
                                    =~= pixel_at(before, pixel_offset(bw, qx, qy)));
                            }
                        }
                    },
                    _ => {},
                }
            }
            px += 1;
        }
        py += 1;
    }
}

// ---------------------------------------------------------------------
// Opaque boxes
// ---------------------------------------------------------------------
/// The boxes painted for opaque-box lines, in order: every line's shadow
/// box (moved by the shadow offset) when there is one, then every line's
/// box, each with its colour.
pub open spec fn box_list(
    rects: Seq<(i32, i32, i32, i32)>,
    shadow: Option<(i32, i32)>,
    pad_x: i32,
    pad_y: i32,
    shadow_fill: [u8; 4],
    fill: [u8; 4],
) -> Seq<((int, int, int, int), [u8; 4])> {
    let shadows = match shadow {
        Some((sx, sy)) => Seq::new(
            rects.len(),
            |k: int|
                (
                    opaque_box(
                        sat_i32(rects[k].0 + sx) as i32,
                        sat_i32(rects[k].1 + sy) as i32,
                        rects[k].2,
                        rects[k].3,
                        pad_x,
                        pad_y,
                    ),
                    shadow_fill,
                ),
        ),
        None => Seq::empty(),
    };
    shadows + Seq::new(
        rects.len(),
        |k: int| (opaque_box(rects[k].0, rects[k].1, rects[k].2, rects[k].3, pad_x, pad_y), fill),
    )
}

/// Pixel `px` (at `(qx, qy)` of a `w` x `h` buffer) after the first `n`
/// boxes.
pub open spec fn boxes_pixel(
    px: Seq<u8>,
    w: int,
    h: int,
    boxes: Seq<((int, int, int, int), [u8; 4])>,
    n: int,
    qx: int,
    qy: int,
) -> Seq<u8>
    decreases n,
{
    if n <= 0 || n > boxes.len() {
        px
    } else {
        let prev = boxes_pixel(px, w, h, boxes, n - 1, qx, qy);
        let ((bx, by, bwd, bht), c) = boxes[n - 1];
        if in_rect(spec_rect(w, h, bx, by, bwd, bht), qx, qy) {
            over_pixel(prev, c[0], c[1], c[2], c[3])
        } else {
            prev
        }
    }
}

fn sat_add(a: i32, b: i32) -> (r: i32)
    ensures
        r == sat_i32(a + b),
{
    let v: i64 = a as i64 + b as i64;
    if v < i32::MIN as i64 {
        i32::MIN
    } else if v > i32::MAX as i64 {
        i32::MAX
    } else {
        v as i32
    }
}

/// Paint the opaque boxes of a line block: all shadow boxes first, then
/// all boxes, so overlapping lines match VSFilter.
pub fn paint_opaque_boxes(
    buffer: &mut RenderBuffer,
    rects: &[(i32, i32, i32, i32)],
    shadow_offset: Option<(i32, i32)>,
    pad_x: i32,
    pad_y: i32,
    shadow_fill: [u8; 4],
    fill: [u8; 4],
)
    requires
        old(buffer).wf(),
    ensures
        final(buffer).wf(),
        final(buffer).width == old(buffer).width,
        final(buffer).height == old(buffer).height,
        ({
            let boxes = box_list(rects@, shadow_offset, pad_x, pad_y, shadow_fill, fill);
            forall|qx: int, qy: int|
                0 <= qx < old(buffer).width && 0 <= qy < old(buffer).height ==> #[trigger] pixel_at(
                    final(buffer).pixels@,
                    pixel_offset(old(buffer).width as int, qx, qy),
                ) == boxes_pixel(
                    pixel_at(old(buffer).pixels@, pixel_offset(old(buffer).width as int, qx, qy)),
                    old(buffer).width as int,
                    old(buffer).height as int,
                    boxes,
                    boxes.len() as int,
                    qx,
                    qy,
                )
        }),
{
    let ghost orig = buffer.pixels@;
    let ghost w = buffer.width as int;
    let ghost h = buffer.height as int;
    let ghost boxes = box_list(rects@, shadow_offset, pad_x, pad_y, shadow_fill, fill);
    let ghost ns: int = match shadow_offset {
        Some(_) => rects@.len() as int,
        None => 0,
    };
    let mut k: usize = 0;
    if let Some((shadow_x, shadow_y)) = shadow_offset {
        while k < rects.len()
            invariant
                buffer.wf(),
                buffer.width == old(buffer).width,
                buffer.height == old(buffer).height,
                orig == old(buffer).pixels@,
                w == buffer.width,
                h == buffer.height,
                shadow_offset == Some((shadow_x, shadow_y)),
                boxes == box_list(rects@, shadow_offset, pad_x, pad_y, shadow_fill, fill),
                ns == rects@.len(),
                k <= rects@.len(),
                forall|qx: int, qy: int|
                    0 <= qx < w && 0 <= qy < h ==> #[trigger] pixel_at(
                        buffer.pixels@,
                        pixel_offset(w, qx, qy),
                    ) == boxes_pixel(pixel_at(orig, pixel_offset(w, qx, qy)), w, h, boxes, k as int, qx, qy),
            decreases rects@.len() - k,
        {
            let (x, y, rw, rh) = rects[k];
            apply_opaque_box(
                buffer,
                sat_add(x, shadow_x),
                sat_add(y, shadow_y),
                rw,
                rh,
                pad_x,
                pad_y,
                shadow_fill,
            );
            k += 1;
        }
    }
    let mut j: usize = 0;
    while j < rects.len()
        invariant
            buffer.wf(),
            buffer.width == old(buffer).width,
            buffer.height == old(buffer).height,
            orig == old(buffer).pixels@,
            w == buffer.width,
            h == buffer.height,
            boxes == box_list(rects@, shadow_offset, pad_x, pad_y, shadow_fill, fill),
            ns == match shadow_offset {
                Some(_) => rects@.len() as int,
                None => 0,
            },
            boxes.len() == ns + rects@.len(),
            j <= rects@.len(),
            forall|qx: int, qy: int|
                0 <= qx < w && 0 <= qy < h ==> #[trigger] pixel_at(
                    buffer.pixels@,
                    pixel_offset(w, qx, qy),
                ) == boxes_pixel(pixel_at(orig, pixel_offset(w, qx, qy)), w, h, boxes, ns + j, qx, qy),
        decreases rects@.len() - j,
    {
        let (x, y, rw, rh) = rects[j];
        apply_opaque_box(buffer, x, y, rw, rh, pad_x, pad_y, fill);
        j += 1;
    }
}

} // verus!
