//! RGBA pixel buffers: checked allocation, pixel access, source-over
//! blending and rectangle fills.
use crate::text::{dec_str, push_decimal, push_str};
use vstd::prelude::*;

verus! {

/// Maximum frame-buffer dimension (width or height) in pixels.
pub const MAX_DIMENSION: u32 = 16_384;

/// Maximum total pixels in one frame buffer (64 megapixels, 256 MiB RGBA).
pub const MAX_BUFFER_PIXELS: u64 = 67_108_864;

/// Maximum total pixels in a transformed or scaled glyph coverage bitmap.
pub const MAX_GLYPH_BITMAP_PIXELS: u64 = 16_777_216;

/// Maximum box-blur radius applied to a buffer.
pub const MAX_BLUR_RADIUS: u32 = 128;

/// Errors from render-buffer allocation and sizing.
#[derive(Debug, Clone, Copy, PartialEq, Eq, Structural)]
pub enum RenderError {
    ZeroDimensions { width: u32, height: u32 },
    DimensionsTooLarge { width: u32, height: u32 },
    AllocationTooLarge { width: u32, height: u32 },
}

/// The byte length of a `width` x `height` RGBA buffer, or why there is
/// none: a zero dimension, a dimension over `MAX_DIMENSION`, or more than
/// `MAX_BUFFER_PIXELS` pixels.
pub open spec fn spec_buffer_len(width: u32, height: u32) -> Result<int, RenderError> {
    if width == 0 || height == 0 {
        Err(RenderError::ZeroDimensions { width, height })
    } else if width > MAX_DIMENSION || height > MAX_DIMENSION {
        Err(RenderError::DimensionsTooLarge { width, height })
    } else if width * height > MAX_BUFFER_PIXELS {
        Err(RenderError::AllocationTooLarge { width, height })
    } else {
        Ok(width * height * 4)
    }
}

proof fn lemma_dims_product(width: u32, height: u32)
    requires
        width <= MAX_DIMENSION,
        height <= MAX_DIMENSION,
    ensures
        0 <= width * height <= MAX_DIMENSION * MAX_DIMENSION,
{
    assert(0 <= width * height <= MAX_DIMENSION * MAX_DIMENSION) by (nonlinear_arith)
        requires
            width <= MAX_DIMENSION,
            height <= MAX_DIMENSION,
    ;
}

/// Validate dimensions and return the RGBA byte length.
pub fn checked_buffer_len(width: u32, height: u32) -> (r: Result<usize, RenderError>)
    ensures
        match r {
            Ok(n) => spec_buffer_len(width, height) == Ok::<int, RenderError>(n as int),
            Err(e) => spec_buffer_len(width, height) == Err::<int, RenderError>(e),
        },
{
    if width == 0 || height == 0 {
        return Err(RenderError::ZeroDimensions { width, height });
    }
    if width > MAX_DIMENSION || height > MAX_DIMENSION {
        return Err(RenderError::DimensionsTooLarge { width, height });
    }
    proof {
        lemma_dims_product(width, height);
    }
    let pixels = (width as u64) * (height as u64);
    if pixels > MAX_BUFFER_PIXELS {
        return Err(RenderError::AllocationTooLarge { width, height });
    }
    Ok((pixels * 4) as usize)
}

/// A row-major RGBA buffer, four bytes per pixel.
#[derive(Debug)]
pub struct RenderBuffer {
    pub width: u32,
    pub height: u32,
    pub pixels: Vec<u8>,
}

/// The human-readable text of a render error.
pub open spec fn render_error_message(e: RenderError) -> Seq<char> {
    match e {
        RenderError::ZeroDimensions { width, height } => "Invalid render dimensions "@ + dec_str(
            width as nat,
        ) + "x"@ + dec_str(height as nat) + ": dimensions must be non-zero"@,
        RenderError::DimensionsTooLarge { width, height } => "Render dimensions "@ + dec_str(
            width as nat,
        ) + "x"@ + dec_str(height as nat) + " exceed the "@ + dec_str(MAX_DIMENSION as nat)
            + "px limit"@,
        RenderError::AllocationTooLarge { width, height } => "Render dimensions "@ + dec_str(
            width as nat,
        ) + "x"@ + dec_str(height as nat) + " exceed the allocation limit"@,
    }
}

impl RenderError {
    /// The human-readable text of this error.
    pub fn message(&self) -> (r: String)
        ensures
            r@ == render_error_message(*self),
    {
        let mut out = String::new();
        match *self {
            RenderError::ZeroDimensions { width, height } => {
                push_str(&mut out, "Invalid render dimensions ");
                push_decimal(&mut out, width as u64);
                push_str(&mut out, "x");
                push_decimal(&mut out, height as u64);
                push_str(&mut out, ": dimensions must be non-zero");
            },
            RenderError::DimensionsTooLarge { width, height } => {
                push_str(&mut out, "Render dimensions ");
                push_decimal(&mut out, width as u64);
                push_str(&mut out, "x");
                push_decimal(&mut out, height as u64);
                push_str(&mut out, " exceed the ");
                push_decimal(&mut out, MAX_DIMENSION as u64);
                push_str(&mut out, "px limit");
            },
            RenderError::AllocationTooLarge { width, height } => {
                push_str(&mut out, "Render dimensions ");
                push_decimal(&mut out, width as u64);
                push_str(&mut out, "x");
                push_decimal(&mut out, height as u64);
                push_str(&mut out, " exceed the allocation limit");
            },
        }
        out
    }
}

/// `w * h` as a `usize`, or `None` when it does not fit.
pub fn checked_pixel_count(w: u32, h: u32) -> (r: Option<usize>)
    ensures
        match r {
            Some(n) => n == w * h,
            None => w * h > usize::MAX,
        },
{
    (w as usize).checked_mul(h as usize)
}

/// `bitmap` holds at least `w * h` bytes (and that count fits a `usize`).
pub fn bitmap_has_pixels(bitmap: &[u8], w: u32, h: u32) -> (b: bool)
    ensures
        b == (w * h <= usize::MAX && bitmap@.len() >= w * h),
{
    match checked_pixel_count(w, h) {
        Some(need) => bitmap.len() >= need,
        None => false,
    }
}

/// `base + offset` when it lies in `[0, limit)`.
pub fn add_coord(base: i32, offset: u32, limit: u32) -> (r: Option<u32>)
    ensures
        match r {
            Some(v) => v == base + offset && base + offset < limit,
            None => base + offset < 0 || base + offset >= limit,
        },
{
    let v: i64 = base as i64 + offset as i64;
    if v < 0 || v >= limit as i64 {
        return None;
    }
    Some(v as u32)
}

/// Byte offset of pixel `(x, y)` in a buffer `width` pixels wide.
pub open spec fn pixel_offset(width: int, x: int, y: int) -> int {
    (y * width + x) * 4
}

/// The four bytes at `idx`.
pub open spec fn pixel_at(p: Seq<u8>, idx: int) -> Seq<u8> {
    p.subrange(idx, idx + 4)
}

/// `p` with the four bytes at `idx` replaced by `px`.
pub open spec fn put_pixel(p: Seq<u8>, idx: int, px: Seq<u8>) -> Seq<u8> {
    p.update(idx, px[0]).update(idx + 1, px[1]).update(idx + 2, px[2]).update(idx + 3, px[3])
}

/// Alpha of straight-alpha source-over: `sa + da * (255 - sa) / 255`.
pub open spec fn over_alpha(sa: int, da: int) -> int {
    sa + da * (255 - sa) / 255
}

/// A colour channel of straight-alpha source-over, saturated at 255.
pub open spec fn over_channel(s: int, d: int, sa: int, da: int) -> int {
    let v = (s * sa + d * da * (255 - sa) / 255) / over_alpha(sa, da);
    if v > 255 {
        255
    } else {
        v
    }
}

/// Source-over of colour `(r, g, b)` at alpha `a` on pixel `dst`. A
/// transparent source leaves the pixel as it is.
pub open spec fn over_pixel(dst: Seq<u8>, r: u8, g: u8, b: u8, a: u8) -> Seq<u8> {
    if a == 0 {
        dst
    } else {
        let da = dst[3] as int;
        seq![
            over_channel(r as int, dst[0] as int, a as int, da) as u8,
            over_channel(g as int, dst[1] as int, a as int, da) as u8,
            over_channel(b as int, dst[2] as int, a as int, da) as u8,
            over_alpha(a as int, da) as u8,
        ]
    }
}

/// A premultiplied channel over `d` at source alpha `a`, saturated.
pub open spec fn premul_channel(s: int, d: int, a: int) -> int {
    let v = s + d * (255 - a) / 255;
    if v > 255 {
        255
    } else {
        v
    }
}

/// Premultiplied source-over; a transparent source leaves the pixel.
pub open spec fn premul_pixel(dst: Seq<u8>, r: u8, g: u8, b: u8, a: u8) -> Seq<u8> {
    if a == 0 {
        dst
    } else {
        seq![
            premul_channel(r as int, dst[0] as int, a as int) as u8,
            premul_channel(g as int, dst[1] as int, a as int) as u8,
            premul_channel(b as int, dst[2] as int, a as int) as u8,
            premul_channel(a as int, dst[3] as int, a as int) as u8,
        ]
    }
}

/// The pixel `(x, y)` of a buffer, `[0, 0, 0, 0]` outside it.
pub open spec fn spec_get_pixel(b: &RenderBuffer, x: int, y: int) -> Seq<u8> {
    if 0 <= x < b.width && 0 <= y < b.height {
        pixel_at(b.pixels@, pixel_offset(b.width as int, x, y))
    } else {
        seq![0u8, 0u8, 0u8, 0u8]
    }
}

/// The part of the rectangle `(x, y, w, h)` inside a `width` x `height`
/// buffer as `(x0, y0, x1, y1)` (end-exclusive), or `None` when it is
/// empty. Sizes that are not positive give an empty rectangle.
pub open spec fn spec_rect(width: int, height: int, x: int, y: int, w: int, h: int) -> Option<
    (int, int, int, int),
> {
    if w <= 0 || h <= 0 {
        None
    } else {
        let x0 = if x > 0 { x } else { 0 };
        let y0 = if y > 0 { y } else { 0 };
        let x1 = if x + w < width { x + w } else { width };
        let y1 = if y + h < height { y + h } else { height };
        if x0 >= x1 || y0 >= y1 {
            None
        } else {
            Some((x0, y0, x1, y1))
        }
    }
}

pub open spec fn in_rect(rect: Option<(int, int, int, int)>, qx: int, qy: int) -> bool {
    match rect {
        Some((x0, y0, x1, y1)) => x0 <= qx < x1 && y0 <= qy < y1,
        None => false,
    }
}

/// Pixel `(qx, qy)` of `p` after filling `rect` with a source-over colour.
pub open spec fn filled(
    p: Seq<u8>,
    width: int,
    rect: Option<(int, int, int, int)>,
    qx: int,
    qy: int,
    r: u8,
    g: u8,
    b: u8,
    a: u8,
) -> Seq<u8> {
    let off = pixel_offset(width, qx, qy);
    if in_rect(rect, qx, qy) {
        over_pixel(pixel_at(p, off), r, g, b, a)
    } else {
        pixel_at(p, off)
    }
}

/// Every byte is zero.
pub open spec fn all_zero(p: Seq<u8>) -> bool {
    forall|i: int| 0 <= i < p.len() ==> #[trigger] p[i] == 0
}

pub proof fn lemma_offset_bounds(width: int, height: int, x: int, y: int)
    requires
        0 <= x < width,
        0 <= y < height,
    ensures
        0 <= pixel_offset(width, x, y),
        pixel_offset(width, x, y) + 4 <= width * height * 4,
{
    assert(0 <= y * width) by (nonlinear_arith)
        requires
            0 <= y,
            0 <= width,
    ;
    assert(y * width + x < width * height) by (nonlinear_arith)
        requires
            0 <= x < width,
            0 <= y < height,
    ;
}

pub(crate) fn zeros(len: usize) -> (v: Vec<u8>)
    ensures
        v@.len() == len,
        all_zero(v@),
{
    let mut v: Vec<u8> = Vec::new();
    let mut i: usize = 0;
    while i < len
        invariant
            i <= len,
            v@.len() == i,
            all_zero(v@),
        decreases len - i,
    {
        v.push(0);
        i += 1;
    }
    v
}

proof fn lemma_over_bounds(sa: int, da: int)
    requires
        1 <= sa <= 255,
        0 <= da <= 255,
    ensures
        sa <= over_alpha(sa, da) <= 255,
        0 <= da * (255 - sa) <= 255 * 255,
{
    assert(0 <= da * (255 - sa) <= 255 * (255 - sa)) by (nonlinear_arith)
        requires
            1 <= sa <= 255,
            0 <= da <= 255,
    ;
}

proof fn lemma_channel_bounds(s: int, d: int, sa: int, da: int)
    requires
        0 <= s <= 255,
        0 <= d <= 255,
        1 <= sa <= 255,
        0 <= da <= 255,
    ensures
        0 <= s * sa <= 255 * 255,
        0 <= d * da <= 255 * 255,
        0 <= d * da * (255 - sa) <= 255 * 255 * 255,
{
    assert(0 <= s * sa <= 255 * 255) by (nonlinear_arith)
        requires
            0 <= s <= 255,
            1 <= sa <= 255,
    ;
    assert(0 <= d * da <= 255 * 255) by (nonlinear_arith)
        requires
            0 <= d <= 255,
            0 <= da <= 255,
    ;
    assert(0 <= d * da * (255 - sa) <= 255 * 255 * 255) by (nonlinear_arith)
        requires
            0 <= d * da <= 255 * 255,
            1 <= sa <= 255,
    ;
}

fn over_channel_exec(s: u8, d: u8, sa: u32, da: u32, out_a: u32) -> (c: u8)
    requires
        1 <= sa <= 255,
        da <= 255,
        out_a == over_alpha(sa as int, da as int),
    ensures
        c == over_channel(s as int, d as int, sa as int, da as int) as u8,
{
    proof {
        lemma_over_bounds(sa as int, da as int);
        lemma_channel_bounds(s as int, d as int, sa as int, da as int);
    }
    let inv_src = 255 - sa;
    let v = (s as u32 * sa + d as u32 * da * inv_src / 255) / out_a;
    if v > 255 {
        255
    } else {
        v as u8
    }
}

fn premul_channel_exec(s: u8, d: u8, a: u8) -> (c: u8)
    ensures
        c == premul_channel(s as int, d as int, a as int) as u8,
{
    let inv = 255 - a as u32;
    proof {
        assert(0 <= d * inv <= 255 * 255) by (nonlinear_arith)
            requires
                d <= 255,
                inv <= 255,
        ;
    }
    let v = s as u32 + d as u32 * inv / 255;
    if v > 255 {
        255
    } else {
        v as u8
    }
}

proof fn lemma_put_pixel_same(p: Seq<u8>, idx: int, px: Seq<u8>)
    requires
        0 <= idx,
        idx + 4 <= p.len(),
        px.len() == 4,
    ensures
        pixel_at(put_pixel(p, idx, px), idx) == px,
        put_pixel(p, idx, px).len() == p.len(),
{
    assert(pixel_at(put_pixel(p, idx, px), idx) =~= px);
}

proof fn lemma_put_pixel_other(p: Seq<u8>, idx: int, px: Seq<u8>, jdx: int)
    requires
        0 <= idx,
        idx + 4 <= p.len(),
        0 <= jdx,
        jdx + 4 <= p.len(),
        idx + 4 <= jdx || jdx + 4 <= idx,
    ensures
        pixel_at(put_pixel(p, idx, px), jdx) == pixel_at(p, jdx),
{
    assert(pixel_at(put_pixel(p, idx, px), jdx) =~= pixel_at(p, jdx));
}

/// Distinct pixels of a row-major buffer have disjoint bytes.
pub proof fn lemma_offset_distinct(w: int, x1: int, y1: int, x2: int, y2: int)
    requires
        0 <= x1 < w,
        0 <= x2 < w,
        0 <= y1,
        0 <= y2,
        x1 != x2 || y1 != y2,
    ensures
        pixel_offset(w, x1, y1) + 4 <= pixel_offset(w, x2, y2) || pixel_offset(w, x2, y2) + 4
            <= pixel_offset(w, x1, y1),
{
    if y1 < y2 {
        assert((y2 - y1) * w >= w) by (nonlinear_arith)
            requires
                y2 - y1 >= 1,
                w >= 0,
        ;
        assert(y2 * w - y1 * w == (y2 - y1) * w) by (nonlinear_arith);
    } else if y2 < y1 {
        assert((y1 - y2) * w >= w) by (nonlinear_arith)
            requires
                y1 - y2 >= 1,
                w >= 0,
        ;
        assert(y1 * w - y2 * w == (y1 - y2) * w) by (nonlinear_arith);
    }
}

/// A pixel read after a write gives back the written value, and every
/// other pixel of the buffer keeps its value.
pub proof fn lemma_write_then_read(w: int, h: int, p: Seq<u8>, x: int, y: int, v: Seq<u8>, qx: int, qy: int)
    requires
        p.len() == w * h * 4,
        0 <= x < w,
        0 <= y < h,
        0 <= qx < w,
        0 <= qy < h,
        v.len() == 4,
    ensures
        pixel_at(put_pixel(p, pixel_offset(w, x, y), v), pixel_offset(w, qx, qy)) == if qx == x && qy
            == y {
            v
        } else {
            pixel_at(p, pixel_offset(w, qx, qy))
        },
{
    lemma_offset_bounds(w, h, x, y);
    lemma_offset_bounds(w, h, qx, qy);
    if qx == x && qy == y {
        lemma_put_pixel_same(p, pixel_offset(w, x, y), v);
    } else {
        lemma_offset_distinct(w, x, y, qx, qy);
        lemma_put_pixel_other(p, pixel_offset(w, x, y), v, pixel_offset(w, qx, qy));
    }
}

impl RenderBuffer {
    /// Both dimensions non-zero and within `MAX_DIMENSION`, the pixel
    /// count within `MAX_BUFFER_PIXELS`, four bytes per pixel.
    pub open spec fn wf(&self) -> bool {
        &&& 0 < self.width <= MAX_DIMENSION
        &&& 0 < self.height <= MAX_DIMENSION
        &&& self.width * self.height <= MAX_BUFFER_PIXELS
        &&& self.pixels@.len() == self.width * self.height * 4
    }

    /// Create a transparent buffer, rejecting invalid or unreasonably
    /// large dimensions.
    pub fn new(width: u32, height: u32) -> (r: Result<RenderBuffer, RenderError>)
        ensures
            match r {
                Ok(b) => {
                    &&& spec_buffer_len(width, height) is Ok
                    &&& b.wf()
                    &&& b.width == width
                    &&& b.height == height
                    &&& all_zero(b.pixels@)
                },
                Err(e) => spec_buffer_len(width, height) == Err::<int, RenderError>(e),
            },
    {
        let len = match checked_buffer_len(width, height) {
            Ok(n) => n,
            Err(e) => return Err(e),
        };
        Ok(RenderBuffer { width, height, pixels: zeros(len) })
    }

    /// Create a buffer, falling back to a transparent 1x1 buffer where
    /// `new` refuses the dimensions.
    pub fn new_or_empty(width: u32, height: u32) -> (b: RenderBuffer)
        ensures
            b.wf(),
            all_zero(b.pixels@),
            spec_buffer_len(width, height) is Ok ==> b.width == width && b.height == height,
            spec_buffer_len(width, height) is Err ==> b.width == 1 && b.height == 1,
    {
        match RenderBuffer::new(width, height) {
            Ok(b) => b,
            Err(_) => RenderBuffer { width: 1, height: 1, pixels: zeros(4) },
        }
    }

    /// Make every pixel transparent black.
    pub fn clear(&mut self)
        ensures
            final(self).width == old(self).width,
            final(self).height == old(self).height,
            final(self).pixels@.len() == old(self).pixels@.len(),
            all_zero(final(self).pixels@),
    {
        let mut i: usize = 0;
        while i < self.pixels.len()
            invariant
                i <= self.pixels@.len(),
                self.width == old(self).width,
                self.height == old(self).height,
                self.pixels@.len() == old(self).pixels@.len(),
                forall|j: int| 0 <= j < i ==> #[trigger] self.pixels@[j] == 0,
            decreases self.pixels@.len() - i,
        {
            self.pixels.set(i, 0);
            i += 1;
        }
    }

    /// Resize to `width` x `height` (all pixels transparent); invalid
    /// dimensions leave the buffer unchanged.
    pub fn resize(&mut self, width: u32, height: u32) -> (r: Result<(), RenderError>)
        ensures
            match r {
                Ok(()) => {
                    &&& spec_buffer_len(width, height) is Ok
                    &&& final(self).wf()
                    &&& final(self).width == width
                    &&& final(self).height == height
                    &&& all_zero(final(self).pixels@)
                },
                Err(e) => {
                    &&& spec_buffer_len(width, height) == Err::<int, RenderError>(e)
                    &&& final(self).width == old(self).width
                    &&& final(self).height == old(self).height
                    &&& final(self).pixels@ == old(self).pixels@
                },
            },
    {
        let len = match checked_buffer_len(width, height) {
            Ok(n) => n,
            Err(e) => return Err(e),
        };
        self.width = width;
        self.height = height;
        self.pixels = zeros(len);
        Ok(())
    }

    /// The pixel at `(x, y)` as `[R, G, B, A]`; `[0, 0, 0, 0]` outside.
    pub fn get_pixel(&self, x: u32, y: u32) -> (px: [u8; 4])
        requires
            self.wf(),
        ensures
            px@ == spec_get_pixel(self, x as int, y as int),
    {
        if x >= self.width || y >= self.height {
            return [0, 0, 0, 0];
        }
        proof {
            lemma_offset_bounds(self.width as int, self.height as int, x as int, y as int);
        }
        let idx = ((y * self.width + x) * 4) as usize;
        let px = [self.pixels[idx], self.pixels[idx + 1], self.pixels[idx + 2], self.pixels[idx + 3]];
        assert(px@ =~= pixel_at(self.pixels@, idx as int));
        px
    }

    /// Set the pixel at `(x, y)`; outside the buffer nothing changes.
    pub fn set_pixel(&mut self, x: u32, y: u32, r: u8, g: u8, b: u8, a: u8)
        requires
            old(self).wf(),
        ensures
            final(self).wf(),
            final(self).width == old(self).width,
            final(self).height == old(self).height,
            final(self).pixels@ == if x < old(self).width && y < old(self).height {
                put_pixel(
                    old(self).pixels@,
                    pixel_offset(old(self).width as int, x as int, y as int),
                    seq![r, g, b, a],
                )
            } else {
                old(self).pixels@
            },
    {
        if x >= self.width || y >= self.height {
            return;
        }
        proof {
            lemma_offset_bounds(self.width as int, self.height as int, x as int, y as int);
        }
        let idx = ((y * self.width + x) * 4) as usize;
        self.pixels.set(idx, r);
        self.pixels.set(idx + 1, g);
        self.pixels.set(idx + 2, b);
        self.pixels.set(idx + 3, a);
    }

    /// Straight-alpha source-over of `(r, g, b)` at alpha `a` onto the
    /// pixel at `(x, y)`; outside the buffer, or at `a == 0`, nothing
    /// changes.
    pub fn blend_pixel(&mut self, x: u32, y: u32, r: u8, g: u8, b: u8, a: u8)
        requires
            old(self).wf(),
        ensures
            final(self).wf(),
            final(self).width == old(self).width,
            final(self).height == old(self).height,
            final(self).pixels@ == if x < old(self).width && y < old(self).height {
                let idx = pixel_offset(old(self).width as int, x as int, y as int);
                put_pixel(old(self).pixels@, idx, over_pixel(pixel_at(old(self).pixels@, idx), r, g, b, a))
            } else {
                old(self).pixels@
            },
    {
        if x >= self.width || y >= self.height {
            return;
        }
        proof {
            lemma_offset_bounds(self.width as int, self.height as int, x as int, y as int);
        }
        let idx = ((y * self.width + x) * 4) as usize;
        self.blend_at(idx, r, g, b, a);
    }

    /// Source-over at byte offset `idx`.
    fn blend_at(&mut self, idx: usize, r: u8, g: u8, b: u8, a: u8)
        requires
            idx + 4 <= old(self).pixels@.len(),
        ensures
            final(self).width == old(self).width,
            final(self).height == old(self).height,
            final(self).pixels@ == put_pixel(
                old(self).pixels@,
                idx as int,
                over_pixel(pixel_at(old(self).pixels@, idx as int), r, g, b, a),
            ),
    {
        let ghost old_px = pixel_at(self.pixels@, idx as int);
        if a == 0 {
            assert(put_pixel(self.pixels@, idx as int, old_px) =~= self.pixels@);
            return;
        }
        assert(self.pixels@.len() == self.pixels.len());
        let src_a = a as u32;
        let dst_a = self.pixels[idx + 3] as u32;
        proof {
            lemma_over_bounds(src_a as int, dst_a as int);
        }
        let out_a = src_a + dst_a * (255 - src_a) / 255;
        let cr = over_channel_exec(r, self.pixels[idx], src_a, dst_a, out_a);
        let cg = over_channel_exec(g, self.pixels[idx + 1], src_a, dst_a, out_a);
        let cb = over_channel_exec(b, self.pixels[idx + 2], src_a, dst_a, out_a);
        let ca = ((out_a * 255 + 128) / 255) as u8;
        assert(ca == over_alpha(src_a as int, dst_a as int) as u8);
        self.pixels.set(idx, cr);
        self.pixels.set(idx + 1, cg);
        self.pixels.set(idx + 2, cb);
        self.pixels.set(idx + 3, ca);
    }

    /// Premultiplied source-over of `(r, g, b, a)` onto the pixel at
    /// `(x, y)`, each channel saturated; outside the buffer, or at
    /// `a == 0`, nothing changes.
    pub fn blend_pixel_premul(&mut self, x: u32, y: u32, r: u8, g: u8, b: u8, a: u8)
        requires
            old(self).wf(),
        ensures
            final(self).wf(),
            final(self).width == old(self).width,
            final(self).height == old(self).height,
            final(self).pixels@ == if x < old(self).width && y < old(self).height {
                let idx = pixel_offset(old(self).width as int, x as int, y as int);
                put_pixel(old(self).pixels@, idx, premul_pixel(pixel_at(old(self).pixels@, idx), r, g, b, a))
            } else {
                old(self).pixels@
            },
    {
        if x >= self.width || y >= self.height {
            return;
        }
        proof {
            lemma_offset_bounds(self.width as int, self.height as int, x as int, y as int);
        }
        let idx = ((y * self.width + x) * 4) as usize;
        let ghost old_px = pixel_at(self.pixels@, idx as int);
        if a == 0 {
            assert(put_pixel(self.pixels@, idx as int, old_px) =~= self.pixels@);
            return;
        }
        let cr = premul_channel_exec(r, self.pixels[idx], a);
        let cg = premul_channel_exec(g, self.pixels[idx + 1], a);
        let cb = premul_channel_exec(b, self.pixels[idx + 2], a);
        let ca = premul_channel_exec(a, self.pixels[idx + 3], a);
        self.pixels.set(idx, cr);
        self.pixels.set(idx + 1, cg);
        self.pixels.set(idx + 2, cb);
        self.pixels.set(idx + 3, ca);
    }

    /// The buffer's bytes.
    pub fn as_bytes(&self) -> (r: &[u8])
        ensures
            r@ == self.pixels@,
    {
        self.pixels.as_slice()
    }

    /// Composite `source` (straight alpha, same size) over this buffer
    /// pixel by pixel; a buffer of another size changes nothing.
    pub fn blend_buffer(&mut self, source: &RenderBuffer)
        requires
            old(self).wf(),
            source.wf(),
        ensures
            final(self).wf(),
            final(self).width == old(self).width,
            final(self).height == old(self).height,
            old(self).width != source.width || old(self).height != source.height ==> final(self).pixels@
                == old(self).pixels@,
            old(self).width == source.width && old(self).height == source.height ==> forall|i: int|
                0 <= i < old(self).width * old(self).height ==> #[trigger] pixel_at(
                    final(self).pixels@,
                    4 * i,
                ) == over_pixel(
                    pixel_at(old(self).pixels@, 4 * i),
                    source.pixels@[4 * i],
                    source.pixels@[4 * i + 1],
                    source.pixels@[4 * i + 2],
                    source.pixels@[4 * i + 3],
                ),
    {
        if self.width != source.width || self.height != source.height {
            return;
        }
        let ghost orig = self.pixels@;
        let n = self.pixels.len() / 4;
        assert(n == self.width * self.height);
        let mut i: usize = 0;
        while i < n
            invariant
                0 <= i <= n,
                n * 4 == orig.len(),
                n == self.width * self.height,
                n <= MAX_BUFFER_PIXELS,
                self.width == old(self).width,
                self.height == old(self).height,
                self.width == source.width,
                self.height == source.height,
                source.pixels@.len() == orig.len(),
                orig == old(self).pixels@,
                self.pixels@.len() == orig.len(),
                forall|j: int| 0 <= j < i ==> #[trigger] pixel_at(self.pixels@, 4 * j) == over_pixel(
                    pixel_at(orig, 4 * j),
                    source.pixels@[4 * j],
                    source.pixels@[4 * j + 1],
                    source.pixels@[4 * j + 2],
                    source.pixels@[4 * j + 3],
                ),
                forall|j: int| i <= j < n ==> #[trigger] pixel_at(self.pixels@, 4 * j) == pixel_at(orig, 4 * j),
            decreases n - i,
        {
            let idx = i * 4;
            let ghost before = self.pixels@;
            let ghost px = over_pixel(
                pixel_at(orig, idx as int),
                source.pixels@[idx as int],
                source.pixels@[idx + 1],
                source.pixels@[idx + 2],
                source.pixels@[idx + 3],
            );
            assert(idx as int == 4 * i);
            assert(pixel_at(before, 4 * i) == pixel_at(orig, 4 * i));
            let alpha = source.pixels[idx + 3];
            if alpha != 0 {
                self.blend_at(
                    idx,
                    source.pixels[idx],
                    source.pixels[idx + 1],
                    source.pixels[idx + 2],
                    alpha,
                );
            }
            proof {
                if alpha != 0 {
                    lemma_put_pixel_same(before, idx as int, px);
                    assert forall|j: int| 0 <= j < n && j != i implies #[trigger] pixel_at(
                        self.pixels@,
                        4 * j,
                    ) == pixel_at(before, 4 * j) by {
                        lemma_put_pixel_other(before, idx as int, px, 4 * j);
                    }
                }
            }
            i += 1;
        }
    }

    /// The part of the rectangle `(x, y, w, h)` inside the buffer.
    pub fn rect_intersection(&self, x: i32, y: i32, w: i32, h: i32) -> (r: Option<(u32, u32, u32, u32)>)
        ensures
            match r {
                Some((x0, y0, x1, y1)) => spec_rect(
                    self.width as int,
                    self.height as int,
                    x as int,
                    y as int,
                    w as int,
                    h as int,
                ) == Some((x0 as int, y0 as int, x1 as int, y1 as int)),
                None => spec_rect(
                    self.width as int,
                    self.height as int,
                    x as int,
                    y as int,
                    w as int,
                    h as int,
                ) is None,
            },
    {
        if w <= 0 || h <= 0 {
            return None;
        }
        let x0: i64 = if (x as i64) > 0 {
            x as i64
        } else {
            0
        };
        let y0: i64 = if (y as i64) > 0 {
            y as i64
        } else {
            0
        };
        let xe: i64 = x as i64 + w as i64;
        let ye: i64 = y as i64 + h as i64;
        let x1: i64 = if xe < self.width as i64 {
            xe
        } else {
            self.width as i64
        };
        let y1: i64 = if ye < self.height as i64 {
            ye
        } else {
            self.height as i64
        };
        if x0 >= x1 || y0 >= y1 {
            return None;
        }
        Some((x0 as u32, y0 as u32, x1 as u32, y1 as u32))
    }

    /// Source-over of `(r, g, b)` at alpha `a` onto every pixel of the
    /// rectangle `(x, y, w, h)` inside the buffer.
    pub fn fill_rect(&mut self, x: i32, y: i32, w: i32, h: i32, r: u8, g: u8, b: u8, a: u8)
        requires
            old(self).wf(),
        ensures
            final(self).wf(),
            final(self).width == old(self).width,
            final(self).height == old(self).height,
            forall|qx: int, qy: int|
                0 <= qx < old(self).width && 0 <= qy < old(self).height ==> #[trigger] pixel_at(
                    final(self).pixels@,
                    pixel_offset(old(self).width as int, qx, qy),
                ) == filled(
                    old(self).pixels@,
                    old(self).width as int,
                    spec_rect(
                        old(self).width as int,
                        old(self).height as int,
                        x as int,
                        y as int,
                        w as int,
                        h as int,
                    ),
                    qx,
                    qy,
                    r,
                    g,
                    b,
                    a,
                ),
    {
        let ghost rect = spec_rect(
            self.width as int,
            self.height as int,
            x as int,
            y as int,
            w as int,
            h as int,
        );
        let ghost orig = self.pixels@;
        let ghost wd = self.width as int;
        if a == 0 {
            return;
        }
        let (x0, y0, x1, y1) = match self.rect_intersection(x, y, w, h) {
            Some(q) => q,
            None => return,
        };
        let mut py = y0;
        while py < y1
            invariant
                self.wf(),
                self.width == old(self).width,
                self.height == old(self).height,
                orig == old(self).pixels@,
                wd == self.width,
                rect == Some((x0 as int, y0 as int, x1 as int, y1 as int)),
                x0 < x1 <= self.width,
                y0 <= py <= y1,
                y1 <= self.height,
                forall|qx: int, qy: int|
                    0 <= qx < wd && 0 <= qy < self.height ==> #[trigger] pixel_at(
                        self.pixels@,
                        pixel_offset(wd, qx, qy),
                    ) == if qy < py {
                        filled(orig, wd, rect, qx, qy, r, g, b, a)
                    } else {
                        pixel_at(orig, pixel_offset(wd, qx, qy))
                    },
            decreases y1 - py,
        {
            let mut px = x0;
            while px < x1
                invariant
                    self.wf(),
                    self.width == old(self).width,
                    self.height == old(self).height,
                    orig == old(self).pixels@,
                    wd == self.width,
                    rect == Some((x0 as int, y0 as int, x1 as int, y1 as int)),
                    x0 <= px <= x1,
                    x1 <= self.width,
                    y0 <= py < y1,
                    y1 <= self.height,
                    forall|qx: int, qy: int|
                        0 <= qx < wd && 0 <= qy < self.height ==> #[trigger] pixel_at(
                            self.pixels@,
                            pixel_offset(wd, qx, qy),
                        ) == if qy < py || (qy == py && qx < px) {
                            filled(orig, wd, rect, qx, qy, r, g, b, a)
                        } else {
                            pixel_at(orig, pixel_offset(wd, qx, qy))
                        },
                decreases x1 - px,
            {
                let ghost before = self.pixels@;
                let ghost off = pixel_offset(wd, px as int, py as int);
                proof {
                    lemma_offset_bounds(wd, self.height as int, px as int, py as int);
                }
                self.blend_pixel(px, py, r, g, b, a);
                proof {
                    let npx = over_pixel(pixel_at(before, off), r, g, b, a);
                    lemma_put_pixel_same(before, off, npx);
                    assert(pixel_at(before, off) == pixel_at(orig, off));
                    assert forall|qx: int, qy: int|
                        0 <= qx < wd && 0 <= qy < self.height && (qx != px || qy != py) implies #[trigger] pixel_at(
                            self.pixels@,
                            pixel_offset(wd, qx, qy),
                        ) == pixel_at(before, pixel_offset(wd, qx, qy)) by {
                        lemma_offset_distinct(wd, px as int, py as int, qx, qy);
                        lemma_offset_bounds(wd, self.height as int, qx, qy);
                        lemma_put_pixel_other(before, off, npx, pixel_offset(wd, qx, qy));
                    }
                }
                px += 1;
            }
            py += 1;
        }
    }
}

} // verus!
