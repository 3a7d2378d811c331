//! Pixel drawing into BGRA row-stride buffers (ARGB8888 in memory on
//! little-endian machines): clearing, clipped rectangles with alpha blending,
//! lines and the panel's own bitmap.

use vstd::prelude::*;

verus! {

/// A colour as red, green, blue and alpha bytes.
#[derive(Debug, Clone, Copy, PartialEq, Eq, Structural)]
pub struct Rgba {
    pub r: u8,
    pub g: u8,
    pub b: u8,
    pub a: u8,
}

/// `v as i32` for a `u32` (two's complement reinterpretation).
pub open spec fn u32_as_i32(v: u32) -> int {
    if v <= i32::MAX { v as int } else { v as int - 0x1_0000_0000 }
}

/// `i32::saturating_add`.
pub open spec fn sat_add_i32(a: int, b: int) -> int {
    if a + b > i32::MAX { i32::MAX as int } else if a + b < i32::MIN { i32::MIN as int } else { a + b }
}

/// Integer division rounding toward zero, as Rust's `/` on signed integers.
pub open spec fn div_trunc(a: int, b: int) -> int {
    if a >= 0 { a / b } else { -((-a) / b) }
}

/// `v / d` on `i32`, for a positive `d`.
pub(crate) fn div_trunc_i32(v: i32, d: i32) -> (r: i32)
    requires
        d > 0,
    ensures
        r == div_trunc(v as int, d as int),
{
    if v >= 0 {
        v / d
    } else {
        let m: i64 = -(v as i64);
        let q: i64 = m / (d as i64);
        assert(q <= m) by (nonlinear_arith)
            requires m >= 0, d >= 1, q == m / (d as i64);
        (-q) as i32
    }
}

pub open spec fn max_int(a: int, b: int) -> int {
    if a >= b { a } else { b }
}

pub open spec fn min_int(a: int, b: int) -> int {
    if a <= b { a } else { b }
}

/// The rectangle `(x, y, w, h)` clipped to a `buf_w` x `buf_h` buffer, as
/// `(x0, y0, x1, y1)` with half-open bounds.
pub open spec fn clip_rect(buf_w: u32, buf_h: u32, x: i32, y: i32, w: u32, h: u32) -> (int, int, int, int) {
    let x0 = max_int(x as int, 0);
    let y0 = max_int(y as int, 0);
    let x1 = max_int(min_int(sat_add_i32(x as int, u32_as_i32(w)), u32_as_i32(buf_w)), 0);
    let y1 = max_int(min_int(sat_add_i32(y as int, u32_as_i32(h)), u32_as_i32(buf_h)), 0);
    (x0, y0, x1, y1)
}

/// The byte value after blending source `s` over destination `d` with
/// source alpha `a`.
pub open spec fn blend(d: u8, s: u8, a: u8) -> u8 {
    ((d as int * (255 - a as int) + s as int * a as int) / 255) as u8
}

/// The buffer after painting the pixel at byte offset `i` with `c`: opaque
/// colours overwrite, translucent ones blend; alpha becomes 255.
pub open spec fn put_pixel(p: Seq<u8>, i: int, c: Rgba) -> Seq<u8> {
    if c.a == 255 {
        p.update(i, c.b).update(i + 1, c.g).update(i + 2, c.r).update(i + 3, 255u8)
    } else {
        p.update(i, blend(p[i], c.b, c.a)).update(i + 1, blend(p[i + 1], c.g, c.a)).update(
            i + 2,
            blend(p[i + 2], c.r, c.a),
        ).update(i + 3, 255u8)
    }
}

/// Painting pixels `x0..x1` of the row starting at byte `row`, left to right.
pub open spec fn paint_row(p: Seq<u8>, row: int, x0: int, x1: int, c: Rgba) -> Seq<u8>
    decreases x1 - x0,
{
    if x1 <= x0 {
        p
    } else {
        put_pixel(paint_row(p, row, x0, x1 - 1, c), row + (x1 - 1) * 4, c)
    }
}

/// Painting rows `y0..y1`, top to bottom, each on columns `x0..x1`.
pub open spec fn paint_rows(p: Seq<u8>, stride: int, y0: int, y1: int, x0: int, x1: int, c: Rgba) -> Seq<u8>
    decreases y1 - y0,
{
    if y1 <= y0 {
        p
    } else {
        paint_row(paint_rows(p, stride, y0, y1 - 1, x0, x1, c), (y1 - 1) * stride, x0, x1, c)
    }
}

/// The buffer after `fill_rect`.
pub open spec fn fill_rect_spec(
    p: Seq<u8>,
    stride: int,
    buf_w: u32,
    buf_h: u32,
    x: i32,
    y: i32,
    w: u32,
    h: u32,
    c: Rgba,
) -> Seq<u8> {
    let (x0, y0, x1, y1) = clip_rect(buf_w, buf_h, x, y, w, h);
    if x0 >= x1 || y0 >= y1 {
        p
    } else {
        paint_rows(p, stride, y0, y1, x0, x1, c)
    }
}

/// Every byte `fill_rect` writes lies inside the buffer.
pub open spec fn fill_rect_in_bounds(
    len: int,
    stride: int,
    buf_w: u32,
    buf_h: u32,
    x: i32,
    y: i32,
    w: u32,
    h: u32,
) -> bool {
    let (x0, y0, x1, y1) = clip_rect(buf_w, buf_h, x, y, w, h);
    x0 >= x1 || y0 >= y1 || (y1 - 1) * stride + (x1 - 1) * 4 + 3 < len
}

proof fn lemma_row_len(p: Seq<u8>, row: int, x0: int, x1: int, c: Rgba)
    requires
        x0 >= 0,
        row >= 0,
        x1 <= x0 || row + (x1 - 1) * 4 + 3 < p.len(),
    ensures
        paint_row(p, row, x0, x1, c).len() == p.len(),
    decreases x1 - x0,
{
    if x1 > x0 {
        lemma_row_len(p, row, x0, x1 - 1, c);
    }
}

proof fn lemma_rows_len(p: Seq<u8>, stride: int, y0: int, y1: int, x0: int, x1: int, c: Rgba)
    requires
        x0 >= 0,
        y0 >= 0,
        stride >= 0,
        x1 <= x0 || y1 <= y0 || (y1 - 1) * stride + (x1 - 1) * 4 + 3 < p.len(),
    ensures
        paint_rows(p, stride, y0, y1, x0, x1, c).len() == p.len(),
    decreases y1 - y0,
{
    if y1 > y0 && x1 > x0 {
        assert((y1 - 2) * stride <= (y1 - 1) * stride) by (nonlinear_arith)
            requires stride >= 0;
        lemma_rows_len(p, stride, y0, y1 - 1, x0, x1, c);
        lemma_row_len(paint_rows(p, stride, y0, y1 - 1, x0, x1, c), (y1 - 1) * stride, x0, x1, c);
    } else if y1 > y0 {
        lemma_rows_len(p, stride, y0, y1 - 1, x0, x1, c);
    }
}

pub(crate) fn as_i32(v: u32) -> (r: i32)
    ensures
        r as int == u32_as_i32(v),
{
    if v <= 0x7fff_ffff {
        v as i32
    } else {
        let d: u32 = v - 0x8000_0000;
        let r: i32 = d as i32;
        r - 0x7fff_ffff - 1
    }
}

fn sat_add(a: i32, b: i32) -> (r: i32)
    ensures
        r as int == sat_add_i32(a as int, b as int),
{
    let s: i64 = a as i64 + b as i64;
    if s > 0x7fff_ffff {
        0x7fff_ffff
    } else if s < -0x8000_0000 {
        -0x7fff_ffff - 1
    } else {
        s as i32
    }
}

fn blend_byte(d: u8, s: u8, a: u8) -> (r: u8)
    ensures
        r == blend(d, s, a),
{
    let src_a = a as u32;
    let dst_a = 255 - src_a;
    assert(d as u32 * dst_a <= 255 * 255 && s as u32 * src_a <= 255 * 255) by (nonlinear_arith)
        requires dst_a <= 255, src_a <= 255, d <= 255, s <= 255;
    assert(d as u32 * dst_a + s as u32 * src_a <= 255 * 255) by (nonlinear_arith)
        requires dst_a + src_a == 255, d <= 255, s <= 255;
    let v = (d as u32 * dst_a + s as u32 * src_a) / 255;
    v as u8
}

fn put_pixel_exec(pixels: &mut Vec<u8>, i: usize, c: Rgba)
    requires
        i + 3 < old(pixels)@.len(),
    ensures
        final(pixels)@ == put_pixel(old(pixels)@, i as int, c),
{
    let n = pixels.len();
    if c.a == 255 {
        pixels.set(i, c.b);
        pixels.set(i + 1, c.g);
        pixels.set(i + 2, c.r);
        pixels.set(i + 3, 255);
    } else {
        let b0 = blend_byte(pixels[i], c.b, c.a);
        let g0 = blend_byte(pixels[i + 1], c.g, c.a);
        let r0 = blend_byte(pixels[i + 2], c.r, c.a);
        pixels.set(i, b0);
        pixels.set(i + 1, g0);
        pixels.set(i + 2, r0);
        pixels.set(i + 3, 255);
    }
}

/// Fills the rectangle `(x, y, w, h)`, clipped to the buffer, with `c`.
pub fn fill_rect(
    pixels: &mut Vec<u8>,
    stride: usize,
    buf_w: u32,
    buf_h: u32,
    x: i32,
    y: i32,
    w: u32,
    h: u32,
    c: Rgba,
)
    requires
        fill_rect_in_bounds(old(pixels)@.len() as int, stride as int, buf_w, buf_h, x, y, w, h),
    ensures
        final(pixels)@ == fill_rect_spec(old(pixels)@, stride as int, buf_w, buf_h, x, y, w, h, c),
{
    let x0i: i32 = if x > 0 { x } else { 0 };
    let y0i: i32 = if y > 0 { y } else { 0 };
    let wi = as_i32(w);
    let hi = as_i32(h);
    let bwi = as_i32(buf_w);
    let bhi = as_i32(buf_h);
    let xe = sat_add(x, wi);
    let ye = sat_add(y, hi);
    let x1a = if xe < bwi { xe } else { bwi };
    let y1a = if ye < bhi { ye } else { bhi };
    let x1i: i32 = if x1a > 0 { x1a } else { 0 };
    let y1i: i32 = if y1a > 0 { y1a } else { 0 };
    let x0 = x0i as usize;
    let y0 = y0i as usize;
    let x1 = x1i as usize;
    let y1 = y1i as usize;
    if x0 >= x1 || y0 >= y1 {
        return;
    }
    let ghost orig = old(pixels)@;
    let n = pixels.len();
    let mut py = y0;
    while py < y1
        invariant
            y0 <= py <= y1,
            x0 < x1,
            n == orig.len(),
            (y1 - 1) * stride + (x1 - 1) * 4 + 3 < orig.len(),
            pixels@ == paint_rows(orig, stride as int, y0 as int, py as int, x0 as int, x1 as int, c),
            pixels@.len() == orig.len(),
        decreases y1 - py,
    {
        assert(py * stride <= (y1 - 1) * stride) by (nonlinear_arith)
            requires py < y1;
        let row = py * stride;
        let ghost before = pixels@;
        let mut px = x0;
        while px < x1
            invariant
                x0 <= px <= x1,
                n == orig.len(),
                row + (x1 - 1) * 4 + 3 < orig.len(),
                before.len() == orig.len(),
                pixels@ == paint_row(before, row as int, x0 as int, px as int, c),
                pixels@.len() == orig.len(),
            decreases x1 - px,
        {
            let i = row + px * 4;
            put_pixel_exec(pixels, i, c);
            px = px + 1;
        }
        py = py + 1;
    }
}

/// Horizontal line from `x0` (inclusive) to `x1` (exclusive) on row `y`.
pub fn hline(
    pixels: &mut Vec<u8>,
    stride: usize,
    buf_w: u32,
    buf_h: u32,
    y: i32,
    x0: i32,
    x1: i32,
    c: Rgba,
)
    requires
        x1 <= x0 || (x1 - x0 <= i32::MAX && fill_rect_in_bounds(
            old(pixels)@.len() as int,
            stride as int,
            buf_w,
            buf_h,
            x0,
            y,
            (x1 - x0) as u32,
            1,
        )),
    ensures
        x1 <= x0 ==> final(pixels)@ == old(pixels)@,
        x0 < x1 ==> final(pixels)@ == fill_rect_spec(old(pixels)@, stride as int, buf_w, buf_h, x0, y, (x1 - x0) as u32, 1, c),
{
    if x1 <= x0 {
        return;
    }
    let w = (x1 - x0) as u32;
    fill_rect(pixels, stride, buf_w, buf_h, x0, y, w, 1, c);
}

/// The buffer after `clear`: every complete 4-byte pixel gets `c` in BGRA
/// order; a trailing partial pixel is left as it was.
pub open spec fn clear_spec(p: Seq<u8>, c: Rgba) -> Seq<u8> {
    Seq::new(
        p.len(),
        |k: int|
            if k < (p.len() / 4) * 4 {
                if k % 4 == 0 {
                    c.b
                } else if k % 4 == 1 {
                    c.g
                } else if k % 4 == 2 {
                    c.r
                } else {
                    c.a
                }
            } else {
                p[k]
            },
    )
}

/// Fills every complete pixel of the buffer with `c`.
pub fn clear(pixels: &mut Vec<u8>, c: Rgba)
    ensures
        final(pixels)@ == clear_spec(old(pixels)@, c),
{
    let ghost orig = old(pixels)@;
    let n = pixels.len();
    let mut i: usize = 0;
    while i + 3 < n
        invariant
            n == orig.len(),
            pixels@.len() == n,
            i % 4 == 0,
            i <= (n / 4) * 4,
            forall|k: int| 0 <= k < i ==> pixels@[k] == clear_spec(orig, c)[k],
            forall|k: int| i <= k < n ==> pixels@[k] == orig[k],
        decreases n - i,
    {
        pixels.set(i, c.b);
        pixels.set(i + 1, c.g);
        pixels.set(i + 2, c.r);
        pixels.set(i + 3, c.a);
        i = i + 4;
    }
    proof {
        assert(pixels@ =~= clear_spec(orig, c));
    }
}

/// In-memory panel bitmap, ARGB8888 (BGRA bytes).
pub struct PanelBitmap {
    pub width: u32,
    pub height: u32,
    pub pixels: Vec<u8>,
    pub dirty: bool,
    pub generation: u64,
}

impl PanelBitmap {
    /// Whether the pixel buffer has exactly `width * height` pixels.
    pub open spec fn wf(&self) -> bool {
        self.pixels@.len() == self.width * self.height * 4
    }

    /// A zeroed, dirty bitmap of `width` x `height`.
    pub fn new(width: u32, height: u32) -> (r: Self)
        requires
            width * height * 4 <= usize::MAX,
        ensures
            r.width == width,
            r.height == height,
            r.pixels@ == Seq::new((width * height * 4) as nat, |_i: int| 0u8),
            r.dirty,
            r.generation == 0,
            r.wf(),
    {
        let len = (width as usize) * (height as usize) * 4;
        let mut pixels: Vec<u8> = Vec::new();
        pixels.resize(len, 0u8);
        proof {
            assert(pixels@ =~= Seq::new((width * height * 4) as nat, |_i: int| 0u8));
        }
        PanelBitmap { width, height, pixels, dirty: true, generation: 0 }
    }

    /// Changes the size: a new size replaces the pixels with zeroes, marks the
    /// bitmap dirty and bumps the generation; the same size changes nothing.
    pub fn resize(&mut self, width: u32, height: u32)
        requires
            width * height * 4 <= usize::MAX,
        ensures
            old(self).width == width && old(self).height == height ==> *final(self) == *old(self),
            !(old(self).width == width && old(self).height == height) ==> {
                &&& final(self).width == width
                &&& final(self).height == height
                &&& final(self).pixels@ == Seq::new((width * height * 4) as nat, |_i: int| 0u8)
                &&& final(self).dirty
                &&& final(self).generation == (if old(self).generation == u64::MAX { 0 } else { old(self).generation + 1 })
                &&& final(self).wf()
            },
    {
        if self.width == width && self.height == height {
            return;
        }
        let len = (width as usize) * (height as usize) * 4;
        self.pixels.clear();
        self.pixels.resize(len, 0u8);
        proof {
            assert(self.pixels@ =~= Seq::new((width * height * 4) as nat, |_i: int| 0u8));
        }
        self.width = width;
        self.height = height;
        self.dirty = true;
        self.generation = self.generation.wrapping_add(1);
    }

    /// Bytes per row.
    pub fn stride(&self) -> (r: usize)
        requires
            self.width * 4 <= usize::MAX,
        ensures
            r == self.width * 4,
    {
        (self.width as usize) * 4
    }
}

// ---------------------------------------------------------------------------
// Buffers that fit their dimensions.

/// A buffer of `buf_w` x `buf_h` pixels, 4 bytes each, rows `stride` apart.
pub open spec fn fits(len: int, stride: int, buf_w: u32, buf_h: u32) -> bool {
    stride == buf_w * 4 && len == buf_w * buf_h * 4
}

/// Every rectangle, once clipped, lies inside a buffer that fits.
pub proof fn lemma_fits_in_bounds(len: int, stride: int, buf_w: u32, buf_h: u32, x: i32, y: i32, w: u32, h: u32)
    requires
        fits(len, stride, buf_w, buf_h),
    ensures
        fill_rect_in_bounds(len, stride, buf_w, buf_h, x, y, w, h),
{
    let (x0, y0, x1, y1) = clip_rect(buf_w, buf_h, x, y, w, h);
    if !(x0 >= x1 || y0 >= y1) {
        assert(x1 <= buf_w && y1 <= buf_h);
        assert((y1 - 1) * stride <= (buf_h - 1) * stride) by (nonlinear_arith)
            requires y1 <= buf_h, stride >= 0, y1 >= 1;
        assert((buf_h - 1) * stride + (buf_w - 1) * 4 + 3 < len) by (nonlinear_arith)
            requires stride == buf_w * 4, len == buf_w * buf_h * 4, buf_w >= 1, buf_h >= 1;
    }
}

pub proof fn lemma_fill_rect_keeps_len(p: Seq<u8>, stride: int, buf_w: u32, buf_h: u32, x: i32, y: i32, w: u32, h: u32, c: Rgba)
    requires
        fill_rect_in_bounds(p.len() as int, stride, buf_w, buf_h, x, y, w, h),
        stride >= 0,
    ensures
        fill_rect_spec(p, stride, buf_w, buf_h, x, y, w, h, c).len() == p.len(),
{
    let (x0, y0, x1, y1) = clip_rect(buf_w, buf_h, x, y, w, h);
    if !(x0 >= x1 || y0 >= y1) {
        lemma_paint_rows_len(p, stride, y0, y1, x0, x1, c);
    }
}

proof fn lemma_paint_row_len(p: Seq<u8>, row: int, x0: int, x1: int, c: Rgba)
    requires
        x1 <= x0 || (0 <= row + x0 * 4 && x0 >= 0 && row + (x1 - 1) * 4 + 3 < p.len()),
    ensures
        paint_row(p, row, x0, x1, c).len() == p.len(),
    decreases x1 - x0,
{
    if x1 > x0 {
        lemma_paint_row_len(p, row, x0, x1 - 1, c);
    }
}

proof fn lemma_paint_rows_len(p: Seq<u8>, stride: int, y0: int, y1: int, x0: int, x1: int, c: Rgba)
    requires
        y1 <= y0 || (x0 < x1 && x0 >= 0 && y0 >= 0 && stride >= 0 && (y1 - 1) * stride + (x1 - 1) * 4 + 3 < p.len()),
    ensures
        paint_rows(p, stride, y0, y1, x0, x1, c).len() == p.len(),
    decreases y1 - y0,
{
    if y1 > y0 {
        assert((y1 - 2) * stride <= (y1 - 1) * stride) by (nonlinear_arith)
            requires stride >= 0;
        lemma_paint_rows_len(p, stride, y0, y1 - 1, x0, x1, c);
        let q = paint_rows(p, stride, y0, y1 - 1, x0, x1, c);
        assert(0 <= (y1 - 1) * stride) by (nonlinear_arith)
            requires stride >= 0, y1 >= 1;
        lemma_paint_row_len(q, (y1 - 1) * stride, x0, x1, c);
    }
}

// ---------------------------------------------------------------------------
// What an opaque fill does to each pixel.

/// Byte `k` (0..4) of an opaque pixel of colour `c` in BGRA order.
pub open spec fn color_byte(c: Rgba, k: int) -> u8 {
    if k == 0 {
        c.b
    } else if k == 1 {
        c.g
    } else if k == 2 {
        c.r
    } else {
        255u8
    }
}

proof fn lemma_paint_row_effect(p: Seq<u8>, row: int, x0: int, x1: int, c: Rgba, i: int)
    requires
        c.a == 255,
        0 <= x0,
        0 <= row,
        x1 <= x0 || row + (x1 - 1) * 4 + 3 < p.len(),
        0 <= i < p.len(),
    ensures
        paint_row(p, row, x0, x1, c).len() == p.len(),
        paint_row(p, row, x0, x1, c)[i] == (if row + x0 * 4 <= i < row + x1 * 4 {
            color_byte(c, (i - row) % 4)
        } else {
            p[i]
        }),
    decreases x1 - x0,
{
    if x1 > x0 {
        lemma_paint_row_effect(p, row, x0, x1 - 1, c, i);
        let q = paint_row(p, row, x0, x1 - 1, c);
        let j = row + (x1 - 1) * 4;
        assert(q.len() == p.len());
        if j <= i < j + 4 {
            assert((i - row) % 4 == i - j);
        }
    }
}

proof fn lemma_paint_rows_effect(
    p: Seq<u8>,
    stride: int,
    y0: int,
    y1: int,
    x0: int,
    x1: int,
    c: Rgba,
    py: int,
    px: int,
    k: int,
)
    requires
        c.a == 255,
        0 <= y0,
        0 <= x0 < x1,
        x1 * 4 <= stride,
        y1 <= y0 || (y1 - 1) * stride + (x1 - 1) * 4 + 3 < p.len(),
        0 <= py,
        0 <= px,
        0 <= k < 4,
        px * 4 + k < stride,
        py * stride + px * 4 + k < p.len(),
    ensures
        paint_rows(p, stride, y0, y1, x0, x1, c).len() == p.len(),
        paint_rows(p, stride, y0, y1, x0, x1, c)[py * stride + px * 4 + k] == (if y0 <= py < y1 && x0 <= px < x1 {
            color_byte(c, k)
        } else {
            p[py * stride + px * 4 + k]
        }),
    decreases y1 - y0,
{
    if y1 > y0 {
        assert((y1 - 2) * stride + (x1 - 1) * 4 + 3 < p.len() || y1 - 1 <= y0) by (nonlinear_arith)
            requires (y1 - 1) * stride + (x1 - 1) * 4 + 3 < p.len(), stride >= 0;
        lemma_paint_rows_effect(p, stride, y0, y1 - 1, x0, x1, c, py, px, k);
        let q = paint_rows(p, stride, y0, y1 - 1, x0, x1, c);
        let row = (y1 - 1) * stride;
        let i = py * stride + px * 4 + k;
        assert(0 <= row) by (nonlinear_arith)
            requires y1 >= 1, stride >= 0, row == (y1 - 1) * stride;
        assert(i - row == (py - (y1 - 1)) * stride + px * 4 + k) by (nonlinear_arith)
            requires row == (y1 - 1) * stride, i == py * stride + px * 4 + k;
        if py < y1 - 1 {
            assert((py - (y1 - 1)) * stride <= -stride) by (nonlinear_arith)
                requires py - (y1 - 1) <= -1, stride >= 0;
        } else if py > y1 - 1 {
            assert((py - (y1 - 1)) * stride >= stride) by (nonlinear_arith)
                requires py - (y1 - 1) >= 1, stride >= 0;
        } else {
            assert((px * 4 + k) % 4 == k);
        }
        lemma_paint_row_effect(q, row, x0, x1, c, i);
    }
}

/// An opaque `fill_rect` on a buffer that fits its dimensions sets every
/// pixel inside the clipped rectangle to the colour (alpha 255) and leaves
/// every other pixel as it was.
pub proof fn law_fill_rect_paints_exactly(
    p: Seq<u8>,
    buf_w: u32,
    buf_h: u32,
    x: i32,
    y: i32,
    w: u32,
    h: u32,
    c: Rgba,
    px: int,
    py: int,
    k: int,
)
    requires
        fits(p.len() as int, buf_w * 4, buf_w, buf_h),
        c.a == 255,
        0 <= px < buf_w,
        0 <= py < buf_h,
        0 <= k < 4,
    ensures
        ({
            let (x0, y0, x1, y1) = clip_rect(buf_w, buf_h, x, y, w, h);
            let q = fill_rect_spec(p, buf_w * 4, buf_w, buf_h, x, y, w, h, c);
            let i = py * (buf_w * 4) + px * 4 + k;
            &&& q.len() == p.len()
            &&& q[i] == (if x0 <= px < x1 && y0 <= py < y1 { color_byte(c, k) } else { p[i] })
        }),
{
    let stride = buf_w * 4;
    let (x0, y0, x1, y1) = clip_rect(buf_w, buf_h, x, y, w, h);
    assert(py * stride + px * 4 + k < p.len()) by (nonlinear_arith)
        requires
            p.len() == buf_w * buf_h * 4,
            stride == buf_w * 4,
            0 <= px < buf_w,
            0 <= py < buf_h,
            0 <= k < 4;
    lemma_fits_in_bounds(p.len() as int, stride, buf_w, buf_h, x, y, w, h);
    if !(x0 >= x1 || y0 >= y1) {
        assert(x1 <= buf_w);
        lemma_paint_rows_effect(p, stride, y0, y1, x0, x1, c, py, px, k);
    }
}

} // verus!
