//! The image compositor: an RGBA bitmap scaled, placed or tiled into an
//! XRGB8888 frame of an output's size, over a background colour.

use vstd::prelude::*;
use crate::spec::{pack_xrgb, Mode, Rgb};

verus! {

/// An 8-bit RGBA bitmap, row-major, four bytes per pixel.
pub struct Bitmap {
    width: u32,
    height: u32,
    data: Vec<u8>,
}

/// Mathematical value of a bitmap.
pub struct BitmapView {
    pub width: u32,
    pub height: u32,
    pub data: Seq<u8>,
}

/// One RGBA pixel.
pub struct Rgba {
    pub r: u8,
    pub g: u8,
    pub b: u8,
    pub a: u8,
}

impl BitmapView {
    /// A bitmap holds exactly four bytes per pixel.
    pub open spec fn wf(self) -> bool {
        self.data.len() == self.width as int * self.height as int * 4
    }

    /// The pixel in column `x` of row `y`.
    pub open spec fn pixel(self, x: int, y: int) -> Rgba {
        let at = (y * self.width as int + x) * 4;
        Rgba { r: self.data[at], g: self.data[at + 1], b: self.data[at + 2], a: self.data[at + 3] }
    }

    /// Whether the bitmap has no pixel.
    pub open spec fn is_empty(self) -> bool {
        self.width == 0 || self.height == 0
    }
}

impl View for Bitmap {
    type V = BitmapView;

    closed spec fn view(&self) -> BitmapView {
        BitmapView { width: self.width, height: self.height, data: self.data@ }
    }
}

proof fn lemma_pixel_index(w: int, h: int, x: int, y: int)
    requires
        0 <= x < w,
        0 <= y < h,
    ensures
        0 <= y * w + x < w * h,
        0 <= (y * w + x) * 4,
        (y * w + x) * 4 + 3 < w * h * 4,
        0 <= y * w,
{
    assert(0 <= y * w && y * w + w <= h * w) by (nonlinear_arith)
        requires
            0 <= y < h,
            0 < w,
    ;
}

impl Bitmap {
    #[verifier::type_invariant]
    spec fn inv(self) -> bool {
        self.data.len() == self.width as int * self.height as int * 4
    }

    /// A bitmap of the given size over the given bytes, if there are
    /// exactly four bytes per pixel.
    pub fn new(width: u32, height: u32, data: Vec<u8>) -> (b: Option<Bitmap>)
        ensures
            b is Some == (data.len() == width as int * height as int * 4),
            b is Some ==> b.unwrap()@ == (BitmapView { width, height, data: data@ }),
    {
        assert(width as int * height as int <= 0xFFFF_FFFF * 0xFFFF_FFFF) by (nonlinear_arith)
            requires
                0 <= width <= 0xFFFF_FFFF,
                0 <= height <= 0xFFFF_FFFF,
        ;
        let want: u128 = (width as u128) * (height as u128) * 4;
        if data.len() as u128 == want {
            Some(Bitmap { width, height, data })
        } else {
            None
        }
    }

    /// Width in pixels.
    pub fn width(&self) -> (w: u32)
        ensures
            w == self@.width,
    {
        self.width
    }

    /// Height in pixels.
    pub fn height(&self) -> (h: u32)
        ensures
            h == self@.height,
    {
        self.height
    }

    /// The bytes of the bitmap.
    pub fn data(&self) -> (d: &Vec<u8>)
        ensures
            d@ == self@.data,
            self@.wf(),
    {
        proof {
            use_type_invariant(self);
        }
        &self.data
    }

    /// The pixel in column `x` of row `y`.
    pub fn get_pixel(&self, x: u32, y: u32) -> (px: Rgba)
        requires
            x < self@.width,
            y < self@.height,
        ensures
            px == self@.pixel(x as int, y as int),
            self@.wf(),
    {
        proof {
            use_type_invariant(self);
            lemma_pixel_index(self.width as int, self.height as int, x as int, y as int);
        }
        let at: usize = ((y as usize) * (self.width as usize) + (x as usize)) * 4;
        Rgba { r: self.data[at], g: self.data[at + 1], b: self.data[at + 2], a: self.data[at + 3] }
    }
}

/// One channel of a source pixel of alpha `a` over a background channel.
pub open spec fn over_channel(c: u8, a: u8, bg: u8) -> u8 {
    ((c as int * a as int + bg as int * (255 - a as int)) / 255) as u8
}

/// A source pixel composited over the background: the source where it is
/// opaque, the background where it is clear, the weighted mean between.
pub open spec fn composite(px: Rgba, bg: Rgb) -> u32 {
    if px.a >= 255 {
        pack_xrgb(px.r, px.g, px.b)
    } else if px.a == 0 {
        bg.pixel()
    } else {
        pack_xrgb(
            over_channel(px.r, px.a, bg.r),
            over_channel(px.g, px.a, bg.g),
            over_channel(px.b, px.a, bg.b),
        )
    }
}

fn over(c: u8, a: u8, bg: u8) -> (out: u8)
    ensures
        out == over_channel(c, a, bg),
{
    let cc: u32 = c as u32;
    let aa: u32 = a as u32;
    let bb: u32 = bg as u32;
    assert(cc * aa <= 255 * 255) by (nonlinear_arith)
        requires
            0 <= cc <= 255,
            0 <= aa <= 255,
    ;
    assert(bb * (255 - aa) <= 255 * 255) by (nonlinear_arith)
        requires
            0 <= bb <= 255,
            0 <= aa <= 255,
    ;
    ((cc * aa + bb * (255 - aa)) / 255) as u8
}

/// Composites one RGBA pixel over the background colour.
pub fn composite_rgba_over_bg(px: Rgba, bg: Rgb) -> (out: u32)
    ensures
        out == composite(px, bg),
{
    if px.a == 255 {
        (Rgb { r: px.r, g: px.g, b: px.b }).xrgb8888()
    } else if px.a == 0 {
        bg.xrgb8888()
    } else {
        (Rgb { r: over(px.r, px.a, bg.r), g: over(px.g, px.a, bg.g), b: over(px.b, px.a, bg.b) })
            .xrgb8888()
    }
}


/// The source pixel that a blit at offset `(ox, oy)` shows at `(x, y)` of
/// the destination, if the source covers that place.
pub open spec fn blit_source(src: BitmapView, ox: int, oy: int, x: int, y: int) -> Option<Rgba> {
    let sx = x - ox;
    let sy = y - oy;
    if 0 <= sx < src.width && 0 <= sy < src.height {
        Some(src.pixel(sx, sy))
    } else {
        None
    }
}

/// A frame of rows of `out_w` pixels after `src` was composited onto it at
/// offset `(ox, oy)`: what the source covers shows the source over the
/// background, the rest is as before.
pub open spec fn blit_result(out: Seq<u32>, out_w: int, src: BitmapView, ox: int, oy: int, bg: Rgb) -> Seq<
    u32,
> {
    Seq::new(
        out.len(),
        |i: int|
            match blit_source(src, ox, oy, i % out_w, i / out_w) {
                Some(px) => composite(px, bg),
                None => out[i],
            },
    )
}

/// A frame of rows of `out_w` pixels after `src` was repeated over all of
/// it; an empty source changes nothing.
pub open spec fn tile_result(out: Seq<u32>, out_w: int, src: BitmapView, bg: Rgb) -> Seq<u32> {
    if src.is_empty() {
        out
    } else {
        Seq::new(
            out.len(),
            |i: int|
                composite(
                    src.pixel((i % out_w) % (src.width as int), (i / out_w) % (src.height as int)),
                    bg,
                ),
        )
    }
}

/// Row and column of an index in a frame of rows of `w` pixels.
proof fn lemma_row_of_index(w: int, y: int, k: int)
    requires
        0 < w,
        0 <= y,
        0 <= k < w,
    ensures
        (y * w + k) / w == y,
        (y * w + k) % w == k,
        0 <= y * w,
{
    vstd::arithmetic::div_mod::lemma_fundamental_div_mod_converse(y * w + k, w, y, k);
}

/// An index of a `w` by `h` frame lies in one of its rows.
proof fn lemma_index_in_frame(w: int, h: int, i: int)
    requires
        0 < w,
        0 <= h,
        0 <= i < w * h,
    ensures
        0 <= i / w < h,
        0 <= i % w < w,
        i == (i / w) * w + i % w,
{
    vstd::arithmetic::div_mod::lemma_fundamental_div_mod(i, w);
    let q = i / w;
    assert(w * q == q * w) by (nonlinear_arith);
    assert(q < h) by (nonlinear_arith)
        requires
            0 < w,
            i < w * h,
            i == q * w + i % w,
            0 <= i % w,
    ;
}

fn max_i64(a: i64, b: i64) -> (m: i64)
    ensures
        m == (if a >= b {
            a
        } else {
            b
        }),
{
    if a >= b {
        a
    } else {
        b
    }
}

fn min_i64(a: i64, b: i64) -> (m: i64)
    ensures
        m == (if a <= b {
            a
        } else {
            b
        }),
{
    if a <= b {
        a
    } else {
        b
    }
}

/// Composites `src` onto a frame of `out_w` by `out_h` pixels with its top
/// left corner at `(ox, oy)`, which may lie outside the frame: what falls
/// outside is clipped.
pub fn blit_rgba_into_xrgb(
    out: &mut Vec<u32>,
    out_w: u32,
    out_h: u32,
    src: &Bitmap,
    ox: i64,
    oy: i64,
    bg: Rgb,
)
    requires
        old(out).len() == out_w as int * out_h as int,
        -0x1_0000_0000 <= ox <= 0x1_0000_0000,
        -0x1_0000_0000 <= oy <= 0x1_0000_0000,
    ensures
        final(out)@ == blit_result(old(out)@, out_w as int, src@, ox as int, oy as int, bg),
{
    let sw: i64 = src.width() as i64;
    let sh: i64 = src.height() as i64;
    let x0: i64 = max_i64(ox, 0);
    let y0: i64 = max_i64(oy, 0);
    let x1: i64 = min_i64(ox + sw, out_w as i64);
    let y1: i64 = min_i64(oy + sh, out_h as i64);
    let ghost w = out_w as int;
    let ghost h = out_h as int;
    let ghost want = blit_result(old(out)@, w, src@, ox as int, oy as int, bg);
    if x1 <= x0 || y1 <= y0 {
        proof {
            assert forall|i: int| 0 <= i < out.len() implies out[i] == want[i] by {
                if w > 0 {
                    lemma_index_in_frame(w, h, i);
                }
            }
        }
        return ;
    }
    let mut y: i64 = y0;
    while y < y1
        invariant
            0 <= y0 <= y <= y1 <= out_h,
            0 <= x0 < x1 <= out_w,
            w == out_w,
            h == out_h,
            w > 0,
            sw == src@.width,
            sh == src@.height,
            x0 == (if ox >= 0 {
                ox
            } else {
                0
            }),
            y0 == (if oy >= 0 {
                oy
            } else {
                0
            }),
            x1 == (if ox + sw <= out_w {
                ox + sw
            } else {
                out_w as int
            }),
            y1 == (if oy + sh <= out_h {
                oy + sh
            } else {
                out_h as int
            }),
            out.len() == w * h,
            out.len() == old(out).len(),
            want == blit_result(old(out)@, w, src@, ox as int, oy as int, bg),
            want.len() == out.len(),
            forall|i: int| 0 <= i < out.len() && y0 <= i / w < y ==> out[i] == want[i],
            forall|i: int| 0 <= i < out.len() && !(y0 <= i / w < y) ==> out[i] == old(out)[i],
        decreases y1 - y,
    {
        proof {
            lemma_pixel_index(w, h, 0, y as int);
        }
        let row: usize = (y as usize) * (out_w as usize);
        let ghost row_start = out@;
        let mut x: i64 = x0;
        while x < x1
            invariant
                0 <= y0 <= y < y1 <= out_h,
                0 <= x0 <= x <= x1 <= out_w,
                w == out_w,
                h == out_h,
                w > 0,
                sw == src@.width,
                sh == src@.height,
                x0 == (if ox >= 0 {
                    ox
                } else {
                    0
                }),
                y0 == (if oy >= 0 {
                    oy
                } else {
                    0
                }),
                x1 == (if ox + sw <= out_w {
                    ox + sw
                } else {
                    out_w as int
                }),
                y1 == (if oy + sh <= out_h {
                    oy + sh
                } else {
                    out_h as int
                }),
                row == y * w,
                out.len() == w * h,
                out.len() == row_start.len(),
                want == blit_result(old(out)@, w, src@, ox as int, oy as int, bg),
                want.len() == out.len(),
                forall|i: int| row + x0 <= i < row + x ==> out[i] == want[i],
                forall|i: int|
                    0 <= i < out.len() && !(row + x0 <= i < row + x) ==> out[i] == row_start[i],
            decreases x1 - x,
        {
            proof {
                lemma_pixel_index(w, h, x as int, y as int);
                lemma_row_of_index(w, y as int, x as int);
            }
            let px = src.get_pixel((x - ox) as u32, (y - oy) as u32);
            out.set(row + (x as usize), composite_rgba_over_bg(px, bg));
            x += 1;
        }
        proof {
            assert forall|i: int| 0 <= i < out.len() && y0 <= i / w < y + 1 implies out[i]
                == want[i] by {
                lemma_index_in_frame(w, h, i);
            }
            assert forall|i: int| 0 <= i < out.len() && !(y0 <= i / w < y + 1) implies out[i]
                == old(out)[i] by {
                assert(!(row + x0 <= i < row + x1)) by {
                    if row + x0 <= i < row + x1 {
                        lemma_row_of_index(w, y as int, i - row);
                    }
                }
            }
        }
        y += 1;
    }
    proof {
        assert forall|i: int| 0 <= i < out.len() implies out[i] == want[i] by {
            lemma_index_in_frame(w, h, i);
        }
    }
}

/// Composites onto the frame the part of `src` that begins at
/// `(crop_x, crop_y)`.
pub fn blit_rgba_crop_into_xrgb(
    out: &mut Vec<u32>,
    out_w: u32,
    out_h: u32,
    src: &Bitmap,
    crop_x: u32,
    crop_y: u32,
    bg: Rgb,
)
    requires
        old(out).len() == out_w as int * out_h as int,
    ensures
        final(out)@ == blit_result(
            old(out)@,
            out_w as int,
            src@,
            -(crop_x as int),
            -(crop_y as int),
            bg,
        ),
{
    blit_rgba_into_xrgb(out, out_w, out_h, src, -(crop_x as i64), -(crop_y as i64), bg);
}

/// Repeats `src` over the whole frame, from the top left corner.
pub fn tile_rgba_into_xrgb(out: &mut Vec<u32>, out_w: u32, out_h: u32, src: &Bitmap, bg: Rgb)
    requires
        old(out).len() == out_w as int * out_h as int,
    ensures
        final(out)@ == tile_result(old(out)@, out_w as int, src@, bg),
{
    let sw = src.width();
    let sh = src.height();
    if sw == 0 || sh == 0 {
        return ;
    }
    let ghost w = out_w as int;
    let ghost h = out_h as int;
    let ghost want = tile_result(old(out)@, w, src@, bg);
    let mut y: u32 = 0;
    while y < out_h
        invariant
            y <= out_h,
            w == out_w,
            h == out_h,
            sw == src@.width,
            sh == src@.height,
            sw > 0,
            sh > 0,
            out.len() == w * h,
            want == tile_result(old(out)@, w, src@, bg),
            want.len() == out.len(),
            forall|i: int| 0 <= i < out.len() && i / w < y ==> out[i] == want[i],
        decreases out_h - y,
    {
        let sy = y % sh;
        let mut x: u32 = 0;
        proof {
            if out_w > 0 {
                lemma_pixel_index(w, h, 0, y as int);
            }
        }
        let row: usize = (y as usize) * (out_w as usize);
        while x < out_w
            invariant
                y < out_h,
                x <= out_w,
                w == out_w,
                h == out_h,
                sw == src@.width,
                sh == src@.height,
                sw > 0,
                sh > 0,
                sy == y % sh,
                row == y * w,
                out.len() == w * h,
                want == tile_result(old(out)@, w, src@, bg),
                want.len() == out.len(),
                forall|i: int| 0 <= i < out.len() && i / w < y ==> out[i] == want[i],
                forall|i: int| row <= i < row + x ==> out[i] == want[i],
            decreases out_w - x,
        {
            proof {
                lemma_pixel_index(w, h, x as int, y as int);
                lemma_row_of_index(w, y as int, x as int);
            }
            let px = src.get_pixel(x % sw, sy);
            out.set(row + (x as usize), composite_rgba_over_bg(px, bg));
            x += 1;
        }
        proof {
            assert forall|i: int| 0 <= i < out.len() && i / w < y + 1 implies out[i] == want[i] by {
                lemma_index_in_frame(w, h, i);
            }
        }
        y += 1;
    }
    proof {
        assert forall|i: int| 0 <= i < out.len() implies out[i] == want[i] by {
            if w > 0 {
                lemma_index_in_frame(w, h, i);
            }
        }
    }
}


/// `p / q` rounded to the nearest integer, a half to the even neighbour.
pub open spec fn div_round(p: int, q: int) -> int {
    let d = p / q;
    let r = p % q;
    if 2 * r < q {
        d
    } else if 2 * r > q {
        d + 1
    } else if d % 2 == 0 {
        d
    } else {
        d + 1
    }
}

/// `v` held to the range of a `u32` and to at least `least`.
pub open spec fn held(v: int, least: int) -> int {
    let m = if v >= least {
        v
    } else {
        least
    };
    if m > u32::MAX {
        u32::MAX as int
    } else {
        m
    }
}

/// The size of a `sw` by `sh` source scaled uniformly to lie within
/// `dw` by `dh`: the scale is the smaller of `dw / sw` and `dh / sh`, each
/// side is rounded to the nearest pixel (a half to the even one) and is at
/// least one pixel.
pub open spec fn fit_size(sw: int, sh: int, dw: int, dh: int) -> (int, int) {
    if dw * sh <= dh * sw {
        (held(dw, 1), held(div_round(sh * dw, sw), 1))
    } else {
        (held(div_round(sw * dh, sh), 1), held(dh, 1))
    }
}

/// The size of a `sw` by `sh` source scaled uniformly to cover `dw` by
/// `dh`: the scale is the larger of `dw / sw` and `dh / sh`, each side is
/// rounded to the nearest pixel and is at least the destination's.
pub open spec fn cover_size(sw: int, sh: int, dw: int, dh: int) -> (int, int) {
    if dw * sh >= dh * sw {
        (held(dw, 1), held(div_round(sh * dw, sw), held(dh, 1)))
    } else {
        (held(div_round(sw * dh, sh), held(dw, 1)), held(dh, 1))
    }
}

/// Half of what is left of `d` beside `r`, never negative.
pub open spec fn margin(d: int, r: int) -> int {
    if d >= r {
        (d - r) / 2
    } else {
        0
    }
}

/// Where a source of extent `s` is placed to be centred in `d`; negative
/// where the source is the larger.
pub open spec fn centre_offset(d: int, s: int) -> int {
    if d >= s {
        (d - s) / 2
    } else {
        -((s - d) / 2)
    }
}

fn scaled_side(side: u32, num: u32, den: u32, least: u32) -> (r: u32)
    requires
        den > 0,
        least >= 1,
    ensures
        r == held(div_round(side as int * num as int, den as int), least as int),
{
    assert(side as int * num as int <= 0xFFFF_FFFF * 0xFFFF_FFFF) by (nonlinear_arith)
        requires
            0 <= side <= 0xFFFF_FFFF,
            0 <= num <= 0xFFFF_FFFF,
    ;
    let p: u128 = (side as u128) * (num as u128);
    let q: u128 = den as u128;
    let d: u128 = p / q;
    let r: u128 = p % q;
    let v: u128 = if 2 * r < q {
        d
    } else if 2 * r > q {
        d + 1
    } else if d % 2 == 0 {
        d
    } else {
        d + 1
    };
    let m: u128 = if v >= least as u128 {
        v
    } else {
        least as u128
    };
    if m > 0xFFFF_FFFF {
        0xFFFF_FFFF
    } else {
        m as u32
    }
}

fn at_least_one(v: u32) -> (r: u32)
    ensures
        r == held(v as int, 1),
{
    if v == 0 {
        1
    } else {
        v
    }
}

fn wider(sw: u32, sh: u32, dw: u32, dh: u32) -> (r: (bool, bool))
    ensures
        r.0 == (dw as int * sh as int <= dh as int * sw as int),
        r.1 == (dw as int * sh as int >= dh as int * sw as int),
{
    assert(dw as int * sh as int <= 0xFFFF_FFFF * 0xFFFF_FFFF) by (nonlinear_arith)
        requires
            0 <= dw <= 0xFFFF_FFFF,
            0 <= sh <= 0xFFFF_FFFF,
    ;
    assert(dh as int * sw as int <= 0xFFFF_FFFF * 0xFFFF_FFFF) by (nonlinear_arith)
        requires
            0 <= dh <= 0xFFFF_FFFF,
            0 <= sw <= 0xFFFF_FFFF,
    ;
    let a: u128 = (dw as u128) * (sh as u128);
    let b: u128 = (dh as u128) * (sw as u128);
    (a <= b, a >= b)
}

/// The letterbox of a source in a destination: the scaled size and the
/// offset that centres it.
pub fn fit_rect(sw: u32, sh: u32, dw: u32, dh: u32) -> (r: (u32, u32, u32, u32))
    requires
        sw > 0,
        sh > 0,
    ensures
        (r.0 as int, r.1 as int) == fit_size(sw as int, sh as int, dw as int, dh as int),
        r.2 == margin(dw as int, r.0 as int),
        r.3 == margin(dh as int, r.1 as int),
{
    let (narrow, _) = wider(sw, sh, dw, dh);
    let (rw, rh) = if narrow {
        (at_least_one(dw), scaled_side(sh, dw, sw, 1))
    } else {
        (scaled_side(sw, dh, sh, 1), at_least_one(dh))
    };
    let ox = if dw >= rw {
        (dw - rw) / 2
    } else {
        0
    };
    let oy = if dh >= rh {
        (dh - rh) / 2
    } else {
        0
    };
    (rw, rh, ox, oy)
}

/// The size of a source scaled to cover a destination.
pub fn fill_size(sw: u32, sh: u32, dw: u32, dh: u32) -> (r: (u32, u32))
    requires
        sw > 0,
        sh > 0,
    ensures
        (r.0 as int, r.1 as int) == cover_size(sw as int, sh as int, dw as int, dh as int),
{
    let (_, wide) = wider(sw, sh, dw, dh);
    if wide {
        (at_least_one(dw), scaled_side(sh, dw, sw, at_least_one(dh)))
    } else {
        (scaled_side(sw, dh, sh, at_least_one(dw)), at_least_one(dh))
    }
}

/// The bytes of a bitmap resized with the triangle filter: a function of
/// the source's bytes and size and of the new size.
pub uninterp spec fn triangle_resized(
    data: Seq<u8>,
    width: u32,
    height: u32,
    new_width: u32,
    new_height: u32,
) -> Seq<u8>;

/// The bitmap that resizing `src` to `nw` by `nh` gives.
pub open spec fn resized(src: BitmapView, nw: u32, nh: u32) -> BitmapView {
    BitmapView {
        width: nw,
        height: nh,
        data: triangle_resized(src.data, src.width, src.height, nw, nh),
    }
}

/// The longest side, in pixels, that a resize takes or gives.
pub const MAX_RESIZE_SIDE: u32 = 0x40_0000;

/// Whether a `sw` by `sh` bitmap can be resized to `nw` by `nh`: no side,
/// of the source or of the result, is longer than `MAX_RESIZE_SIDE`, and
/// the buffers can be allocated: the result of four bytes per pixel, and
/// the intermediate of sixteen bytes per pixel at the source's width and
/// the new height.
pub open spec fn resize_fits(sw: u32, sh: u32, nw: u32, nh: u32) -> bool {
    &&& sw <= MAX_RESIZE_SIDE
    &&& sh <= MAX_RESIZE_SIDE
    &&& nw <= MAX_RESIZE_SIDE
    &&& nh <= MAX_RESIZE_SIDE
    &&& 4 * (nw as int * nh as int) <= isize::MAX
    &&& 16 * (sw as int * nh as int) <= isize::MAX
}

/// Resizes with `image::imageops::resize` and `FilterType::Triangle`. The
/// result has the size asked for and four bytes per pixel; its bytes are
/// what that function computes from the source's bytes and the two sizes,
/// and a resize to the source's own size is a copy.
///
/// The sides are limited because that function places its samples in
/// single precision and divides each pixel's weights by their sum, which
/// must not be zero. A single-precision number holds every integer up to
/// 2^24 and every half up to 2^23. With all four sides within
/// `MAX_RESIZE_SIDE`, which is 2^22, an output index plus a half is held
/// exactly; the sample position, that number times the rounded ratio of
/// the sides, is rounded to no more than the source's extent; and taking a
/// half from it is exact, or lands between minus a half and zero. So the
/// source pixel under the sample (the last one, for a sample on the far
/// edge) lies within the span the filter reads and at most half a pixel
/// from the sample: its weight is a half at least, and the sum is not
/// zero. With longer sides the halves are rounded away, a weight sum can be
/// zero, and the call panics.
#[verifier::external_body]
fn resize_triangle(src: &Bitmap, new_width: u32, new_height: u32) -> (out: Bitmap)
    requires
        !src@.is_empty(),
        resize_fits(src@.width, src@.height, new_width, new_height),
    ensures
        out@.width == new_width,
        out@.height == new_height,
        out@.data == triangle_resized(
            src@.data,
            src@.width,
            src@.height,
            new_width,
            new_height,
        ),
        out@.wf(),
        new_width == src@.width && new_height == src@.height ==> out@.data == src@.data,
{
    let img: image::ImageBuffer<image::Rgba<u8>, &[u8]> = image::ImageBuffer::from_raw(
        src.width,
        src.height,
        src.data.as_slice(),
    ).unwrap();
    let out = image::imageops::resize(
        &img,
        new_width,
        new_height,
        image::imageops::FilterType::Triangle,
    );
    Bitmap { width: new_width, height: new_height, data: out.into_raw() }
}

/// The frame filled with the background.
pub open spec fn background(dw: u32, dh: u32, bg: Rgb) -> Seq<u32> {
    Seq::new((dw as int * dh as int) as nat, |i: int| bg.pixel())
}

/// The size the source is resized to for a mode, where the mode resizes.
pub open spec fn scaled_size(dw: u32, dh: u32, src: BitmapView, mode: Mode) -> Option<(int, int)> {
    if src.is_empty() {
        None
    } else {
        match mode {
            Mode::Stretch => Some((dw as int, dh as int)),
            Mode::Fit => Some(fit_size(src.width as int, src.height as int, dw as int, dh as int)),
            Mode::Fill => Some(
                cover_size(src.width as int, src.height as int, dw as int, dh as int),
            ),
            Mode::Center => None,
            Mode::Tile => None,
        }
    }
}

/// Whether a frame of `dw` by `dh` can be rendered from `src` in `mode`:
/// the frame can be allocated and, where the mode resizes, the source can
/// be resized to the size the mode asks for.
pub open spec fn render_fits(dw: u32, dh: u32, src: BitmapView, mode: Mode) -> bool {
    &&& 4 * (dw as int * dh as int) <= isize::MAX
    &&& match scaled_size(dw, dh, src, mode) {
        Some((rw, rh)) => resize_fits(src.width, src.height, rw as u32, rh as u32),
        None => true,
    }
}

/// The frame of `dw` by `dh` pixels that shows `src` in `mode` over `bg`.
/// An empty source leaves the background. Stretch resizes to the frame;
/// fit resizes to lie within it, centred; fill resizes to cover it and
/// shows the centre; centre places the source unscaled, clipped where it
/// is larger; tile repeats it from the top left.
pub open spec fn render_spec(dw: u32, dh: u32, src: BitmapView, mode: Mode, bg: Rgb) -> Seq<u32> {
    let base = background(dw, dh, bg);
    let w = dw as int;
    if src.is_empty() {
        base
    } else {
        match mode {
            Mode::Stretch => blit_result(base, w, resized(src, dw, dh), 0, 0, bg),
            Mode::Fit => {
                let (rw, rh) = fit_size(src.width as int, src.height as int, w, dh as int);
                blit_result(
                    base,
                    w,
                    resized(src, rw as u32, rh as u32),
                    margin(w, rw),
                    margin(dh as int, rh),
                    bg,
                )
            },
            Mode::Fill => {
                let (rw, rh) = cover_size(src.width as int, src.height as int, w, dh as int);
                blit_result(
                    base,
                    w,
                    resized(src, rw as u32, rh as u32),
                    -margin(rw, w),
                    -margin(rh, dh as int),
                    bg,
                )
            },
            Mode::Center => blit_result(
                base,
                w,
                src,
                centre_offset(w, src.width as int),
                centre_offset(dh as int, src.height as int),
                bg,
            ),
            Mode::Tile => tile_result(base, w, src, bg),
        }
    }
}

fn fits_bytes(a: u32, b: u32, unit: u128) -> (r: bool)
    requires
        unit == 4 || unit == 16,
    ensures
        r == (unit * (a as int * b as int) <= isize::MAX),
{
    assert(a as int * b as int <= 0xFFFF_FFFF * 0xFFFF_FFFF) by (nonlinear_arith)
        requires
            0 <= a <= 0xFFFF_FFFF,
            0 <= b <= 0xFFFF_FFFF,
    ;
    unit * ((a as u128) * (b as u128)) <= isize::MAX as u128
}

fn can_resize(sw: u32, sh: u32, nw: u32, nh: u32) -> (r: bool)
    ensures
        r == resize_fits(sw, sh, nw, nh),
{
    sw <= MAX_RESIZE_SIDE && sh <= MAX_RESIZE_SIDE && nw <= MAX_RESIZE_SIDE && nh
        <= MAX_RESIZE_SIDE && fits_bytes(nw, nh, 4) && fits_bytes(sw, nh, 16)
}

/// Whether a frame of `dw` by `dh` can be rendered from `src` in `mode`.
pub fn can_render(dw: u32, dh: u32, src: &Bitmap, mode: Mode) -> (r: bool)
    ensures
        r == render_fits(dw, dh, src@, mode),
{
    if !fits_bytes(dw, dh, 4) {
        return false;
    }
    let sw = src.width();
    let sh = src.height();
    if sw == 0 || sh == 0 {
        return true;
    }
    match mode {
        Mode::Stretch => can_resize(sw, sh, dw, dh),
        Mode::Fit => {
            let (rw, rh, _, _) = fit_rect(sw, sh, dw, dh);
            can_resize(sw, sh, rw, rh)
        },
        Mode::Fill => {
            let (rw, rh) = fill_size(sw, sh, dw, dh);
            can_resize(sw, sh, rw, rh)
        },
        Mode::Center => true,
        Mode::Tile => true,
    }
}

/// Renders `src` into a new frame of `dw` by `dh` pixels.
pub fn render_final_frame_u32(dw: u32, dh: u32, src: &Bitmap, mode: Mode, bg: Rgb) -> (out: Vec<u32>)
    requires
        render_fits(dw, dh, src@, mode),
    ensures
        out@ == render_spec(dw, dh, src@, mode, bg),
        out.len() == dw as int * dh as int,
{
    let n: usize = (dw as usize) * (dh as usize);
    let mut out: Vec<u32> = vec![bg.xrgb8888(); n];
    let sw = src.width();
    let sh = src.height();
    if sw == 0 || sh == 0 {
        return out;
    }
    match mode {
        Mode::Stretch => {
            let scaled = resize_triangle(src, dw, dh);
            blit_rgba_into_xrgb(&mut out, dw, dh, &scaled, 0, 0, bg);
        },
        Mode::Fit => {
            let (rw, rh, ox, oy) = fit_rect(sw, sh, dw, dh);
            let scaled = resize_triangle(src, rw, rh);
            blit_rgba_into_xrgb(&mut out, dw, dh, &scaled, ox as i64, oy as i64, bg);
        },
        Mode::Fill => {
            let (rw, rh) = fill_size(sw, sh, dw, dh);
            let scaled = resize_triangle(src, rw, rh);
            let cx: u32 = if rw >= dw {
                (rw - dw) / 2
            } else {
                0
            };
            let cy: u32 = if rh >= dh {
                (rh - dh) / 2
            } else {
                0
            };
            blit_rgba_crop_into_xrgb(&mut out, dw, dh, &scaled, cx, cy, bg);
        },
        Mode::Center => {
            let ox: i64 = if dw >= sw {
                ((dw - sw) / 2) as i64
            } else {
                -(((sw - dw) / 2) as i64)
            };
            let oy: i64 = if dh >= sh {
                ((dh - sh) / 2) as i64
            } else {
                -(((sh - dh) / 2) as i64)
            };
            blit_rgba_into_xrgb(&mut out, dw, dh, src, ox, oy, bg);
        },
        Mode::Tile => {
            tile_rgba_into_xrgb(&mut out, dw, dh, src, bg);
        },
    }
    out
}

/// Renders `src` into a new frame of `dw` by `dh` pixels, or nothing where
/// the frame is too large to allocate or the source cannot be resized as
/// the mode asks.
pub fn try_render(dw: u32, dh: u32, src: &Bitmap, mode: Mode, bg: Rgb) -> (out: Option<Vec<u32>>)
    ensures
        out is Some == render_fits(dw, dh, src@, mode),
        out is Some ==> out.unwrap()@ == render_spec(dw, dh, src@, mode, bg) && out.unwrap().len()
            == dw as int * dh as int,
{
    if can_render(dw, dh, src, mode) {
        Some(render_final_frame_u32(dw, dh, src, mode, bg))
    } else {
        None
    }
}


/// The bitmap that a mode shows and the place of its top left corner in
/// the frame, for the modes that place one bitmap.
pub open spec fn placement(dw: u32, dh: u32, src: BitmapView, mode: Mode) -> Option<
    (BitmapView, int, int),
> {
    let w = dw as int;
    let h = dh as int;
    if src.is_empty() {
        None
    } else {
        match mode {
            Mode::Stretch => Some((resized(src, dw, dh), 0, 0)),
            Mode::Fit => {
                let (rw, rh) = fit_size(src.width as int, src.height as int, w, h);
                Some((resized(src, rw as u32, rh as u32), margin(w, rw), margin(h, rh)))
            },
            Mode::Fill => {
                let (rw, rh) = cover_size(src.width as int, src.height as int, w, h);
                Some((resized(src, rw as u32, rh as u32), -margin(rw, w), -margin(rh, h)))
            },
            Mode::Center => Some(
                (src, centre_offset(w, src.width as int), centre_offset(h, src.height as int)),
            ),
            Mode::Tile => None,
        }
    }
}

/// A rendered frame has exactly `dw * dh` pixels, and each of them is
/// either the background or a pixel of the shown bitmap composited over the
/// background: the one that the placement puts there, or for a tiling the
/// one that the repetition puts there.
pub proof fn lemma_render_populated(dw: u32, dh: u32, src: BitmapView, mode: Mode, bg: Rgb, x: int, y: int)
    requires
        0 <= x < dw,
        0 <= y < dh,
    ensures
        render_spec(dw, dh, src, mode, bg).len() == dw as int * dh as int,
        0 <= y * dw as int + x < dw as int * dh as int,
        render_spec(dw, dh, src, mode, bg)[y * dw as int + x] <= 0x00FF_FFFF,
        match placement(dw, dh, src, mode) {
            Some((shown, ox, oy)) => render_spec(dw, dh, src, mode, bg)[y * dw as int + x] == (
            if 0 <= x - ox < shown.width && 0 <= y - oy < shown.height {
                composite(shown.pixel(x - ox, y - oy), bg)
            } else {
                bg.pixel()
            }),
            None => render_spec(dw, dh, src, mode, bg)[y * dw as int + x] == (if src.is_empty() {
                bg.pixel()
            } else {
                composite(src.pixel(x % (src.width as int), y % (src.height as int)), bg)
            }),
        },
{
    let w = dw as int;
    lemma_pixel_index(w, dh as int, x, y);
    lemma_row_of_index(w, y, x);
}

/// Fit and centre leave a visible border: wherever the shown bitmap is
/// narrower than the frame, the last column of the frame is background,
/// and wherever it is lower, the last row is.
pub proof fn lemma_border_is_background(dw: u32, dh: u32, src: BitmapView, mode: Mode, bg: Rgb, x: int, y: int)
    requires
        !src.is_empty(),
        mode == Mode::Fit || mode == Mode::Center,
        0 <= x < dw,
        0 <= y < dh,
    ensures
        ({
            let (shown, ox, oy) = placement(dw, dh, src, mode).unwrap();
            let frame = render_spec(dw, dh, src, mode, bg);
            &&& shown.width < dw && x == dw - 1 ==> frame[y * dw as int + x] == bg.pixel()
            &&& shown.height < dh && y == dh - 1 ==> frame[y * dw as int + x] == bg.pixel()
            &&& x < ox || x >= ox + shown.width || y < oy || y >= oy + shown.height
                ==> frame[y * dw as int + x] == bg.pixel()
            &&& ox <= x < ox + shown.width && oy <= y < oy + shown.height ==> frame[y * dw as int
                + x] == composite(shown.pixel(x - ox, y - oy), bg)
            &&& mode == Mode::Center ==> shown == src
        }),
{
    lemma_render_populated(dw, dh, src, mode, bg, x, y);
}

/// A quotient rounded to the nearest integer does not pass a whole bound of
/// the quotient itself.
proof fn lemma_div_round_within(p: int, q: int, k: int)
    requires
        0 <= p <= k * q,
        0 < q,
    ensures
        0 <= div_round(p, q) <= k,
{
    vstd::arithmetic::div_mod::lemma_fundamental_div_mod(p, q);
    vstd::arithmetic::div_mod::lemma_mod_bound(p, q);
    let d = p / q;
    let r = p % q;
    assert(p == q * d + r);
    assert(0 <= d) by (nonlinear_arith)
        requires
            p == q * d + r,
            0 <= p,
            0 <= r < q,
    ;
    assert(d <= k && (d == k ==> r == 0)) by (nonlinear_arith)
        requires
            p == q * d + r,
            p <= k * q,
            0 <= r < q,
    ;
}

/// Fit does not crop: for a source and a frame of at least one pixel each
/// way, the scaled size lies within the frame and touches it in one
/// direction at least; and the scaled image is centred, the two bars beside
/// it (or above and below it) differing by one pixel at most.
pub proof fn lemma_fit_is_within(sw: u32, sh: u32, dw: u32, dh: u32)
    requires
        sw >= 1,
        sh >= 1,
        dw >= 1,
        dh >= 1,
    ensures
        ({
            let (rw, rh) = fit_size(sw as int, sh as int, dw as int, dh as int);
            let ox = margin(dw as int, rw);
            let oy = margin(dh as int, rh);
            &&& 1 <= rw <= dw
            &&& 1 <= rh <= dh
            &&& rw == dw || rh == dh
            &&& 0 <= ox && ox + rw <= dw
            &&& 0 <= oy && oy + rh <= dh
            &&& 0 <= (dw - rw - ox) - ox <= 1
            &&& 0 <= (dh - rh - oy) - oy <= 1
        }),
{
    if dw as int * sh as int <= dh as int * sw as int {
        assert(sh as int * dw as int == dw as int * sh as int) by (nonlinear_arith);
        assert(0 <= sh as int * dw as int) by (nonlinear_arith)
            requires
                0 <= sh,
                0 <= dw,
        ;
        lemma_div_round_within(sh as int * dw as int, sw as int, dh as int);
    } else {
        assert(sw as int * dh as int == dh as int * sw as int) by (nonlinear_arith);
        assert(0 <= sw as int * dh as int) by (nonlinear_arith)
            requires
                0 <= sw,
                0 <= dh,
        ;
        assert(sw as int * dh as int <= dw as int * sh as int);
        assert(dw as int * sh as int == dw as int * (sh as int)) by (nonlinear_arith);
        lemma_div_round_within(sw as int * dh as int, sh as int, dw as int);
    }
}

/// Fill covers: for a source of at least one pixel each way, the scaled
/// size is no smaller than the frame either way, and equals the frame's in
/// one direction at least (for a frame of at least one pixel each way).
pub proof fn lemma_fill_covers(sw: u32, sh: u32, dw: u32, dh: u32)
    requires
        sw >= 1,
        sh >= 1,
    ensures
        ({
            let (rw, rh) = cover_size(sw as int, sh as int, dw as int, dh as int);
            &&& rw >= dw && rw >= 1
            &&& rh >= dh && rh >= 1
            &&& dw >= 1 && dh >= 1 ==> rw == dw || rh == dh
        }),
{
}



/// Frames of a size that fits one shared-memory slot can be rendered: in
/// centre and tile mode from any source, in every mode from an empty one,
/// and in stretch and fit mode from any source where no side of the source
/// or of the frame is longer than `MAX_RESIZE_SIDE` and the source's width,
/// at sixteen bytes per pixel and the frame's height, fits a slot as well.
pub proof fn lemma_slot_sized_frames_render(dw: u32, dh: u32, src: BitmapView, mode: Mode)
    requires
        4 * (dw as int * dh as int) <= 0x7FFF_FFFF,
    ensures
        mode == Mode::Center || mode == Mode::Tile || src.is_empty() ==> render_fits(
            dw,
            dh,
            src,
            mode,
        ),
        (mode == Mode::Stretch || mode == Mode::Fit) && 1 <= dw <= MAX_RESIZE_SIDE && 1 <= dh
            <= MAX_RESIZE_SIDE && src.width <= MAX_RESIZE_SIDE && src.height <= MAX_RESIZE_SIDE
            && 16 * (src.width as int * dh as int) <= 0x7FFF_FFFF ==> render_fits(
            dw,
            dh,
            src,
            mode,
        ),
{
    assert(isize::MAX >= 0x7FFF_FFFF);
    if mode == Mode::Fit && !src.is_empty() && dw >= 1 && dh >= 1 && 16 * (src.width as int
        * dh as int) <= 0x7FFF_FFFF {
        lemma_fit_is_within(src.width, src.height, dw, dh);
        let (rw, rh) = fit_size(src.width as int, src.height as int, dw as int, dh as int);
        assert(rw * rh <= dw as int * dh as int) by (nonlinear_arith)
            requires
                1 <= rw <= dw as int,
                1 <= rh <= dh as int,
        ;
        assert(src.width as int * rh <= src.width as int * dh as int) by (nonlinear_arith)
            requires
                0 <= src.width as int,
                1 <= rh <= dh as int,
        ;
    }
}

} // verus!
