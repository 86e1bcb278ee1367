//! Pixel kernels on XRGB8888 frames: straight blit, per-channel blend and
//! the directional wipe, each with a solid-colour variant.
//!
//! A frame is a row-major vector of 32-bit pixels. Every kernel clips to
//! the shortest of its operands and leaves the rest of the destination
//! untouched.

use vstd::prelude::*;
use crate::spec::WipeFrom;

verus! {

/// Red channel of an XRGB8888 pixel.
pub open spec fn red(px: u32) -> int {
    (px as int / 65536) % 256
}

/// Green channel of an XRGB8888 pixel.
pub open spec fn green(px: u32) -> int {
    (px as int / 256) % 256
}

/// Blue channel of an XRGB8888 pixel.
pub open spec fn blue(px: u32) -> int {
    px as int % 256
}

/// Linear interpolation of one 8-bit channel at `t` in `[0, 256]`.
pub open spec fn lerp_channel(x: int, y: int, t: int) -> int {
    (x * (256 - t) + y * t) / 256
}

/// The pixel whose three channels are interpolated between those of `a` and
/// `b`; its high byte is zero.
pub open spec fn blend_pixel(a: u32, b: u32, t: int) -> u32 {
    (lerp_channel(red(a), red(b), t) * 65536 + lerp_channel(green(a), green(b), t) * 256
        + lerp_channel(blue(a), blue(b), t)) as u32
}

/// What a blend writes for one pixel: the source at 0, the target from 256
/// on, the interpolation in between.
pub open spec fn blend_at(a: u32, b: u32, tt: u16) -> u32 {
    if tt == 0 {
        a
    } else if tt >= 256 {
        b
    } else {
        blend_pixel(a, b, tt as int)
    }
}

/// The smaller of two integers.
pub open spec fn min2(a: int, b: int) -> int {
    if a <= b {
        a
    } else {
        b
    }
}

/// `dst` after a straight blit of `frame`.
pub open spec fn blitted(dst: Seq<u32>, frame: Seq<u32>) -> Seq<u32> {
    Seq::new(
        dst.len(),
        |i: int|
            if i < frame.len() {
                frame[i]
            } else {
                dst[i]
            },
    )
}

/// `dst` after every pixel of it was set to `px`.
pub open spec fn filled(dst: Seq<u32>, px: u32) -> Seq<u32> {
    Seq::new(dst.len(), |i: int| px)
}

/// `dst` after a blend of `from` towards `to` at `tt`.
pub open spec fn blended(dst: Seq<u32>, from: Seq<u32>, to: Seq<u32>, tt: u16) -> Seq<u32> {
    Seq::new(
        dst.len(),
        |i: int|
            if i < from.len() && i < to.len() {
                blend_at(from[i], to[i], tt)
            } else {
                dst[i]
            },
    )
}

/// `dst` after a blend of `from` towards the solid pixel `to_px` at `tt`.
pub open spec fn blended_to_solid(dst: Seq<u32>, from: Seq<u32>, to_px: u32, tt: u16) -> Seq<u32> {
    Seq::new(
        dst.len(),
        |i: int|
            if i < from.len() {
                blend_at(from[i], to_px, tt)
            } else {
                dst[i]
            },
    )
}

/// Number of columns of each row that already show the target at `tt`.
pub open spec fn wipe_cols(w: int, tt: u16) -> int {
    min2((w * min2(tt as int, 256)) / 256, w)
}

/// Whether column `x` of a row of width `w` shows the target once `cols`
/// columns have been wiped.
pub open spec fn wipe_shows_target(x: int, w: int, cols: int, wipe_from: WipeFrom) -> bool {
    match wipe_from {
        WipeFrom::Left => x < cols,
        WipeFrom::Right => x >= w - cols,
    }
}

/// Number of pixels a wipe writes: the whole rows that fit in `n` pixels.
pub open spec fn wipe_covered(w: int, h: int, n: int) -> int {
    if w <= 0 || h <= 0 {
        0
    } else {
        (min2(w * h, n) / w) * w
    }
}

/// `dst` after a wipe from `from` to `to` at `tt` on rows of width `w`.
pub open spec fn wiped(
    dst: Seq<u32>,
    from: Seq<u32>,
    to: Seq<u32>,
    w: int,
    h: int,
    tt: u16,
    wipe_from: WipeFrom,
) -> Seq<u32> {
    let n = min2(dst.len() as int, min2(from.len() as int, to.len() as int));
    let covered = wipe_covered(w, h, n);
    Seq::new(
        dst.len(),
        |i: int|
            if i < covered {
                if wipe_shows_target(i % w, w, wipe_cols(w, tt), wipe_from) {
                    to[i]
                } else {
                    from[i]
                }
            } else {
                dst[i]
            },
    )
}

/// `dst` after a wipe from `from` to the solid pixel `to_px`.
pub open spec fn wiped_to_solid(
    dst: Seq<u32>,
    from: Seq<u32>,
    to_px: u32,
    w: int,
    h: int,
    tt: u16,
    wipe_from: WipeFrom,
) -> Seq<u32> {
    let n = min2(dst.len() as int, from.len() as int);
    let covered = wipe_covered(w, h, n);
    Seq::new(
        dst.len(),
        |i: int|
            if i < covered {
                if wipe_shows_target(i % w, w, wipe_cols(w, tt), wipe_from) {
                    to_px
                } else {
                    from[i]
                }
            } else {
                dst[i]
            },
    )
}

proof fn lemma_lerp_sum_fits(x: int, y: int, t: int)
    requires
        0 <= x <= 255,
        0 <= y <= 255,
        0 <= t <= 256,
    ensures
        0 <= x * (256 - t) + y * t <= 65280,
        0 <= lerp_channel(x, y, t) <= 255,
{
    assert(0 <= x * (256 - t) <= 255 * (256 - t)) by (nonlinear_arith)
        requires
            0 <= x <= 255,
            0 <= t <= 256,
    ;
    assert(0 <= y * t <= 255 * t) by (nonlinear_arith)
        requires
            0 <= y <= 255,
            0 <= t <= 256,
    ;
}

/// Interpolates two XRGB8888 pixels, two channels per multiplication.
pub fn lerp_xrgb_u8_fast(a: u32, b: u32, t: u32, inv: u32) -> (out: u32)
    requires
        t <= 256,
        inv == 256 - t,
    ensures
        out == blend_pixel(a, b, t as int),
{
    let a_rb: u32 = a & 0x00FF00FF;
    let b_rb: u32 = b & 0x00FF00FF;
    let a_g: u32 = a & 0x0000FF00;
    let b_g: u32 = b & 0x0000FF00;
    let ghost ar = red(a);
    let ghost ag = green(a);
    let ghost ab = blue(a);
    let ghost br = red(b);
    let ghost bg = green(b);
    let ghost bb = blue(b);
    proof {
        lemma_fields(a);
        lemma_fields(b);
        lemma_lerp_sum_fits(ar, br, t as int);
        lemma_lerp_sum_fits(ag, bg, t as int);
        lemma_lerp_sum_fits(ab, bb, t as int);
        assert(a_rb * inv + b_rb * t == (ar * inv + br * t) * 65536 + (ab * inv + bb * t))
            by (nonlinear_arith)
            requires
                a_rb == ar * 65536 + ab,
                b_rb == br * 65536 + bb,
        ;
        assert(a_g * inv + b_g * t == (ag * inv + bg * t) * 256) by (nonlinear_arith)
            requires
                a_g == ag * 256,
                b_g == bg * 256,
        ;
    }
    let sum_rb: u32 = a_rb * inv + b_rb * t;
    let sum_g: u32 = a_g * inv + b_g * t;
    let rb: u32 = (sum_rb >> 8) & 0x00FF00FF;
    let g: u32 = (sum_g >> 8) & 0x0000FF00;
    proof {
        let x: u32 = (ar * inv + br * t) as u32;
        let y: u32 = (ab * inv + bb * t) as u32;
        let z: u32 = (ag * inv + bg * t) as u32;
        lemma_shift_fields(sum_rb, sum_g, x, y, z);
        lemma_join_fields(rb, g, x / 256, z / 256, y / 256);
    }
    rb | g
}

proof fn lemma_fields(a: u32)
    ensures
        a & 0x00FF00FF == red(a) * 65536 + blue(a),
        a & 0x0000FF00 == green(a) * 256,
        a & 0x00FF00FF <= 0x00FF00FF,
        a & 0x0000FF00 <= 0xFF00,
        0 <= red(a) <= 255,
        0 <= green(a) <= 255,
        0 <= blue(a) <= 255,
{
    assert(a & 0x00FF00FF == ((a / 65536) % 256) * 65536 + a % 256) by (bit_vector);
    assert(a & 0x0000FF00 == ((a / 256) % 256) * 256) by (bit_vector);
}

proof fn lemma_shift_fields(sum_rb: u32, sum_g: u32, x: u32, y: u32, z: u32)
    requires
        x <= 65280,
        y <= 65280,
        z <= 65280,
        sum_rb == x * 65536 + y,
        sum_g == z * 256,
    ensures
        (sum_rb >> 8) & 0x00FF00FF == (x / 256) * 65536 + y / 256,
        (sum_g >> 8) & 0x0000FF00 == (z / 256) * 256,
{
    assert((sum_rb >> 8) & 0x00FF00FF == (x / 256) * 65536 + y / 256) by (bit_vector)
        requires
            x <= 65280,
            y <= 65280,
            sum_rb == x * 65536 + y,
    ;
    assert((sum_g >> 8) & 0x0000FF00 == (z / 256) * 256) by (bit_vector)
        requires
            z <= 65280,
            sum_g == z * 256,
    ;
}

proof fn lemma_join_fields(rb: u32, g: u32, r8: u32, g8: u32, b8: u32)
    requires
        r8 <= 255,
        g8 <= 255,
        b8 <= 255,
        rb == r8 * 65536 + b8,
        g == g8 * 256,
    ensures
        rb | g == r8 * 65536 + g8 * 256 + b8,
{
    assert(rb | g == r8 * 65536 + g8 * 256 + b8) by (bit_vector)
        requires
            r8 <= 255,
            g8 <= 255,
            b8 <= 255,
            rb == r8 * 65536 + b8,
            g == g8 * 256,
    ;
}


/// Copies `src[start..end]` over the same range of `dst`.
fn copy_segment(dst: &mut Vec<u32>, src: &[u32], start: usize, end: usize)
    requires
        start <= end <= old(dst).len(),
        end <= src.len(),
    ensures
        final(dst).len() == old(dst).len(),
        forall|i: int| start <= i < end ==> final(dst)[i] == src[i],
        forall|i: int| 0 <= i < start || end <= i < old(dst).len() ==> final(dst)[i] == old(dst)[i],
{
    let mut i: usize = start;
    while i < end
        invariant
            start <= i <= end <= dst.len(),
            end <= src.len(),
            dst.len() == old(dst).len(),
            forall|j: int| start <= j < i ==> dst[j] == src[j],
            forall|j: int| 0 <= j < start || i <= j < dst.len() ==> dst[j] == old(dst)[j],
        decreases end - i,
    {
        dst.set(i, src[i]);
        i += 1;
    }
}

/// Sets `dst[start..end]` to `px`.
fn fill_segment(dst: &mut Vec<u32>, px: u32, start: usize, end: usize)
    requires
        start <= end <= old(dst).len(),
    ensures
        final(dst).len() == old(dst).len(),
        forall|i: int| start <= i < end ==> final(dst)[i] == px,
        forall|i: int| 0 <= i < start || end <= i < old(dst).len() ==> final(dst)[i] == old(dst)[i],
{
    let mut i: usize = start;
    while i < end
        invariant
            start <= i <= end <= dst.len(),
            dst.len() == old(dst).len(),
            forall|j: int| start <= j < i ==> dst[j] == px,
            forall|j: int| 0 <= j < start || i <= j < dst.len() ==> dst[j] == old(dst)[j],
        decreases end - i,
    {
        dst.set(i, px);
        i += 1;
    }
}

fn min_usize(a: usize, b: usize) -> (m: usize)
    ensures
        m == min2(a as int, b as int),
{
    if a <= b {
        a
    } else {
        b
    }
}

/// Straight blit: copies `frame` over the start of `dst`, clipped to the
/// shorter of the two.
pub fn paint_frame_u32(dst: &mut Vec<u32>, frame: &[u32])
    ensures
        final(dst)@ == blitted(old(dst)@, frame@),
{
    let n = min_usize(dst.len(), frame.len());
    copy_segment(dst, frame, 0, n);
}

/// Fills the whole of `dst` with one pixel.
pub fn paint_solid_u32(dst: &mut Vec<u32>, px: u32)
    ensures
        final(dst)@ == filled(old(dst)@, px),
{
    let n = dst.len();
    fill_segment(dst, px, 0, n);
}

/// Blends `from_frame` towards `to_frame`: `t256` of 0 shows the source, 256
/// and above the target, anything between the per-channel interpolation.
pub fn paint_blend_frame_to_frame_fast(
    dst: &mut Vec<u32>,
    from_frame: &[u32],
    to_frame: &[u32],
    t256: u16,
)
    ensures
        final(dst)@ == blended(old(dst)@, from_frame@, to_frame@, t256),
{
    let n = min_usize(min_usize(dst.len(), from_frame.len()), to_frame.len());
    if t256 >= 256 {
        copy_segment(dst, to_frame, 0, n);
        return ;
    }
    if t256 == 0 {
        copy_segment(dst, from_frame, 0, n);
        return ;
    }
    let t: u32 = t256 as u32;
    let inv: u32 = 256u32 - t;
    let mut i: usize = 0;
    // Eight pixels at a time, then the tail one by one.
    while n - i >= 8
        invariant
            i <= n,
            n == min2(min2(dst.len() as int, from_frame.len() as int), to_frame.len() as int),
            dst.len() == old(dst).len(),
            0 < t256 < 256,
            t == t256,
            inv == 256 - t,
            forall|j: int| 0 <= j < i ==> dst[j] == blend_pixel(from_frame[j], to_frame[j], t as int),
            forall|j: int| i <= j < dst.len() ==> dst[j] == old(dst)[j],
        decreases n - i,
    {
        dst.set(i, lerp_xrgb_u8_fast(from_frame[i], to_frame[i], t, inv));
        dst.set(i + 1, lerp_xrgb_u8_fast(from_frame[i + 1], to_frame[i + 1], t, inv));
        dst.set(i + 2, lerp_xrgb_u8_fast(from_frame[i + 2], to_frame[i + 2], t, inv));
        dst.set(i + 3, lerp_xrgb_u8_fast(from_frame[i + 3], to_frame[i + 3], t, inv));
        dst.set(i + 4, lerp_xrgb_u8_fast(from_frame[i + 4], to_frame[i + 4], t, inv));
        dst.set(i + 5, lerp_xrgb_u8_fast(from_frame[i + 5], to_frame[i + 5], t, inv));
        dst.set(i + 6, lerp_xrgb_u8_fast(from_frame[i + 6], to_frame[i + 6], t, inv));
        dst.set(i + 7, lerp_xrgb_u8_fast(from_frame[i + 7], to_frame[i + 7], t, inv));
        i += 8;
    }
    while i < n
        invariant
            i <= n,
            n == min2(min2(dst.len() as int, from_frame.len() as int), to_frame.len() as int),
            dst.len() == old(dst).len(),
            0 < t256 < 256,
            t == t256,
            inv == 256 - t,
            forall|j: int| 0 <= j < i ==> dst[j] == blend_pixel(from_frame[j], to_frame[j], t as int),
            forall|j: int| i <= j < dst.len() ==> dst[j] == old(dst)[j],
        decreases n - i,
    {
        dst.set(i, lerp_xrgb_u8_fast(from_frame[i], to_frame[i], t, inv));
        i += 1;
    }
}

/// Blends `from_frame` towards a solid pixel.
pub fn paint_blend_frame_to_solid_fast(dst: &mut Vec<u32>, from_frame: &[u32], to_px: u32, t256: u16)
    ensures
        final(dst)@ == blended_to_solid(old(dst)@, from_frame@, to_px, t256),
{
    let n = min_usize(dst.len(), from_frame.len());
    if t256 >= 256 {
        fill_segment(dst, to_px, 0, n);
        return ;
    }
    if t256 == 0 {
        copy_segment(dst, from_frame, 0, n);
        return ;
    }
    let t: u32 = t256 as u32;
    let inv: u32 = 256u32 - t;
    let mut i: usize = 0;
    while n - i >= 8
        invariant
            i <= n,
            n == min2(dst.len() as int, from_frame.len() as int),
            dst.len() == old(dst).len(),
            0 < t256 < 256,
            t == t256,
            inv == 256 - t,
            forall|j: int| 0 <= j < i ==> dst[j] == blend_pixel(from_frame[j], to_px, t as int),
            forall|j: int| i <= j < dst.len() ==> dst[j] == old(dst)[j],
        decreases n - i,
    {
        dst.set(i, lerp_xrgb_u8_fast(from_frame[i], to_px, t, inv));
        dst.set(i + 1, lerp_xrgb_u8_fast(from_frame[i + 1], to_px, t, inv));
        dst.set(i + 2, lerp_xrgb_u8_fast(from_frame[i + 2], to_px, t, inv));
        dst.set(i + 3, lerp_xrgb_u8_fast(from_frame[i + 3], to_px, t, inv));
        dst.set(i + 4, lerp_xrgb_u8_fast(from_frame[i + 4], to_px, t, inv));
        dst.set(i + 5, lerp_xrgb_u8_fast(from_frame[i + 5], to_px, t, inv));
        dst.set(i + 6, lerp_xrgb_u8_fast(from_frame[i + 6], to_px, t, inv));
        dst.set(i + 7, lerp_xrgb_u8_fast(from_frame[i + 7], to_px, t, inv));
        i += 8;
    }
    while i < n
        invariant
            i <= n,
            n == min2(dst.len() as int, from_frame.len() as int),
            dst.len() == old(dst).len(),
            0 < t256 < 256,
            t == t256,
            inv == 256 - t,
            forall|j: int| 0 <= j < i ==> dst[j] == blend_pixel(from_frame[j], to_px, t as int),
            forall|j: int| i <= j < dst.len() ==> dst[j] == old(dst)[j],
        decreases n - i,
    {
        dst.set(i, lerp_xrgb_u8_fast(from_frame[i], to_px, t, inv));
        i += 1;
    }
}

/// Geometry of one wipe: how many whole rows are written and where the
/// seam stands in each of them.
struct WipeGeometry {
    width: usize,
    rows: usize,
    cols: usize,
}

/// Works out the rows and the seam of a wipe over `n` available pixels.
fn wipe_geometry(w: u32, h: u32, n: usize, tt: u16) -> (geo: WipeGeometry)
    ensures
        geo.width == w,
        geo.rows * geo.width == wipe_covered(w as int, h as int, n as int),
        geo.cols == wipe_cols(w as int, tt),
        geo.cols <= geo.width,
        (w == 0 || h == 0) ==> geo.rows == 0,
{
    let width: usize = w as usize;
    let t: u64 = if tt >= 256 {
        256
    } else {
        tt as u64
    };
    assert(w as int * t as int <= 0xFFFF_FFFF * 256) by (nonlinear_arith)
        requires
            0 <= w <= 0xFFFF_FFFF,
            0 <= t <= 256,
    ;
    let raw: u64 = ((w as u64) * t) / 256;
    let cols: usize = if raw <= w as u64 {
        raw as usize
    } else {
        width
    };
    if w == 0 || h == 0 {
        let rows: usize = 0;
        assert(rows * width == 0) by (nonlinear_arith)
            requires
                rows == 0,
        ;
        return WipeGeometry { width, rows, cols };
    }
    assert(w as int * h as int <= 0xFFFF_FFFF * 0xFFFF_FFFF) by (nonlinear_arith)
        requires
            0 <= w <= 0xFFFF_FFFF,
            0 <= h <= 0xFFFF_FFFF,
    ;
    let frame_px: u64 = (w as u64) * (h as u64);
    let avail: u64 = if frame_px <= n as u64 {
        frame_px
    } else {
        n as u64
    };
    let rows: usize = (avail / (w as u64)) as usize;
    WipeGeometry { width, rows, cols }
}

/// Directional wipe from `fromf` to `tof`: in every whole row the first
/// (or, from the right, the last) `w * tt / 256` columns show the target,
/// the others the source. Rows are written as two segments each.
pub fn paint_wipe_frame_to_frame_dir(
    dst: &mut Vec<u32>,
    w: u32,
    h: u32,
    fromf: &[u32],
    tof: &[u32],
    tt: u16,
    wipe_from: WipeFrom,
)
    ensures
        final(dst)@ == wiped(old(dst)@, fromf@, tof@, w as int, h as int, tt, wipe_from),
{
    let n = min_usize(dst.len(), min_usize(fromf.len(), tof.len()));
    let geo = wipe_geometry(w, h, n, tt);
    let width = geo.width;
    let seam: usize = match wipe_from {
        WipeFrom::Left => geo.cols,
        WipeFrom::Right => width - geo.cols,
    };
    let ghost covered = wipe_covered(w as int, h as int, n as int);
    let ghost cols = wipe_cols(w as int, tt);
    proof {
        lemma_covered_bound(w as int, h as int, n as int);
    }
    let mut y: usize = 0;
    while y < geo.rows
        invariant
            y <= geo.rows,
            width == w,
            geo.rows * width == covered,
            covered <= n,
            n <= dst.len(),
            n <= fromf.len(),
            n <= tof.len(),
            dst.len() == old(dst).len(),
            seam <= width,
            cols == wipe_cols(w as int, tt),
            match wipe_from {
                WipeFrom::Left => seam == cols,
                WipeFrom::Right => seam == width - cols,
            },
            forall|i: int|
                0 <= i < y * width ==> dst[i] == (if wipe_shows_target(
                    i % (w as int),
                    w as int,
                    cols,
                    wipe_from,
                ) {
                    tof[i]
                } else {
                    fromf[i]
                }),
            forall|i: int| y * width <= i < dst.len() ==> dst[i] == old(dst)[i],
        decreases geo.rows - y,
    {
        proof {
            lemma_row_bounds(y as int, geo.rows as int, width as int);
        }
        let off: usize = y * width;
        match wipe_from {
            WipeFrom::Left => {
                copy_segment(dst, tof, off, off + seam);
                copy_segment(dst, fromf, off + seam, off + width);
            },
            WipeFrom::Right => {
                copy_segment(dst, fromf, off, off + seam);
                copy_segment(dst, tof, off + seam, off + width);
            },
        }
        proof {
            assert forall|i: int| off <= i < off + width implies dst[i] == (if wipe_shows_target(
                i % (w as int),
                w as int,
                cols,
                wipe_from,
            ) {
                tof[i]
            } else {
                fromf[i]
            }) by {
                lemma_row_column(y as int, width as int, i);
            }
            assert((y + 1) * width == off + width) by (nonlinear_arith)
                requires
                    off == y * width,
            ;
        }
        y += 1;
    }
}

/// Directional wipe from `from_frame` to a solid pixel.
pub fn paint_wipe_frame_to_solid_fast(
    dst: &mut Vec<u32>,
    w: u32,
    h: u32,
    from_frame: &[u32],
    to_px: u32,
    t256: u16,
    wipe_from: WipeFrom,
)
    ensures
        final(dst)@ == wiped_to_solid(
            old(dst)@,
            from_frame@,
            to_px,
            w as int,
            h as int,
            t256,
            wipe_from,
        ),
{
    let n = min_usize(dst.len(), from_frame.len());
    let geo = wipe_geometry(w, h, n, t256);
    let width = geo.width;
    let seam: usize = match wipe_from {
        WipeFrom::Left => geo.cols,
        WipeFrom::Right => width - geo.cols,
    };
    let ghost covered = wipe_covered(w as int, h as int, n as int);
    let ghost cols = wipe_cols(w as int, t256);
    proof {
        lemma_covered_bound(w as int, h as int, n as int);
    }
    let mut y: usize = 0;
    while y < geo.rows
        invariant
            y <= geo.rows,
            width == w,
            geo.rows * width == covered,
            covered <= n,
            n <= dst.len(),
            n <= from_frame.len(),
            dst.len() == old(dst).len(),
            seam <= width,
            cols == wipe_cols(w as int, t256),
            match wipe_from {
                WipeFrom::Left => seam == cols,
                WipeFrom::Right => seam == width - cols,
            },
            forall|i: int|
                0 <= i < y * width ==> dst[i] == (if wipe_shows_target(
                    i % (w as int),
                    w as int,
                    cols,
                    wipe_from,
                ) {
                    to_px
                } else {
                    from_frame[i]
                }),
            forall|i: int| y * width <= i < dst.len() ==> dst[i] == old(dst)[i],
        decreases geo.rows - y,
    {
        proof {
            lemma_row_bounds(y as int, geo.rows as int, width as int);
        }
        let off: usize = y * width;
        match wipe_from {
            WipeFrom::Left => {
                fill_segment(dst, to_px, off, off + seam);
                copy_segment(dst, from_frame, off + seam, off + width);
            },
            WipeFrom::Right => {
                copy_segment(dst, from_frame, off, off + seam);
                fill_segment(dst, to_px, off + seam, off + width);
            },
        }
        proof {
            assert forall|i: int| off <= i < off + width implies dst[i] == (if wipe_shows_target(
                i % (w as int),
                w as int,
                cols,
                wipe_from,
            ) {
                to_px
            } else {
                from_frame[i]
            }) by {
                lemma_row_column(y as int, width as int, i);
            }
            assert((y + 1) * width == off + width) by (nonlinear_arith)
                requires
                    off == y * width,
            ;
        }
        y += 1;
    }
}

proof fn lemma_row_bounds(y: int, rows: int, width: int)
    requires
        0 <= y < rows,
        0 <= width,
    ensures
        0 <= y * width,
        y * width + width <= rows * width,
{
    assert(0 <= y * width && y * width + width <= rows * width) by (nonlinear_arith)
        requires
            0 <= y < rows,
            0 <= width,
    ;
}

proof fn lemma_row_column(y: int, width: int, i: int)
    requires
        0 <= y,
        0 < width,
        y * width <= i < y * width + width,
    ensures
        i % width == i - y * width,
{
    vstd::arithmetic::div_mod::lemma_fundamental_div_mod_converse(i, width, y, i - y * width);
}

proof fn lemma_covered_bound(w: int, h: int, n: int)
    requires
        0 <= n,
        0 <= w,
        0 <= h,
    ensures
        0 <= wipe_covered(w, h, n) <= n,
{
    if w > 0 && h > 0 {
        let m = min2(w * h, n);
        assert(0 <= (m / w) * w <= m) by (nonlinear_arith)
            requires
                0 <= m,
                0 < w,
        ;
    }
}


/// On frames of one length a blend at 0 gives the source frame and a blend
/// at 256 the target frame, whatever the destination held.
pub proof fn lemma_blend_endpoints(dst: Seq<u32>, a: Seq<u32>, b: Seq<u32>)
    requires
        dst.len() == a.len(),
        a.len() == b.len(),
    ensures
        blended(dst, a, b, 0) == a,
        blended(dst, a, b, 256) == b,
{
}

/// Towards a solid pixel a blend at 0 gives the source frame and a blend at
/// 256 the frame filled with that pixel.
pub proof fn lemma_blend_to_solid_endpoints(dst: Seq<u32>, a: Seq<u32>, px: u32)
    requires
        dst.len() == a.len(),
    ensures
        blended_to_solid(dst, a, px, 0) == a,
        blended_to_solid(dst, a, px, 256) == filled(dst, px),
{
}

/// The channels of a blended pixel are the interpolations of the channels
/// of its operands, each within `[0, 255]`, and its high byte is zero.
pub proof fn lemma_blend_channels(a: u32, b: u32, t: int)
    requires
        0 <= t <= 256,
    ensures
        red(blend_pixel(a, b, t)) == lerp_channel(red(a), red(b), t),
        green(blend_pixel(a, b, t)) == lerp_channel(green(a), green(b), t),
        blue(blend_pixel(a, b, t)) == lerp_channel(blue(a), blue(b), t),
        blend_pixel(a, b, t) <= 0x00FF_FFFF,
{
    lemma_lerp_sum_fits(red(a), red(b), t);
    lemma_lerp_sum_fits(green(a), green(b), t);
    lemma_lerp_sum_fits(blue(a), blue(b), t);
    let r = lerp_channel(red(a), red(b), t);
    let g = lerp_channel(green(a), green(b), t);
    let bl = lerp_channel(blue(a), blue(b), t);
    let px = r * 65536 + g * 256 + bl;
    assert(px / 65536 == r && (px / 256) % 256 == g && px % 256 == bl && px % 65536 == g * 256 + bl
        && (px / 65536) % 256 == r) by (nonlinear_arith)
        requires
            px == r * 65536 + g * 256 + bl,
            0 <= r <= 255,
            0 <= g <= 255,
            0 <= bl <= 255,
    ;
}

/// Each channel of an interpolation moves monotonically from its source
/// value to its target value as `t` grows: the result at `t1` lies between
/// the source and the result at `t2`, and the result at 256 is the target.
pub proof fn lemma_lerp_monotone(x: int, y: int, t1: int, t2: int)
    requires
        0 <= x <= 255,
        0 <= y <= 255,
        0 <= t1 <= t2 <= 256,
    ensures
        lerp_channel(x, y, 0) == x,
        lerp_channel(x, y, 256) == y,
        x <= y ==> x <= lerp_channel(x, y, t1) <= lerp_channel(x, y, t2) <= y,
        x >= y ==> x >= lerp_channel(x, y, t1) >= lerp_channel(x, y, t2) >= y,
{
    let n1 = x * (256 - t1) + y * t1;
    let n2 = x * (256 - t2) + y * t2;
    assert(n1 == 256 * x + (y - x) * t1) by (nonlinear_arith)
        requires
            n1 == x * (256 - t1) + y * t1,
    ;
    assert(n2 == 256 * x + (y - x) * t2) by (nonlinear_arith)
        requires
            n2 == x * (256 - t2) + y * t2,
    ;
    if x <= y {
        assert(0 <= (y - x) * t1 <= (y - x) * t2 <= (y - x) * 256) by (nonlinear_arith)
            requires
                0 <= y - x,
                0 <= t1 <= t2 <= 256,
        ;
    } else {
        assert(0 >= (y - x) * t1 >= (y - x) * t2 >= (y - x) * 256) by (nonlinear_arith)
            requires
                0 >= y - x,
                0 <= t1 <= t2 <= 256,
        ;
    }
}

/// A blend is monotone along `t`, channel by channel: for any two pixels
/// and `0 <= t1 <= t2 <= 256`, each channel of the pixel written at `t1`
/// lies between that channel of the source and that channel of the pixel
/// written at `t2`, which in turn lies between it and the target's.
pub proof fn lemma_blend_monotone(a: u32, b: u32, t1: u16, t2: u16)
    requires
        t1 <= t2 <= 256,
    ensures
        red(a) <= red(b) ==> red(a) <= red(blend_at(a, b, t1)) <= red(blend_at(a, b, t2)) <= red(b),
        red(a) >= red(b) ==> red(a) >= red(blend_at(a, b, t1)) >= red(blend_at(a, b, t2)) >= red(b),
        green(a) <= green(b) ==> green(a) <= green(blend_at(a, b, t1)) <= green(
            blend_at(a, b, t2),
        ) <= green(b),
        green(a) >= green(b) ==> green(a) >= green(blend_at(a, b, t1)) >= green(
            blend_at(a, b, t2),
        ) >= green(b),
        blue(a) <= blue(b) ==> blue(a) <= blue(blend_at(a, b, t1)) <= blue(blend_at(a, b, t2))
            <= blue(b),
        blue(a) >= blue(b) ==> blue(a) >= blue(blend_at(a, b, t1)) >= blue(blend_at(a, b, t2))
            >= blue(b),
{
    lemma_blend_channels(a, b, t1 as int);
    lemma_blend_channels(a, b, t2 as int);
    lemma_lerp_monotone(red(a), red(b), t1 as int, t2 as int);
    lemma_lerp_monotone(green(a), green(b), t1 as int, t2 as int);
    lemma_lerp_monotone(blue(a), blue(b), t1 as int, t2 as int);
}

/// On frames of `w * h` pixels a wipe at 0 gives the source frame and a wipe
/// at 256 the target frame, from either edge.
pub proof fn lemma_wipe_endpoints(
    dst: Seq<u32>,
    a: Seq<u32>,
    b: Seq<u32>,
    w: int,
    h: int,
    wipe_from: WipeFrom,
)
    requires
        0 < w,
        0 < h,
        dst.len() == w * h,
        a.len() == w * h,
        b.len() == w * h,
    ensures
        wiped(dst, a, b, w, h, 0, wipe_from) == a,
        wiped(dst, a, b, w, h, 256, wipe_from) == b,
{
    lemma_whole_frame_covered(w, h);
    assert(wipe_cols(w, 0) == 0) by {
        assert(w * 0 == 0);
    }
    assert(wipe_cols(w, 256) == w) by {
        assert((w * 256) / 256 == w);
    }
}

/// Row `y` of a wipe at `tt`, with `cols = (w * tt) / 256`: from the left it
/// is the first `cols` pixels of the target's row followed by the rest of
/// the source's row; from the right it is the first `w - cols` pixels of
/// the source's row followed by the rest of the target's row.
pub proof fn lemma_wipe_row(
    dst: Seq<u32>,
    a: Seq<u32>,
    b: Seq<u32>,
    w: int,
    h: int,
    tt: u16,
    y: int,
)
    requires
        0 < w,
        0 < h,
        dst.len() == w * h,
        a.len() == w * h,
        b.len() == w * h,
        tt <= 256,
        0 <= y < h,
    ensures
        ({
            let cols = (w * tt as int) / 256;
            let lo = y * w;
            &&& 0 <= cols <= w
            &&& 0 <= lo
            &&& lo + w <= w * h
            &&& wiped(dst, a, b, w, h, tt, WipeFrom::Left).subrange(lo, lo + w) == b.subrange(
                lo,
                lo + cols,
            ) + a.subrange(lo + cols, lo + w)
            &&& wiped(dst, a, b, w, h, tt, WipeFrom::Right).subrange(lo, lo + w) == a.subrange(
                lo,
                lo + w - cols,
            ) + b.subrange(lo + w - cols, lo + w)
        }),
{
    let cols = (w * tt as int) / 256;
    let lo = y * w;
    lemma_whole_frame_covered(w, h);
    assert(0 <= cols <= w) by (nonlinear_arith)
        requires
            cols == (w * tt as int) / 256,
            0 < w,
            0 <= tt as int <= 256,
    ;
    assert(0 <= lo && lo + w <= w * h) by (nonlinear_arith)
        requires
            lo == y * w,
            0 <= y < h,
            0 < w,
    ;
    assert forall|i: int| lo <= i < lo + w implies #[trigger] (i % w) == i - lo by {
        lemma_row_column(y, w, i);
    }
}

proof fn lemma_whole_frame_covered(w: int, h: int)
    requires
        0 < w,
        0 < h,
    ensures
        wipe_covered(w, h, w * h) == w * h,
        0 < w * h,
{
    vstd::arithmetic::div_mod::lemma_div_multiples_vanish(h, w);
    assert(w * h == h * w) by (nonlinear_arith);
}

} // verus!
