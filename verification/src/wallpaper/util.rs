//! Timing of a transition: the easing curve, quantised.

use vstd::prelude::*;
use crate::spec::Rgb;

verus! {

/// Encodes a colour as one XRGB8888 pixel.
pub fn xrgb8888(c: Rgb) -> (px: u32)
    ensures
        px == c.pixel(),
{
    c.xrgb8888()
}

/// Whether two frames hold the same pixels.
pub fn arc_eq_slice(a: &[u32], b: &[u32]) -> (r: bool)
    ensures
        r == (a@ == b@),
{
    if a.len() != b.len() {
        return false;
    }
    let mut i: usize = 0;
    while i < a.len()
        invariant
            i <= a.len(),
            a.len() == b.len(),
            forall|j: int| 0 <= j < i ==> a[j] == b[j],
        decreases a.len() - i,
    {
        if a[i] != b[i] {
            return false;
        }
        i += 1;
    }
    assert(a@ =~= b@);
    true
}

/// The duration an animation runs with: the requested one, at least one
/// millisecond.
pub open spec fn clamped_duration(duration_ms: u32) -> int {
    if duration_ms == 0 {
        1
    } else {
        duration_ms as int
    }
}

/// The third power.
pub open spec fn cube(x: int) -> int {
    x * x * x
}

/// The kernel parameter `tt` in `[0, 256]` at `elapsed_ms` of a transition
/// of `duration_ms`: with linear progress `t = min(elapsed / duration, 1)`
/// and the easing `1 - (1 - t)^3`, the nearest integer to 256 times the
/// eased progress, halves rounded up. It is computed exactly, over the
/// integers: with `d` the duration and `r` the time left,
/// `256 * (d^3 - r^3) / d^3`.
pub open spec fn eased_tt(elapsed_ms: int, duration_ms: u32) -> int {
    let d = clamped_duration(duration_ms);
    let r = if elapsed_ms >= d {
        0
    } else if elapsed_ms <= 0 {
        d
    } else {
        d - elapsed_ms
    };
    (512 * (cube(d) - cube(r)) + cube(d)) / (2 * cube(d))
}

proof fn lemma_cube_bounds(r: int, d: int)
    requires
        0 <= r <= d,
        1 <= d <= 0xFFFF_FFFF,
    ensures
        0 <= r * r <= d * d,
        d * d <= 0xFFFF_FFFF * 0xFFFF_FFFF,
        0 <= cube(r) <= cube(d),
        1 <= cube(d) <= 0xFFFF_FFFF * 0xFFFF_FFFF * 0xFFFF_FFFF,
{
    assert(0 <= r * r <= d * d) by (nonlinear_arith)
        requires
            0 <= r <= d,
    ;
    assert(0 <= (r * r) * r <= (d * d) * d) by (nonlinear_arith)
        requires
            0 <= r <= d,
            0 <= r * r <= d * d,
    ;
    assert(1 <= d * d <= 0xFFFF_FFFF * 0xFFFF_FFFF) by (nonlinear_arith)
        requires
            1 <= d <= 0xFFFF_FFFF,
    ;
    assert(1 <= (d * d) * d <= (0xFFFF_FFFF * 0xFFFF_FFFF) * 0xFFFF_FFFF) by (nonlinear_arith)
        requires
            1 <= d <= 0xFFFF_FFFF,
            1 <= d * d <= 0xFFFF_FFFF * 0xFFFF_FFFF,
    ;
}

/// The quantised eased progress at `elapsed_ms` of a transition of
/// `duration_ms` (taken as 1 where it is 0).
pub fn tt_at(elapsed_ms: u64, duration_ms: u32) -> (tt: u16)
    ensures
        tt == eased_tt(elapsed_ms as int, duration_ms),
        tt <= 256,
{
    let d: u128 = if duration_ms == 0 {
        1
    } else {
        duration_ms as u128
    };
    let r: u128 = if elapsed_ms as u128 >= d {
        0
    } else {
        d - elapsed_ms as u128
    };
    proof {
        lemma_cube_bounds(r as int, d as int);
    }
    let d2: u128 = d * d;
    let d3: u128 = d2 * d;
    let r2: u128 = r * r;
    let r3: u128 = r2 * r;
    let num: u128 = 512 * (d3 - r3) + d3;
    let q: u128 = num / (2 * d3);
    proof {
        let ni = num as int;
        let ci = d3 as int;
        assert(ni / (2 * ci) <= 256) by (nonlinear_arith)
            requires
                0 <= ni <= 513 * ci,
                ci >= 1,
        ;
    }
    q as u16
}

/// A transition starts at 0 and ends at 256: `tt` is 0 at the start, 256
/// from the end of the duration on, and never beyond.
pub proof fn lemma_eased_endpoints(elapsed_ms: int, duration_ms: u32)
    ensures
        eased_tt(0, duration_ms) == 0,
        elapsed_ms >= clamped_duration(duration_ms) ==> eased_tt(elapsed_ms, duration_ms) == 256,
        0 <= eased_tt(elapsed_ms, duration_ms) <= 256,
{
    let d = clamped_duration(duration_ms);
    lemma_cube_bounds(d, d);
    let c = cube(d);
    assert((512 * (c - c) + c) / (2 * c) == 0) by (nonlinear_arith)
        requires
            c >= 1,
    ;
    assert((512 * (c - 0) + c) / (2 * c) == 256) by (nonlinear_arith)
        requires
            c >= 1,
    ;
    let r = if elapsed_ms >= d {
        0
    } else if elapsed_ms <= 0 {
        d
    } else {
        d - elapsed_ms
    };
    lemma_cube_bounds(r, d);
    let n = 512 * (c - cube(r)) + c;
    assert(0 <= n / (2 * c) <= 256) by (nonlinear_arith)
        requires
            0 <= n <= 513 * c,
            c >= 1,
    ;
}

/// `tt` never moves backwards as time passes.
pub proof fn lemma_eased_monotone(e1: int, e2: int, duration_ms: u32)
    requires
        e1 <= e2,
    ensures
        eased_tt(e1, duration_ms) <= eased_tt(e2, duration_ms),
{
    let d = clamped_duration(duration_ms);
    let r1 = if e1 >= d {
        0
    } else if e1 <= 0 {
        d
    } else {
        d - e1
    };
    let r2 = if e2 >= d {
        0
    } else if e2 <= 0 {
        d
    } else {
        d - e2
    };
    lemma_cube_bounds(r1, d);
    assert(cube(r2) <= cube(r1)) by {
        if r1 >= 1 {
            lemma_cube_bounds(r2, r1);
        }
    }
    let c = cube(d);
    let n1 = 512 * (c - cube(r1)) + c;
    let n2 = 512 * (c - cube(r2)) + c;
    assert(n1 / (2 * c) <= n2 / (2 * c)) by (nonlinear_arith)
        requires
            n1 <= n2,
            c >= 1,
    ;
}

} // verus!
