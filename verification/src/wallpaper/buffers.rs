//! Double-buffered pixel storage of one surface.
//!
//! A slot is free until it is committed to the compositor, busy from then
//! until the compositor releases it. Exactly one slot is current: the one
//! the next paint goes to.

use vstd::prelude::*;
use crate::spec::WipeFrom;
use crate::wallpaper::paint::{
    blended, blended_to_solid, blitted, filled, paint_blend_frame_to_frame_fast,
    paint_blend_frame_to_solid_fast, paint_frame_u32, paint_solid_u32,
    paint_wipe_frame_to_frame_dir, paint_wipe_frame_to_solid_fast, wiped, wiped_to_solid,
};

verus! {

/// One paint: which kernel runs, and on which operands.
pub enum PaintOp<'a> {
    /// Straight blit of a frame.
    Frame { frame: &'a [u32] },
    /// Fill with one pixel.
    Solid { px: u32 },
    /// Blend between two frames.
    BlendFrames { from: &'a [u32], to: &'a [u32], tt: u16 },
    /// Blend from a frame towards one pixel.
    BlendToSolid { from: &'a [u32], to_px: u32, tt: u16 },
    /// Wipe between two frames.
    WipeFrames { from: &'a [u32], to: &'a [u32], tt: u16, wipe_from: WipeFrom },
    /// Wipe from a frame towards one pixel.
    WipeToSolid { from: &'a [u32], to_px: u32, tt: u16, wipe_from: WipeFrom },
}

/// Mathematical value of a paint.
pub enum PaintOpView {
    Frame { frame: Seq<u32> },
    Solid { px: u32 },
    BlendFrames { from: Seq<u32>, to: Seq<u32>, tt: u16 },
    BlendToSolid { from: Seq<u32>, to_px: u32, tt: u16 },
    WipeFrames { from: Seq<u32>, to: Seq<u32>, tt: u16, wipe_from: WipeFrom },
    WipeToSolid { from: Seq<u32>, to_px: u32, tt: u16, wipe_from: WipeFrom },
}

impl<'a> View for PaintOp<'a> {
    type V = PaintOpView;

    open spec fn view(&self) -> PaintOpView {
        match *self {
            PaintOp::Frame { frame } => PaintOpView::Frame { frame: frame@ },
            PaintOp::Solid { px } => PaintOpView::Solid { px },
            PaintOp::BlendFrames { from, to, tt } => PaintOpView::BlendFrames {
                from: from@,
                to: to@,
                tt,
            },
            PaintOp::BlendToSolid { from, to_px, tt } => PaintOpView::BlendToSolid {
                from: from@,
                to_px,
                tt,
            },
            PaintOp::WipeFrames { from, to, tt, wipe_from } => PaintOpView::WipeFrames {
                from: from@,
                to: to@,
                tt,
                wipe_from,
            },
            PaintOp::WipeToSolid { from, to_px, tt, wipe_from } => PaintOpView::WipeToSolid {
                from: from@,
                to_px,
                tt,
                wipe_from,
            },
        }
    }
}

/// The pixels of a `w` by `h` destination after one paint.
pub open spec fn paint_result(dst: Seq<u32>, w: int, h: int, op: PaintOpView) -> Seq<u32> {
    match op {
        PaintOpView::Frame { frame } => blitted(dst, frame),
        PaintOpView::Solid { px } => filled(dst, px),
        PaintOpView::BlendFrames { from, to, tt } => blended(dst, from, to, tt),
        PaintOpView::BlendToSolid { from, to_px, tt } => blended_to_solid(dst, from, to_px, tt),
        PaintOpView::WipeFrames { from, to, tt, wipe_from } => wiped(
            dst,
            from,
            to,
            w,
            h,
            tt,
            wipe_from,
        ),
        PaintOpView::WipeToSolid { from, to_px, tt, wipe_from } => wiped_to_solid(
            dst,
            from,
            to_px,
            w,
            h,
            tt,
            wipe_from,
        ),
    }
}

/// Runs one paint on a destination of `w` by `h` pixels.
pub fn paint_into(dst: &mut Vec<u32>, w: u32, h: u32, op: &PaintOp)
    ensures
        final(dst)@ == paint_result(old(dst)@, w as int, h as int, op@),
{
    match *op {
        PaintOp::Frame { frame } => paint_frame_u32(dst, frame),
        PaintOp::Solid { px } => paint_solid_u32(dst, px),
        PaintOp::BlendFrames { from, to, tt } => paint_blend_frame_to_frame_fast(dst, from, to, tt),
        PaintOp::BlendToSolid { from, to_px, tt } => paint_blend_frame_to_solid_fast(
            dst,
            from,
            to_px,
            tt,
        ),
        PaintOp::WipeFrames { from, to, tt, wipe_from } => paint_wipe_frame_to_frame_dir(
            dst,
            w,
            h,
            from,
            to,
            tt,
            wipe_from,
        ),
        PaintOp::WipeToSolid { from, to_px, tt, wipe_from } => paint_wipe_frame_to_solid_fast(
            dst,
            w,
            h,
            from,
            to_px,
            tt,
            wipe_from,
        ),
    }
}

/// One shared-memory slot: its pixels, whether its storage exists, and
/// whether the compositor still holds it.
pub struct ShmBuf {
    ready: bool,
    busy: bool,
    pixels: Vec<u32>,
}

/// Mathematical value of a slot.
pub struct ShmBufView {
    pub ready: bool,
    pub busy: bool,
    pub pixels: Seq<u32>,
}

impl View for ShmBuf {
    type V = ShmBufView;

    closed spec fn view(&self) -> ShmBufView {
        ShmBufView { ready: self.ready, busy: self.busy, pixels: self.pixels@ }
    }
}

impl ShmBufView {
    /// A slot without storage.
    pub open spec fn missing() -> ShmBufView {
        ShmBufView { ready: false, busy: false, pixels: Seq::empty() }
    }

    /// A freshly created slot of `n` zeroed pixels.
    pub open spec fn fresh(n: nat) -> ShmBufView {
        ShmBufView { ready: true, busy: false, pixels: Seq::new(n, |i: int| 0u32) }
    }
}

impl ShmBuf {
    fn missing() -> (s: ShmBuf)
        ensures
            s@ == ShmBufView::missing(),
    {
        let s = ShmBuf { ready: false, busy: false, pixels: Vec::new() };
        s
    }

    fn fresh(n: usize) -> (s: ShmBuf)
        ensures
            s@ == ShmBufView::fresh(n as nat),
    {
        let s = ShmBuf { ready: true, busy: false, pixels: vec![0u32; n] };
        assert(s.pixels@ =~= Seq::new(n as nat, |i: int| 0u32));
        s
    }

    /// Whether the slot's storage exists.
    pub fn is_ready(&self) -> (r: bool)
        ensures
            r == self@.ready,
    {
        self.ready
    }

    /// Whether the compositor holds the slot.
    pub fn is_busy(&self) -> (r: bool)
        ensures
            r == self@.busy,
    {
        self.busy
    }

    /// The slot's pixels.
    pub fn pixels(&self) -> (p: &Vec<u32>)
        ensures
            p@ == self@.pixels,
    {
        &self.pixels
    }
}

/// Two slots and the index (0 or 1) of the current one.
pub struct DoubleBuffer {
    a: ShmBuf,
    b: ShmBuf,
    current: usize,
}

/// Mathematical value of a double buffer; any `current` other than 0
/// selects slot `b`.
pub struct DoubleBufferView {
    pub a: ShmBufView,
    pub b: ShmBufView,
    pub current: nat,
}

impl View for DoubleBuffer {
    type V = DoubleBufferView;

    closed spec fn view(&self) -> DoubleBufferView {
        DoubleBufferView { a: self.a@, b: self.b@, current: self.current as nat }
    }
}

impl DoubleBufferView {
    /// No slot has storage; slot 0 is current.
    pub open spec fn empty() -> DoubleBufferView {
        DoubleBufferView { a: ShmBufView::missing(), b: ShmBufView::missing(), current: 0 }
    }

    /// Both slots freshly created with `n` pixels each; slot 0 is current.
    pub open spec fn allocated(n: nat) -> DoubleBufferView {
        DoubleBufferView { a: ShmBufView::fresh(n), b: ShmBufView::fresh(n), current: 0 }
    }

    /// The slot with the given index.
    pub open spec fn slot(self, which: nat) -> ShmBufView {
        if which == 0 {
            self.a
        } else {
            self.b
        }
    }

    /// The same double buffer with one slot replaced.
    pub open spec fn with_slot(self, which: nat, s: ShmBufView) -> DoubleBufferView {
        if which == 0 {
            DoubleBufferView { a: s, ..self }
        } else {
            DoubleBufferView { b: s, ..self }
        }
    }

    /// Index of the slot that is not current.
    pub open spec fn other(self) -> nat {
        if self.current == 0 {
            1
        } else {
            0
        }
    }

    /// The current slot.
    pub open spec fn cur(self) -> ShmBufView {
        self.slot(self.current)
    }

    /// Whether both slots have storage.
    pub open spec fn both_ready(self) -> bool {
        self.a.ready && self.b.ready
    }

    /// The other slot becomes current.
    pub open spec fn swapped(self) -> DoubleBufferView {
        DoubleBufferView { current: self.other(), ..self }
    }

    /// The other slot becomes current if and only if it is not busy.
    pub open spec fn swapped_to_free(self) -> DoubleBufferView {
        if self.slot(self.other()).busy {
            self
        } else {
            self.swapped()
        }
    }

    /// The current slot is handed to the compositor.
    pub open spec fn current_marked_busy(self) -> DoubleBufferView {
        self.with_slot(self.current, ShmBufView { busy: true, ..self.cur() })
    }

    /// The compositor released slot `which`.
    pub open spec fn freed(self, which: nat) -> DoubleBufferView {
        self.with_slot(which, ShmBufView { busy: false, ..self.slot(which) })
    }

    /// The current slot's pixels are replaced, if the slot has storage.
    pub open spec fn painted(self, pixels: Seq<u32>) -> DoubleBufferView {
        if self.cur().ready {
            self.with_slot(self.current, ShmBufView { pixels, ..self.cur() })
        } else {
            self
        }
    }
}

impl DoubleBuffer {
    /// A double buffer without storage.
    pub fn new() -> (d: DoubleBuffer)
        ensures
            d@ == DoubleBufferView::empty(),
    {
        DoubleBuffer { a: ShmBuf::missing(), b: ShmBuf::missing(), current: 0 }
    }

    /// A double buffer with two fresh slots of `n` pixels.
    pub fn allocate(n: usize) -> (d: DoubleBuffer)
        ensures
            d@ == DoubleBufferView::allocated(n as nat),
    {
        DoubleBuffer { a: ShmBuf::fresh(n), b: ShmBuf::fresh(n), current: 0 }
    }

    /// Index of the current slot.
    pub fn current(&self) -> (c: usize)
        ensures
            c == self@.current,
    {
        self.current
    }

    /// The slot with the given index; any index other than 0 is slot `b`.
    pub fn slot(&self, which: usize) -> (s: &ShmBuf)
        ensures
            s@ == self@.slot(which as nat),
    {
        if which == 0 {
            &self.a
        } else {
            &self.b
        }
    }

    /// Makes the other slot current.
    pub fn swap(&mut self)
        ensures
            final(self)@ == old(self)@.swapped(),
    {
        self.current = if self.current == 0 {
            1
        } else {
            0
        };
    }

    /// Whether both slots have storage.
    pub fn both_ready(&self) -> (r: bool)
        ensures
            r == self@.both_ready(),
    {
        self.a.is_ready() && self.b.is_ready()
    }

    /// Whether the slot about to be painted is still held by the compositor.
    pub fn current_is_busy(&self) -> (r: bool)
        ensures
            r == self@.cur().busy,
    {
        if self.current == 0 {
            self.a.busy
        } else {
            self.b.busy
        }
    }

    /// Whether the current slot has storage to paint into and to attach.
    pub fn current_is_ready(&self) -> (r: bool)
        ensures
            r == self@.cur().ready,
    {
        if self.current == 0 {
            self.a.ready
        } else {
            self.b.ready
        }
    }

    /// Marks the current slot as held by the compositor.
    pub fn mark_current_busy(&mut self)
        ensures
            final(self)@ == old(self)@.current_marked_busy(),
    {
        if self.current == 0 {
            self.a.busy = true;
        } else {
            self.b.busy = true;
        }
    }

    /// Marks slot `which` as released by the compositor.
    pub fn mark_free(&mut self, which: usize)
        ensures
            final(self)@ == old(self)@.freed(which as nat),
    {
        if which == 0 {
            self.a.busy = false;
        } else {
            self.b.busy = false;
        }
    }

    /// Makes the other slot current if it is not busy.
    pub fn swap_to_free(&mut self)
        ensures
            final(self)@ == old(self)@.swapped_to_free(),
    {
        let other: usize = if self.current == 0 {
            1
        } else {
            0
        };
        let other_busy = if other == 0 {
            self.a.busy
        } else {
            self.b.busy
        };
        if !other_busy {
            self.current = other;
        }
    }

    /// Runs one paint on the current slot; without storage nothing happens.
    pub fn paint_current(&mut self, w: u32, h: u32, op: &PaintOp)
        ensures
            final(self)@ == old(self)@.painted(
                paint_result(old(self)@.cur().pixels, w as int, h as int, op@),
            ),
    {
        if self.current == 0 {
            if self.a.ready {
                paint_into(&mut self.a.pixels, w, h, op);
            }
        } else {
            if self.b.ready {
                paint_into(&mut self.b.pixels, w, h, op);
            }
        }
    }

    /// The pixels of the current slot.
    pub fn current_pixels(&self) -> (p: &Vec<u32>)
        ensures
            p@ == self@.cur().pixels,
    {
        if self.current == 0 {
            &self.a.pixels
        } else {
            &self.b.pixels
        }
    }
}

/// Swapping twice gives the buffer back; a commit (mark busy, then swap)
/// leaves the painted slot busy and makes the other slot current.
pub proof fn lemma_swap_involution(d: DoubleBufferView)
    requires
        d.current <= 1,
    ensures
        d.swapped().swapped() == d,
        d.current_marked_busy().swapped().slot(d.current).busy,
        d.current_marked_busy().swapped().current == d.other(),
{
}

/// A release is the only way back to free: after slot `which` is released
/// it is free, and the other slot is as it was.
pub proof fn lemma_release_frees(d: DoubleBufferView, which: nat)
    ensures
        !d.freed(which).slot(which).busy,
        d.freed(which).slot(if which == 0 { 1 } else { 0 }) == d.slot(if which == 0 { 1 } else { 0 }),
        d.freed(which).current == d.current,
{
}

/// `swap_to_free` never makes a busy slot current unless the current slot
/// was already busy, and it keeps both slots as they were.
pub proof fn lemma_swap_to_free(d: DoubleBufferView)
    ensures
        d.swapped_to_free().a == d.a,
        d.swapped_to_free().b == d.b,
        !d.slot(d.other()).busy ==> !d.swapped_to_free().cur().busy,
        d.slot(d.other()).busy ==> d.swapped_to_free() == d,
{
}

} // verus!
