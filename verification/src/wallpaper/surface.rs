//! State of one layer surface: geometry, buffers, what it shows, and how
//! its painting is paced.

use vstd::prelude::*;
use crate::spec::{opt_chars, Rgb};
use crate::wallpaper::buffers::{paint_result, DoubleBuffer, DoubleBufferView, PaintOp, PaintOpView};

verus! {

/// Largest size in bytes of one shared-memory slot.
pub const MAX_SHM_BYTES: u64 = 0x7FFF_FFFF;

/// A wait for a free buffer warns once after this many milliseconds.
pub const WARN_AFTER_MS: u64 = 250;

/// A wait gives up on frame-callback pacing after this many milliseconds.
pub const DISABLE_FRAME_CB_AFTER_MS: u64 = 200;

/// A wait ends, whatever the compositor did, after this many milliseconds.
pub const HARD_BAIL_AFTER_MS: u64 = 1500;

/// One surface.
pub struct SurfaceState {
    output_name: Option<String>,
    alive: bool,
    width: u32,
    height: u32,
    configured: bool,
    stride: i32,
    size_bytes: usize,
    buffers: DoubleBuffer,
    last_colour: Rgb,
    has_image: bool,
    last_frame: Option<Vec<u32>>,
    frame_callback_ok: bool,
    frame_pending: bool,
    frame_tick: u32,
}

/// Mathematical value of a surface.
pub struct SurfaceView {
    pub output_name: Option<Seq<char>>,
    pub alive: bool,
    pub width: u32,
    pub height: u32,
    pub configured: bool,
    pub stride: i32,
    pub size_bytes: usize,
    pub buffers: DoubleBufferView,
    pub last_colour: Rgb,
    pub has_image: bool,
    pub last_frame: Option<Seq<u32>>,
    pub frame_callback_ok: bool,
    pub frame_pending: bool,
    pub frame_tick: u32,
}

/// What a wait for a free buffer decided.
#[derive(Clone, Copy, Debug, PartialEq, Eq, Structural)]
pub enum WaitStep {
    /// The current slot can be painted.
    Ready,
    /// The deadline passed: pacing state was cleared and painting goes on.
    HardBail,
    /// Not ready yet: pump compositor events and ask again. `warn` is set
    /// the first time the wait has lasted long; `disabled` when
    /// frame-callback pacing was switched off in this step.
    Pump { warn: bool, disabled: bool },
}

/// What a commit asks of the compositor connection.
#[derive(Clone, Copy, Debug, PartialEq, Eq, Structural)]
pub struct CommitPlan {
    /// A frame callback is to be requested.
    pub request_frame: bool,
    /// The slot to attach, damage and commit, if the current one has storage.
    pub attach: Option<usize>,
}

/// Whether a `w` by `h` XRGB8888 buffer fits in one shared-memory slot.
pub open spec fn fits_shm(w: u32, h: u32) -> bool {
    w as int * h as int * 4 <= MAX_SHM_BYTES
}

impl View for SurfaceState {
    type V = SurfaceView;

    closed spec fn view(&self) -> SurfaceView {
        SurfaceView {
            output_name: opt_chars(self.output_name),
            alive: self.alive,
            width: self.width,
            height: self.height,
            configured: self.configured,
            stride: self.stride,
            size_bytes: self.size_bytes,
            buffers: self.buffers@,
            last_colour: self.last_colour,
            has_image: self.has_image,
            last_frame: match self.last_frame {
                Some(f) => Some(f@),
                None => None,
            },
            frame_callback_ok: self.frame_callback_ok,
            frame_pending: self.frame_pending,
            frame_tick: self.frame_tick,
        }
    }
}

impl SurfaceView {
    /// The invariants of a surface: a configured surface has a size, the
    /// size fits a slot, a kept frame has exactly `width * height` pixels,
    /// and a surface that shows an image has kept its frame.
    pub open spec fn wf(self) -> bool {
        &&& self.configured ==> self.width > 0 && self.height > 0
        &&& fits_shm(self.width, self.height)
        &&& self.last_frame is Some ==> self.last_frame.unwrap().len() == self.width as int
            * self.height as int
        &&& self.has_image ==> self.last_frame is Some
    }

    /// Number of pixels of the surface.
    pub open spec fn pixel_count(self) -> nat {
        (self.width as int * self.height as int) as nat
    }

    /// Whether the surface can be painted: alive, configured, with a size.
    pub open spec fn usable(self) -> bool {
        self.alive && self.configured && self.width != 0 && self.height != 0
    }

    /// Whether a request for `output` selects this surface: every request
    /// without an output does, one with an output selects the surface of
    /// that name.
    pub open spec fn selected_by(self, output: Option<Seq<char>>) -> bool {
        match output {
            None => true,
            Some(want) => self.output_name == Some(want),
        }
    }

    /// The surface as first created on an output.
    pub open spec fn created(output_name: Option<Seq<char>>) -> SurfaceView {
        SurfaceView {
            output_name,
            alive: true,
            width: 0,
            height: 0,
            configured: false,
            stride: 0,
            size_bytes: 0,
            buffers: DoubleBufferView::empty(),
            last_colour: Rgb { r: 0, g: 0, b: 0 },
            has_image: false,
            last_frame: None,
            frame_callback_ok: false,
            frame_pending: false,
            frame_tick: 0,
        }
    }

    /// Pacing state cleared: no callback outstanding, callbacks not trusted.
    pub open spec fn pacing_cleared(self) -> SurfaceView {
        SurfaceView { frame_callback_ok: false, frame_pending: false, ..self }
    }

    /// After a configure event with size `w` by `h`. A size that is zero or
    /// does not fit a slot leaves the surface unconfigured; a changed size
    /// drops the kept frame.
    pub open spec fn after_configure(self, w: u32, h: u32) -> SurfaceView {
        if !fits_shm(w, h) {
            SurfaceView {
                width: 0,
                height: 0,
                configured: false,
                has_image: false,
                last_frame: None,
                ..self
            }
        } else if w == self.width && h == self.height {
            SurfaceView { configured: w > 0 && h > 0, ..self }
        } else {
            SurfaceView {
                width: w,
                height: h,
                configured: w > 0 && h > 0,
                has_image: false,
                last_frame: None,
                ..self
            }
        }
    }

    /// After the compositor closed the layer surface.
    pub open spec fn after_closed(self) -> SurfaceView {
        SurfaceView { configured: false, ..self.pacing_cleared() }
    }

    /// After the compositor released slot `which`.
    pub open spec fn after_release(self, which: nat) -> SurfaceView {
        SurfaceView { buffers: self.buffers.freed(which), ..self }
    }

    /// After a frame-done event: nothing is pending, the tick advances
    /// (wrapping), and callbacks are trusted again.
    pub open spec fn after_frame_done(self) -> SurfaceView {
        SurfaceView {
            frame_pending: false,
            frame_callback_ok: true,
            frame_tick: if self.frame_tick == u32::MAX {
                0
            } else {
                (self.frame_tick + 1) as u32
            },
            ..self
        }
    }

    /// After the surface was destroyed for a per-output unset: the row
    /// stays, with its name and last colour, but nothing else.
    pub open spec fn destroyed(self) -> SurfaceView {
        SurfaceView {
            alive: false,
            configured: false,
            width: 0,
            height: 0,
            stride: 0,
            size_bytes: 0,
            buffers: DoubleBufferView::empty(),
            has_image: false,
            last_frame: None,
            frame_callback_ok: false,
            frame_pending: false,
            ..self
        }
    }

    /// After an unset of all outputs: the surface lives on but forgets what
    /// it shows and how it was paced.
    pub open spec fn forgotten(self) -> SurfaceView {
        SurfaceView { has_image: false, last_frame: None, ..self.pacing_cleared() }
    }

    /// After a destroyed surface was created again on its output.
    pub open spec fn resurrected(self) -> SurfaceView {
        SurfaceView { alive: true, ..self.destroyed() }
    }

    /// Stride in bytes of a buffer for the current size.
    pub open spec fn wanted_stride(self) -> int {
        self.width as int * 4
    }

    /// Size in bytes of a buffer for the current size.
    pub open spec fn wanted_bytes(self) -> int {
        self.width as int * 4 * self.height as int
    }

    /// Whether the buffers must be created anew: the surface has a size,
    /// and a slot is missing or the recorded stride or size disagrees with
    /// the surface's size.
    pub open spec fn needs_buffers(self) -> bool {
        self.width > 0 && self.height > 0 && (!self.buffers.both_ready() || self.size_bytes as int
            != self.wanted_bytes() || self.stride as int != self.wanted_stride())
    }

    /// After the buffers were made to match the size: unchanged where they
    /// already did, else two fresh slots and cleared pacing state.
    pub open spec fn with_buffers(self) -> SurfaceView {
        if self.needs_buffers() {
            SurfaceView {
                buffers: DoubleBufferView::allocated(self.pixel_count()),
                stride: self.wanted_stride() as i32,
                size_bytes: self.wanted_bytes() as usize,
                ..self.pacing_cleared()
            }
        } else {
            self
        }
    }

    /// After the buffers were dropped.
    pub open spec fn without_buffers(self) -> SurfaceView {
        SurfaceView { buffers: DoubleBufferView::empty(), stride: 0, size_bytes: 0, ..self }
    }

    /// The surface with the free slot preferred: if the current slot is
    /// busy and the other is not, the other becomes current.
    pub open spec fn preferring_free(self) -> SurfaceView {
        if self.buffers.cur().busy {
            SurfaceView { buffers: self.buffers.swapped_to_free(), ..self }
        } else {
            self
        }
    }

    /// Whether the current slot may be painted now: it is not busy and,
    /// where frame callbacks pace the surface, none is outstanding.
    pub open spec fn ready_to_paint(self) -> bool {
        if self.frame_callback_ok {
            !self.buffers.cur().busy && !self.frame_pending
        } else {
            !self.buffers.cur().busy
        }
    }

    /// One step of a wait for a free buffer, `elapsed_ms` after the wait
    /// began: the decision.
    pub open spec fn wait_decision(self, elapsed_ms: u64, warned: bool) -> WaitStep {
        if elapsed_ms >= HARD_BAIL_AFTER_MS {
            WaitStep::HardBail
        } else if self.preferring_free().ready_to_paint() {
            WaitStep::Ready
        } else {
            WaitStep::Pump {
                warn: !warned && elapsed_ms >= WARN_AFTER_MS,
                disabled: elapsed_ms >= DISABLE_FRAME_CB_AFTER_MS && self.frame_callback_ok
                    && self.frame_pending,
            }
        }
    }

    /// One step of a wait for a free buffer: the surface afterwards.
    pub open spec fn after_wait(self, elapsed_ms: u64) -> SurfaceView {
        if elapsed_ms >= HARD_BAIL_AFTER_MS {
            self.pacing_cleared()
        } else if self.preferring_free().ready_to_paint() {
            self.preferring_free()
        } else if elapsed_ms >= DISABLE_FRAME_CB_AFTER_MS && self.frame_callback_ok
            && self.frame_pending {
            self.preferring_free().pacing_cleared()
        } else {
            self.preferring_free()
        }
    }

    /// After one paint on the current slot.
    pub open spec fn painted(self, op: PaintOpView) -> SurfaceView {
        SurfaceView {
            buffers: self.buffers.painted(
                paint_result(self.buffers.cur().pixels, self.width as int, self.height as int, op),
            ),
            ..self
        }
    }

    /// What a commit asks for.
    pub open spec fn commit_plan(self) -> CommitPlan {
        CommitPlan {
            request_frame: !self.frame_pending,
            attach: if self.buffers.cur().ready {
                Some(self.buffers.current as usize)
            } else {
                None
            },
        }
    }

    /// After a commit: a frame callback is outstanding; the committed slot
    /// is busy and the other one current.
    pub open spec fn committed(self) -> SurfaceView {
        SurfaceView {
            frame_pending: true,
            buffers: if self.buffers.cur().ready {
                self.buffers.current_marked_busy().swapped()
            } else {
                self.buffers
            },
            ..self
        }
    }

    /// After the surface's contents were recorded as `frame`.
    pub open spec fn showing(self, colour: Rgb, has_image: bool, frame: Seq<u32>) -> SurfaceView {
        SurfaceView { last_colour: colour, has_image, last_frame: Some(frame), ..self }
    }

    /// After only the colour was recorded: the surface shows no image.
    pub open spec fn recoloured(self, colour: Rgb) -> SurfaceView {
        SurfaceView { last_colour: colour, has_image: false, ..self }
    }

    /// The frame of `width * height` pixels filled with one pixel.
    pub open spec fn solid_frame(self, px: u32) -> Seq<u32> {
        Seq::new(self.pixel_count(), |i: int| px)
    }

    /// The frame a transition starts from: the kept frame, or the last
    /// colour on every pixel.
    pub open spec fn from_frame(self) -> Seq<u32> {
        match self.last_frame {
            Some(f) => f,
            None => self.solid_frame(self.last_colour.pixel()),
        }
    }

    /// Whether the surface already shows the pixel `px` everywhere.
    pub open spec fn shows_only(self, px: u32) -> bool {
        forall|i: int| 0 <= i < self.from_frame().len() ==> self.from_frame()[i] == px
    }
}


impl SurfaceState {
    /// A new, live surface on the output of the given name: not configured,
    /// without buffers, showing black.
    pub fn new(output_name: Option<String>) -> (s: SurfaceState)
        ensures
            s@ == SurfaceView::created(opt_chars(output_name)),
            s@.wf(),
    {
        SurfaceState {
            output_name,
            alive: true,
            width: 0,
            height: 0,
            configured: false,
            stride: 0,
            size_bytes: 0,
            buffers: DoubleBuffer::new(),
            last_colour: Rgb { r: 0, g: 0, b: 0 },
            has_image: false,
            last_frame: None,
            frame_callback_ok: false,
            frame_pending: false,
            frame_tick: 0,
        }
    }

    /// Name of the surface's output, once the compositor has told it.
    pub fn output_name(&self) -> (n: Option<&String>)
        ensures
            n is Some == self@.output_name is Some,
            n is Some ==> n.unwrap()@ == self@.output_name.unwrap(),
    {
        self.output_name.as_ref()
    }

    /// Whether the layer surface exists; false once it was destroyed.
    pub fn alive(&self) -> (r: bool)
        ensures
            r == self@.alive,
    {
        self.alive
    }

    /// Whether the compositor has given the surface a size.
    pub fn configured(&self) -> (r: bool)
        ensures
            r == self@.configured,
    {
        self.configured
    }

    /// Width in pixels.
    pub fn width(&self) -> (r: u32)
        ensures
            r == self@.width,
    {
        self.width
    }

    /// Height in pixels.
    pub fn height(&self) -> (r: u32)
        ensures
            r == self@.height,
    {
        self.height
    }

    /// Bytes per row of the buffers as they were created.
    pub fn stride(&self) -> (r: i32)
        ensures
            r == self@.stride,
    {
        self.stride
    }

    /// Size in bytes of each buffer as it was created.
    pub fn size_bytes(&self) -> (r: usize)
        ensures
            r == self@.size_bytes,
    {
        self.size_bytes
    }

    /// The two slots of the surface.
    pub fn buffers(&self) -> (r: &DoubleBuffer)
        ensures
            r@ == self@.buffers,
    {
        &self.buffers
    }

    /// The colour shown last, or the background of the image shown last.
    pub fn last_colour(&self) -> (r: Rgb)
        ensures
            r == self@.last_colour,
    {
        self.last_colour
    }

    /// Whether the surface shows an image.
    pub fn has_image(&self) -> (r: bool)
        ensures
            r == self@.has_image,
    {
        self.has_image
    }

    /// The frame the surface shows, where it was kept.
    pub fn last_frame(&self) -> (f: Option<&Vec<u32>>)
        ensures
            f is Some == self@.last_frame is Some,
            f is Some ==> f.unwrap()@ == self@.last_frame.unwrap(),
    {
        self.last_frame.as_ref()
    }

    /// Whether frame callbacks pace the surface: true once one has arrived.
    pub fn frame_callback_ok(&self) -> (r: bool)
        ensures
            r == self@.frame_callback_ok,
    {
        self.frame_callback_ok
    }

    /// Whether a frame callback is outstanding.
    pub fn frame_pending(&self) -> (r: bool)
        ensures
            r == self@.frame_pending,
    {
        self.frame_pending
    }

    /// Number of frame callbacks that have arrived, wrapping.
    pub fn frame_tick(&self) -> (r: u32)
        ensures
            r == self@.frame_tick,
    {
        self.frame_tick
    }

    /// Whether the surface can be painted.
    pub fn usable(&self) -> (r: bool)
        ensures
            r == self@.usable(),
    {
        self.alive && self.configured && self.width != 0 && self.height != 0
    }

    /// Whether a request for `output` selects this surface.
    pub fn selected_by(&self, output: &Option<String>) -> (r: bool)
        ensures
            r == self@.selected_by(opt_chars(*output)),
    {
        match output {
            None => true,
            Some(want) => match &self.output_name {
                Some(name) => *name == *want,
                None => false,
            },
        }
    }

    /// Whether the surface's invariants hold.
    pub fn check(&self) -> (ok: bool)
        ensures
            ok == self@.wf(),
    {
        assert(self.width as int * self.height as int <= 0xFFFF_FFFF * 0xFFFF_FFFF) by (nonlinear_arith)
            requires
                0 <= self.width <= 0xFFFF_FFFF,
                0 <= self.height <= 0xFFFF_FFFF,
        ;
        let pixels: u64 = (self.width as u64) * (self.height as u64);
        let sized = !self.configured || (self.width > 0 && self.height > 0);
        let fits = pixels <= MAX_SHM_BYTES / 4;
        let framed = match &self.last_frame {
            Some(f) => f.len() as u64 == pixels,
            None => !self.has_image,
        };
        sized && fits && framed
    }

    /// Number of pixels of the surface.
    pub fn pixel_count(&self) -> (n: usize)
        requires
            self@.wf(),
        ensures
            n == self@.pixel_count(),
    {
        (self.width as usize) * (self.height as usize)
    }

    fn clear_pacing(&mut self)
        ensures
            final(self)@ == old(self)@.pacing_cleared(),
    {
        self.frame_pending = false;
        self.frame_callback_ok = false;
    }

    /// Takes a configure event of the compositor.
    pub fn on_configure(&mut self, w: u32, h: u32)
        requires
            old(self)@.wf(),
        ensures
            final(self)@ == old(self)@.after_configure(w, h),
            final(self)@.wf(),
    {
        assert(w as int * h as int <= 0xFFFF_FFFF * 0xFFFF_FFFF) by (nonlinear_arith)
            requires
                0 <= w <= 0xFFFF_FFFF,
                0 <= h <= 0xFFFF_FFFF,
        ;
        let fits = (w as u64) * (h as u64) <= MAX_SHM_BYTES / 4;
        if !fits {
            self.width = 0;
            self.height = 0;
            self.configured = false;
            self.has_image = false;
            self.last_frame = None;
        } else if w == self.width && h == self.height {
            self.configured = w > 0 && h > 0;
        } else {
            self.width = w;
            self.height = h;
            self.configured = w > 0 && h > 0;
            self.has_image = false;
            self.last_frame = None;
        }
    }

    /// Takes the compositor's notice that it closed the layer surface.
    pub fn on_closed(&mut self)
        requires
            old(self)@.wf(),
        ensures
            final(self)@ == old(self)@.after_closed(),
            final(self)@.wf(),
    {
        self.configured = false;
        self.clear_pacing();
    }

    /// Takes the release of slot `which` (0 or 1).
    pub fn on_buffer_release(&mut self, which: usize)
        requires
            old(self)@.wf(),
        ensures
            final(self)@ == old(self)@.after_release(which as nat),
            final(self)@.wf(),
    {
        self.buffers.mark_free(which);
    }

    /// Takes a frame-done event.
    pub fn on_frame_done(&mut self)
        requires
            old(self)@.wf(),
        ensures
            final(self)@ == old(self)@.after_frame_done(),
            final(self)@.wf(),
    {
        self.frame_pending = false;
        self.frame_tick = self.frame_tick.wrapping_add(1);
        self.frame_callback_ok = true;
    }

    /// Forgets everything but the row itself: the surface was destroyed.
    pub fn destroy(&mut self)
        ensures
            final(self)@ == old(self)@.destroyed(),
            final(self)@.wf(),
    {
        self.alive = false;
        self.reset();
    }

    fn reset(&mut self)
        ensures
            final(self)@ == (SurfaceView { alive: old(self)@.alive, ..old(self)@.destroyed() }),
    {
        self.configured = false;
        self.width = 0;
        self.height = 0;
        self.stride = 0;
        self.size_bytes = 0;
        self.buffers = DoubleBuffer::new();
        self.has_image = false;
        self.last_frame = None;
        self.frame_callback_ok = false;
        self.frame_pending = false;
    }

    /// Forgets what the surface shows and how it was paced.
    pub fn forget(&mut self)
        requires
            old(self)@.wf(),
        ensures
            final(self)@ == old(self)@.forgotten(),
            final(self)@.wf(),
    {
        self.has_image = false;
        self.last_frame = None;
        self.clear_pacing();
    }

    /// Brings a destroyed surface back: alive, awaiting its configure.
    pub fn resurrect(&mut self)
        ensures
            final(self)@ == old(self)@.resurrected(),
            final(self)@.wf(),
    {
        self.alive = true;
        self.reset();
    }

    /// Whether the buffers must be created anew.
    pub fn needs_buffers(&self) -> (r: bool)
        requires
            self@.wf(),
        ensures
            r == self@.needs_buffers(),
    {
        proof {
            lemma_fits(self.width, self.height);
        }
        if self.width == 0 || self.height == 0 {
            return false;
        }
        let stride: u64 = (self.width as u64) * 4;
        let bytes: u64 = stride * (self.height as u64);
        !self.buffers.both_ready() || self.size_bytes as u64 != bytes || self.stride < 0
            || self.stride as u64 != stride
    }

    /// Makes the buffers match the surface's size. Returns whether they were
    /// created anew.
    pub fn ensure_buffers(&mut self) -> (recreated: bool)
        requires
            old(self)@.wf(),
        ensures
            recreated == old(self)@.needs_buffers(),
            final(self)@ == old(self)@.with_buffers(),
            final(self)@.wf(),
            !final(self)@.needs_buffers(),
    {
        if !self.needs_buffers() {
            return false;
        }
        proof {
            lemma_fits(self.width, self.height);
        }
        let n = self.pixel_count();
        self.clear_pacing();
        self.buffers = DoubleBuffer::allocate(n);
        self.stride = (self.width * 4) as i32;
        self.size_bytes = (self.width as usize) * 4 * (self.height as usize);
        true
    }

    /// Drops both slots, so that the next `ensure_buffers` creates them.
    pub fn drop_buffers(&mut self)
        requires
            old(self)@.wf(),
        ensures
            final(self)@ == old(self)@.without_buffers(),
            final(self)@.wf(),
    {
        self.buffers = DoubleBuffer::new();
        self.stride = 0;
        self.size_bytes = 0;
    }

    /// One step of a wait for a free buffer, `elapsed_ms` after it began.
    /// `warned` tells whether this wait has warned already.
    pub fn wait_for_free_buffer(&mut self, elapsed_ms: u64, warned: bool) -> (step: WaitStep)
        requires
            old(self)@.wf(),
        ensures
            step == old(self)@.wait_decision(elapsed_ms, warned),
            final(self)@ == old(self)@.after_wait(elapsed_ms),
            final(self)@.wf(),
    {
        if elapsed_ms >= HARD_BAIL_AFTER_MS {
            self.clear_pacing();
            return WaitStep::HardBail;
        }
        if self.buffers.current_is_busy() {
            self.buffers.swap_to_free();
        }
        let ready = if self.frame_callback_ok {
            !self.buffers.current_is_busy() && !self.frame_pending
        } else {
            !self.buffers.current_is_busy()
        };
        if ready {
            return WaitStep::Ready;
        }
        let mut disabled = false;
        if elapsed_ms >= DISABLE_FRAME_CB_AFTER_MS && self.frame_callback_ok && self.frame_pending {
            self.clear_pacing();
            disabled = true;
        }
        WaitStep::Pump { warn: !warned && elapsed_ms >= WARN_AFTER_MS, disabled }
    }

    /// Makes the free slot current where the current one is busy and the
    /// other is not.
    pub fn prefer_free(&mut self)
        requires
            old(self)@.wf(),
        ensures
            final(self)@ == old(self)@.preferring_free(),
            final(self)@.wf(),
    {
        if self.buffers.current_is_busy() {
            self.buffers.swap_to_free();
        }
    }

    /// Runs one paint on the current slot.
    pub fn paint(&mut self, op: &PaintOp)
        requires
            old(self)@.wf(),
        ensures
            final(self)@ == old(self)@.painted(op@),
            final(self)@.wf(),
    {
        self.buffers.paint_current(self.width, self.height, op);
    }

    /// Commits the current slot: asks for a frame callback unless one is
    /// outstanding, hands the slot to the compositor and makes the other
    /// slot current. Returns what is to be sent.
    pub fn commit(&mut self) -> (plan: CommitPlan)
        requires
            old(self)@.wf(),
        ensures
            plan == old(self)@.commit_plan(),
            final(self)@ == old(self)@.committed(),
            final(self)@.wf(),
    {
        let request_frame = !self.frame_pending;
        self.frame_pending = true;
        if self.buffers.current_is_ready() {
            let slot = self.buffers.current();
            self.buffers.mark_current_busy();
            self.buffers.swap();
            CommitPlan { request_frame, attach: Some(slot) }
        } else {
            CommitPlan { request_frame, attach: None }
        }
    }

    /// Records what the surface now shows.
    pub fn show(&mut self, colour: Rgb, has_image: bool, frame: Vec<u32>)
        requires
            old(self)@.wf(),
            frame.len() == old(self)@.pixel_count(),
        ensures
            final(self)@ == old(self)@.showing(colour, has_image, frame@),
            final(self)@.wf(),
    {
        self.last_colour = colour;
        self.has_image = has_image;
        self.last_frame = Some(frame);
    }

    /// Records the colour alone; the surface then shows no image.
    pub fn recolour(&mut self, colour: Rgb)
        requires
            old(self)@.wf(),
        ensures
            final(self)@ == old(self)@.recoloured(colour),
            final(self)@.wf(),
    {
        self.last_colour = colour;
        self.has_image = false;
    }

    /// A frame of the surface's size filled with one pixel.
    pub fn solid_frame(&self, px: u32) -> (f: Vec<u32>)
        requires
            self@.wf(),
        ensures
            f@ == self@.solid_frame(px),
    {
        let n = self.pixel_count();
        let f = vec![px; n];
        f
    }

    /// The frame a transition starts from.
    pub fn from_frame(&self) -> (f: Vec<u32>)
        requires
            self@.wf(),
        ensures
            f@ == self@.from_frame(),
            f.len() == self@.pixel_count(),
    {
        match &self.last_frame {
            Some(frame) => frame.clone(),
            None => self.solid_frame(self.last_colour.xrgb8888()),
        }
    }

    /// Whether the surface already shows the pixel `px` everywhere.
    pub fn shows_only(&self, px: u32) -> (r: bool)
        requires
            self@.wf(),
        ensures
            r == self@.shows_only(px),
    {
        match &self.last_frame {
            Some(frame) => {
                let mut i: usize = 0;
                while i < frame.len()
                    invariant
                        i <= frame.len(),
                        self@.from_frame() == frame@,
                        forall|j: int| 0 <= j < i ==> frame[j] == px,
                    decreases frame.len() - i,
                {
                    if frame[i] != px {
                        return false;
                    }
                    i += 1;
                }
                true
            },
            None => {
                let same = self.last_colour.xrgb8888() == px;
                proof {
                    let f = self@.from_frame();
                    if !same && f.len() > 0 {
                        assert(f[0] != px);
                    }
                }
                same || self.pixel_count() == 0
            },
        }
    }
}

/// A wait ends in one of two ways. It hands over a slot that the
/// compositor does not hold: when the decision is `Ready` the slot that is
/// current afterwards is not busy and, where frame callbacks pace the
/// surface, none is outstanding. Or it ends at its deadline, and only
/// then: the decision is `HardBail` exactly from the deadline on, and the
/// pacing state is cleared.
pub proof fn lemma_wait_outcomes(s: SurfaceView, elapsed_ms: u64, warned: bool)
    ensures
        s.wait_decision(elapsed_ms, warned) == WaitStep::Ready ==> !s.after_wait(
            elapsed_ms,
        ).buffers.cur().busy && !(s.after_wait(elapsed_ms).frame_callback_ok && s.after_wait(
            elapsed_ms,
        ).frame_pending),
        s.wait_decision(elapsed_ms, warned) == WaitStep::HardBail <==> elapsed_ms
            >= HARD_BAIL_AFTER_MS,
        s.wait_decision(elapsed_ms, warned) == WaitStep::HardBail ==> !s.after_wait(
            elapsed_ms,
        ).frame_callback_ok && !s.after_wait(elapsed_ms).frame_pending,
        s.after_wait(elapsed_ms).buffers.a.pixels == s.buffers.a.pixels,
        s.after_wait(elapsed_ms).buffers.b.pixels == s.buffers.b.pixels,
        s.after_wait(elapsed_ms).last_frame == s.last_frame,
{
}

/// A commit of a surface with buffers hands the painted slot to the
/// compositor and makes the other slot the next to paint; the release of
/// that slot is what makes it free again.
pub proof fn lemma_commit_then_release(s: SurfaceView)
    requires
        s.buffers.cur().ready,
        s.buffers.current <= 1,
    ensures
        s.committed().buffers.slot(s.buffers.current).busy,
        s.committed().buffers.current == s.buffers.other(),
        s.committed().frame_pending,
        !s.committed().after_release(s.buffers.current).buffers.slot(s.buffers.current).busy,
        s.committed().buffers.slot(s.buffers.current).pixels == s.buffers.cur().pixels,
{
}

proof fn lemma_fits(w: u32, h: u32)
    requires
        fits_shm(w, h),
    ensures
        0 <= w as int * h as int <= 0x1FFF_FFFF,
        w > 0 && h > 0 ==> w as int * 4 <= 0x7FFF_FFFF,
        w as int * 4 * h as int == w as int * h as int * 4,
        w as int * 4 * h as int <= 0x7FFF_FFFF,
{
    assert(w as int * 4 * h as int == w as int * h as int * 4) by (nonlinear_arith);
    if w > 0 && h > 0 {
        assert(w as int <= w as int * h as int) by (nonlinear_arith)
            requires
                0 < w,
                0 < h,
        ;
    }
}

} // verus!
