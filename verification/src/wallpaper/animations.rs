//! The animation driver: a transition presented frame by frame, paced by
//! the compositor, and finished with the exact target.
//!
//! The driver never blocks. Each call of [`Animation::step`] looks at one
//! surface or closes one pass over the surfaces, and tells the caller what
//! to do before the next call: nothing, pump the compositor's events, or
//! idle for a moment.

use vstd::prelude::*;
use crate::spec::{opt_chars, Rgb, Transition, WipeFrom};
use crate::wallpaper::buffers::{PaintOp, PaintOpView};
use crate::wallpaper::surface::{WaitStep, HARD_BAIL_AFTER_MS};
use crate::wallpaper::util::{clamped_duration, eased_tt, tt_at};
use crate::wallpaper::wayland::{Engine, EngineView, Request};

verus! {

/// The pause between two passes when no surface is paced by frame
/// callbacks, in milliseconds.
pub const SOFT_IDLE_MS: u64 = 16;

/// The part of an animation that is under way.
#[derive(Clone, Copy, Debug, PartialEq, Eq, Structural)]
pub enum Phase {
    /// Passes that present the transition at the `tt` of their time.
    Tick,
    /// The one pass that presents the exact target and records it.
    Final,
    /// Nothing is left to do.
    Done,
}

/// What the caller does before the next step.
#[derive(Clone, Copy, Debug, PartialEq, Eq, Structural)]
pub enum DriverAction {
    /// Nothing: step again.
    Continue,
    /// The surface under the cursor is not ready: flush, dispatch what the
    /// compositor sends within a short time, and step again.
    Pump { warn: bool, disabled: bool },
    /// Sleep this many milliseconds, then step again.
    Idle { ms: u64 },
    /// The animation is over; `frames` is the number of ticks it presented,
    /// the final pass not counted.
    Done { frames: u32 },
}

/// The views of a table of optional frames.
pub open spec fn frames_view(v: Seq<Option<Vec<u32>>>) -> Seq<Option<Seq<u32>>> {
    Seq::new(
        v.len(),
        |i: int|
            match v[i] {
                Some(f) => Some(f@),
                None => None,
            },
    )
}

/// The frame of surface `si` in a table, if the table holds one.
pub open spec fn frame_of(frames: Seq<Option<Seq<u32>>>, si: int) -> Option<Seq<u32>> {
    if 0 <= si < frames.len() {
        frames[si]
    } else {
        None
    }
}

/// Per surface, the frame a transition on `output` starts from: the frame
/// the surface shows, for the usable surfaces that the request selects.
pub open spec fn captured(e: EngineView, output: Option<Seq<char>>) -> Seq<Option<Seq<u32>>> {
    Seq::new(
        e.surfaces.len(),
        |i: int|
            if e.paints(i, output) {
                Some(e.surfaces[i].from_frame())
            } else {
                None
            },
    )
}

/// Captures the frames a transition on `output` starts from.
pub fn capture_from_frames(engine: &Engine, output: &Option<String>) -> (frames: Vec<Option<Vec<u32>>>)
    requires
        engine@.wf(),
    ensures
        frames_view(frames@) == captured(engine@, opt_chars(*output)),
{
    let n = engine.surface_count();
    let mut frames: Vec<Option<Vec<u32>>> = Vec::new();
    let mut i: usize = 0;
    while i < n
        invariant
            i <= n,
            n == engine@.surfaces.len(),
            engine@.wf(),
            frames.len() == i,
            forall|j: int|
                0 <= j < i ==> (#[trigger] frames_view(frames@)[j]) == captured(
                    engine@,
                    opt_chars(*output),
                )[j],
        decreases n - i,
    {
        let ghost prev = frames@;
        if engine.paints(i, output) {
            frames.push(Some(engine.surface(i).from_frame()));
        } else {
            frames.push(None);
        }
        proof {
            assert forall|j: int| 0 <= j < i + 1 implies (#[trigger] frames_view(frames@)[j])
                == captured(engine@, opt_chars(*output))[j] by {
                if j < i {
                    assert(frames_view(prev)[j] == captured(engine@, opt_chars(*output))[j]);
                }
            }
        }
        i += 1;
    }
    frames
}

/// The usable surfaces that `output` selects, in the order of the table.
pub fn selected_surfaces(engine: &Engine, output: &Option<String>) -> (sel: Vec<usize>)
    ensures
        forall|k: int| 0 <= k < sel.len() ==> engine@.paints(#[trigger] sel[k] as int, opt_chars(*output)),
        forall|i: int| #[trigger]
            engine@.paints(i, opt_chars(*output)) ==> exists|k: int|
                0 <= k < sel.len() && sel[k] == i,
        forall|j: int, k: int| 0 <= j < k < sel.len() ==> sel[j] < sel[k],
{
    let n = engine.surface_count();
    let mut sel: Vec<usize> = Vec::new();
    let mut i: usize = 0;
    while i < n
        invariant
            i <= n,
            n == engine@.surfaces.len(),
            forall|k: int|
                0 <= k < sel.len() ==> engine@.paints(#[trigger] sel[k] as int, opt_chars(*output))
                    && sel[k] < i,
            forall|m: int|
                0 <= m < i && #[trigger] engine@.paints(m, opt_chars(*output)) ==> exists|k: int|
                    0 <= k < sel.len() && sel[k] == m,
            forall|j: int, k: int| 0 <= j < k < sel.len() ==> sel[j] < sel[k],
        decreases n - i,
    {
        if engine.paints(i, output) {
            let ghost prev = sel@;
            sel.push(i);
            proof {
                assert forall|m: int|
                    0 <= m < i + 1 && #[trigger] engine@.paints(
                        m,
                        opt_chars(*output),
                    ) implies exists|k: int| 0 <= k < sel.len() && sel[k] == m by {
                    if m < i {
                        let k = choose|k: int| 0 <= k < prev.len() && prev[k] == m;
                        assert(sel[k] == m);
                    } else {
                        assert(sel[sel.len() - 1] == m);
                    }
                }
            }
        }
        i += 1;
    }
    sel
}

/// One transition on the surfaces that a request selects.
pub struct Animation {
    kind: Transition,
    wipe_from: WipeFrom,
    duration_ms: u32,
    output: Option<String>,
    colour: Rgb,
    has_image: bool,
    solid: Option<u32>,
    from_frames: Vec<Option<Vec<u32>>>,
    to_frames: Vec<Option<Vec<u32>>>,
    phase: Phase,
    started: bool,
    start_ms: u64,
    tt: u16,
    in_pass: bool,
    cursor: usize,
    waiting: bool,
    wait_start_ms: u64,
    warned: bool,
    frames: u32,
}

/// Mathematical value of an animation.
pub struct AnimationView {
    /// Fade or wipe; an instant transition has no ticks.
    pub kind: Transition,
    pub wipe_from: WipeFrom,
    pub duration_ms: u32,
    /// The output the request named.
    pub output: Option<Seq<char>>,
    /// The colour recorded on each surface at the end.
    pub colour: Rgb,
    /// Whether the surfaces show an image at the end.
    pub has_image: bool,
    /// The target pixel, where the target is a solid colour.
    pub solid: Option<u32>,
    /// Per surface, the frame the transition starts from.
    pub from_frames: Seq<Option<Seq<u32>>>,
    /// Per surface, the target frame, where the target is an image.
    pub to_frames: Seq<Option<Seq<u32>>>,
    pub phase: Phase,
    /// Whether the clock of the transition has started, and when.
    pub started: bool,
    pub start_ms: u64,
    /// The kernel parameter of the pass under way.
    pub tt: u16,
    /// Whether a pass is under way, and the surface it has come to.
    pub in_pass: bool,
    pub cursor: usize,
    /// Whether the surface under the cursor is being waited for, since
    /// when, and whether that wait has warned.
    pub waiting: bool,
    pub wait_start_ms: u64,
    pub warned: bool,
    /// Number of ticks presented (wrapping); the final pass is not counted.
    pub frames: u32,
}

/// An engine, an animation and the action that a step ended with.
pub struct StepResult {
    pub engine: EngineView,
    pub anim: AnimationView,
    pub action: DriverAction,
}

impl View for Animation {
    type V = AnimationView;

    closed spec fn view(&self) -> AnimationView {
        AnimationView {
            kind: self.kind,
            wipe_from: self.wipe_from,
            duration_ms: self.duration_ms,
            output: opt_chars(self.output),
            colour: self.colour,
            has_image: self.has_image,
            solid: self.solid,
            from_frames: frames_view(self.from_frames@),
            to_frames: frames_view(self.to_frames@),
            phase: self.phase,
            started: self.started,
            start_ms: self.start_ms,
            tt: self.tt,
            in_pass: self.in_pass,
            cursor: self.cursor,
            waiting: self.waiting,
            wait_start_ms: self.wait_start_ms,
            warned: self.warned,
            frames: self.frames,
        }
    }
}

/// Milliseconds from `since` to `now`, zero where the clock stepped back.
pub open spec fn ms_since(now: u64, since: u64) -> u64 {
    if now >= since {
        (now - since) as u64
    } else {
        0
    }
}

impl AnimationView {
    /// An animation that has not begun, in its first phase: ticks for a
    /// fade or a wipe, the final pass at once for an instant change.
    pub open spec fn fresh(
        kind: Transition,
        wipe_from: WipeFrom,
        duration_ms: u32,
        output: Option<Seq<char>>,
        colour: Rgb,
        has_image: bool,
        solid: Option<u32>,
        from_frames: Seq<Option<Seq<u32>>>,
        to_frames: Seq<Option<Seq<u32>>>,
    ) -> AnimationView {
        AnimationView {
            kind,
            wipe_from,
            duration_ms,
            output,
            colour,
            has_image,
            solid,
            from_frames,
            to_frames,
            phase: if kind == Transition::Instant {
                Phase::Final
            } else {
                Phase::Tick
            },
            started: false,
            start_ms: 0,
            tt: 0,
            in_pass: false,
            cursor: 0,
            waiting: false,
            wait_start_ms: 0,
            warned: false,
            frames: 0,
        }
    }

    /// Whether a tick presents surface `si`: the request selects it, it can
    /// be painted, and both ends of the transition are known for it.
    pub open spec fn tick_paints(self, e: EngineView, si: int) -> bool {
        e.paints(si, self.output) && frame_of(self.from_frames, si) is Some && (self.solid is Some
            || frame_of(self.to_frames, si) is Some)
    }

    /// The exact frame that the final pass presents on surface `si`, if it
    /// presents one: the target pixel on every pixel of the surface, or the
    /// target frame where it has the surface's size.
    pub open spec fn final_target(self, e: EngineView, si: int) -> Option<Seq<u32>> {
        if !e.paints(si, self.output) {
            None
        } else {
            match self.solid {
                Some(px) => Some(e.surfaces[si].solid_frame(px)),
                None => match frame_of(self.to_frames, si) {
                    Some(f) => if f.len() == e.surfaces[si].pixel_count() {
                        Some(f)
                    } else {
                        None
                    },
                    None => None,
                },
            }
        }
    }

    /// The paint of a tick on surface `si`.
    pub open spec fn tick_op(self, si: int) -> PaintOpView {
        let from = frame_of(self.from_frames, si).unwrap();
        match self.solid {
            Some(to_px) => if self.kind == Transition::Wipe {
                PaintOpView::WipeToSolid { from, to_px, tt: self.tt, wipe_from: self.wipe_from }
            } else {
                PaintOpView::BlendToSolid { from, to_px, tt: self.tt }
            },
            None => {
                let to = frame_of(self.to_frames, si).unwrap();
                if self.kind == Transition::Wipe {
                    PaintOpView::WipeFrames { from, to, tt: self.tt, wipe_from: self.wipe_from }
                } else {
                    PaintOpView::BlendFrames { from, to, tt: self.tt }
                }
            },
        }
    }

    /// Whether some surface of the animation is paced by frame callbacks.
    pub open spec fn paced_by_callbacks(self, e: EngineView) -> bool {
        exists|i: int| #[trigger]
            e.paints(i, self.output) && e.surfaces[i].frame_callback_ok
    }

    /// The animation as a pass begins at `now`. While the duration has not
    /// passed since the first tick began, the pass is a tick and takes its
    /// `tt` from the time passed; once it has, the pass is the final one.
    pub open spec fn pass_begun(self, now: u64) -> AnimationView {
        if self.in_pass {
            self
        } else if self.phase == Phase::Tick {
            let start = if self.started {
                self.start_ms
            } else {
                now
            };
            let elapsed = ms_since(now, start);
            AnimationView {
                in_pass: true,
                started: true,
                start_ms: start,
                tt: eased_tt(elapsed as int, self.duration_ms) as u16,
                phase: if elapsed >= clamped_duration(self.duration_ms) {
                    Phase::Final
                } else {
                    Phase::Tick
                },
                ..self
            }
        } else {
            AnimationView { in_pass: true, ..self }
        }
    }

    /// The animation with the cursor on the next surface.
    pub open spec fn advanced(self) -> AnimationView {
        AnimationView { cursor: (self.cursor + 1) as usize, waiting: false, ..self }
    }

    /// The end of a pass: the connection is flushed and its events
    /// dispatched. After a tick comes another pass, after a pause where no
    /// surface is paced by frame callbacks; after the final pass nothing.
    pub open spec fn pass_ended(self, e: EngineView) -> StepResult {
        let engine = e.sending(seq![Request::Flush, Request::DispatchPending]);
        let rest = AnimationView { cursor: 0, in_pass: false, waiting: false, ..self };
        if self.phase == Phase::Tick {
            let counted = AnimationView {
                frames: if self.frames == u32::MAX {
                    0
                } else {
                    (self.frames + 1) as u32
                },
                ..rest
            };
            if self.paced_by_callbacks(e) {
                StepResult { engine, anim: counted, action: DriverAction::Continue }
            } else {
                StepResult { engine, anim: counted, action: DriverAction::Idle { ms: SOFT_IDLE_MS } }
            }
        } else {
            StepResult {
                engine,
                anim: AnimationView { phase: Phase::Done, ..rest },
                action: DriverAction::Done { frames: self.frames },
            }
        }
    }

    /// Whether the pass under way presents the surface under the cursor.
    pub open spec fn presents(self, e: EngineView) -> bool {
        if self.phase == Phase::Tick {
            self.tick_paints(e, self.cursor as int)
        } else {
            self.final_target(e, self.cursor as int) is Some
        }
    }

    /// The paint of the pass under way on the surface under the cursor.
    pub open spec fn paint_op(self, e: EngineView) -> PaintOpView {
        if self.phase == Phase::Tick {
            self.tick_op(self.cursor as int)
        } else {
            PaintOpView::Frame { frame: self.final_target(e, self.cursor as int).unwrap() }
        }
    }

    /// When the wait for the surface under the cursor began.
    pub open spec fn wait_start(self, now: u64) -> u64 {
        if self.waiting {
            self.wait_start_ms
        } else {
            now
        }
    }

    /// The visit of the surface under the cursor at `now`. A surface that
    /// the pass does not present is passed over. Otherwise the surface is
    /// waited for: while it is not ready the step asks for a pump; once it
    /// is, or once the wait has lasted too long, the surface is painted and
    /// committed, and in the final pass its new contents are recorded.
    pub open spec fn visited(self, e: EngineView, now: u64) -> StepResult {
        let si = self.cursor as int;
        if !self.presents(e) {
            StepResult { engine: e, anim: self.advanced(), action: DriverAction::Continue }
        } else {
            let since = self.wait_start(now);
            let warned = self.waiting && self.warned;
            let elapsed = ms_since(now, since);
            let waited = e.with_surface(si, e.surfaces[si].after_wait(elapsed));
            match e.surfaces[si].wait_decision(elapsed, warned) {
                WaitStep::Pump { warn, disabled } => StepResult {
                    engine: waited,
                    anim: AnimationView {
                        waiting: true,
                        wait_start_ms: since,
                        warned: warned || warn,
                        ..self
                    },
                    action: DriverAction::Pump { warn, disabled },
                },
                _ => {
                    let painted = waited.with_surface(
                        si,
                        waited.surfaces[si].painted(self.paint_op(e)),
                    );
                    let committed = painted.after_commit(si);
                    let engine = if self.phase == Phase::Final {
                        committed.with_surface(
                            si,
                            committed.surfaces[si].showing(
                                self.colour,
                                self.has_image,
                                self.final_target(e, si).unwrap(),
                            ),
                        )
                    } else {
                        committed
                    };
                    StepResult { engine, anim: self.advanced(), action: DriverAction::Continue }
                },
            }
        }
    }

    /// One step of the driver at `now`.
    pub open spec fn stepped(self, e: EngineView, now: u64) -> StepResult {
        if self.phase == Phase::Done {
            StepResult { engine: e, anim: self, action: DriverAction::Done { frames: self.frames } }
        } else {
            let a = self.pass_begun(now);
            if a.cursor >= e.surfaces.len() {
                a.pass_ended(e)
            } else {
                a.visited(e, now)
            }
        }
    }
}


impl Animation {
    /// The phase under way.
    pub fn phase(&self) -> (p: Phase)
        ensures
            p == self@.phase,
    {
        self.phase
    }

    /// Number of ticks presented so far; the final pass is not counted.
    pub fn frames(&self) -> (n: u32)
        ensures
            n == self@.frames,
    {
        self.frames
    }

    /// The kernel parameter of the pass under way.
    pub fn tt(&self) -> (t: u16)
        ensures
            t == self@.tt,
    {
        self.tt
    }

    /// The target frame of surface `si`, where the target is an image.
    pub fn target_frame(&self, si: usize) -> (f: Option<&Vec<u32>>)
        ensures
            f is Some == frame_of(self@.to_frames, si as int) is Some,
            f is Some ==> f.unwrap()@ == frame_of(self@.to_frames, si as int).unwrap(),
    {
        if si < self.to_frames.len() {
            self.to_frames[si].as_ref()
        } else {
            None
        }
    }

    /// An animation that has not begun.
    pub fn new(
        kind: Transition,
        wipe_from: WipeFrom,
        duration_ms: u32,
        output: Option<String>,
        colour: Rgb,
        has_image: bool,
        solid: Option<u32>,
        from_frames: Vec<Option<Vec<u32>>>,
        to_frames: Vec<Option<Vec<u32>>>,
    ) -> (a: Animation)
        ensures
            a@ == AnimationView::fresh(
                kind,
                wipe_from,
                duration_ms,
                opt_chars(output),
                colour,
                has_image,
                solid,
                frames_view(from_frames@),
                frames_view(to_frames@),
            ),
    {
        Animation {
            kind,
            wipe_from,
            duration_ms,
            output,
            colour,
            has_image,
            solid,
            from_frames,
            to_frames,
            phase: if kind == Transition::Instant {
                Phase::Final
            } else {
                Phase::Tick
            },
            started: false,
            start_ms: 0,
            tt: 0,
            in_pass: false,
            cursor: 0,
            waiting: false,
            wait_start_ms: 0,
            warned: false,
            frames: 0,
        }
    }

    fn begin_pass(&mut self, now: u64)
        ensures
            final(self)@ == old(self)@.pass_begun(now),
    {
        if self.in_pass {
            return ;
        }
        if self.phase == Phase::Tick {
            let start = if self.started {
                self.start_ms
            } else {
                now
            };
            let elapsed = if now >= start {
                now - start
            } else {
                0
            };
            let d: u64 = if self.duration_ms == 0 {
                1
            } else {
                self.duration_ms as u64
            };
            self.started = true;
            self.start_ms = start;
            self.tt = tt_at(elapsed, self.duration_ms);
            if elapsed >= d {
                self.phase = Phase::Final;
            }
        }
        self.in_pass = true;
    }

    fn advance(&mut self)
        requires
            old(self).cursor < usize::MAX,
        ensures
            final(self)@ == old(self)@.advanced(),
    {
        self.cursor = self.cursor + 1;
        self.waiting = false;
    }

    fn paced_by_callbacks(&self, engine: &Engine) -> (r: bool)
        ensures
            r == self@.paced_by_callbacks(engine@),
    {
        let n = engine.surface_count();
        let mut i: usize = 0;
        while i < n
            invariant
                i <= n,
                n == engine@.surfaces.len(),
                forall|j: int|
                    0 <= j < i ==> !(#[trigger] engine@.paints(j, self@.output)
                        && engine@.surfaces[j].frame_callback_ok),
            decreases n - i,
        {
            if engine.paints(i, &self.output) && engine.surface(i).frame_callback_ok() {
                return true;
            }
            i += 1;
        }
        false
    }

    fn end_pass(&mut self, engine: &mut Engine) -> (action: DriverAction)
        requires
            old(self).phase != Phase::Done,
            old(engine)@.wf(),
        ensures
            (StepResult { engine: final(engine)@, anim: final(self)@, action }) == old(
                self,
            )@.pass_ended(old(engine)@),
            final(engine)@.wf(),
    {
        let paced = self.paced_by_callbacks(engine);
        engine.queue_flush();
        engine.queue_dispatch();
        assert(engine@.requests =~= old(engine)@.requests + seq![
            Request::Flush,
            Request::DispatchPending,
        ]);
        self.cursor = 0;
        self.in_pass = false;
        self.waiting = false;
        if self.phase == Phase::Tick {
            self.frames = self.frames.wrapping_add(1);
            if paced {
                DriverAction::Continue
            } else {
                DriverAction::Idle { ms: SOFT_IDLE_MS }
            }
        } else {
            self.phase = Phase::Done;
            DriverAction::Done { frames: self.frames }
        }
    }

    fn presents(&self, engine: &Engine) -> (r: bool)
        requires
            engine@.wf(),
        ensures
            r == self@.presents(engine@),
    {
        let si = self.cursor;
        if !engine.paints(si, &self.output) {
            return false;
        }
        let has_to = si < self.to_frames.len() && self.to_frames[si].is_some();
        if self.phase == Phase::Tick {
            let has_from = si < self.from_frames.len() && self.from_frames[si].is_some();
            has_from && (self.solid.is_some() || has_to)
        } else {
            match self.solid {
                Some(_) => true,
                None => {
                    if si < self.to_frames.len() {
                        match &self.to_frames[si] {
                            Some(f) => f.len() == engine.surface(si).pixel_count(),
                            None => false,
                        }
                    } else {
                        false
                    }
                },
            }
        }
    }

    /// Paints one tick on the surface under the cursor.
    fn paint_tick(&self, engine: &mut Engine)
        requires
            old(engine)@.wf(),
            self.cursor < old(engine)@.surfaces.len(),
            frame_of(self@.from_frames, self.cursor as int) is Some,
            self@.solid is Some || frame_of(self@.to_frames, self.cursor as int) is Some,
        ensures
            final(engine)@ == old(engine)@.with_surface(
                self.cursor as int,
                old(engine)@.surfaces[self.cursor as int].painted(self@.tick_op(self.cursor as int)),
            ),
            final(engine)@.wf(),
    {
        let si = self.cursor;
        let wipe = self.kind == Transition::Wipe;
        match &self.from_frames[si] {
            Some(from) => {
                match self.solid {
                    Some(to_px) => {
                        if wipe {
                            engine.paint_surface(
                                si,
                                &PaintOp::WipeToSolid {
                                    from: from.as_slice(),
                                    to_px,
                                    tt: self.tt,
                                    wipe_from: self.wipe_from,
                                },
                            );
                        } else {
                            engine.paint_surface(
                                si,
                                &PaintOp::BlendToSolid { from: from.as_slice(), to_px, tt: self.tt },
                            );
                        }
                    },
                    None => {
                        match &self.to_frames[si] {
                            Some(to) => {
                                if wipe {
                                    engine.paint_surface(
                                        si,
                                        &PaintOp::WipeFrames {
                                            from: from.as_slice(),
                                            to: to.as_slice(),
                                            tt: self.tt,
                                            wipe_from: self.wipe_from,
                                        },
                                    );
                                } else {
                                    engine.paint_surface(
                                        si,
                                        &PaintOp::BlendFrames {
                                            from: from.as_slice(),
                                            to: to.as_slice(),
                                            tt: self.tt,
                                        },
                                    );
                                }
                            },
                            None => {},
                        }
                    },
                }
            },
            None => {},
        }
    }

    /// The exact frame of the final pass for the surface under the cursor.
    fn final_frame(&self, engine: &Engine) -> (f: Vec<u32>)
        requires
            engine@.wf(),
            self@.final_target(engine@, self.cursor as int) is Some,
        ensures
            f@ == self@.final_target(engine@, self.cursor as int).unwrap(),
            f.len() == engine@.surfaces[self.cursor as int].pixel_count(),
    {
        let si = self.cursor;
        match self.solid {
            Some(px) => engine.surface(si).solid_frame(px),
            None => {
                match &self.to_frames[si] {
                    Some(f) => f.clone(),
                    None => Vec::new(),
                }
            },
        }
    }

    fn visit(&mut self, engine: &mut Engine, now: u64) -> (action: DriverAction)
        requires
            old(self).phase != Phase::Done,
            old(self).cursor < old(engine)@.surfaces.len(),
            old(engine)@.wf(),
        ensures
            (StepResult { engine: final(engine)@, anim: final(self)@, action }) == old(
                self,
            )@.visited(old(engine)@, now),
            final(engine)@.wf(),
    {
        let si = self.cursor;
        let n = engine.surface_count();
        if !self.presents(engine) {
            self.advance();
            return DriverAction::Continue;
        }
        let since = if self.waiting {
            self.wait_start_ms
        } else {
            now
        };
        let warned = self.waiting && self.warned;
        let elapsed = if now >= since {
            now - since
        } else {
            0
        };
        let step = engine.wait_for_free_buffer_idx(si, elapsed, warned);
        match step {
            WaitStep::Pump { warn, disabled } => {
                self.waiting = true;
                self.wait_start_ms = since;
                self.warned = warned || warn;
                DriverAction::Pump { warn, disabled }
            },
            _ => {
                if self.phase == Phase::Tick {
                    self.paint_tick(engine);
                    engine.commit_surface(si);
                } else {
                    let target = self.final_frame(engine);
                    engine.paint_surface(si, &PaintOp::Frame { frame: target.as_slice() });
                    engine.commit_surface(si);
                    engine.show_surface(si, self.colour, self.has_image, target);
                }
                self.advance();
                DriverAction::Continue
            },
        }
    }

    /// One step of the driver at `now`, a monotonic clock in milliseconds.
    pub fn step(&mut self, engine: &mut Engine, now: u64) -> (action: DriverAction)
        requires
            old(engine)@.wf(),
        ensures
            (StepResult { engine: final(engine)@, anim: final(self)@, action }) == old(
                self,
            )@.stepped(old(engine)@, now),
            final(engine)@.wf(),
    {
        if self.phase == Phase::Done {
            return DriverAction::Done { frames: self.frames };
        }
        self.begin_pass(now);
        if self.cursor >= engine.surface_count() {
            self.end_pass(engine)
        } else {
            self.visit(engine, now)
        }
    }
}


/// A wait is bounded: once the surface under the cursor has been waited
/// for as long as the hard-bail window, the next step does not ask for
/// another pump, whatever the compositor has or has not sent. It presents
/// the surface and moves on.
pub proof fn lemma_wait_is_bounded(a: AnimationView, e: EngineView, now: u64)
    requires
        a.phase != Phase::Done,
        a.in_pass,
        a.waiting,
        a.cursor < e.surfaces.len() <= usize::MAX,
        now >= a.wait_start_ms + HARD_BAIL_AFTER_MS,
    ensures
        !(a.stepped(e, now).action is Pump),
        a.stepped(e, now).action == DriverAction::Continue,
        a.stepped(e, now).anim.cursor == a.cursor + 1,
        !a.stepped(e, now).anim.waiting,
{
}

/// A step that asks for a pump leaves the cursor where it is and keeps the
/// time at which the wait began; every other step of a pass under way
/// moves the cursor on by one surface.
pub proof fn lemma_step_progress(a: AnimationView, e: EngineView, now: u64)
    requires
        a.phase != Phase::Done,
        a.in_pass,
        a.cursor < e.surfaces.len() <= usize::MAX,
    ensures
        a.stepped(e, now).action is Pump ==> a.stepped(e, now).anim.cursor == a.cursor && a.stepped(
            e,
            now,
        ).anim.waiting && a.stepped(e, now).anim.wait_start_ms == a.wait_start(now),
        !(a.stepped(e, now).action is Pump) ==> a.stepped(e, now).anim.cursor == a.cursor + 1,
        a.stepped(e, now).anim.phase == a.phase,
{
}

/// The final pass is exact. When it presents a surface, the slot it
/// commits holds the target frame pixel for pixel (given a slot of the
/// frame's size), and the surface records that very frame, the colour and
/// whether it shows an image; the ticks before it have no part in that.
pub proof fn lemma_final_pass_is_exact(a: AnimationView, e: EngineView, now: u64)
    requires
        a.phase == Phase::Final,
        a.in_pass,
        a.cursor < e.surfaces.len(),
        a.final_target(e, a.cursor as int) is Some,
        !(a.stepped(e, now).action is Pump),
    ensures
        ({
            let si = a.cursor as int;
            let target = a.final_target(e, si).unwrap();
            let before = e.surfaces[si].after_wait(ms_since(now, a.wait_start(now)));
            let after = a.stepped(e, now).engine.surfaces[si];
            let slot = before.buffers.current;
            &&& after.last_frame == Some(target)
            &&& after.last_colour == a.colour
            &&& after.has_image == a.has_image
            &&& target.len() == after.pixel_count()
            &&& a.solid is Some ==> forall|i: int|
                0 <= i < target.len() ==> target[i] == a.solid.unwrap()
            &&& a.solid is None ==> Some(target) == frame_of(a.to_frames, si)
            &&& before.buffers.cur().ready && before.buffers.cur().pixels.len() == target.len()
                ==> after.buffers.slot(slot).pixels == target && after.buffers.slot(slot).busy
        }),
{
}

/// An animation ends only through its final pass: a step reports the end
/// either because the animation had ended before, or because the final
/// pass has come past the last surface.
pub proof fn lemma_done_after_final_pass(a: AnimationView, e: EngineView, now: u64)
    requires
        a.stepped(e, now).action is Done,
    ensures
        a.phase == Phase::Done || (a.pass_begun(now).phase == Phase::Final && a.cursor
            >= e.surfaces.len()),
        a.stepped(e, now).anim.phase == Phase::Done,
{
}

/// The ticks end: a pass that begins once the duration has passed since
/// the first tick began is the final pass, and a pass that begins before
/// is a tick whose `tt` is that of its time.
pub proof fn lemma_ticks_end(a: AnimationView, now: u64)
    requires
        a.phase == Phase::Tick,
        !a.in_pass,
        a.started,
    ensures
        now >= a.start_ms + clamped_duration(a.duration_ms) ==> a.pass_begun(now).phase
            == Phase::Final,
        a.start_ms <= now < a.start_ms + clamped_duration(a.duration_ms) ==> a.pass_begun(now).phase
            == Phase::Tick && a.pass_begun(now).tt == eased_tt(
            now - a.start_ms,
            a.duration_ms,
        ),
        a.pass_begun(now).tt <= 256,
{
    crate::wallpaper::util::lemma_eased_endpoints(
        ms_since(now, a.start_ms) as int,
        a.duration_ms,
    );
}


/// What happens to an animation under way: the driver takes a step at a
/// clock reading, or the compositor releases a slot of a surface, or it
/// tells that a frame of a surface is done.
pub enum DriverInput {
    Step { now: u64 },
    Release { si: usize, which: usize },
    FrameDone { si: usize },
}

/// The engine after an event of the compositor; a step of the driver is no
/// event, and an event for a surface that is not there changes nothing.
pub open spec fn after_event(e: EngineView, input: DriverInput) -> EngineView {
    match input {
        DriverInput::Step { .. } => e,
        DriverInput::Release { si, which } => if si < e.surfaces.len() {
            e.with_surface(si as int, e.surfaces[si as int].after_release(which as nat))
        } else {
            e
        },
        DriverInput::FrameDone { si } => if si < e.surfaces.len() {
            e.with_surface(si as int, e.surfaces[si as int].after_frame_done())
        } else {
            e
        },
    }
}

/// The animation and the engine after a sequence of inputs: steps of the
/// driver at any clock readings, with releases and frame-done events of the
/// compositor arriving between them in any order.
pub open spec fn run(a: AnimationView, e: EngineView, inputs: Seq<DriverInput>) -> StepResult
    decreases inputs.len(),
{
    if inputs.len() == 0 {
        StepResult { engine: e, anim: a, action: DriverAction::Continue }
    } else {
        let before = run(a, e, inputs.drop_last());
        match inputs.last() {
            DriverInput::Step { now } => before.anim.stepped(before.engine, now),
            event => StepResult {
                engine: after_event(before.engine, event),
                anim: before.anim,
                action: before.action,
            },
        }
    }
}

/// Whether the surfaces below `n` that the final pass presents record the
/// target.
pub open spec fn finalized_below(a: AnimationView, e: EngineView, n: int) -> bool {
    forall|i: int|
        0 <= i < n && i < e.surfaces.len() && (#[trigger] a.final_target(e, i)) is Some ==> {
            &&& e.surfaces[i].last_frame == a.final_target(e, i)
            &&& e.surfaces[i].last_colour == a.colour
            &&& e.surfaces[i].has_image == a.has_image
        }
}

/// What a run keeps of its start: the table's length and, of every
/// surface, what decides whether and with which frame the final pass
/// presents it; of the animation, all but its progress. And how far the
/// final pass has come.
pub open spec fn on_track(a0: AnimationView, e0: EngineView, a: AnimationView, e: EngineView) -> bool {
    &&& e.surfaces.len() == e0.surfaces.len()
    &&& forall|i: int|
        0 <= i < e.surfaces.len() ==> (#[trigger] e.surfaces[i]).alive == e0.surfaces[i].alive
            && e.surfaces[i].configured == e0.surfaces[i].configured && e.surfaces[i].width
            == e0.surfaces[i].width && e.surfaces[i].height == e0.surfaces[i].height
            && e.surfaces[i].output_name == e0.surfaces[i].output_name
    &&& a.output == a0.output
    &&& a.solid == a0.solid
    &&& a.to_frames == a0.to_frames
    &&& a.colour == a0.colour
    &&& a.has_image == a0.has_image
    &&& !a.in_pass ==> a.cursor == 0
    &&& a.cursor <= e.surfaces.len()
    &&& a.phase == Phase::Final ==> finalized_below(a, e, a.cursor as int)
    &&& a.phase == Phase::Done ==> finalized_below(a, e, e.surfaces.len() as int)
}

proof fn lemma_target_is_kept(a0: AnimationView, e0: EngineView, a: AnimationView, e: EngineView, i: int)
    requires
        on_track(a0, e0, a, e),
    ensures
        a.final_target(e, i) == a0.final_target(e0, i),
{
}

proof fn lemma_step_stays_on_track(
    a0: AnimationView,
    e0: EngineView,
    a: AnimationView,
    e: EngineView,
    now: u64,
)
    requires
        on_track(a0, e0, a, e),
        e.surfaces.len() <= usize::MAX,
    ensures
        on_track(a0, e0, a.stepped(e, now).anim, a.stepped(e, now).engine),
{
    let r = a.stepped(e, now);
    if a.phase != Phase::Done {
        let b = a.pass_begun(now);
        let c = b.cursor as int;
        if c < e.surfaces.len() {
            if r.anim.phase == Phase::Final {
                assert forall|i: int|
                    0 <= i < r.anim.cursor && i < r.engine.surfaces.len() && (
                    #[trigger] r.anim.final_target(r.engine, i)) is Some implies r.engine.surfaces[i].last_frame
                    == r.anim.final_target(r.engine, i) && r.engine.surfaces[i].last_colour
                    == r.anim.colour && r.engine.surfaces[i].has_image == r.anim.has_image by {
                    if i < c {
                        assert(b.final_target(e, i) is Some);
                    }
                }
            }
        } else {
            if r.anim.phase == Phase::Done {
                assert forall|i: int|
                    0 <= i < r.engine.surfaces.len() && (#[trigger] r.anim.final_target(
                        r.engine,
                        i,
                    )) is Some implies r.engine.surfaces[i].last_frame == r.anim.final_target(
                    r.engine,
                    i,
                ) && r.engine.surfaces[i].last_colour == r.anim.colour
                    && r.engine.surfaces[i].has_image == r.anim.has_image by {
                    assert(b.final_target(e, i) is Some);
                }
            }
        }
    }
}

/// The compositor's releases and frame-done events do not disturb a run: they
/// touch neither what decides which surfaces the final pass presents nor
/// what the surfaces record, so a run that is on track stays on track.
pub proof fn lemma_event_stays_on_track(
    a0: AnimationView,
    e0: EngineView,
    a: AnimationView,
    e: EngineView,
    input: DriverInput,
)
    requires
        on_track(a0, e0, a, e),
    ensures
        on_track(a0, e0, a, after_event(e, input)),
{
    let e2 = after_event(e, input);
    assert forall|i: int| 0 <= i < e2.surfaces.len() implies (#[trigger] e2.surfaces[i]).alive
        == e0.surfaces[i].alive && e2.surfaces[i].configured == e0.surfaces[i].configured
        && e2.surfaces[i].width == e0.surfaces[i].width && e2.surfaces[i].height
        == e0.surfaces[i].height && e2.surfaces[i].output_name == e0.surfaces[i].output_name
        && e2.surfaces[i].last_frame == e.surfaces[i].last_frame && e2.surfaces[i].last_colour
        == e.surfaces[i].last_colour && e2.surfaces[i].has_image == e.surfaces[i].has_image by {
        assert(e.surfaces[i].alive == e0.surfaces[i].alive);
    }
    assert forall|n: int| finalized_below(a, e, n) implies finalized_below(a, e2, n) by {
        assert forall|i: int|
            0 <= i < n && i < e2.surfaces.len() && (#[trigger] a.final_target(e2, i))
                is Some implies e2.surfaces[i].last_frame == a.final_target(e2, i)
            && e2.surfaces[i].last_colour == a.colour && e2.surfaces[i].has_image
            == a.has_image by {
            assert(e2.surfaces[i].alive == e0.surfaces[i].alive);
            assert(e.surfaces[i].alive == e0.surfaces[i].alive);
            assert(a.final_target(e2, i) == a.final_target(e, i));
        }
    }
}

proof fn lemma_run_stays_on_track(a: AnimationView, e: EngineView, inputs: Seq<DriverInput>)
    requires
        !a.in_pass,
        a.cursor == 0,
        a.phase != Phase::Done,
        e.surfaces.len() <= usize::MAX,
    ensures
        on_track(a, e, run(a, e, inputs).anim, run(a, e, inputs).engine),
    decreases inputs.len(),
{
    if inputs.len() > 0 {
        lemma_run_stays_on_track(a, e, inputs.drop_last());
        let before = run(a, e, inputs.drop_last());
        match inputs.last() {
            DriverInput::Step { now } => {
                lemma_step_stays_on_track(a, e, before.anim, before.engine, now);
            },
            event => {
                lemma_event_stays_on_track(a, e, before.anim, before.engine, event);
            },
        }
    }
}

/// Finalisation is exact for a whole run. Take an animation that has not
/// begun and step it at any clock readings whatever, with any duration,
/// while the compositor releases slots and reports frames done whenever it
/// likes, or never. Once the animation has come to its end, every surface
/// that the request selects and that can be painted records exactly its
/// target frame (the target colour on every pixel, or the image's frame
/// for that surface) together with the colour and whether it shows an
/// image.
pub proof fn lemma_run_ends_exact(a: AnimationView, e: EngineView, inputs: Seq<DriverInput>, i: int)
    requires
        !a.in_pass,
        a.cursor == 0,
        a.phase != Phase::Done,
        e.surfaces.len() <= usize::MAX,
        run(a, e, inputs).anim.phase == Phase::Done,
        a.final_target(e, i) is Some,
    ensures
        run(a, e, inputs).engine.surfaces[i].last_frame == a.final_target(e, i),
        run(a, e, inputs).engine.surfaces[i].last_colour == a.colour,
        run(a, e, inputs).engine.surfaces[i].has_image == a.has_image,
        a.solid is Some ==> a.final_target(e, i) == Some(e.surfaces[i].solid_frame(a.solid.unwrap())),
        a.solid is None ==> a.final_target(e, i) == frame_of(a.to_frames, i),
{
    lemma_run_stays_on_track(a, e, inputs);
    let r = run(a, e, inputs);
    lemma_target_is_kept(a, e, r.anim, r.engine, i);
    assert(r.anim.final_target(r.engine, i) is Some);
}

} // verus!
