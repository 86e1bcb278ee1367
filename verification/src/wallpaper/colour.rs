//! The colour path: a solid colour applied at once, or reached by a fade
//! or a wipe.

use vstd::prelude::*;
use crate::spec::{opt_chars, Rgb, Transition, WipeFrom};
use crate::wallpaper::animations::{capture_from_frames, captured, Animation, AnimationView};
use crate::wallpaper::buffers::{PaintOp, PaintOpView};
use crate::wallpaper::surface::SurfaceView;
use crate::wallpaper::wayland::{commit_requests_of, Engine, EngineView, Request};

verus! {

/// How an instant colour change went, per surface: selected and usable,
/// painted, and passed over (not usable, or both slots busy).
#[derive(Clone, Copy, Debug, PartialEq, Eq, Structural)]
pub struct ApplyReport {
    pub matched: usize,
    pub applied: usize,
    pub skipped: usize,
}

/// How a colour request was begun.
pub enum ColourStart {
    /// The colour was applied at once.
    Applied { report: ApplyReport },
    /// No usable surface is selected; nothing was done.
    NoSurfaces,
    /// Every selected surface shows the colour already: only the recorded
    /// colour changed, and nothing was sent.
    Elided,
    /// The transition is to be driven.
    Animate { animation: Animation },
}

/// Whether an instant colour change paints the surface: it is selected and
/// usable, and one of its slots is free.
pub open spec fn solid_applies(s: SurfaceView, output: Option<Seq<char>>) -> bool {
    s.usable() && s.selected_by(output) && !s.preferring_free().buffers.cur().busy
}

/// The surface after an instant change to `target`: painted with the
/// colour on its free slot, committed, and recording the colour and the
/// frame. With both slots busy it is left as it is.
pub open spec fn solid_applied(s: SurfaceView, target: Rgb, output: Option<Seq<char>>) -> SurfaceView {
    if !(s.usable() && s.selected_by(output)) {
        s
    } else {
        let p = s.preferring_free();
        if p.buffers.cur().busy {
            p
        } else {
            let frame = p.solid_frame(target.pixel());
            p.painted(PaintOpView::Frame { frame }).committed().showing(target, false, frame)
        }
    }
}

/// The messages of an instant colour change for the surfaces below `n`.
pub open spec fn solid_requests(e: EngineView, output: Option<Seq<char>>, n: int) -> Seq<Request>
    decreases n,
{
    if n <= 0 {
        Seq::empty()
    } else {
        solid_requests(e, output, n - 1) + (if solid_applies(e.surfaces[n - 1], output) {
            commit_requests_of(n - 1, e.surfaces[n - 1].preferring_free())
        } else {
            Seq::empty()
        })
    }
}

/// Number of surfaces below `n` that an instant change paints.
pub open spec fn applied_count(e: EngineView, output: Option<Seq<char>>, n: int) -> int
    decreases n,
{
    if n <= 0 {
        0
    } else {
        applied_count(e, output, n - 1) + (if solid_applies(e.surfaces[n - 1], output) {
            1int
        } else {
            0int
        })
    }
}

/// Number of surfaces below `n` that the request selects among the usable.
pub open spec fn matched_count(e: EngineView, output: Option<Seq<char>>, n: int) -> int
    decreases n,
{
    if n <= 0 {
        0
    } else {
        matched_count(e, output, n - 1) + (if e.paints(n - 1, output) {
            1int
        } else {
            0int
        })
    }
}

/// Number of surfaces below `n` that are not usable.
pub open spec fn unusable_count(e: EngineView, n: int) -> int
    decreases n,
{
    if n <= 0 {
        0
    } else {
        unusable_count(e, n - 1) + (if e.surfaces[n - 1].usable() {
            0int
        } else {
            1int
        })
    }
}

/// The engine after an instant change to `target` on `output`.
pub open spec fn after_solid(e: EngineView, target: Rgb, output: Option<Seq<char>>) -> EngineView {
    let n = e.surfaces.len() as int;
    EngineView {
        surfaces: Seq::new(e.surfaces.len(), |i: int| solid_applied(e.surfaces[i], target, output)),
        requests: e.requests + solid_requests(e, output, n) + (if applied_count(e, output, n) > 0 {
            seq![Request::Flush]
        } else {
            Seq::empty()
        }),
        ..e
    }
}

proof fn lemma_counts_bounded(e: EngineView, output: Option<Seq<char>>, n: int)
    requires
        0 <= n <= e.surfaces.len(),
    ensures
        0 <= applied_count(e, output, n) <= matched_count(e, output, n) <= n,
        0 <= unusable_count(e, n),
        unusable_count(e, n) + matched_count(e, output, n) <= n,
    decreases n,
{
    if n > 0 {
        lemma_counts_bounded(e, output, n - 1);
    }
}

/// Shows `target` at once on every usable surface that `output` selects and
/// that has a free slot, and flushes if anything was painted.
pub fn apply_solid_on(engine: &mut Engine, target: Rgb, output: &Option<String>) -> (report:
    ApplyReport)
    requires
        old(engine)@.wf(),
    ensures
        final(engine)@.wf(),
        final(engine)@ == after_solid(old(engine)@, target, opt_chars(*output)),
        report == solid_report(old(engine)@, opt_chars(*output)),
{
    let ghost before = engine@;
    let ghost out = opt_chars(*output);
    let px = target.xrgb8888();
    let n = engine.surface_count();
    let mut matched: usize = 0;
    let mut applied: usize = 0;
    let mut unusable: usize = 0;
    let mut i: usize = 0;
    while i < n
        invariant
            i <= n,
            n == before.surfaces.len(),
            engine@.surfaces.len() == n,
            out == opt_chars(*output),
            px == target.pixel(),
            before.wf(),
            engine@.wf(),
            engine@.same_frame(before),
            forall|j: int|
                0 <= j < i ==> (#[trigger] engine@.surfaces[j]) == solid_applied(
                    before.surfaces[j],
                    target,
                    out,
                ),
            forall|j: int| i <= j < n ==> (#[trigger] engine@.surfaces[j]) == before.surfaces[j],
            engine@.requests == before.requests + solid_requests(before, out, i as int),
            applied == applied_count(before, out, i as int),
            matched == matched_count(before, out, i as int),
            unusable == unusable_count(before, i as int),
        decreases n - i,
    {
        proof {
            lemma_counts_bounded(before, out, i + 1);
        }
        if !engine.surface_usable(i) {
            unusable += 1;
        } else if engine.surface_selected(i, output) {
            matched += 1;
            engine.prefer_free(i);
            if !engine.surface(i).buffers().current_is_busy() {
                let frame = engine.surface(i).solid_frame(px);
                engine.paint_surface(i, &PaintOp::Frame { frame: frame.as_slice() });
                engine.commit_surface(i);
                engine.show_surface(i, target, false, frame);
                applied += 1;
            }
        }
        i += 1;
    }
    if applied > 0 {
        engine.queue_flush();
    }
    proof {
        lemma_counts_bounded(before, out, n as int);
        let after = after_solid(before, target, out);
        assert(engine@.surfaces =~= after.surfaces);
    }
    ApplyReport { matched, applied, skipped: unusable + (matched - applied) }
}

/// Shows `target` at once on every output.
pub fn apply_solid(engine: &mut Engine, target: Rgb) -> (report: ApplyReport)
    requires
        old(engine)@.wf(),
    ensures
        final(engine)@.wf(),
        final(engine)@ == after_solid(old(engine)@, target, None),
        report == solid_report(old(engine)@, None),
{
    apply_solid_on(engine, target, &None)
}

/// Whether some usable surface that `output` selects does not yet show the
/// pixel `px` everywhere.
pub open spec fn needs_transition(e: EngineView, output: Option<Seq<char>>, px: u32) -> bool {
    exists|i: int| #[trigger] e.paints(i, output) && !e.surfaces[i].shows_only(px)
}

/// Whether `output` selects some usable surface.
pub open spec fn any_painted(e: EngineView, output: Option<Seq<char>>) -> bool {
    exists|i: int| #[trigger] e.paints(i, output)
}

/// Whether `output` selects some usable surface.
pub fn any_paints(engine: &Engine, output: &Option<String>) -> (r: bool)
    ensures
        r == any_painted(engine@, opt_chars(*output)),
{
    let n = engine.surface_count();
    let mut i: usize = 0;
    while i < n
        invariant
            i <= n,
            n == engine@.surfaces.len(),
            forall|j: int| 0 <= j < i ==> !(#[trigger] engine@.paints(j, opt_chars(*output))),
        decreases n - i,
    {
        if engine.paints(i, output) {
            return true;
        }
        i += 1;
    }
    false
}

/// The surfaces after a change that was elided: each selected surface
/// records the colour and shows no image; nothing else changes.
pub open spec fn elided_surfaces(e: EngineView, target: Rgb, output: Option<Seq<char>>) -> Seq<
    SurfaceView,
> {
    Seq::new(
        e.surfaces.len(),
        |i: int|
            if e.surfaces[i].selected_by(output) {
                e.surfaces[i].recoloured(target)
            } else {
                e.surfaces[i]
            },
    )
}

/// The animation that a colour transition begins with.
pub open spec fn colour_animation(
    e: EngineView,
    target: Rgb,
    kind: Transition,
    duration_ms: u32,
    output: Option<Seq<char>>,
    wipe_from: WipeFrom,
) -> AnimationView {
    AnimationView::fresh(
        kind,
        wipe_from,
        duration_ms,
        output,
        target,
        false,
        Some(target.pixel()),
        captured(e, output),
        Seq::empty(),
    )
}

/// The report of an instant change on an engine.
pub open spec fn solid_report(e: EngineView, output: Option<Seq<char>>) -> ApplyReport {
    let n = e.surfaces.len() as int;
    ApplyReport {
        matched: matched_count(e, output, n) as usize,
        applied: applied_count(e, output, n) as usize,
        skipped: (unusable_count(e, n) + matched_count(e, output, n) - applied_count(e, output, n))
            as usize,
    }
}

/// How a change to the colour `target` begins on an engine, and what the
/// engine is afterwards. An instant change is applied at once. A fade or a
/// wipe finds no surface to paint, or is elided because every selected
/// usable surface shows the colour already (then only the recorded colour
/// changes, and no message is queued), or is handed back as the animation
/// to drive, the engine untouched.
pub open spec fn colour_begun(
    before: EngineView,
    after: EngineView,
    start: ColourStart,
    target: Rgb,
    kind: Transition,
    duration_ms: u32,
    output: Option<Seq<char>>,
    wipe_from: WipeFrom,
) -> bool {
    if kind == Transition::Instant {
        start is Applied && start->report == solid_report(before, output) && after == after_solid(
            before,
            target,
            output,
        )
    } else if !any_painted(before, output) {
        start is NoSurfaces && after == before
    } else if !needs_transition(before, output, target.pixel()) {
        start is Elided && after == before.with_surfaces(elided_surfaces(before, target, output))
    } else {
        start is Animate && after == before && start->animation@ == colour_animation(
            before,
            target,
            kind,
            duration_ms,
            output,
            wipe_from,
        )
    }
}

/// Begins a change to the colour `target`. An instant change is applied at
/// once. A fade or a wipe is elided where every selected usable surface
/// already shows the colour: then only the recorded colour changes and no
/// message is queued. Otherwise the animation to drive is handed back.
pub fn transition_to_on(
    engine: &mut Engine,
    target: Rgb,
    kind: Transition,
    duration_ms: u32,
    output: &Option<String>,
    wipe_from: WipeFrom,
) -> (start: ColourStart)
    requires
        old(engine)@.wf(),
    ensures
        final(engine)@.wf(),
        colour_begun(
            old(engine)@,
            final(engine)@,
            start,
            target,
            kind,
            duration_ms,
            opt_chars(*output),
            wipe_from,
        ),
{
    if kind == Transition::Instant {
        let report = apply_solid_on(engine, target, output);
        return ColourStart::Applied { report };
    }
    let ghost before = engine@;
    let ghost out = opt_chars(*output);
    let px = target.xrgb8888();
    let n = engine.surface_count();
    let mut any = false;
    let mut needs = false;
    let mut i: usize = 0;
    while i < n
        invariant
            i <= n,
            n == engine@.surfaces.len(),
            engine@ == before,
            before.wf(),
            out == opt_chars(*output),
            px == target.pixel(),
            any == (exists|j: int| 0 <= j < i && #[trigger] before.paints(j, out)),
            needs == (exists|j: int|
                0 <= j < i && #[trigger] before.paints(j, out) && !before.surfaces[j].shows_only(px)),
        decreases n - i,
    {
        if engine.paints(i, output) {
            any = true;
            if !engine.surface(i).shows_only(px) {
                needs = true;
            }
        }
        i += 1;
    }
    if !any {
        return ColourStart::NoSurfaces;
    }
    if !needs {
        let mut k: usize = 0;
        while k < n
            invariant
                k <= n,
                n == before.surfaces.len(),
                engine@.surfaces.len() == n,
                out == opt_chars(*output),
                before.wf(),
                engine@.wf(),
                engine@.same_frame(before),
                engine@.requests == before.requests,
                forall|j: int|
                    0 <= j < k ==> (#[trigger] engine@.surfaces[j]) == elided_surfaces(
                        before,
                        target,
                        out,
                    )[j],
                forall|j: int| k <= j < n ==> (#[trigger] engine@.surfaces[j]) == before.surfaces[j],
            decreases n - k,
        {
            if engine.surface_selected(k, output) {
                engine.recolour_surface(k, target);
            }
            k += 1;
        }
        assert(engine@.surfaces =~= elided_surfaces(before, target, out));
        return ColourStart::Elided;
    }
    let from_frames = capture_from_frames(engine, output);
    let to_frames: Vec<Option<Vec<u32>>> = Vec::new();
    assert(crate::wallpaper::animations::frames_view(to_frames@) =~= Seq::empty());
    let animation = Animation::new(
        kind,
        wipe_from,
        duration_ms,
        output.clone(),
        target,
        false,
        Some(px),
        from_frames,
        to_frames,
    );
    ColourStart::Animate { animation }
}

/// Begins a fade to `target` on every output.
pub fn fade_to(engine: &mut Engine, target: Rgb, duration_ms: u32) -> (start: ColourStart)
    requires
        old(engine)@.wf(),
    ensures
        final(engine)@.wf(),
        colour_begun(
            old(engine)@,
            final(engine)@,
            start,
            target,
            Transition::Fade,
            duration_ms,
            None,
            WipeFrom::Left,
        ),
{
    fade_to_on(engine, target, duration_ms, &None)
}

/// Begins a fade to `target` on `output`.
pub fn fade_to_on(engine: &mut Engine, target: Rgb, duration_ms: u32, output: &Option<String>) -> (start:
    ColourStart)
    requires
        old(engine)@.wf(),
    ensures
        final(engine)@.wf(),
        colour_begun(
            old(engine)@,
            final(engine)@,
            start,
            target,
            Transition::Fade,
            duration_ms,
            opt_chars(*output),
            WipeFrom::Left,
        ),
{
    transition_to_on(engine, target, Transition::Fade, duration_ms, output, WipeFrom::Left)
}

/// Begins a wipe from the left to `target` on `output`.
pub fn wipe_to_on(engine: &mut Engine, target: Rgb, duration_ms: u32, output: &Option<String>) -> (start:
    ColourStart)
    requires
        old(engine)@.wf(),
    ensures
        final(engine)@.wf(),
        colour_begun(
            old(engine)@,
            final(engine)@,
            start,
            target,
            Transition::Wipe,
            duration_ms,
            opt_chars(*output),
            WipeFrom::Left,
        ),
{
    transition_to_on(engine, target, Transition::Wipe, duration_ms, output, WipeFrom::Left)
}

/// Begins a wipe from the given edge to `target` on `output`.
pub fn wipe_to_on_from(
    engine: &mut Engine,
    target: Rgb,
    duration_ms: u32,
    output: &Option<String>,
    wipe_from: WipeFrom,
) -> (start: ColourStart)
    requires
        old(engine)@.wf(),
    ensures
        final(engine)@.wf(),
        colour_begun(
            old(engine)@,
            final(engine)@,
            start,
            target,
            Transition::Wipe,
            duration_ms,
            opt_chars(*output),
            wipe_from,
        ),
{
    transition_to_on(engine, target, Transition::Wipe, duration_ms, output, wipe_from)
}


/// The three channels of a colour in decimal, separated by commas.
pub open spec fn rgb_text(c: Rgb) -> Seq<char> {
    crate::text::decimal(c.r as nat) + seq![','] + crate::text::decimal(c.g as nat) + seq![',']
        + crate::text::decimal(c.b as nat)
}

/// Writes a colour as `r,g,b` in decimal.
pub fn rgb_fmt(c: Rgb) -> (s: String)
    ensures
        s@ == rgb_text(c),
{
    proof {
        reveal_strlit(",");
    }
    let mut s = String::new();
    crate::text::push_decimal(&mut s, c.r as u64);
    s.append(",");
    crate::text::push_decimal(&mut s, c.g as u64);
    s.append(",");
    crate::text::push_decimal(&mut s, c.b as u64);
    s
}

/// The name of a kind of transition.
pub fn kind_name(kind: Transition) -> (name: &'static str)
    ensures
        name@ == (match kind {
            Transition::Instant => "none"@,
            Transition::Fade => "fade"@,
            Transition::Wipe => "wipe"@,
        }),
{
    match kind {
        Transition::Instant => "none",
        Transition::Fade => "fade",
        Transition::Wipe => "wipe",
    }
}

} // verus!
