//! The image path: target frames rendered or taken from the cache, and the
//! transition that leads to them.

use vstd::prelude::*;
use crate::spec::{opt_chars, Mode, Rgb, Spec, TransitionSpec};
use crate::wallpaper::animations::{
    capture_from_frames, captured, frame_of, frames_view, Animation, AnimationView,
};
use crate::wallpaper::colour::any_painted;
use crate::wallpaper::render::{render_fits, render_spec, try_render, Bitmap, BitmapView};
use crate::wallpaper::wayland::{Engine, EngineError, EngineView};

verus! {

/// One frame of the cache: the surface it belongs to and its size.
#[derive(Clone, Copy, Debug, PartialEq, Eq, Structural)]
pub struct FrameRef {
    pub si: usize,
    pub width: u32,
    pub height: u32,
}

/// The frames an image request on `output` needs: one per usable surface
/// that the request selects, at the surface's size.
pub fn wanted_frames(engine: &Engine, output: &Option<String>) -> (wanted: Vec<FrameRef>)
    ensures
        forall|k: int|
            0 <= k < wanted.len() ==> engine@.paints(
                (#[trigger] wanted[k]).si as int,
                opt_chars(*output),
            ) && wanted[k].width == engine@.surfaces[wanted[k].si as int].width && wanted[k].height
                == engine@.surfaces[wanted[k].si as int].height,
        forall|i: int| #[trigger]
            engine@.paints(i, opt_chars(*output)) ==> exists|k: int|
                0 <= k < wanted.len() && wanted[k].si == i,
        forall|j: int, k: int| 0 <= j < k < wanted.len() ==> wanted[j].si < wanted[k].si,
{
    let n = engine.surface_count();
    let mut wanted: Vec<FrameRef> = Vec::new();
    let mut i: usize = 0;
    while i < n
        invariant
            i <= n,
            n == engine@.surfaces.len(),
            forall|k: int|
                0 <= k < wanted.len() ==> engine@.paints(
                    (#[trigger] wanted[k]).si as int,
                    opt_chars(*output),
                ) && wanted[k].width == engine@.surfaces[wanted[k].si as int].width
                    && wanted[k].height == engine@.surfaces[wanted[k].si as int].height
                    && wanted[k].si < i,
            forall|m: int|
                0 <= m < i && #[trigger] engine@.paints(m, opt_chars(*output)) ==> exists|k: int|
                    0 <= k < wanted.len() && wanted[k].si == m,
            forall|j: int, k: int| 0 <= j < k < wanted.len() ==> wanted[j].si < wanted[k].si,
        decreases n - i,
    {
        if engine.paints(i, output) {
            let ghost prev = wanted@;
            let s = engine.surface(i);
            wanted.push(FrameRef { si: i, width: s.width(), height: s.height() });
            proof {
                assert forall|m: int|
                    0 <= m < i + 1 && #[trigger] engine@.paints(
                        m,
                        opt_chars(*output),
                    ) implies exists|k: int| 0 <= k < wanted.len() && wanted[k].si == m by {
                    if m < i {
                        let k = choose|k: int| 0 <= k < prev.len() && prev[k].si == m;
                        assert(wanted[k].si == m);
                    } else {
                        assert(wanted[wanted.len() - 1].si == m);
                    }
                }
            }
        }
        i += 1;
    }
    wanted
}

/// Whether a table of frames serves every usable surface that `output`
/// selects: there is such a surface, and each has a frame of its size.
pub open spec fn frames_cover(
    e: EngineView,
    output: Option<Seq<char>>,
    frames: Seq<Option<Seq<u32>>>,
) -> bool {
    &&& any_painted(e, output)
    &&& forall|i: int| #[trigger]
        e.paints(i, output) ==> frame_of(frames, i) is Some && frame_of(frames, i).unwrap().len()
            == e.surfaces[i].pixel_count()
}

/// Whether the frames loaded from the cache can stand for a fresh
/// rendering: every selected surface has one of its exact size. One miss
/// makes the whole cache a miss.
pub fn cache_valid(engine: &Engine, output: &Option<String>, frames: &Vec<Option<Vec<u32>>>) -> (r: bool)
    requires
        engine@.wf(),
    ensures
        r == frames_cover(engine@, opt_chars(*output), frames_view(frames@)),
{
    let n = engine.surface_count();
    let ghost out = opt_chars(*output);
    let ghost fv = frames_view(frames@);
    let mut any = false;
    let mut i: usize = 0;
    while i < n
        invariant
            i <= n,
            n == engine@.surfaces.len(),
            engine@.wf(),
            out == opt_chars(*output),
            fv == frames_view(frames@),
            any == (exists|j: int| 0 <= j < i && #[trigger] engine@.paints(j, out)),
            forall|j: int|
                0 <= j < i && #[trigger] engine@.paints(j, out) ==> frame_of(fv, j) is Some
                    && frame_of(fv, j).unwrap().len() == engine@.surfaces[j].pixel_count(),
        decreases n - i,
    {
        if engine.paints(i, output) {
            any = true;
            let hit = if i < frames.len() {
                match &frames[i] {
                    Some(f) => f.len() == engine.surface(i).pixel_count(),
                    None => false,
                }
            } else {
                false
            };
            if !hit {
                return false;
            }
        }
        i += 1;
    }
    any
}

/// Per surface, the frame that shows `src` in `mode` over `bg` at the
/// surface's size, for the usable surfaces that `output` selects.
pub open spec fn rendered(
    e: EngineView,
    output: Option<Seq<char>>,
    src: BitmapView,
    mode: Mode,
    bg: Rgb,
) -> Seq<Option<Seq<u32>>> {
    Seq::new(
        e.surfaces.len(),
        |i: int|
            if e.paints(i, output) {
                Some(render_spec(e.surfaces[i].width, e.surfaces[i].height, src, mode, bg))
            } else {
                None
            },
    )
}

/// Whether the image can be rendered for every selected surface.
pub open spec fn all_render(e: EngineView, output: Option<Seq<char>>, src: BitmapView, mode: Mode) -> bool {
    forall|i: int| #[trigger]
        e.paints(i, output) ==> render_fits(e.surfaces[i].width, e.surfaces[i].height, src, mode)
}

/// Renders the target frame of every usable surface that `output` selects.
/// Surfaces of one size share one rendering. An image that cannot be held
/// at the size of one of the surfaces is refused.
pub fn render_targets(engine: &Engine, output: &Option<String>, src: &Bitmap, mode: Mode, bg: Rgb) -> (r:
    Result<Vec<Option<Vec<u32>>>, EngineError>)
    requires
        engine@.wf(),
    ensures
        r is Ok == all_render(engine@, opt_chars(*output), src@, mode),
        r is Ok ==> frames_view(r.unwrap()@) == rendered(
            engine@,
            opt_chars(*output),
            src@,
            mode,
            bg,
        ),
        r is Err ==> r == Err::<Vec<Option<Vec<u32>>>, EngineError>(EngineError::ImageTooLarge),
{
    let n = engine.surface_count();
    let ghost out = opt_chars(*output);
    let ghost want = rendered(engine@, out, src@, mode, bg);
    let mut frames: Vec<Option<Vec<u32>>> = Vec::new();
    let mut i: usize = 0;
    while i < n
        invariant
            i <= n,
            n == engine@.surfaces.len(),
            engine@.wf(),
            out == opt_chars(*output),
            want == rendered(engine@, out, src@, mode, bg),
            frames.len() == i,
            forall|j: int| 0 <= j < i ==> (#[trigger] frames_view(frames@)[j]) == want[j],
            forall|j: int|
                0 <= j < i && #[trigger] engine@.paints(j, out) ==> render_fits(
                    engine@.surfaces[j].width,
                    engine@.surfaces[j].height,
                    src@,
                    mode,
                ),
        decreases n - i,
    {
        let ghost prev = frames@;
        if engine.paints(i, output) {
            let w = engine.surface(i).width();
            let h = engine.surface(i).height();
            // A surface of the same size rendered before: share its frame.
            let mut shared: Option<Vec<u32>> = None;
            let mut k: usize = 0;
            while k < i && shared.is_none()
                invariant
                    k <= i,
                    i < n,
                    n == engine@.surfaces.len(),
                    frames.len() == i,
                    frames@ == prev,
                    w == engine@.surfaces[i as int].width,
                    h == engine@.surfaces[i as int].height,
                    want == rendered(engine@, out, src@, mode, bg),
                    forall|j: int| 0 <= j < i ==> (#[trigger] frames_view(frames@)[j]) == want[j],
                    shared is Some ==> shared.unwrap()@ == render_spec(w, h, src@, mode, bg)
                        && render_fits(w, h, src@, mode),
                    forall|j: int|
                        0 <= j < i && #[trigger] engine@.paints(j, out) ==> render_fits(
                            engine@.surfaces[j].width,
                            engine@.surfaces[j].height,
                            src@,
                            mode,
                        ),
                decreases i - k + (if shared is None {
                    1int
                } else {
                    0int
                }),
            {
                if engine.paints(k, output) && engine.surface(k).width() == w && engine.surface(
                    k,
                ).height() == h {
                    match &frames[k] {
                        Some(f) => {
                            assert(frames_view(frames@)[k as int] == want[k as int]);
                            shared = Some(f.clone());
                        },
                        None => {},
                    }
                }
                k += 1;
            }
            let frame = match shared {
                Some(f) => Some(f),
                None => try_render(w, h, src, mode, bg),
            };
            match frame {
                Some(f) => {
                    frames.push(Some(f));
                },
                None => {
                    return Err(EngineError::ImageTooLarge);
                },
            }
        } else {
            frames.push(None);
        }
        proof {
            assert forall|j: int| 0 <= j < i + 1 implies (#[trigger] frames_view(frames@)[j])
                == want[j] by {
                if j < i {
                    assert(frames_view(prev)[j] == want[j]);
                }
            }
        }
        i += 1;
    }
    Ok(frames)
}

/// The animation that an image request begins with.
pub open spec fn image_animation(
    e: EngineView,
    frames: Seq<Option<Seq<u32>>>,
    bg: Rgb,
    transition: TransitionSpec,
    output: Option<Seq<char>>,
) -> AnimationView {
    AnimationView::fresh(
        transition.kind,
        transition.wipe_from,
        transition.duration,
        output,
        bg,
        true,
        None,
        captured(e, output),
        frames,
    )
}

/// Begins the change to the target frames of an image, rendered or taken
/// from the cache: at once through the final pass, or by a fade or a wipe
/// from what each surface shows. Without a usable surface that the request
/// selects there is nothing to show the image on.
pub fn begin_image(
    engine: &Engine,
    frames: Vec<Option<Vec<u32>>>,
    bg: Rgb,
    transition: TransitionSpec,
    output: &Option<String>,
) -> (r: Result<Animation, EngineError>)
    requires
        engine@.wf(),
    ensures
        r is Ok == any_painted(engine@, opt_chars(*output)),
        r is Ok ==> r.unwrap()@ == image_animation(
            engine@,
            frames_view(frames@),
            bg,
            transition,
            opt_chars(*output),
        ),
        r is Err ==> r == Err::<Animation, EngineError>(EngineError::NoSurfaceMatched),
{
    let n = engine.surface_count();
    let mut any = false;
    let mut i: usize = 0;
    while i < n
        invariant
            i <= n,
            n == engine@.surfaces.len(),
            any == (exists|j: int| 0 <= j < i && #[trigger] engine@.paints(j, opt_chars(*output))),
        decreases n - i,
    {
        if engine.paints(i, output) {
            any = true;
        }
        i += 1;
    }
    if !any {
        return Err(EngineError::NoSurfaceMatched);
    }
    let from_frames = capture_from_frames(engine, output);
    Ok(
        Animation::new(
            transition.kind,
            transition.wipe_from,
            transition.duration,
            output.clone(),
            bg,
            true,
            None,
            from_frames,
            frames,
        ),
    )
}

/// The parts of an image request.
pub struct ImageRequest {
    pub path: String,
    pub mode: Mode,
    pub bg: Rgb,
    pub transition: TransitionSpec,
    pub output: Option<String>,
}

/// Takes an image request apart; a colour request is refused.
pub fn image_request(spec: &Spec) -> (r: Result<ImageRequest, EngineError>)
    ensures
        r is Ok == spec is Image,
        r is Err ==> r == Err::<ImageRequest, EngineError>(EngineError::NotAnImage),
        r is Ok ==> r.unwrap().path@ == spec->Image_path@ && r.unwrap().mode == spec->Image_mode
            && r.unwrap().bg == spec->Image_colour && r.unwrap().transition
            == spec->Image_transition && opt_chars(r.unwrap().output) == opt_chars(
            spec->Image_output,
        ),
{
    match spec {
        Spec::Image { path, mode, colour, output, transition } => Ok(
            ImageRequest {
                path: path.clone(),
                mode: *mode,
                bg: *colour,
                transition: *transition,
                output: clone_name(output),
            },
        ),
        Spec::Colour { .. } => Err(EngineError::NotAnImage),
    }
}

/// A copy of an optional name.
pub fn clone_name(name: &Option<String>) -> (r: Option<String>)
    ensures
        opt_chars(r) == opt_chars(*name),
{
    match name {
        Some(n) => Some(n.clone()),
        None => None,
    }
}

} // verus!
