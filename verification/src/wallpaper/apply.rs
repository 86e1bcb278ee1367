//! One request applied to the engine, step by step.
//!
//! Applying a request alternates decisions of the engine with work on the
//! compositor connection, the disk and the clock. The decisions are taken
//! here: after each piece of outside work is done, [`ApplyTask::next`]
//! says which comes next, until the request is in force or has failed.

use vstd::prelude::*;
use crate::spec::{opt_chars, Rgb, Spec, SpecView, Transition};
use crate::wallpaper::animations::{frames_view, Animation, AnimationView, DriverAction};
use crate::wallpaper::colour::{
    after_solid, any_painted, any_paints, colour_animation, elided_surfaces, needs_transition,
    transition_to_on, ColourStart,
};
use crate::wallpaper::image::{
    all_render, begin_image, cache_valid, clone_name, frames_cover, image_animation,
    render_targets, rendered,
};
use crate::wallpaper::render::Bitmap;
use crate::wallpaper::wayland::{ConfigureWait, Engine, EngineError, EngineView};

verus! {

/// What the engine is asked to do.
#[derive(Debug, Clone, PartialEq, Eq)]
pub enum Job {
    /// Put a request in force.
    Apply { spec: Spec },
    /// Unset the wallpaper of one output, or of all.
    Unset { output: Option<String> },
    /// Get surfaces and buffers ready before the first request.
    Warmup,
}

/// Mathematical value of a job.
pub enum JobView {
    Apply { spec: SpecView },
    Unset { output: Option<Seq<char>> },
    Warmup,
}

impl View for Job {
    type V = JobView;

    open spec fn view(&self) -> JobView {
        match *self {
            Job::Apply { spec } => JobView::Apply { spec: spec@ },
            Job::Unset { output } => JobView::Unset { output: opt_chars(output) },
            Job::Warmup => JobView::Warmup,
        }
    }
}

impl JobView {
    /// The output the job names, if any.
    pub open spec fn output(self) -> Option<Seq<char>> {
        match self {
            JobView::Apply { spec } => spec.output(),
            JobView::Unset { output } => output,
            JobView::Warmup => None,
        }
    }

    /// Whether the job puts an image in force.
    pub open spec fn is_image(self) -> bool {
        self is Apply && self->spec is Image
    }

    /// Whether the job puts a colour in force.
    pub open spec fn is_colour(self) -> bool {
        self is Apply && self->spec is Colour
    }

    /// The request of an apply.
    pub open spec fn spec(self) -> SpecView {
        self->spec
    }
}

/// The outside work that was done last.
#[derive(Clone, Copy, Debug, PartialEq, Eq, Structural)]
pub enum Stage {
    /// Nothing yet.
    Start,
    /// The request was written down.
    Persisted,
    /// The outputs had time to tell their names.
    Settled,
    /// The surfaces were created.
    SurfacesSent,
    /// A round trip of the wait for configuration.
    RoundTripped,
    /// A sleep of the wait for configuration.
    Slept,
    /// The round trip before an image's buffers.
    ImageRoundTripped,
    /// The buffers were created.
    BuffersSent,
    /// The cache was asked for the image's frames.
    CacheAsked,
    /// The image was decoded and rendered.
    DecodeAsked,
    /// The transition was driven to its end.
    Animated,
    /// All that was to be painted or stored is.
    Painted,
    /// The request is in force.
    Finished,
    /// The request has failed.
    Failed,
}

/// The next piece of outside work.
#[derive(Clone, Copy, Debug, PartialEq, Eq, Structural)]
pub enum ApplyAction {
    /// Write the request down as the one applied last; a failure is passed
    /// over.
    Persist,
    /// Make two round trips so that the outputs' names arrive; failures
    /// are passed over.
    Settle,
    /// Send the queued messages to the compositor.
    Send,
    /// Make one round trip.
    Roundtrip,
    /// Sleep this many milliseconds.
    Sleep { ms: u64 },
    /// Look the image up in the cache and hand in its frames.
    LoadCached,
    /// Decode the image and hand it in.
    Decode,
    /// Drive the animation to its end.
    Animate,
    /// Record the image in the cache and store its frames.
    StoreFrames,
    /// The request is in force.
    Finished,
    /// The request has failed.
    Failed { error: EngineError },
}

/// One job on its way.
pub struct ApplyTask {
    job: Job,
    stage: Stage,
    round: u32,
    animation: Option<Animation>,
    frames: Option<Vec<Option<Vec<u32>>>>,
    oversize: bool,
    from_cache: bool,
    failure: Option<EngineError>,
}

/// Mathematical value of a job on its way.
pub struct ApplyTaskView {
    pub job: JobView,
    pub stage: Stage,
    /// Number of the round trip of the wait for configuration, from 0.
    pub round: u32,
    /// The animation under way, if any.
    pub animation: Option<AnimationView>,
    /// The frames handed in: those of the cache, or the rendered ones.
    pub frames: Option<Seq<Option<Seq<u32>>>>,
    /// Whether the image proved too large to render.
    pub oversize: bool,
    /// Whether the frames shown are the cache's.
    pub from_cache: bool,
    /// Why the request failed, if it did.
    pub failure: Option<EngineError>,
}

/// A request on its way, the engine, and the action a step ended with.
pub struct Planned {
    pub task: ApplyTaskView,
    pub engine: EngineView,
    pub action: ApplyAction,
}

impl View for ApplyTask {
    type V = ApplyTaskView;

    closed spec fn view(&self) -> ApplyTaskView {
        ApplyTaskView {
            job: self.job@,
            stage: self.stage,
            round: self.round,
            animation: match self.animation {
                Some(a) => Some(a@),
                None => None,
            },
            frames: match self.frames {
                Some(f) => Some(frames_view(f@)),
                None => None,
            },
            oversize: self.oversize,
            from_cache: self.from_cache,
            failure: self.failure,
        }
    }
}

impl ApplyTaskView {
    /// A job that has not begun.
    pub open spec fn fresh(job: JobView) -> ApplyTaskView {
        ApplyTaskView {
            job,
            stage: Stage::Start,
            round: 0,
            animation: None,
            frames: None,
            oversize: false,
            from_cache: false,
            failure: None,
        }
    }

    /// The same job at another stage.
    pub open spec fn at(self, stage: Stage) -> ApplyTaskView {
        ApplyTaskView { stage, ..self }
    }

    /// The step that ends the request with an error.
    pub open spec fn failed(self, e: EngineView, error: EngineError) -> Planned {
        Planned {
            task: ApplyTaskView { stage: Stage::Failed, failure: Some(error), ..self },
            engine: e,
            action: ApplyAction::Failed { error },
        }
    }

    /// The step that takes an action and moves to a stage.
    pub open spec fn doing(self, e: EngineView, stage: Stage, action: ApplyAction) -> Planned {
        Planned { task: self.at(stage), engine: e, action }
    }

    /// The surfaces are made: the table is filled if it is empty, and for
    /// an apply the selected surfaces that were destroyed come back.
    pub open spec fn make_surfaces(self, e: EngineView) -> Planned {
        match e.surfaces_ensured() {
            Err(error) => self.failed(e, error),
            Ok(filled) => if self.job is Apply {
                match filled.selected_revived(self.job.output()) {
                    Err(error) => self.failed(filled, error),
                    Ok(revived) => self.doing(revived, Stage::SurfacesSent, ApplyAction::Send),
                }
            } else {
                self.doing(filled, Stage::SurfacesSent, ApplyAction::Send)
            },
        }
    }

    /// The buffers are made: for an image those of the selected surfaces,
    /// else those of every usable surface.
    pub open spec fn make_buffers(self, e: EngineView) -> Planned {
        let output = if self.job.is_image() {
            self.job.output()
        } else {
            None
        };
        match e.buffers_ensured(output) {
            Err(error) => self.failed(e, error),
            Ok(buffered) => self.doing(buffered, Stage::BuffersSent, ApplyAction::Send),
        }
    }

    /// What follows the configuration. A request that names an output which
    /// no surface goes by is refused here, before anything is allocated,
    /// decoded or painted: the engine, its queue and the request in force
    /// stay as they are. An unset is carried out; the buffers of an image
    /// are made after one more round trip, all others at once.
    pub open spec fn configured(self, e: EngineView) -> Planned {
        match self.job {
            JobView::Unset { output } => match e.unset_done(output) {
                Ok(done) => self.doing(done, Stage::Painted, ApplyAction::Send),
                Err(error) => self.failed(e, error),
            },
            JobView::Apply { spec } => if !e.output_known(spec.output()) {
                self.failed(e, EngineError::OutputUnknown)
            } else if spec is Image {
                self.doing(e, Stage::ImageRoundTripped, ApplyAction::Roundtrip)
            } else {
                self.make_buffers(e)
            },
            JobView::Warmup => self.make_buffers(e),
        }
    }

    /// The colour request is begun on surfaces with buffers: applied at
    /// once, elided, or handed to the animation driver.
    pub open spec fn begin_colour(self, e: EngineView) -> Planned {
        let colour = self.job.spec().colour();
        let t = self.job.spec().transition();
        let output = self.job.output();
        if t.kind == Transition::Instant {
            self.doing(after_solid(e, colour, output), Stage::Painted, ApplyAction::Send)
        } else if !any_painted(e, output) {
            self.doing(e, Stage::Painted, ApplyAction::Send)
        } else if !needs_transition(e, output, colour.pixel()) {
            self.doing(
                e.with_surfaces(elided_surfaces(e, colour, output)),
                Stage::Painted,
                ApplyAction::Send,
            )
        } else {
            Planned {
                task: ApplyTaskView {
                    stage: Stage::Animated,
                    animation: Some(
                        colour_animation(e, colour, t.kind, t.duration, output, t.wipe_from),
                    ),
                    ..self
                },
                engine: e,
                action: ApplyAction::Animate,
            }
        }
    }

    /// The image is shown from the frames handed in.
    pub open spec fn begin_frames(self, e: EngineView, from_cache: bool) -> Planned {
        if !any_painted(e, self.job.output()) {
            self.failed(e, EngineError::NoSurfaceMatched)
        } else {
            Planned {
                task: ApplyTaskView {
                    stage: Stage::Animated,
                    from_cache,
                    frames: None,
                    animation: Some(
                        image_animation(
                            e,
                            self.frames.unwrap(),
                            self.job.spec().colour(),
                            self.job.spec().transition(),
                            self.job.output(),
                        ),
                    ),
                    ..self
                },
                engine: e,
                action: ApplyAction::Animate,
            }
        }
    }

    /// One step of the request: which outside work comes next.
    pub open spec fn planned(self, e: EngineView) -> Planned {
        match self.stage {
            Stage::Start => if self.job is Apply {
                self.doing(e, Stage::Persisted, ApplyAction::Persist)
            } else if e.surfaces.len() == 0 {
                self.doing(e, Stage::Settled, ApplyAction::Settle)
            } else {
                self.make_surfaces(e)
            },
            Stage::Persisted => if e.surfaces.len() == 0 {
                self.doing(e, Stage::Settled, ApplyAction::Settle)
            } else {
                self.make_surfaces(e)
            },
            Stage::Settled => self.make_surfaces(e),
            Stage::SurfacesSent => Planned {
                task: ApplyTaskView { stage: Stage::RoundTripped, round: 0, ..self },
                engine: e,
                action: ApplyAction::Roundtrip,
            },
            Stage::RoundTripped => match e.configure_wait(self.round) {
                ConfigureWait::Proceed => self.configured(e),
                ConfigureWait::Sleep { ms } => self.doing(e, Stage::Slept, ApplyAction::Sleep { ms }),
                ConfigureWait::Failed => self.failed(e, EngineError::NotConfigured),
            },
            Stage::Slept => Planned {
                task: ApplyTaskView {
                    stage: Stage::RoundTripped,
                    round: if self.round == u32::MAX {
                        self.round
                    } else {
                        (self.round + 1) as u32
                    },
                    ..self
                },
                engine: e,
                action: ApplyAction::Roundtrip,
            },
            Stage::ImageRoundTripped => self.make_buffers(e),
            Stage::BuffersSent => if self.job.is_colour() {
                self.begin_colour(e)
            } else if self.job.is_image() {
                self.doing(e, Stage::CacheAsked, ApplyAction::LoadCached)
            } else {
                self.doing(e, Stage::Painted, ApplyAction::Send)
            },
            Stage::CacheAsked => if self.frames is Some && self.job is Apply && frames_cover(
                e,
                self.job.output(),
                self.frames.unwrap(),
            ) {
                self.begin_frames(e, true)
            } else {
                Planned {
                    task: ApplyTaskView { stage: Stage::DecodeAsked, frames: None, ..self },
                    engine: e,
                    action: ApplyAction::Decode,
                }
            },
            Stage::DecodeAsked => if self.oversize {
                self.failed(e, EngineError::ImageTooLarge)
            } else if self.frames is None || !(self.job is Apply) {
                self.failed(e, EngineError::DecodeFailure)
            } else {
                self.begin_frames(e, false)
            },
            Stage::Animated => if self.job.is_image() && !self.from_cache {
                self.doing(e, Stage::Painted, ApplyAction::StoreFrames)
            } else {
                self.doing(e, Stage::Painted, ApplyAction::Send)
            },
            Stage::Painted => Planned {
                task: self.at(Stage::Finished),
                engine: if self.job is Apply {
                    EngineView { current: Some(self.job.spec()), ..e }
                } else {
                    e
                },
                action: ApplyAction::Finished,
            },
            Stage::Finished => Planned { task: self, engine: e, action: ApplyAction::Finished },
            Stage::Failed => Planned {
                task: self,
                engine: e,
                action: ApplyAction::Failed {
                    error: match self.failure {
                        Some(error) => error,
                        None => EngineError::NoSurfaceMatched,
                    },
                },
            },
        }
    }
}


impl ApplyTask {
    /// A job that has not begun.
    pub fn new(job: Job) -> (t: ApplyTask)
        ensures
            t@ == ApplyTaskView::fresh(job@),
    {
        ApplyTask {
            job,
            stage: Stage::Start,
            round: 0,
            animation: None,
            frames: None,
            oversize: false,
            from_cache: false,
            failure: None,
        }
    }

    /// The outside work that was done last.
    pub fn stage(&self) -> (s: Stage)
        ensures
            s == self@.stage,
    {
        self.stage
    }

    /// The job.
    pub fn job(&self) -> (j: &Job)
        ensures
            j@ == self@.job,
    {
        &self.job
    }

    /// Why the request failed, if it did.
    pub fn failure(&self) -> (f: Option<EngineError>)
        ensures
            f == self@.failure,
    {
        self.failure
    }

    /// The output the job names.
    pub fn output(&self) -> (o: Option<String>)
        ensures
            opt_chars(o) == self@.job.output(),
    {
        match &self.job {
            Job::Apply { spec: Spec::Image { output, .. } } => clone_name(output),
            Job::Apply { spec: Spec::Colour { output, .. } } => clone_name(output),
            Job::Unset { output } => clone_name(output),
            Job::Warmup => None,
        }
    }

    fn colour(&self) -> (c: Rgb)
        requires
            self@.job is Apply,
        ensures
            c == self@.job.spec().colour(),
    {
        match &self.job {
            Job::Apply { spec: Spec::Image { colour, .. } } => *colour,
            Job::Apply { spec: Spec::Colour { colour, .. } } => *colour,
            _ => Rgb { r: 0, g: 0, b: 0 },
        }
    }

    fn transition(&self) -> (t: crate::spec::TransitionSpec)
        requires
            self@.job is Apply,
        ensures
            t == self@.job.spec().transition(),
    {
        match &self.job {
            Job::Apply { spec: Spec::Image { transition, .. } } => *transition,
            Job::Apply { spec: Spec::Colour { transition, .. } } => *transition,
            _ => crate::spec::TransitionSpec {
                kind: Transition::Instant,
                duration: 0,
                wipe_from: crate::spec::WipeFrom::Left,
            },
        }
    }

    fn is_colour(&self) -> (r: bool)
        ensures
            r == self@.job.is_colour(),
    {
        match &self.job {
            Job::Apply { spec: Spec::Colour { .. } } => true,
            _ => false,
        }
    }

    fn is_image(&self) -> (r: bool)
        ensures
            r == self@.job.is_image(),
    {
        match &self.job {
            Job::Apply { spec: Spec::Image { .. } } => true,
            _ => false,
        }
    }

    fn is_apply(&self) -> (r: bool)
        ensures
            r == self@.job is Apply,
    {
        match &self.job {
            Job::Apply { .. } => true,
            _ => false,
        }
    }

    fn fail(&mut self, error: EngineError) -> (action: ApplyAction)
        ensures
            final(self)@ == (ApplyTaskView {
                stage: Stage::Failed,
                failure: Some(error),
                ..old(self)@
            }),
            action == (ApplyAction::Failed { error }),
    {
        self.stage = Stage::Failed;
        self.failure = Some(error);
        ApplyAction::Failed { error }
    }

    fn make_surfaces(&mut self, engine: &mut Engine) -> (action: ApplyAction)
        requires
            old(engine)@.wf(),
        ensures
            final(engine)@.wf(),
            (Planned { task: final(self)@, engine: final(engine)@, action }) == old(
                self,
            )@.make_surfaces(old(engine)@),
    {
        match engine.ensure_surfaces() {
            Err(error) => {
                return self.fail(error);
            },
            Ok(()) => {},
        }
        if !self.is_apply() {
            self.stage = Stage::SurfacesSent;
            return ApplyAction::Send;
        }
        let output = self.output();
        match engine.ensure_selected_surfaces_alive(&output) {
            Err(error) => self.fail(error),
            Ok(()) => {
                self.stage = Stage::SurfacesSent;
                ApplyAction::Send
            },
        }
    }

    fn configured(&mut self, engine: &mut Engine) -> (action: ApplyAction)
        requires
            old(engine)@.wf(),
        ensures
            final(engine)@.wf(),
            (Planned { task: final(self)@, engine: final(engine)@, action }) == old(
                self,
            )@.configured(old(engine)@),
    {
        if self.is_apply() {
            let output = self.output();
            let known = match &output {
                Some(want) => engine.knows_output(want),
                None => true,
            };
            if !known {
                return self.fail(EngineError::OutputUnknown);
            }
        }
        if self.is_image() {
            self.stage = Stage::ImageRoundTripped;
            return ApplyAction::Roundtrip;
        }
        let unset = match &self.job {
            Job::Unset { output } => Some(engine.unset(output)),
            _ => None,
        };
        match unset {
            Some(Ok(())) => {
                self.stage = Stage::Painted;
                ApplyAction::Send
            },
            Some(Err(error)) => self.fail(error),
            None => self.make_buffers(engine),
        }
    }

    fn make_buffers(&mut self, engine: &mut Engine) -> (action: ApplyAction)
        requires
            old(engine)@.wf(),
        ensures
            final(engine)@.wf(),
            (Planned { task: final(self)@, engine: final(engine)@, action }) == old(
                self,
            )@.make_buffers(old(engine)@),
    {
        let output = if self.is_image() {
            self.output()
        } else {
            None
        };
        match engine.ensure_buffers_for(&output) {
            Err(error) => self.fail(error),
            Ok(()) => {
                self.stage = Stage::BuffersSent;
                ApplyAction::Send
            },
        }
    }

    fn begin_colour(&mut self, engine: &mut Engine) -> (action: ApplyAction)
        requires
            old(engine)@.wf(),
            old(self)@.job is Apply,
        ensures
            final(engine)@.wf(),
            (Planned { task: final(self)@, engine: final(engine)@, action }) == old(
                self,
            )@.begin_colour(old(engine)@),
    {
        let colour = self.colour();
        let t = self.transition();
        let output = self.output();
        match transition_to_on(engine, colour, t.kind, t.duration, &output, t.wipe_from) {
            ColourStart::Animate { animation } => {
                self.animation = Some(animation);
                self.stage = Stage::Animated;
                ApplyAction::Animate
            },
            _ => {
                self.stage = Stage::Painted;
                ApplyAction::Send
            },
        }
    }

    fn begin_frames(&mut self, engine: &Engine, from_cache: bool) -> (action: ApplyAction)
        requires
            engine@.wf(),
            old(self)@.frames is Some,
            old(self)@.job is Apply,
        ensures
            (Planned { task: final(self)@, engine: engine@, action }) == old(self)@.begin_frames(
                engine@,
                from_cache,
            ),
    {
        let output = self.output();
        if !any_paints(engine, &output) {
            return self.fail(EngineError::NoSurfaceMatched);
        }
        let mut taken: Option<Vec<Option<Vec<u32>>>> = None;
        std::mem::swap(&mut taken, &mut self.frames);
        let frames = match taken {
            Some(f) => f,
            None => Vec::new(),
        };
        match begin_image(engine, frames, self.colour(), self.transition(), &output) {
            Ok(animation) => {
                self.animation = Some(animation);
                self.from_cache = from_cache;
                self.stage = Stage::Animated;
                ApplyAction::Animate
            },
            Err(error) => self.fail(error),
        }
    }

    /// Hands in what the cache holds for the request: the frames loaded for
    /// the surfaces that need one, or nothing where the image is not in the
    /// cache.
    pub fn cached(&mut self, frames: Option<Vec<Option<Vec<u32>>>>)
        ensures
            final(self)@ == (ApplyTaskView {
                frames: match frames {
                    Some(f) => Some(frames_view(f@)),
                    None => None,
                },
                ..old(self)@
            }),
    {
        self.frames = frames;
    }

    /// Hands in the decoded image, or nothing where it could not be
    /// decoded, and renders the target frame of every selected surface.
    pub fn decoded(&mut self, engine: &Engine, src: Option<&Bitmap>)
        requires
            engine@.wf(),
        ensures
            !old(self)@.job.is_image() ==> final(self)@ == old(self)@,
            old(self)@.job.is_image() ==> final(self)@ == (ApplyTaskView {
                frames: match src {
                    Some(b) => if all_render(
                        engine@,
                        old(self)@.job.output(),
                        b@,
                        old(self)@.job.spec()->Image_mode,
                    ) {
                        Some(
                            rendered(
                                engine@,
                                old(self)@.job.output(),
                                b@,
                                old(self)@.job.spec()->Image_mode,
                                old(self)@.job.spec().colour(),
                            ),
                        )
                    } else {
                        None
                    },
                    None => None,
                },
                oversize: src is Some && !all_render(
                    engine@,
                    old(self)@.job.output(),
                    src.unwrap()@,
                    old(self)@.job.spec()->Image_mode,
                ),
                ..old(self)@
            }),
    {
        let mode = match &self.job {
            Job::Apply { spec: Spec::Image { mode, .. } } => *mode,
            _ => {
                return ;
            },
        };
        match src {
            None => {
                self.frames = None;
                self.oversize = false;
            },
            Some(bitmap) => {
                let output = self.output();
                match render_targets(engine, &output, bitmap, mode, self.colour()) {
                    Ok(frames) => {
                        self.frames = Some(frames);
                        self.oversize = false;
                    },
                    Err(_) => {
                        self.frames = None;
                        self.oversize = true;
                    },
                }
            },
        }
    }

    /// One step of the animation under way; without one there is nothing
    /// to drive.
    pub fn drive(&mut self, engine: &mut Engine, now: u64) -> (action: DriverAction)
        requires
            old(engine)@.wf(),
        ensures
            final(engine)@.wf(),
            old(self)@.animation is None ==> action == (DriverAction::Done { frames: 0 })
                && final(engine)@ == old(engine)@ && final(self)@ == old(self)@,
            old(self)@.animation is Some ==> final(self)@ == (ApplyTaskView {
                animation: Some(old(self)@.animation.unwrap().stepped(old(engine)@, now).anim),
                ..old(self)@
            }) && final(engine)@ == old(self)@.animation.unwrap().stepped(old(engine)@, now).engine
                && action == old(self)@.animation.unwrap().stepped(old(engine)@, now).action,
    {
        match &mut self.animation {
            Some(animation) => animation.step(engine, now),
            None => DriverAction::Done { frames: 0 },
        }
    }

    /// The target frame of surface `si` of the image shown, for storing.
    pub fn target_frame(&self, si: usize) -> (f: Option<&Vec<u32>>)
        ensures
            f is Some == (self@.animation is Some && crate::wallpaper::animations::frame_of(
                self@.animation.unwrap().to_frames,
                si as int,
            ) is Some),
            f is Some ==> Some(f.unwrap()@) == crate::wallpaper::animations::frame_of(
                self@.animation.unwrap().to_frames,
                si as int,
            ),
    {
        match &self.animation {
            Some(animation) => animation.target_frame(si),
            None => None,
        }
    }

    /// Says which outside work comes next, after the work asked for before
    /// was done.
    pub fn next(&mut self, engine: &mut Engine) -> (action: ApplyAction)
        requires
            old(engine)@.wf(),
        ensures
            final(engine)@.wf(),
            (Planned { task: final(self)@, engine: final(engine)@, action }) == old(self)@.planned(
                old(engine)@,
            ),
    {
        match self.stage {
            Stage::Start => {
                if self.is_apply() {
                    self.stage = Stage::Persisted;
                    ApplyAction::Persist
                } else if engine.surface_count() == 0 {
                    self.stage = Stage::Settled;
                    ApplyAction::Settle
                } else {
                    self.make_surfaces(engine)
                }
            },
            Stage::Persisted => {
                if engine.surface_count() == 0 {
                    self.stage = Stage::Settled;
                    ApplyAction::Settle
                } else {
                    self.make_surfaces(engine)
                }
            },
            Stage::Settled => self.make_surfaces(engine),
            Stage::SurfacesSent => {
                self.stage = Stage::RoundTripped;
                self.round = 0;
                ApplyAction::Roundtrip
            },
            Stage::RoundTripped => {
                match engine.wait_for_configured(self.round) {
                    ConfigureWait::Proceed => self.configured(engine),
                    ConfigureWait::Sleep { ms } => {
                        self.stage = Stage::Slept;
                        ApplyAction::Sleep { ms }
                    },
                    ConfigureWait::Failed => self.fail(EngineError::NotConfigured),
                }
            },
            Stage::Slept => {
                self.stage = Stage::RoundTripped;
                if self.round < u32::MAX {
                    self.round = self.round + 1;
                }
                ApplyAction::Roundtrip
            },
            Stage::ImageRoundTripped => self.make_buffers(engine),
            Stage::BuffersSent => {
                if self.is_colour() {
                    self.begin_colour(engine)
                } else if self.is_image() {
                    self.stage = Stage::CacheAsked;
                    ApplyAction::LoadCached
                } else {
                    self.stage = Stage::Painted;
                    ApplyAction::Send
                }
            },
            Stage::CacheAsked => {
                let output = self.output();
                let valid = match &self.frames {
                    Some(frames) => self.is_apply() && cache_valid(engine, &output, frames),
                    None => false,
                };
                if valid {
                    self.begin_frames(engine, true)
                } else {
                    self.frames = None;
                    self.stage = Stage::DecodeAsked;
                    ApplyAction::Decode
                }
            },
            Stage::DecodeAsked => {
                if self.oversize {
                    self.fail(EngineError::ImageTooLarge)
                } else if self.frames.is_none() || !self.is_apply() {
                    self.fail(EngineError::DecodeFailure)
                } else {
                    self.begin_frames(engine, false)
                }
            },
            Stage::Animated => {
                let store = self.is_image() && !self.from_cache;
                self.stage = Stage::Painted;
                if store {
                    ApplyAction::StoreFrames
                } else {
                    ApplyAction::Send
                }
            },
            Stage::Painted => {
                match &self.job {
                    Job::Apply { spec } => {
                        engine.set_current(spec.duplicate());
                    },
                    _ => {},
                }
                self.stage = Stage::Finished;
                ApplyAction::Finished
            },
            Stage::Finished => ApplyAction::Finished,
            Stage::Failed => ApplyAction::Failed {
                error: match self.failure {
                    Some(error) => error,
                    None => EngineError::NoSurfaceMatched,
                },
            },
        }
    }
}


/// A colour request whose colour every selected surface already shows
/// changes the recorded colour only: the step that begins it queues no
/// message, so nothing is committed, and the request goes on to be put in
/// force.
pub proof fn lemma_elided_apply_sends_nothing(t: ApplyTaskView, e: EngineView)
    requires
        t.stage == Stage::BuffersSent,
        t.job.is_colour(),
        t.job.spec().transition().kind != Transition::Instant,
        !needs_transition(e, t.job.output(), t.job.spec().colour().pixel()),
    ensures
        t.planned(e).engine.requests == e.requests,
        t.planned(e).action == ApplyAction::Send,
        t.planned(e).task.stage == Stage::Painted,
        t.planned(e).task.animation == t.animation,
        forall|i: int|
            0 <= i < e.surfaces.len() ==> (#[trigger] t.planned(e).engine.surfaces[i]).buffers
                == e.surfaces[i].buffers && t.planned(e).engine.surfaces[i].last_frame
                == e.surfaces[i].last_frame,
{
}

/// Once the transition has been driven nothing can fail any more: however
/// the compositor paced it, the request is put in force. An apply ends
/// with its request as the one in force.
pub proof fn lemma_apply_ends_in_force(t: ApplyTaskView, e: EngineView)
    requires
        t.stage == Stage::Animated || t.stage == Stage::Painted,
    ensures
        !(t.planned(e).action is Failed),
        t.stage == Stage::Animated ==> t.planned(e).task.stage == Stage::Painted,
        t.stage == Stage::Painted ==> t.planned(e).action == ApplyAction::Finished && t.planned(
            e,
        ).task.stage == Stage::Finished,
        t.stage == Stage::Painted && t.job is Apply ==> t.planned(e).engine.current == Some(
            t.job.spec(),
        ),
{
}

/// The wait for configuration is bounded: after the tenth round trip no
/// further sleep is asked for.
pub proof fn lemma_configure_wait_is_bounded(t: ApplyTaskView, e: EngineView)
    requires
        t.stage == Stage::RoundTripped,
        t.round >= 9,
    ensures
        !(t.planned(e).action is Sleep),
{
}


/// An upper bound on the steps a job still takes before it is finished or
/// has failed.
pub open spec fn steps_left(t: ApplyTaskView) -> int {
    let round = if t.round >= 9 {
        9
    } else {
        t.round as int
    };
    match t.stage {
        Stage::Start => 45,
        Stage::Persisted => 44,
        Stage::Settled => 43,
        Stage::SurfacesSent => 42,
        Stage::RoundTripped => 39 - 2 * round,
        Stage::Slept => if t.round >= 8 {
            22
        } else {
            38 - 2 * round
        },
        Stage::ImageRoundTripped => 20,
        Stage::BuffersSent => 19,
        Stage::CacheAsked => 18,
        Stage::DecodeAsked => 17,
        Stage::Animated => 16,
        Stage::Painted => 15,
        Stage::Finished => 0,
        Stage::Failed => 0,
    }
}

/// A job is bounded: each step of a job that is neither finished nor
/// failed brings it nearer to its end, whatever the engine looks like and
/// whether or not any surface is ever configured. So no job takes more
/// than 45 steps.
pub proof fn lemma_job_is_bounded(t: ApplyTaskView, e: EngineView)
    requires
        t.stage != Stage::Finished,
        t.stage != Stage::Failed,
    ensures
        0 <= steps_left(t.planned(e).task) < steps_left(t) <= 45,
{
}


/// A request for an output that is not there is refused as soon as the
/// surfaces are configured, whether it asks for a colour or an image and
/// with whatever transition. The step fails with `OutputUnknown`; it leaves
/// every surface, the queue of messages and the request in force as they
/// were, so nothing is committed and nothing is decoded.
pub proof fn lemma_unknown_output_is_refused(t: ApplyTaskView, e: EngineView, want: Seq<char>)
    requires
        t.stage == Stage::RoundTripped,
        t.job is Apply,
        t.job.output() == Some(want),
        !e.knows_output(want),
        e.configure_wait(t.round) == ConfigureWait::Proceed,
    ensures
        t.planned(e).action == (ApplyAction::Failed { error: EngineError::OutputUnknown }),
        t.planned(e).task.stage == Stage::Failed,
        t.planned(e).task.failure == Some(EngineError::OutputUnknown),
        t.planned(e).engine == e,
        t.planned(e).task.planned(e).action == (ApplyAction::Failed {
            error: EngineError::OutputUnknown,
        }),
{
}


proof fn lemma_nothing_to_revive(e: EngineView, want: Seq<char>, n: int)
    requires
        !e.knows_output(want),
        0 <= n <= e.surfaces.len(),
    ensures
        e.revive_requests(Some(want), n) == Seq::<crate::wallpaper::wayland::Request>::empty(),
    decreases n,
{
    if n > 0 {
        lemma_nothing_to_revive(e, want, n - 1);
        assert(e.surfaces[n - 1].output_name != Some(want));
    }
}

/// A request for an output that is not there touches nothing on its way to
/// being refused: with the table of surfaces filled, the step that makes
/// the surfaces brings none back, queues no message and leaves the engine
/// as it is.
pub proof fn lemma_unknown_output_touches_nothing(t: ApplyTaskView, e: EngineView, want: Seq<char>)
    requires
        t.job is Apply,
        t.job.output() == Some(want),
        !e.knows_output(want),
        e.surfaces.len() > 0,
        e.compositor,
        e.layer_shell,
    ensures
        t.make_surfaces(e).engine == e,
        t.make_surfaces(e).action == ApplyAction::Send,
{
    lemma_nothing_to_revive(e, want, e.surfaces.len() as int);
    assert forall|i: int| 0 <= i < e.surfaces.len() implies e.revived(Some(want))[i]
        == e.surfaces[i] by {
        assert(e.surfaces[i].output_name != Some(want));
    }
    assert(e.revived(Some(want)) =~= e.surfaces);
    assert(e.requests + Seq::<crate::wallpaper::wayland::Request>::empty() =~= e.requests);
}

} // verus!
