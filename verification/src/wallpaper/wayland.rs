//! The engine's table of outputs and surfaces, and what it asks of the
//! compositor connection.
//!
//! The engine decides; the connection is somebody else's. Every request to
//! the compositor is queued as a plain value, in order, and every event of
//! the compositor comes back as a call of one of the `on_*` methods.

use vstd::prelude::*;
use crate::spec::{opt_chars, Rgb, Spec, SpecView};
use crate::wallpaper::buffers::PaintOp;
use crate::wallpaper::surface::{SurfaceState, SurfaceView, WaitStep};

verus! {

/// What is present of the environment the engine needs.
#[derive(Clone, Copy, Debug, PartialEq, Eq, Structural)]
pub struct Probe {
    pub wayland_display: bool,
    pub compositor: bool,
    pub shm: bool,
    pub layer_shell: bool,
    pub outputs: usize,
}

/// The part of the environment that is missing.
#[derive(Clone, Copy, Debug, PartialEq, Eq, Structural)]
pub enum Missing {
    Display,
    Compositor,
    LayerShell,
    Shm,
}

/// Why the engine refused a request.
#[derive(Clone, Copy, Debug, PartialEq, Eq, Structural)]
pub enum EngineError {
    /// A required part of the compositor environment is absent.
    EnvironmentAbsent { what: Missing },
    /// The request names an output that no surface belongs to.
    OutputUnknown,
    /// No surface was there to act on.
    NoSurfaceMatched,
    /// No live surface was configured after waiting.
    NotConfigured,
    /// An image was asked for with a request that holds none.
    NotAnImage,
    /// The image cannot be scaled for an output: a side is too long, or
    /// the scaled image would be too large to hold.
    ImageTooLarge,
    /// The image could not be opened or decoded.
    DecodeFailure,
}

/// One message for the compositor connection.
#[derive(Clone, Copy, Debug, PartialEq, Eq, Structural)]
pub enum Request {
    /// Create the background layer surface of the output with this index.
    CreateLayerSurface { si: usize },
    /// Destroy the layer surface of this index.
    DestroyLayerSurface { si: usize },
    /// Create both shared-memory slots of this surface.
    CreateBuffers { si: usize, width: u32, height: u32, stride: i32, size_bytes: usize },
    /// Ask for a frame callback on this surface.
    FrameCallback { si: usize },
    /// Attach the slot, damage the whole surface and commit.
    Commit { si: usize, slot: usize, width: u32, height: u32 },
    /// Flush the connection.
    Flush,
    /// Dispatch the events that have already arrived.
    DispatchPending,
}

/// What the compositor has told of one output.
pub struct OutputInfo {
    name: Option<String>,
    description: Option<String>,
}

/// Mathematical value of an output's description.
pub struct OutputView {
    pub name: Option<Seq<char>>,
    pub description: Option<Seq<char>>,
}

impl View for OutputInfo {
    type V = OutputView;

    closed spec fn view(&self) -> OutputView {
        OutputView { name: opt_chars(self.name), description: opt_chars(self.description) }
    }
}

impl OutputView {
    /// The name a surface on this output goes by: the output's name, or
    /// its description while no name has arrived.
    pub open spec fn surface_name(self) -> Option<Seq<char>> {
        match self.name {
            Some(n) => Some(n),
            None => self.description,
        }
    }
}

impl OutputInfo {
    fn unnamed() -> (o: OutputInfo)
        ensures
            o@ == (OutputView { name: None, description: None }),
    {
        OutputInfo { name: None, description: None }
    }

    /// The output's name, once the compositor has told it.
    pub fn name(&self) -> (n: Option<&String>)
        ensures
            n is Some == self@.name is Some,
            n is Some ==> n.unwrap()@ == self@.name.unwrap(),
    {
        self.name.as_ref()
    }

    /// The output's description, once the compositor has told it.
    pub fn description(&self) -> (n: Option<&String>)
        ensures
            n is Some == self@.description is Some,
            n is Some ==> n.unwrap()@ == self@.description.unwrap(),
    {
        self.description.as_ref()
    }

    fn surface_name(&self) -> (n: Option<String>)
        ensures
            opt_chars(n) == self@.surface_name(),
    {
        match &self.name {
            Some(n) => Some(n.clone()),
            None => match &self.description {
                Some(d) => Some(d.clone()),
                None => None,
            },
        }
    }
}

/// What to do next while waiting for surfaces to be configured.
#[derive(Clone, Copy, Debug, PartialEq, Eq, Structural)]
pub enum ConfigureWait {
    /// Go on: every live surface is configured, or there is none, or the
    /// rounds are used up and at least one is.
    Proceed,
    /// Sleep this many milliseconds, then make another round trip.
    Sleep { ms: u64 },
    /// The rounds are used up and no live surface is configured.
    Failed,
}

/// Number of round trips a wait for configuration makes at most.
pub const CONFIGURE_ROUNDS: u32 = 10;

/// The engine: which globals are bound, the outputs, one surface per output
/// once they were created, the request in force, and the queue of messages
/// for the compositor.
pub struct Engine {
    compositor: bool,
    shm: bool,
    layer_shell: bool,
    outputs: Vec<OutputInfo>,
    surfaces: Vec<SurfaceState>,
    current: Option<Spec>,
    requests: Vec<Request>,
}

/// Mathematical value of the engine.
pub struct EngineView {
    pub compositor: bool,
    pub shm: bool,
    pub layer_shell: bool,
    pub outputs: Seq<OutputView>,
    pub surfaces: Seq<SurfaceView>,
    pub current: Option<SpecView>,
    pub requests: Seq<Request>,
}

impl View for Engine {
    type V = EngineView;

    closed spec fn view(&self) -> EngineView {
        EngineView {
            compositor: self.compositor,
            shm: self.shm,
            layer_shell: self.layer_shell,
            outputs: Seq::new(self.outputs.len() as nat, |i: int| self.outputs[i]@),
            surfaces: Seq::new(self.surfaces.len() as nat, |i: int| self.surfaces[i]@),
            current: match self.current {
                Some(s) => Some(s@),
                None => None,
            },
            requests: self.requests@,
        }
    }
}

/// The messages of one commit of the surface `s` with index `si`: a frame
/// callback unless one is outstanding, and the commit of the current slot
/// if it has storage.
pub open spec fn commit_requests_of(si: int, s: SurfaceView) -> Seq<Request> {
    (if s.frame_pending {
        Seq::empty()
    } else {
        seq![Request::FrameCallback { si: si as usize }]
    }) + (if s.buffers.cur().ready {
        seq![
            Request::Commit {
                si: si as usize,
                slot: s.buffers.current as usize,
                width: s.width,
                height: s.height,
            },
        ]
    } else {
        Seq::empty()
    })
}

/// The sleep between two rounds of a wait for configuration.
pub open spec fn configure_sleep_ms(attempt: u32) -> u64 {
    if 20 + attempt as int * 5 <= 100 {
        (20 + attempt as int * 5) as u64
    } else {
        100
    }
}

impl EngineView {
    /// The engine's invariants: each surface is well formed, and the
    /// surfaces, once created, are one per output.
    pub open spec fn wf(self) -> bool {
        &&& forall|i: int| 0 <= i < self.surfaces.len() ==> (#[trigger] self.surfaces[i]).wf()
        &&& self.surfaces.len() == 0 || self.surfaces.len() == self.outputs.len()
    }

    /// The same engine with another table of surfaces.
    pub open spec fn with_surfaces(self, surfaces: Seq<SurfaceView>) -> EngineView {
        EngineView { surfaces, ..self }
    }

    /// The same engine with one surface replaced.
    pub open spec fn with_surface(self, i: int, s: SurfaceView) -> EngineView {
        EngineView { surfaces: self.surfaces.update(i, s), ..self }
    }

    /// The same engine with messages added to its queue.
    pub open spec fn sending(self, more: Seq<Request>) -> EngineView {
        EngineView { requests: self.requests + more, ..self }
    }

    /// Whether surface `i` is selected by a request for `output` and can be
    /// painted.
    pub open spec fn paints(self, i: int, output: Option<Seq<char>>) -> bool {
        0 <= i < self.surfaces.len() && self.surfaces[i].usable() && self.surfaces[i].selected_by(
            output,
        )
    }

    /// Whether some surface goes by the name `want`.
    pub open spec fn knows_output(self, want: Seq<char>) -> bool {
        exists|i: int| 0 <= i < self.surfaces.len() && (#[trigger] self.surfaces[i]).output_name
            == Some(want)
    }

    /// Whether some surface is alive.
    pub open spec fn any_alive(self) -> bool {
        exists|i: int| 0 <= i < self.surfaces.len() && (#[trigger] self.surfaces[i]).alive
    }

    /// Whether every live surface is configured with a size.
    pub open spec fn all_alive_configured(self) -> bool {
        forall|i: int|
            0 <= i < self.surfaces.len() && (#[trigger] self.surfaces[i]).alive
                ==> self.surfaces[i].usable()
    }

    /// Whether some live surface is configured with a size.
    pub open spec fn any_usable(self) -> bool {
        exists|i: int| 0 <= i < self.surfaces.len() && (#[trigger] self.surfaces[i]).usable()
    }

    /// The surfaces created when the table is first filled: one per
    /// output, under the output's name.
    pub open spec fn first_surfaces(self) -> Seq<SurfaceView> {
        Seq::new(self.outputs.len(), |i: int| SurfaceView::created(self.outputs[i].surface_name()))
    }

    /// The table after the selected surfaces that were destroyed came back.
    pub open spec fn revived(self, output: Option<Seq<char>>) -> Seq<SurfaceView> {
        Seq::new(
            self.surfaces.len(),
            |i: int|
                if self.surfaces[i].selected_by(output) && !self.surfaces[i].alive {
                    self.surfaces[i].resurrected()
                } else {
                    self.surfaces[i]
                },
        )
    }

    /// The messages that bring the selected destroyed surfaces back, for
    /// the surfaces below `n`.
    pub open spec fn revive_requests(self, output: Option<Seq<char>>, n: int) -> Seq<Request>
        decreases n,
    {
        if n <= 0 {
            Seq::empty()
        } else {
            self.revive_requests(output, n - 1) + (if self.surfaces[n - 1].selected_by(output)
                && !self.surfaces[n - 1].alive {
                seq![Request::CreateLayerSurface { si: (n - 1) as usize }]
            } else {
                Seq::empty()
            })
        }
    }

    /// Whether surface `i` gets buffers for a request on `output`.
    pub open spec fn buffered(self, i: int, output: Option<Seq<char>>) -> bool {
        self.surfaces[i].usable() && self.surfaces[i].selected_by(output)
    }

    /// The table after the buffers of the selected usable surfaces were
    /// made to match their sizes.
    pub open spec fn with_buffers(self, output: Option<Seq<char>>) -> Seq<SurfaceView> {
        Seq::new(
            self.surfaces.len(),
            |i: int|
                if self.buffered(i, output) {
                    self.surfaces[i].with_buffers()
                } else {
                    self.surfaces[i]
                },
        )
    }

    /// The message that creates the slots of surface `si`.
    pub open spec fn buffer_request(self, si: int) -> Request {
        let s = self.surfaces[si].with_buffers();
        Request::CreateBuffers {
            si: si as usize,
            width: s.width,
            height: s.height,
            stride: s.stride,
            size_bytes: s.size_bytes,
        }
    }

    /// The messages that create the slots that were missing or of another
    /// size, for the surfaces below `n`.
    pub open spec fn buffer_requests(self, output: Option<Seq<char>>, n: int) -> Seq<Request>
        decreases n,
    {
        if n <= 0 {
            Seq::empty()
        } else {
            self.buffer_requests(output, n - 1) + (if self.buffered(n - 1, output)
                && self.surfaces[n - 1].needs_buffers() {
                seq![self.buffer_request(n - 1)]
            } else {
                Seq::empty()
            })
        }
    }

    /// The table after an unset: with an output named, its surfaces are
    /// destroyed; without, every surface forgets what it shows.
    pub open spec fn unset_surfaces(self, output: Option<Seq<char>>) -> Seq<SurfaceView> {
        Seq::new(
            self.surfaces.len(),
            |i: int|
                if !self.surfaces[i].selected_by(output) {
                    self.surfaces[i]
                } else if output is Some {
                    self.surfaces[i].destroyed()
                } else {
                    self.surfaces[i].forgotten()
                },
        )
    }

    /// The messages that destroy the live surfaces of a named output, for
    /// the surfaces below `n`.
    pub open spec fn destroy_requests(self, output: Option<Seq<char>>, n: int) -> Seq<Request>
        decreases n,
    {
        if n <= 0 {
            Seq::empty()
        } else {
            self.destroy_requests(output, n - 1) + (if output is Some && self.surfaces[n
                - 1].selected_by(output) && self.surfaces[n - 1].alive {
                seq![Request::DestroyLayerSurface { si: (n - 1) as usize }]
            } else {
                Seq::empty()
            })
        }
    }

    /// Whether a request for `output` names an output that is there: a
    /// request for all outputs always does, one for a named output does if
    /// a surface goes by that name.
    pub open spec fn output_known(self, output: Option<Seq<char>>) -> bool {
        match output {
            None => true,
            Some(want) => self.knows_output(want),
        }
    }

    /// Whether an unset of `output` is accepted: if the output is known.
    pub open spec fn unset_accepted(self, output: Option<Seq<char>>) -> bool {
        self.output_known(output)
    }

    /// The engine after an accepted unset.
    pub open spec fn after_unset(self, output: Option<Seq<char>>) -> EngineView {
        EngineView {
            surfaces: self.unset_surfaces(output),
            current: if output is None {
                None
            } else {
                self.current
            },
            requests: self.requests + self.destroy_requests(output, self.surfaces.len() as int)
                + seq![Request::Flush, Request::DispatchPending],
            ..self
        }
    }

    /// The engine after its table of surfaces was filled, or why it cannot
    /// be: an empty table needs the compositor and the layer shell.
    pub open spec fn surfaces_ensured(self) -> Result<EngineView, EngineError> {
        if self.surfaces.len() > 0 {
            Ok(self)
        } else if !self.compositor {
            Err(EngineError::EnvironmentAbsent { what: Missing::Compositor })
        } else if !self.layer_shell {
            Err(EngineError::EnvironmentAbsent { what: Missing::LayerShell })
        } else {
            Ok(
                self.with_surfaces(self.first_surfaces()).sending(
                    Seq::new(
                        self.outputs.len(),
                        |i: int| Request::CreateLayerSurface { si: i as usize },
                    ),
                ),
            )
        }
    }

    /// The engine after the selected destroyed surfaces came back, or why
    /// they cannot.
    pub open spec fn selected_revived(self, output: Option<Seq<char>>) -> Result<
        EngineView,
        EngineError,
    > {
        if !self.compositor {
            Err(EngineError::EnvironmentAbsent { what: Missing::Compositor })
        } else if !self.layer_shell {
            Err(EngineError::EnvironmentAbsent { what: Missing::LayerShell })
        } else {
            Ok(
                self.with_surfaces(self.revived(output)).sending(
                    self.revive_requests(output, self.surfaces.len() as int),
                ),
            )
        }
    }

    /// The engine after the buffers of the selected usable surfaces were
    /// made to match, or why they cannot be.
    pub open spec fn buffers_ensured(self, output: Option<Seq<char>>) -> Result<
        EngineView,
        EngineError,
    > {
        if !self.shm {
            Err(EngineError::EnvironmentAbsent { what: Missing::Shm })
        } else {
            Ok(
                self.with_surfaces(self.with_buffers(output)).sending(
                    self.buffer_requests(output, self.surfaces.len() as int),
                ),
            )
        }
    }

    /// The engine after an unset, or why the unset is refused.
    pub open spec fn unset_done(self, output: Option<Seq<char>>) -> Result<EngineView, EngineError> {
        if self.unset_accepted(output) {
            Ok(self.after_unset(output))
        } else {
            Err(EngineError::OutputUnknown)
        }
    }

    /// Whether an operation that was to end as `want` did: on success the
    /// engine is the one wanted, on failure the error is the one wanted and
    /// the engine is as before.
    pub open spec fn ended(
        self,
        after: EngineView,
        r: Result<(), EngineError>,
        want: Result<EngineView, EngineError>,
    ) -> bool {
        match want {
            Ok(e) => r is Ok && after == e,
            Err(error) => r == Err::<(), EngineError>(error) && after == self,
        }
    }

    /// The messages of one commit of surface `si`.
    pub open spec fn commit_requests(self, si: int) -> Seq<Request> {
        commit_requests_of(si, self.surfaces[si])
    }

    /// The engine after one commit of surface `si`.
    pub open spec fn after_commit(self, si: int) -> EngineView {
        self.with_surface(si, self.surfaces[si].committed()).sending(self.commit_requests(si))
    }

    /// Whether two engines differ in their surfaces and queued messages
    /// only.
    pub open spec fn same_frame(self, other: EngineView) -> bool {
        &&& self.compositor == other.compositor
        &&& self.shm == other.shm
        &&& self.layer_shell == other.layer_shell
        &&& self.outputs == other.outputs
        &&& self.current == other.current
    }


    /// The decision of a wait for configuration after round trip number
    /// `attempt` (from 0): go on as soon as every live surface is
    /// configured; sleep a little longer after each round but the last;
    /// after the last, go on if any surface is configured, else fail.
    pub open spec fn configure_wait(self, attempt: u32) -> ConfigureWait {
        if !self.any_alive() || self.all_alive_configured() {
            ConfigureWait::Proceed
        } else if attempt + 1 < CONFIGURE_ROUNDS {
            ConfigureWait::Sleep { ms: configure_sleep_ms(attempt) }
        } else if self.any_usable() {
            ConfigureWait::Proceed
        } else {
            ConfigureWait::Failed
        }
    }
}


impl Engine {
    /// An engine for the environment found: one output entry per output
    /// seen, no surface yet, nothing in force. Without a compositor display
    /// there is no engine.
    pub fn new(env: &Probe) -> (r: Result<Engine, EngineError>)
        ensures
            r is Ok == env.wayland_display,
            r is Err ==> r == Err::<Engine, EngineError>(
                EngineError::EnvironmentAbsent { what: Missing::Display },
            ),
            r is Ok ==> ({
                let e = r.unwrap()@;
                &&& e.wf()
                &&& e.compositor == env.compositor
                &&& e.shm == env.shm
                &&& e.layer_shell == env.layer_shell
                &&& e.outputs == Seq::new(
                    env.outputs as nat,
                    |i: int| OutputView { name: None, description: None },
                )
                &&& e.surfaces.len() == 0
                &&& e.current is None
                &&& e.requests.len() == 0
            }),
    {
        if !env.wayland_display {
            return Err(EngineError::EnvironmentAbsent { what: Missing::Display });
        }
        let mut outputs: Vec<OutputInfo> = Vec::new();
        let mut i: usize = 0;
        while i < env.outputs
            invariant
                i <= env.outputs,
                outputs.len() == i,
                forall|j: int|
                    0 <= j < i ==> (#[trigger] outputs[j])@ == (OutputView {
                        name: None,
                        description: None,
                    }),
            decreases env.outputs - i,
        {
            outputs.push(OutputInfo::unnamed());
            i += 1;
        }
        let e = Engine {
            compositor: env.compositor,
            shm: env.shm,
            layer_shell: env.layer_shell,
            outputs,
            surfaces: Vec::new(),
            current: None,
            requests: Vec::new(),
        };
        Ok(e)
    }

    /// Whether the engine's invariants hold.
    pub fn check(&self) -> (ok: bool)
        ensures
            ok == self@.wf(),
    {
        let n = self.surfaces.len();
        if n != 0 && n != self.outputs.len() {
            return false;
        }
        let mut i: usize = 0;
        while i < n
            invariant
                i <= n,
                n == self.surfaces.len(),
                forall|j: int| 0 <= j < i ==> (#[trigger] self@.surfaces[j]).wf(),
            decreases n - i,
        {
            if !self.surfaces[i].check() {
                assert(!self@.surfaces[i as int].wf());
                return false;
            }
            i += 1;
        }
        true
    }

    /// Reports what is bound; whether the display variable is set is for
    /// the caller to tell.
    pub fn probe(&self, wayland_display: bool) -> (p: Probe)
        ensures
            p == (Probe {
                wayland_display,
                compositor: self@.compositor,
                shm: self@.shm,
                layer_shell: self@.layer_shell,
                outputs: self@.outputs.len() as usize,
            }),
    {
        Probe {
            wayland_display,
            compositor: self.compositor,
            shm: self.shm,
            layer_shell: self.layer_shell,
            outputs: self.outputs.len(),
        }
    }

    /// The request in force, if any.
    pub fn current(&self) -> (c: Option<&Spec>)
        ensures
            c is Some == self@.current is Some,
            c is Some ==> c.unwrap()@ == self@.current.unwrap(),
    {
        self.current.as_ref()
    }

    /// Whether a request is in force.
    pub fn running(&self) -> (r: bool)
        ensures
            r == self@.current is Some,
    {
        self.current.is_some()
    }

    /// Puts a request in force.
    pub fn set_current(&mut self, spec: Spec)
        ensures
            final(self)@ == (EngineView { current: Some(spec@), ..old(self)@ }),
    {
        self.current = Some(spec);
    }

    /// Drops every surface and the request in force.
    pub fn stop(&mut self)
        ensures
            final(self)@ == (EngineView {
                current: None,
                surfaces: Seq::empty(),
                ..old(self)@
            }),
            final(self)@.wf(),
    {
        self.current = None;
        self.surfaces.clear();
        assert(self@.surfaces =~= Seq::empty());
    }

    /// Number of outputs seen.
    pub fn output_count(&self) -> (n: usize)
        ensures
            n == self@.outputs.len(),
    {
        self.outputs.len()
    }

    /// What is known of output `idx`.
    pub fn output(&self, idx: usize) -> (o: &OutputInfo)
        requires
            idx < self@.outputs.len(),
        ensures
            o@ == self@.outputs[idx as int],
    {
        &self.outputs[idx]
    }

    /// Number of surfaces.
    pub fn surface_count(&self) -> (n: usize)
        ensures
            n == self@.surfaces.len(),
    {
        self.surfaces.len()
    }

    /// Surface `i`.
    pub fn surface(&self, i: usize) -> (s: &SurfaceState)
        requires
            i < self@.surfaces.len(),
        ensures
            s@ == self@.surfaces[i as int],
    {
        &self.surfaces[i]
    }

    /// Hands over the queued messages, oldest first, and empties the queue.
    pub fn take_requests(&mut self) -> (out: Vec<Request>)
        ensures
            out@ == old(self)@.requests,
            final(self)@ == (EngineView { requests: Seq::empty(), ..old(self)@ }),
    {
        let mut out: Vec<Request> = Vec::new();
        std::mem::swap(&mut out, &mut self.requests);
        out
    }

    /// Takes the name of output `idx`. An index beyond the outputs seen is
    /// ignored.
    pub fn on_output_name(&mut self, idx: usize, name: String)
        ensures
            idx >= old(self)@.outputs.len() ==> final(self)@ == old(self)@,
            idx < old(self)@.outputs.len() ==> final(self)@ == (EngineView {
                outputs: old(self)@.outputs.update(
                    idx as int,
                    OutputView { name: Some(name@), ..old(self)@.outputs[idx as int] },
                ),
                ..old(self)@
            }),
    {
        if idx < self.outputs.len() {
            self.outputs[idx].name = Some(name);
            assert(self@.outputs =~= old(self)@.outputs.update(
                idx as int,
                OutputView { name: Some(name@), ..old(self)@.outputs[idx as int] },
            ));
        }
    }

    /// Takes the description of output `idx`. An index beyond the outputs
    /// seen is ignored.
    pub fn on_output_description(&mut self, idx: usize, description: String)
        ensures
            idx >= old(self)@.outputs.len() ==> final(self)@ == old(self)@,
            idx < old(self)@.outputs.len() ==> final(self)@ == (EngineView {
                outputs: old(self)@.outputs.update(
                    idx as int,
                    OutputView {
                        description: Some(description@),
                        ..old(self)@.outputs[idx as int]
                    },
                ),
                ..old(self)@
            }),
    {
        if idx < self.outputs.len() {
            self.outputs[idx].description = Some(description);
            assert(self@.outputs =~= old(self)@.outputs.update(
                idx as int,
                OutputView { description: Some(description@), ..old(self)@.outputs[idx as int] },
            ));
        }
    }

    /// Takes a configure event for surface `si`. Only a live surface takes
    /// it; the result tells whether it did, and so whether the event is to
    /// be acknowledged.
    pub fn on_configure(&mut self, si: usize, w: u32, h: u32) -> (taken: bool)
        requires
            old(self)@.wf(),
        ensures
            taken == (si < old(self)@.surfaces.len() && old(self)@.surfaces[si as int].alive),
            taken ==> final(self)@ == old(self)@.with_surface(
                si as int,
                old(self)@.surfaces[si as int].after_configure(w, h),
            ),
            !taken ==> final(self)@ == old(self)@,
            final(self)@.wf(),
    {
        if si < self.surfaces.len() && self.surfaces[si].alive() {
            self.surfaces[si].on_configure(w, h);
            proof {
                self.lemma_one_changed(*old(self), si as int);
            }
            true
        } else {
            false
        }
    }

    /// Takes the compositor's notice that it closed surface `si`.
    pub fn on_closed(&mut self, si: usize) -> (taken: bool)
        requires
            old(self)@.wf(),
        ensures
            taken == (si < old(self)@.surfaces.len() && old(self)@.surfaces[si as int].alive),
            taken ==> final(self)@ == old(self)@.with_surface(
                si as int,
                old(self)@.surfaces[si as int].after_closed(),
            ),
            !taken ==> final(self)@ == old(self)@,
            final(self)@.wf(),
    {
        if si < self.surfaces.len() && self.surfaces[si].alive() {
            self.surfaces[si].on_closed();
            proof {
                self.lemma_one_changed(*old(self), si as int);
            }
            true
        } else {
            false
        }
    }

    /// Takes the release of slot `which` of surface `si`.
    pub fn on_buffer_release(&mut self, si: usize, which: usize)
        requires
            old(self)@.wf(),
        ensures
            si < old(self)@.surfaces.len() ==> final(self)@ == old(self)@.with_surface(
                si as int,
                old(self)@.surfaces[si as int].after_release(which as nat),
            ),
            si >= old(self)@.surfaces.len() ==> final(self)@ == old(self)@,
            final(self)@.wf(),
    {
        if si < self.surfaces.len() {
            self.surfaces[si].on_buffer_release(which);
            proof {
                self.lemma_one_changed(*old(self), si as int);
            }
        }
    }

    /// Takes a frame-done event for surface `si`.
    pub fn on_frame_done(&mut self, si: usize)
        requires
            old(self)@.wf(),
        ensures
            si < old(self)@.surfaces.len() ==> final(self)@ == old(self)@.with_surface(
                si as int,
                old(self)@.surfaces[si as int].after_frame_done(),
            ),
            si >= old(self)@.surfaces.len() ==> final(self)@ == old(self)@,
            final(self)@.wf(),
    {
        if si < self.surfaces.len() {
            self.surfaces[si].on_frame_done();
            proof {
                self.lemma_one_changed(*old(self), si as int);
            }
        }
    }

    /// Fills the table of surfaces, one per output, if it is empty. Needs
    /// the compositor and the layer shell.
    pub fn ensure_surfaces(&mut self) -> (r: Result<(), EngineError>)
        requires
            old(self)@.wf(),
        ensures
            final(self)@.wf(),
            old(self)@.ended(final(self)@, r, old(self)@.surfaces_ensured()),
    {
        if self.surfaces.len() > 0 {
            return Ok(());
        }
        if !self.compositor {
            return Err(EngineError::EnvironmentAbsent { what: Missing::Compositor });
        }
        if !self.layer_shell {
            return Err(EngineError::EnvironmentAbsent { what: Missing::LayerShell });
        }
        let ghost before = *self;
        let n = self.outputs.len();
        let mut i: usize = 0;
        while i < n
            invariant
                i <= n,
                n == self.outputs.len(),
                self.surfaces.len() == i,
                self.outputs == before.outputs,
                self.current == before.current,
                self.compositor == before.compositor,
                self.shm == before.shm,
                self.layer_shell == before.layer_shell,
                forall|j: int|
                    0 <= j < i ==> (#[trigger] self.surfaces[j])@ == SurfaceView::created(
                        before@.outputs[j].surface_name(),
                    ),
                self.requests@ == before.requests@ + Seq::new(
                    i as nat,
                    |k: int| Request::CreateLayerSurface { si: k as usize },
                ),
            decreases n - i,
        {
            let name = self.outputs[i].surface_name();
            self.surfaces.push(SurfaceState::new(name));
            self.requests.push(Request::CreateLayerSurface { si: i });
            i += 1;
        }
        assert(self@.surfaces =~= before@.first_surfaces());
        Ok(())
    }

    /// Brings back the surfaces that `output` selects and that were
    /// destroyed. Needs the compositor and the layer shell.
    pub fn ensure_selected_surfaces_alive(&mut self, output: &Option<String>) -> (r: Result<
        (),
        EngineError,
    >)
        requires
            old(self)@.wf(),
        ensures
            final(self)@.wf(),
            old(self)@.ended(final(self)@, r, old(self)@.selected_revived(opt_chars(*output))),
    {
        if !self.compositor {
            return Err(EngineError::EnvironmentAbsent { what: Missing::Compositor });
        }
        if !self.layer_shell {
            return Err(EngineError::EnvironmentAbsent { what: Missing::LayerShell });
        }
        let ghost before = *self;
        let ghost out = opt_chars(*output);
        let n = self.surfaces.len();
        assert forall|j: int| 0 <= j < n implies (#[trigger] self.surfaces[j])@.wf() by {
            assert(before@.surfaces[j].wf());
        }
        let mut i: usize = 0;
        while i < n
            invariant
                i <= n,
                n == self.surfaces.len(),
                n == before.surfaces.len(),
                out == opt_chars(*output),
                before@.wf(),
                self.outputs == before.outputs,
                self.current == before.current,
                self.compositor == before.compositor,
                self.shm == before.shm,
                self.layer_shell == before.layer_shell,
                forall|j: int| 0 <= j < i ==> (#[trigger] self.surfaces[j])@ == before@.revived(out)[j],
                forall|j: int| i <= j < n ==> (#[trigger] self.surfaces[j])@ == before@.surfaces[j],
                forall|j: int| 0 <= j < n ==> (#[trigger] self.surfaces[j])@.wf(),
                self.requests@ == before.requests@ + before@.revive_requests(out, i as int),
            decreases n - i,
        {
            if self.surfaces[i].selected_by(output) && !self.surfaces[i].alive() {
                self.surfaces[i].resurrect();
                self.requests.push(Request::CreateLayerSurface { si: i });
            }
            i += 1;
        }
        assert(self@.surfaces =~= before@.revived(out));
        Ok(())
    }

    /// Decides, after round trip number `attempt` (from 0) of a wait for
    /// configuration, what comes next.
    pub fn wait_for_configured(&self, attempt: u32) -> (step: ConfigureWait)
        ensures
            step == self@.configure_wait(attempt),
    {
        let n = self.surfaces.len();
        let mut any_alive = false;
        let mut all_configured = true;
        let mut any_usable = false;
        let mut i: usize = 0;
        while i < n
            invariant
                i <= n,
                n == self.surfaces.len(),
                any_alive == (exists|j: int| 0 <= j < i && (#[trigger] self@.surfaces[j]).alive),
                all_configured == (forall|j: int|
                    0 <= j < i && (#[trigger] self@.surfaces[j]).alive ==> self@.surfaces[j].usable()),
                any_usable == (exists|j: int| 0 <= j < i && (#[trigger] self@.surfaces[j]).usable()),
            decreases n - i,
        {
            let s = &self.surfaces[i];
            assert(s@ == self@.surfaces[i as int]);
            if s.alive() {
                any_alive = true;
                if !s.usable() {
                    all_configured = false;
                }
            }
            if s.usable() {
                any_usable = true;
            }
            i += 1;
        }
        if !any_alive || all_configured {
            ConfigureWait::Proceed
        } else if attempt < CONFIGURE_ROUNDS - 1 {
            let ms: u64 = 20 + (attempt as u64) * 5;
            ConfigureWait::Sleep { ms: if ms <= 100 {
                ms
            } else {
                100
            } }
        } else if any_usable {
            ConfigureWait::Proceed
        } else {
            ConfigureWait::Failed
        }
    }

    /// Makes the buffers of the usable surfaces that `output` selects match
    /// their sizes, and queues the creation of those that were made anew.
    /// Needs the shared-memory global.
    pub fn ensure_buffers_for(&mut self, output: &Option<String>) -> (r: Result<(), EngineError>)
        requires
            old(self)@.wf(),
        ensures
            final(self)@.wf(),
            old(self)@.ended(final(self)@, r, old(self)@.buffers_ensured(opt_chars(*output))),
    {
        if !self.shm {
            return Err(EngineError::EnvironmentAbsent { what: Missing::Shm });
        }
        let ghost before = *self;
        let ghost out = opt_chars(*output);
        let n = self.surfaces.len();
        assert forall|j: int| 0 <= j < n implies (#[trigger] self.surfaces[j])@.wf() by {
            assert(before@.surfaces[j].wf());
        }
        let mut i: usize = 0;
        while i < n
            invariant
                i <= n,
                n == self.surfaces.len(),
                n == before.surfaces.len(),
                out == opt_chars(*output),
                before@.wf(),
                self.outputs == before.outputs,
                self.current == before.current,
                self.compositor == before.compositor,
                self.shm == before.shm,
                self.layer_shell == before.layer_shell,
                forall|j: int|
                    0 <= j < i ==> (#[trigger] self.surfaces[j])@ == before@.with_buffers(out)[j],
                forall|j: int| i <= j < n ==> (#[trigger] self.surfaces[j])@ == before@.surfaces[j],
                forall|j: int| 0 <= j < n ==> (#[trigger] self.surfaces[j])@.wf(),
                self.requests@ == before.requests@ + before@.buffer_requests(out, i as int),
            decreases n - i,
        {
            if self.surfaces[i].usable() && self.surfaces[i].selected_by(output) {
                let recreated = self.surfaces[i].ensure_buffers();
                if recreated {
                    let s = &self.surfaces[i];
                    self.requests.push(
                        Request::CreateBuffers {
                            si: i,
                            width: s.width(),
                            height: s.height(),
                            stride: s.stride(),
                            size_bytes: s.size_bytes(),
                        },
                    );
                }
            }
            i += 1;
        }
        assert(self@.surfaces =~= before@.with_buffers(out));
        Ok(())
    }

    /// Makes the buffers of every usable surface match its size.
    pub fn ensure_buffers_for_all_surfaces(&mut self) -> (r: Result<(), EngineError>)
        requires
            old(self)@.wf(),
        ensures
            final(self)@.wf(),
            old(self)@.ended(final(self)@, r, old(self)@.buffers_ensured(None)),
    {
        self.ensure_buffers_for(&None)
    }

    /// Drops the slots of surface `si` after their creation failed, so that
    /// the next request creates them again.
    pub fn buffers_failed(&mut self, si: usize)
        requires
            old(self)@.wf(),
        ensures
            si < old(self)@.surfaces.len() ==> final(self)@ == old(self)@.with_surface(
                si as int,
                old(self)@.surfaces[si as int].without_buffers(),
            ),
            si >= old(self)@.surfaces.len() ==> final(self)@ == old(self)@,
            final(self)@.wf(),
    {
        if si < self.surfaces.len() {
            self.surfaces[si].drop_buffers();
            proof {
                self.lemma_one_changed(*old(self), si as int);
            }
        }
    }

    /// Whether some surface goes by the name `want`.
    pub fn knows_output(&self, want: &String) -> (r: bool)
        ensures
            r == self@.knows_output(want@),
    {
        let n = self.surfaces.len();
        let mut i: usize = 0;
        while i < n
            invariant
                i <= n,
                n == self.surfaces.len(),
                forall|j: int| 0 <= j < i ==> (#[trigger] self@.surfaces[j]).output_name != Some(want@),
            decreases n - i,
        {
            let s = &self.surfaces[i];
            assert(s@ == self@.surfaces[i as int]);
            match s.output_name() {
                Some(name) => {
                    if *name == *want {
                        return true;
                    }
                },
                None => {},
            }
            i += 1;
        }
        false
    }

    /// Unsets the wallpaper. With an output named, the surfaces of that
    /// name are destroyed and their rows kept; an unknown name is refused
    /// and changes nothing. Without one, every surface forgets what it
    /// shows and nothing is in force any more.
    pub fn unset(&mut self, output: &Option<String>) -> (r: Result<(), EngineError>)
        requires
            old(self)@.wf(),
        ensures
            final(self)@.wf(),
            old(self)@.ended(final(self)@, r, old(self)@.unset_done(opt_chars(*output))),
    {
        if let Some(want) = output {
            if !self.knows_output(want) {
                return Err(EngineError::OutputUnknown);
            }
        }
        let ghost before = *self;
        let ghost out = opt_chars(*output);
        let named = output.is_some();
        let n = self.surfaces.len();
        assert forall|j: int| 0 <= j < n implies (#[trigger] self.surfaces[j])@.wf() by {
            assert(before@.surfaces[j].wf());
        }
        let mut i: usize = 0;
        while i < n
            invariant
                i <= n,
                n == self.surfaces.len(),
                n == before.surfaces.len(),
                out == opt_chars(*output),
                named == out is Some,
                before@.wf(),
                self.outputs == before.outputs,
                self.current == before.current,
                self.compositor == before.compositor,
                self.shm == before.shm,
                self.layer_shell == before.layer_shell,
                forall|j: int|
                    0 <= j < i ==> (#[trigger] self.surfaces[j])@ == before@.unset_surfaces(out)[j],
                forall|j: int| i <= j < n ==> (#[trigger] self.surfaces[j])@ == before@.surfaces[j],
                forall|j: int| 0 <= j < n ==> (#[trigger] self.surfaces[j])@.wf(),
                self.requests@ == before.requests@ + before@.destroy_requests(out, i as int),
            decreases n - i,
        {
            if self.surfaces[i].selected_by(output) {
                if named {
                    if self.surfaces[i].alive() {
                        self.requests.push(Request::DestroyLayerSurface { si: i });
                    }
                    self.surfaces[i].destroy();
                } else {
                    self.surfaces[i].forget();
                }
            }
            i += 1;
        }
        self.requests.push(Request::Flush);
        self.requests.push(Request::DispatchPending);
        if !named {
            self.current = None;
        }
        assert(self@.surfaces =~= before@.unset_surfaces(out));
        assert(self@.requests =~= before@.requests + before@.destroy_requests(out, n as int)
            + seq![Request::Flush, Request::DispatchPending]);
        Ok(())
    }

    /// Whether surface `i` can be painted.
    pub fn surface_usable(&self, i: usize) -> (r: bool)
        requires
            i < self@.surfaces.len(),
        ensures
            r == self@.surfaces[i as int].usable(),
    {
        self.surfaces[i].usable()
    }

    /// Whether a request for `output` selects surface `i`.
    pub fn surface_selected(&self, i: usize, output: &Option<String>) -> (r: bool)
        requires
            i < self@.surfaces.len(),
        ensures
            r == self@.surfaces[i as int].selected_by(opt_chars(*output)),
    {
        self.surfaces[i].selected_by(output)
    }

    /// Whether surface `i` exists, is selected by `output` and can be
    /// painted.
    pub fn paints(&self, i: usize, output: &Option<String>) -> (r: bool)
        ensures
            r == self@.paints(i as int, opt_chars(*output)),
    {
        i < self.surfaces.len() && self.surfaces[i].usable() && self.surfaces[i].selected_by(output)
    }

    /// One step of the wait for a free buffer of surface `i`.
    pub fn wait_for_free_buffer_idx(&mut self, i: usize, elapsed_ms: u64, warned: bool) -> (step:
        WaitStep)
        requires
            old(self)@.wf(),
            i < old(self)@.surfaces.len(),
        ensures
            step == old(self)@.surfaces[i as int].wait_decision(elapsed_ms, warned),
            final(self)@ == old(self)@.with_surface(
                i as int,
                old(self)@.surfaces[i as int].after_wait(elapsed_ms),
            ),
            final(self)@.wf(),
    {
        let step = self.surfaces[i].wait_for_free_buffer(elapsed_ms, warned);
        proof {
            self.lemma_one_changed(*old(self), i as int);
        }
        step
    }

    /// Prefers the free slot of surface `i`.
    pub fn prefer_free(&mut self, i: usize)
        requires
            old(self)@.wf(),
            i < old(self)@.surfaces.len(),
        ensures
            final(self)@ == old(self)@.with_surface(
                i as int,
                old(self)@.surfaces[i as int].preferring_free(),
            ),
            final(self)@.wf(),
    {
        self.surfaces[i].prefer_free();
        proof {
            self.lemma_one_changed(*old(self), i as int);
        }
    }

    /// Runs one paint on the current slot of surface `i`.
    pub fn paint_surface(&mut self, i: usize, op: &PaintOp)
        requires
            old(self)@.wf(),
            i < old(self)@.surfaces.len(),
        ensures
            final(self)@ == old(self)@.with_surface(
                i as int,
                old(self)@.surfaces[i as int].painted(op@),
            ),
            final(self)@.wf(),
    {
        self.surfaces[i].paint(op);
        proof {
            self.lemma_one_changed(*old(self), i as int);
        }
    }

    /// Commits the current slot of surface `i` and queues the messages.
    pub fn commit_surface(&mut self, i: usize)
        requires
            old(self)@.wf(),
            i < old(self)@.surfaces.len(),
        ensures
            final(self)@ == old(self)@.after_commit(i as int),
            final(self)@.wf(),
    {
        let width = self.surfaces[i].width();
        let height = self.surfaces[i].height();
        let plan = self.surfaces[i].commit();
        if plan.request_frame {
            self.requests.push(Request::FrameCallback { si: i });
        }
        match plan.attach {
            Some(slot) => {
                self.requests.push(Request::Commit { si: i, slot, width, height });
            },
            None => {},
        }
        assert(self@.surfaces =~= old(self)@.surfaces.update(
            i as int,
            old(self)@.surfaces[i as int].committed(),
        ));
        assert(self@.requests =~= old(self)@.requests + old(self)@.commit_requests(i as int));
    }

    /// Records what surface `i` now shows.
    pub fn show_surface(&mut self, i: usize, colour: Rgb, has_image: bool, frame: Vec<u32>)
        requires
            old(self)@.wf(),
            i < old(self)@.surfaces.len(),
            frame.len() == old(self)@.surfaces[i as int].pixel_count(),
        ensures
            final(self)@ == old(self)@.with_surface(
                i as int,
                old(self)@.surfaces[i as int].showing(colour, has_image, frame@),
            ),
            final(self)@.wf(),
    {
        self.surfaces[i].show(colour, has_image, frame);
        proof {
            self.lemma_one_changed(*old(self), i as int);
        }
    }

    /// Records the colour of surface `i` alone.
    pub fn recolour_surface(&mut self, i: usize, colour: Rgb)
        requires
            old(self)@.wf(),
            i < old(self)@.surfaces.len(),
        ensures
            final(self)@ == old(self)@.with_surface(
                i as int,
                old(self)@.surfaces[i as int].recoloured(colour),
            ),
            final(self)@.wf(),
    {
        self.surfaces[i].recolour(colour);
        proof {
            self.lemma_one_changed(*old(self), i as int);
        }
    }

    /// Queues a flush of the connection.
    pub fn queue_flush(&mut self)
        ensures
            final(self)@ == old(self)@.sending(seq![Request::Flush]),
    {
        self.requests.push(Request::Flush);
        assert(self@.requests =~= old(self)@.requests + seq![Request::Flush]);
    }

    /// Queues a dispatch of the events that have arrived.
    pub fn queue_dispatch(&mut self)
        ensures
            final(self)@ == old(self)@.sending(seq![Request::DispatchPending]),
    {
        self.requests.push(Request::DispatchPending);
        assert(self@.requests =~= old(self)@.requests + seq![Request::DispatchPending]);
    }

    /// When only surface `i` differs between two engines, the later one is
    /// the earlier one with that surface replaced.
    proof fn lemma_one_changed(&self, before: Engine, i: int)
        requires
            0 <= i < before.surfaces.len(),
            self.surfaces.len() == before.surfaces.len(),
            forall|j: int|
                0 <= j < before.surfaces.len() && j != i ==> self.surfaces[j] == before.surfaces[j],
            self.outputs == before.outputs,
            self.current == before.current,
            self.requests == before.requests,
            self.compositor == before.compositor,
            self.shm == before.shm,
            self.layer_shell == before.layer_shell,
            before@.wf(),
            self.surfaces[i]@.wf(),
        ensures
            self@ == before@.with_surface(i, self.surfaces[i]@),
            self@.wf(),
    {
        assert(self@.surfaces =~= before@.surfaces.update(i, self.surfaces[i]@));
    }
}

} // verus!
