use gesso::spec::{Mode, Rgb, Spec, Transition, TransitionSpec, WipeFrom};
use gesso::wallpaper::animations::DriverAction;
use gesso::wallpaper::apply::{ApplyAction, ApplyTask, Job, Stage};
use gesso::wallpaper::render::Bitmap;
use gesso::wallpaper::wayland::{Engine, EngineError, Missing, Probe, Request};

/// What the stand-in compositor has yet to deliver.
#[derive(Clone, Copy, Debug, PartialEq, Eq)]
enum Event {
    Configure(usize, u32, u32),
    Release(usize, usize),
    FrameDone(usize, u64),
}

/// A compositor that lives in the test: it takes the engine's messages,
/// answers with events, and keeps a clock that only moves when the engine
/// sleeps or waits.
struct Mock {
    names: Vec<String>,
    sizes: Vec<(u32, u32)>,
    now: u64,
    pending: Vec<Event>,
    commits: Vec<(usize, usize, Vec<u32>)>,
    attached: Vec<Option<usize>>,
    first_attached: Option<(usize, usize)>,
    releases: bool,
    keeps_first: bool,
    frame_done: bool,
    configures: bool,
    cache: Option<Vec<Option<Vec<u32>>>>,
    bitmap: Option<Bitmap>,
    decodes: usize,
    stored: Vec<(usize, Vec<u32>)>,
    steps: usize,
}

impl Mock {
    fn new(outputs: &[(&str, u32, u32)]) -> Mock {
        Mock {
            names: outputs.iter().map(|o| o.0.to_string()).collect(),
            sizes: outputs.iter().map(|o| (o.1, o.2)).collect(),
            now: 0,
            pending: Vec::new(),
            commits: Vec::new(),
            attached: vec![None; outputs.len()],
            first_attached: None,
            releases: true,
            keeps_first: false,
            frame_done: true,
            configures: true,
            cache: None,
            bitmap: None,
            decodes: 0,
            stored: Vec::new(),
            steps: 0,
        }
    }

    fn engine(&self) -> Engine {
        let env = Probe {
            wayland_display: true,
            compositor: true,
            shm: true,
            layer_shell: true,
            outputs: self.names.len(),
        };
        Engine::new(&env).expect("engine")
    }

    fn tick(&mut self) {
        self.steps += 1;
        assert!(self.steps < 200_000, "the engine does not come to an end");
    }

    fn dispatch(&mut self, engine: &mut Engine) {
        let now = self.now;
        let events: Vec<Event> = self.pending.clone();
        self.pending.clear();
        for ev in events {
            match ev {
                Event::Configure(si, w, h) => {
                    engine.on_configure(si, w, h);
                }
                Event::Release(si, slot) => engine.on_buffer_release(si, slot),
                Event::FrameDone(si, due) => {
                    if due <= now {
                        engine.on_frame_done(si);
                    } else {
                        self.pending.push(ev);
                    }
                }
            }
        }
    }

    fn send(&mut self, engine: &mut Engine) {
        for request in engine.take_requests() {
            match request {
                Request::CreateLayerSurface { si } => {
                    if self.configures {
                        let (w, h) = self.sizes[si];
                        self.pending.push(Event::Configure(si, w, h));
                    }
                }
                Request::DestroyLayerSurface { si } => self.attached[si] = None,
                Request::CreateBuffers { .. } => {}
                Request::FrameCallback { si } => {
                    if self.frame_done {
                        self.pending.push(Event::FrameDone(si, self.now + 16));
                    }
                }
                Request::Commit { si, slot, width, height } => {
                    let pixels = engine.surface(si).buffers().slot(slot).pixels().clone();
                    assert_eq!(pixels.len(), (width * height) as usize);
                    self.commits.push((si, slot, pixels));
                    if let Some(prev) = self.attached[si] {
                        let kept = self.keeps_first && self.first_attached == Some((si, prev));
                        if prev != slot && self.releases && !kept {
                            self.pending.push(Event::Release(si, prev));
                        }
                    }
                    if self.first_attached.is_none() {
                        self.first_attached = Some((si, slot));
                    }
                    self.attached[si] = Some(slot);
                }
                Request::Flush => {}
                Request::DispatchPending => self.dispatch(engine),
            }
        }
    }

    fn drive(&mut self, task: &mut ApplyTask, engine: &mut Engine) -> u32 {
        loop {
            self.tick();
            match task.drive(engine, self.now) {
                DriverAction::Continue => self.send(engine),
                DriverAction::Pump { .. } => {
                    self.send(engine);
                    self.now += 17;
                    self.dispatch(engine);
                }
                DriverAction::Idle { ms } => {
                    self.send(engine);
                    self.now += ms;
                }
                DriverAction::Done { frames } => {
                    self.send(engine);
                    return frames;
                }
            }
        }
    }

    fn run(&mut self, engine: &mut Engine, job: Job) -> Result<(), EngineError> {
        let mut task = ApplyTask::new(job);
        loop {
            self.tick();
            assert!(engine.check());
            match task.next(engine) {
                ApplyAction::Persist => {}
                ApplyAction::Settle => {
                    for (i, name) in self.names.clone().into_iter().enumerate() {
                        engine.on_output_name(i, name);
                    }
                }
                ApplyAction::Send => self.send(engine),
                ApplyAction::Roundtrip => {
                    self.send(engine);
                    self.dispatch(engine);
                }
                ApplyAction::Sleep { ms } => self.now += ms,
                ApplyAction::LoadCached => task.cached(self.cache.clone()),
                ApplyAction::Decode => {
                    self.decodes += 1;
                    task.decoded(engine, self.bitmap.as_ref());
                }
                ApplyAction::Animate => {
                    self.drive(&mut task, engine);
                }
                ApplyAction::StoreFrames => {
                    for si in 0..engine.surface_count() {
                        if let Some(frame) = task.target_frame(si) {
                            self.stored.push((si, frame.clone()));
                        }
                    }
                }
                ApplyAction::Finished => {
                    assert_eq!(task.stage(), Stage::Finished);
                    return Ok(());
                }
                ApplyAction::Failed { error } => {
                    assert_eq!(task.failure(), Some(error));
                    return Err(error);
                }
            }
        }
    }

    fn apply(&mut self, engine: &mut Engine, spec: Spec) -> Result<(), EngineError> {
        self.run(engine, Job::Apply { spec })
    }
}

fn instant() -> TransitionSpec {
    TransitionSpec { kind: Transition::Instant, duration: 200, wipe_from: WipeFrom::Left }
}

fn fade(ms: u32) -> TransitionSpec {
    TransitionSpec { kind: Transition::Fade, duration: ms, wipe_from: WipeFrom::Left }
}

fn wipe(ms: u32, from: WipeFrom) -> TransitionSpec {
    TransitionSpec { kind: Transition::Wipe, duration: ms, wipe_from: from }
}

fn colour(hex: &str, output: Option<&str>, transition: TransitionSpec) -> Spec {
    Spec::Colour {
        colour: Rgb::parse(hex).expect("colour"),
        output: output.map(|o| o.to_string()),
        transition,
    }
}

fn image(output: Option<&str>, transition: TransitionSpec) -> Spec {
    Spec::Image {
        path: "/pictures/wall.png".to_string(),
        mode: Mode::Center,
        colour: Rgb { r: 1, g: 2, b: 3 },
        output: output.map(|o| o.to_string()),
        transition,
    }
}

#[test]
fn instant_colour_commits_once_with_the_colour_everywhere() {
    let mut mock = Mock::new(&[("HDMI-A-1", 800, 600)]);
    let mut engine = mock.engine();
    let spec = colour("#101010", None, instant());
    assert_eq!(mock.apply(&mut engine, spec.clone()), Ok(()));
    assert_eq!(mock.commits.len(), 1);
    let (si, _, pixels) = &mock.commits[0];
    assert_eq!(*si, 0);
    assert_eq!(pixels.len(), 800 * 600);
    assert!(pixels.iter().all(|&px| px == 0x0010_1010));
    assert_eq!(engine.current(), Some(&spec));
    assert!(engine.running());
    let s = engine.surface(0);
    assert_eq!(s.output_name().map(|n| n.as_str()), Some("HDMI-A-1"));
    assert_eq!((s.width(), s.height()), (800, 600));
    assert_eq!((s.stride(), s.size_bytes()), (3200, 800 * 600 * 4));
    assert_eq!(s.last_colour(), Rgb { r: 0x10, g: 0x10, b: 0x10 });
    assert!(!s.has_image());
    assert_eq!(s.last_frame().map(|f| f.len()), Some(800 * 600));
}

#[test]
fn fade_between_colours_ends_on_the_exact_target() {
    let mut mock = Mock::new(&[("HDMI-A-1", 80, 60)]);
    let mut engine = mock.engine();
    assert_eq!(mock.apply(&mut engine, colour("#000000", None, instant())), Ok(()));
    let before = mock.commits.len();
    assert_eq!(mock.apply(&mut engine, colour("#FFFFFF", None, fade(100))), Ok(()));
    assert!(mock.commits.len() - before >= 2);
    let (_, _, last) = mock.commits.last().expect("a commit");
    assert!(last.iter().all(|&px| px == 0x00FF_FFFF));
    let frame = engine.surface(0).last_frame().expect("a frame");
    assert_eq!(frame.len(), 80 * 60);
    assert!(frame.iter().all(|&px| px == 0x00FF_FFFF));
    assert!(mock.now >= 100);
    // The presented frames never go back towards the source.
    let mut previous = 0u32;
    for (_, _, pixels) in &mock.commits[before..] {
        let red = (pixels[0] >> 16) & 0xFF;
        assert!(red >= previous);
        previous = red;
    }
}

#[test]
fn wipe_to_an_image_from_the_left() {
    let mut mock = Mock::new(&[("HDMI-A-1", 4, 1)]);
    let mut engine = mock.engine();
    assert_eq!(mock.apply(&mut engine, colour("#000000", None, instant())), Ok(()));
    assert_eq!(engine.surface(0).last_frame(), Some(&vec![0u32, 0, 0, 0]));
    mock.cache = Some(vec![Some(vec![0xAA, 0xBB, 0xCC, 0xDD])]);
    let before = mock.commits.len();
    assert_eq!(mock.apply(&mut engine, image(None, wipe(16, WipeFrom::Left))), Ok(()));
    let rows: Vec<Vec<u32>> = mock.commits[before..].iter().map(|c| c.2.clone()).collect();
    assert_eq!(rows.first(), Some(&vec![0u32, 0, 0, 0]));
    assert_eq!(rows.last(), Some(&vec![0xAAu32, 0xBB, 0xCC, 0xDD]));
    for row in &rows {
        // A hard seam: target pixels on the left, source pixels on the right.
        let cols = row.iter().take_while(|&&px| px != 0).count();
        assert_eq!(row[..cols], [0xAAu32, 0xBB, 0xCC, 0xDD][..cols]);
        assert!(row[cols..].iter().all(|&px| px == 0));
    }
    let s = engine.surface(0);
    assert!(s.has_image());
    assert_eq!(s.last_colour(), Rgb { r: 1, g: 2, b: 3 });
    assert_eq!(s.last_frame(), Some(&vec![0xAAu32, 0xBB, 0xCC, 0xDD]));
    assert_eq!(mock.decodes, 0);
}

#[test]
fn per_output_unset_then_restore() {
    let mut mock = Mock::new(&[("HDMI-A-1", 8, 6), ("DP-1", 4, 4)]);
    let mut engine = mock.engine();
    let spec = colour("#336699", None, instant());
    assert_eq!(mock.apply(&mut engine, spec.clone()), Ok(()));
    assert_eq!(mock.commits.len(), 2);

    assert_eq!(mock.run(&mut engine, Job::Unset { output: Some("DP-1".to_string()) }), Ok(()));
    let dp = engine.surface(1);
    assert!(!dp.alive());
    assert!(!dp.configured());
    assert_eq!((dp.width(), dp.height()), (0, 0));
    assert_eq!(dp.last_frame(), None);
    assert!(!dp.buffers().both_ready());
    assert_eq!(dp.output_name().map(|n| n.as_str()), Some("DP-1"));
    let hdmi = engine.surface(0);
    assert!(hdmi.alive());
    assert_eq!(hdmi.last_frame().map(|f| f.len()), Some(48));
    assert_eq!(mock.attached, vec![Some(0), None]);
    // A per-output unset leaves the request in force.
    assert_eq!(engine.current(), Some(&spec));

    let before = mock.commits.len();
    assert_eq!(mock.apply(&mut engine, spec), Ok(()));
    let dp = engine.surface(1);
    assert!(dp.alive());
    assert!(dp.configured());
    assert_eq!((dp.width(), dp.height()), (4, 4));
    assert_eq!(dp.last_frame(), Some(&vec![0x0033_6699u32; 16]));
    assert!(mock.commits[before..].iter().any(|c| c.0 == 1 && c.2 == vec![0x0033_6699u32; 16]));
}

#[test]
fn cache_hit_avoids_decode() {
    let mut mock = Mock::new(&[("HDMI-A-1", 2, 2)]);
    let mut engine = mock.engine();
    mock.bitmap = Bitmap::new(1, 1, vec![9, 8, 7, 255]);
    let spec = image(None, instant());
    assert_eq!(mock.apply(&mut engine, spec.clone()), Ok(()));
    assert_eq!(mock.decodes, 1);
    // Centred 1x1 source on a 2x2 frame: one pixel of the image, the rest
    // background.
    let bg = 0x0001_0203u32;
    let rendered = vec![0x0009_0807u32, bg, bg, bg];
    assert_eq!(mock.stored, vec![(0, rendered.clone())]);
    assert_eq!(engine.surface(0).last_frame(), Some(&rendered));

    let cached = vec![0x11u32, 0x22, 0x33, 0x44];
    mock.cache = Some(vec![Some(cached.clone())]);
    assert_eq!(mock.apply(&mut engine, spec), Ok(()));
    assert_eq!(mock.decodes, 1);
    assert_eq!(mock.stored.len(), 1);
    assert_eq!(engine.surface(0).last_frame(), Some(&cached));
    assert_eq!(mock.commits.last().map(|c| c.2.clone()), Some(cached));
}

#[test]
fn cache_frame_of_another_size_is_a_miss() {
    let mut mock = Mock::new(&[("HDMI-A-1", 2, 2)]);
    let mut engine = mock.engine();
    mock.bitmap = Bitmap::new(1, 1, vec![9, 8, 7, 255]);
    mock.cache = Some(vec![Some(vec![0x11u32, 0x22, 0x33])]);
    assert_eq!(mock.apply(&mut engine, image(None, instant())), Ok(()));
    assert_eq!(mock.decodes, 1);
    assert_eq!(engine.surface(0).last_frame().map(|f| f[0]), Some(0x0009_0807));
}

#[test]
fn pacing_stuck_fallback() {
    let mut mock = Mock::new(&[("HDMI-A-1", 16, 9)]);
    mock.frame_done = false;
    mock.keeps_first = true;
    let mut engine = mock.engine();
    let started = mock.now;
    assert_eq!(mock.apply(&mut engine, colour("#20C0FF", None, fade(50))), Ok(()));
    assert!(mock.now - started <= 2000, "took {} ms", mock.now - started);
    let s = engine.surface(0);
    assert!(!s.frame_callback_ok());
    assert_eq!(s.last_frame(), Some(&vec![0x0020_C0FFu32; 16 * 9]));
    assert_eq!(mock.commits.last().map(|c| c.2.clone()), Some(vec![0x0020_C0FFu32; 16 * 9]));
}

#[test]
fn a_compositor_that_releases_nothing_cannot_stall_an_apply() {
    let mut mock = Mock::new(&[("HDMI-A-1", 4, 4)]);
    mock.frame_done = false;
    mock.releases = false;
    let mut engine = mock.engine();
    assert_eq!(mock.apply(&mut engine, colour("#FFFFFF", None, fade(40))), Ok(()));
    assert_eq!(engine.surface(0).last_frame(), Some(&vec![0x00FF_FFFFu32; 16]));
    assert!(engine.running());
    // Each wait ends at the hard-bail deadline at the latest: two slots can
    // be painted freely, every later paint waits once.
    let waits = mock.commits.len() as u64;
    assert!(mock.now <= waits * (1500 + 17) + 40 + 32);
}

#[test]
fn no_op_colour_transition_commits_nothing() {
    let mut mock = Mock::new(&[("HDMI-A-1", 8, 8)]);
    let mut engine = mock.engine();
    assert_eq!(mock.apply(&mut engine, colour("#123456", None, instant())), Ok(()));
    let before = mock.commits.len();
    let spec = colour("#123456", None, fade(500));
    assert_eq!(mock.apply(&mut engine, spec.clone()), Ok(()));
    assert_eq!(mock.commits.len(), before);
    assert_eq!(engine.current(), Some(&spec));
    assert_eq!(engine.surface(0).last_colour(), Rgb { r: 0x12, g: 0x34, b: 0x56 });
}

#[test]
fn unset_of_all_outputs_forgets_the_request() {
    let mut mock = Mock::new(&[("HDMI-A-1", 8, 8), ("DP-1", 8, 8)]);
    let mut engine = mock.engine();
    assert_eq!(mock.apply(&mut engine, colour("#123456", None, instant())), Ok(()));
    assert_eq!(mock.run(&mut engine, Job::Unset { output: None }), Ok(()));
    assert_eq!(engine.current(), None);
    assert!(!engine.running());
    for si in 0..2 {
        let s = engine.surface(si);
        assert!(s.alive());
        assert!(s.configured());
        assert_eq!(s.last_frame(), None);
        assert!(!s.has_image());
        assert!(!s.frame_pending());
        assert!(!s.frame_callback_ok());
    }
}

#[test]
fn unset_of_an_unknown_output_is_refused() {
    let mut mock = Mock::new(&[("HDMI-A-1", 8, 8)]);
    let mut engine = mock.engine();
    let spec = colour("#123456", None, instant());
    assert_eq!(mock.apply(&mut engine, spec.clone()), Ok(()));
    assert_eq!(
        mock.run(&mut engine, Job::Unset { output: Some("DP-9".to_string()) }),
        Err(EngineError::OutputUnknown)
    );
    assert_eq!(engine.current(), Some(&spec));
    assert!(engine.surface(0).alive());
    assert_eq!(engine.unset(&Some("DP-9".to_string())), Err(EngineError::OutputUnknown));
}

#[test]
fn colour_on_one_output_leaves_the_other_alone() {
    let mut mock = Mock::new(&[("HDMI-A-1", 4, 2), ("DP-1", 2, 2)]);
    let mut engine = mock.engine();
    assert_eq!(mock.apply(&mut engine, colour("#000000", None, instant())), Ok(()));
    assert_eq!(mock.apply(&mut engine, colour("#FF0000", Some("DP-1"), wipe(30, WipeFrom::Right))), Ok(()));
    assert_eq!(engine.surface(0).last_frame(), Some(&vec![0u32; 8]));
    assert_eq!(engine.surface(1).last_frame(), Some(&vec![0x00FF_0000u32; 4]));
}

#[test]
fn apply_fails_when_no_surface_is_configured() {
    let mut mock = Mock::new(&[("HDMI-A-1", 8, 8)]);
    mock.configures = false;
    let mut engine = mock.engine();
    assert_eq!(
        mock.apply(&mut engine, colour("#123456", None, instant())),
        Err(EngineError::NotConfigured)
    );
    // Ten rounds, a sleep between each two: 20, 25, ... 60 ms.
    assert_eq!(mock.now, 20 + 25 + 30 + 35 + 40 + 45 + 50 + 55 + 60);
    assert_eq!(engine.current(), None);
}

#[test]
fn apply_goes_on_when_some_surface_is_configured() {
    let mut mock = Mock::new(&[("HDMI-A-1", 8, 8), ("DP-1", 0, 0)]);
    let mut engine = mock.engine();
    assert_eq!(mock.apply(&mut engine, colour("#00FF00", None, instant())), Ok(()));
    assert_eq!(engine.surface(0).last_frame(), Some(&vec![0x0000_FF00u32; 64]));
    assert!(!engine.surface(1).configured());
    assert_eq!(engine.surface(1).last_frame(), None);
    assert_eq!(mock.commits.len(), 1);
}

#[test]
fn image_without_a_usable_surface_fails() {
    // The output is there, but its surface never gets a size.
    let mut mock = Mock::new(&[("HDMI-A-1", 8, 8), ("DP-1", 0, 0)]);
    let mut engine = mock.engine();
    mock.bitmap = Bitmap::new(1, 1, vec![0, 0, 0, 255]);
    assert_eq!(
        mock.apply(&mut engine, image(Some("DP-1"), instant())),
        Err(EngineError::NoSurfaceMatched)
    );
    assert_eq!(mock.commits.len(), 0);
    assert_eq!(engine.current(), None);
}

#[test]
fn apply_to_an_unknown_output_is_refused() {
    let mut mock = Mock::new(&[("HDMI-A-1", 8, 8)]);
    let mut engine = mock.engine();
    mock.bitmap = Bitmap::new(1, 1, vec![0, 0, 0, 255]);
    let first = colour("#112233", None, instant());
    assert_eq!(mock.apply(&mut engine, first.clone()), Ok(()));
    let commits = mock.commits.len();
    let frame = engine.surface(0).last_frame().cloned();

    for transition in [instant(), fade(30), wipe(30, WipeFrom::Right)] {
        assert_eq!(
            mock.apply(&mut engine, colour("#FFFFFF", Some("DP-7"), transition)),
            Err(EngineError::OutputUnknown)
        );
        assert_eq!(
            mock.apply(&mut engine, image(Some("DP-7"), transition)),
            Err(EngineError::OutputUnknown)
        );
    }
    // Nothing was painted, decoded or put in force.
    assert_eq!(mock.commits.len(), commits);
    assert_eq!(mock.decodes, 0);
    assert_eq!(mock.stored.len(), 0);
    assert_eq!(engine.current(), Some(&first));
    let s = engine.surface(0);
    assert_eq!(s.last_frame().cloned(), frame);
    assert_eq!(s.last_colour(), Rgb { r: 0x11, g: 0x22, b: 0x33 });
    assert!(!s.has_image());
    assert_eq!(engine.take_requests(), vec![]);
    // The same request for the output that is there goes through.
    assert_eq!(mock.apply(&mut engine, colour("#FFFFFF", Some("HDMI-A-1"), instant())), Ok(()));
}

#[test]
fn image_that_cannot_be_decoded_fails() {
    let mut mock = Mock::new(&[("HDMI-A-1", 8, 8)]);
    let mut engine = mock.engine();
    mock.bitmap = None;
    assert_eq!(mock.apply(&mut engine, image(None, fade(10))), Err(EngineError::DecodeFailure));
    assert_eq!(engine.current(), None);
}

#[test]
fn missing_globals_are_reported() {
    let all = Probe { wayland_display: true, compositor: true, shm: true, layer_shell: true, outputs: 1 };
    assert_eq!(
        Engine::new(&Probe { wayland_display: false, ..all }).err(),
        Some(EngineError::EnvironmentAbsent { what: Missing::Display })
    );
    let mut no_compositor = Engine::new(&Probe { compositor: false, ..all }).expect("engine");
    assert_eq!(
        no_compositor.ensure_surfaces(),
        Err(EngineError::EnvironmentAbsent { what: Missing::Compositor })
    );
    let mut no_shell = Engine::new(&Probe { layer_shell: false, ..all }).expect("engine");
    assert_eq!(
        no_shell.ensure_surfaces(),
        Err(EngineError::EnvironmentAbsent { what: Missing::LayerShell })
    );
    let mut no_shm = Engine::new(&Probe { shm: false, ..all }).expect("engine");
    assert_eq!(no_shm.ensure_surfaces(), Ok(()));
    assert_eq!(
        no_shm.ensure_buffers_for_all_surfaces(),
        Err(EngineError::EnvironmentAbsent { what: Missing::Shm })
    );
    let mut mock = Mock::new(&[("HDMI-A-1", 8, 8)]);
    assert_eq!(
        mock.apply(&mut no_shm, colour("#000000", None, instant())),
        Err(EngineError::EnvironmentAbsent { what: Missing::Shm })
    );
    assert_eq!(
        no_shm.probe(true),
        Probe { wayland_display: true, compositor: true, shm: false, layer_shell: true, outputs: 1 }
    );
}

#[test]
fn surfaces_take_the_description_while_the_name_is_missing() {
    let env = Probe { wayland_display: true, compositor: true, shm: true, layer_shell: true, outputs: 3 };
    let mut engine = Engine::new(&env).expect("engine");
    engine.on_output_name(0, "DP-1".to_string());
    engine.on_output_description(0, "Some monitor".to_string());
    engine.on_output_description(1, "Other monitor".to_string());
    engine.on_output_name(7, "ignored".to_string());
    assert_eq!(engine.output(0).name().map(|s| s.as_str()), Some("DP-1"));
    assert_eq!(engine.output(1).name(), None);
    assert_eq!(engine.ensure_surfaces(), Ok(()));
    assert_eq!(engine.surface_count(), 3);
    assert_eq!(engine.surface(0).output_name().map(|s| s.as_str()), Some("DP-1"));
    assert_eq!(engine.surface(1).output_name().map(|s| s.as_str()), Some("Other monitor"));
    assert_eq!(engine.surface(2).output_name(), None);
    assert_eq!(
        engine.take_requests(),
        vec![
            Request::CreateLayerSurface { si: 0 },
            Request::CreateLayerSurface { si: 1 },
            Request::CreateLayerSurface { si: 2 },
        ]
    );
    assert!(engine.surface_selected(1, &None));
    assert!(engine.surface_selected(1, &Some("Other monitor".to_string())));
    assert!(!engine.surface_selected(2, &Some("DP-1".to_string())));
    assert!(!engine.surface_usable(0));
}

#[test]
fn warmup_gets_buffers_ready() {
    let mut mock = Mock::new(&[("HDMI-A-1", 8, 4)]);
    let mut engine = mock.engine();
    assert_eq!(mock.run(&mut engine, Job::Warmup), Ok(()));
    let s = engine.surface(0);
    assert!(s.buffers().both_ready());
    assert_eq!(s.buffers().current_pixels().len(), 32);
    assert_eq!(engine.current(), None);
    assert_eq!(mock.commits.len(), 0);
}

#[test]
fn stop_drops_surfaces_and_request() {
    let mut mock = Mock::new(&[("HDMI-A-1", 8, 4)]);
    let mut engine = mock.engine();
    assert_eq!(mock.apply(&mut engine, colour("#010203", None, instant())), Ok(()));
    engine.stop();
    assert_eq!(engine.surface_count(), 0);
    assert_eq!(engine.current(), None);
    assert!(!engine.running());
    assert!(engine.check());
}
