use gesso::spec::{Rgb, Transition, WipeFrom};
use gesso::wallpaper::animations::{
    capture_from_frames, selected_surfaces, Animation, DriverAction, Phase, SOFT_IDLE_MS,
};
use gesso::wallpaper::buffers::{DoubleBuffer, PaintOp};
use gesso::wallpaper::colour::{
    any_paints, apply_solid, apply_solid_on, fade_to, fade_to_on, transition_to_on, wipe_to_on,
    wipe_to_on_from, ApplyReport, ColourStart,
};
use gesso::wallpaper::image::{
    begin_image, cache_valid, image_request, render_targets, wanted_frames, FrameRef,
};
use gesso::wallpaper::render::Bitmap;
use gesso::wallpaper::surface::{
    CommitPlan, SurfaceState, WaitStep, DISABLE_FRAME_CB_AFTER_MS, HARD_BAIL_AFTER_MS,
    WARN_AFTER_MS,
};
use gesso::wallpaper::util::tt_at;
use gesso::wallpaper::wayland::{ConfigureWait, Engine, EngineError, Probe, Request};

fn engine(sizes: &[(u32, u32)]) -> Engine {
    let env =
        Probe { wayland_display: true, compositor: true, shm: true, layer_shell: true, outputs: sizes.len() };
    let mut e = Engine::new(&env).expect("engine");
    for i in 0..sizes.len() {
        e.on_output_name(i, format!("OUT-{i}"));
    }
    e.ensure_surfaces().expect("surfaces");
    for (i, &(w, h)) in sizes.iter().enumerate() {
        assert!(e.on_configure(i, w, h));
    }
    e.ensure_buffers_for_all_surfaces().expect("buffers");
    e.take_requests();
    e
}

fn surface(w: u32, h: u32) -> SurfaceState {
    let mut s = SurfaceState::new(Some("OUT".to_string()));
    s.on_configure(w, h);
    assert!(s.ensure_buffers());
    s
}

#[test]
fn easing_is_quantised_to_256_steps() {
    assert_eq!(tt_at(0, 100), 0);
    // 1 - (3/4)^3 = 37/64, times 256 is 148.
    assert_eq!(tt_at(25, 100), 148);
    // 1 - (1/2)^3 = 7/8, times 256 is 224.
    assert_eq!(tt_at(50, 100), 224);
    assert_eq!(tt_at(100, 100), 256);
    assert_eq!(tt_at(1_000_000, 100), 256);
    // 1 - (2/3)^3 = 19/27, times 256 is 180.1.
    assert_eq!(tt_at(1, 3), 180);
    // 1 - (1/2)^3 = 0.875 exactly at a half: 224; one step of 256 is 255.5, rounded up.
    assert_eq!(tt_at(255, 256), 256);
    assert_eq!(tt_at(1, 1000), 1);
    // A duration of nothing is taken as one millisecond.
    assert_eq!(tt_at(0, 0), 0);
    assert_eq!(tt_at(1, 0), 256);
    assert_eq!(tt_at(u64::MAX, u32::MAX), 256);
    assert_eq!(tt_at(0, u32::MAX), 0);
    let mut previous = 0;
    for ms in 0..=850u64 {
        let tt = tt_at(ms, 850);
        assert!(previous <= tt && tt <= 256);
        previous = tt;
    }
}

#[test]
fn double_buffer_swaps_and_frees() {
    let mut d = DoubleBuffer::new();
    assert!(!d.both_ready());
    assert!(!d.current_is_ready());
    assert_eq!(d.current(), 0);
    d.paint_current(2, 1, &PaintOp::Solid { px: 9 });
    assert_eq!(d.current_pixels(), &Vec::<u32>::new());

    let mut d = DoubleBuffer::allocate(2);
    assert!(d.both_ready());
    assert!(d.slot(0).is_ready() && d.slot(1).is_ready());
    assert_eq!(d.current_pixels(), &vec![0u32, 0]);
    assert!(!d.current_is_busy());
    d.paint_current(2, 1, &PaintOp::Solid { px: 9 });
    assert_eq!(d.slot(0).pixels(), &vec![9u32, 9]);
    assert_eq!(d.slot(1).pixels(), &vec![0u32, 0]);
    d.mark_current_busy();
    assert!(d.current_is_busy());
    d.swap();
    assert_eq!(d.current(), 1);
    assert!(!d.current_is_busy());
    assert!(d.slot(0).is_busy());
    // The other slot is busy: no swap.
    d.swap_to_free();
    assert_eq!(d.current(), 1);
    d.mark_free(0);
    d.swap_to_free();
    assert_eq!(d.current(), 0);
    d.swap();
    d.swap();
    assert_eq!(d.current(), 0);
    // Any index but 0 names the second slot.
    d.swap();
    d.mark_current_busy();
    d.mark_free(7);
    assert!(!d.slot(1).is_busy());
}

#[test]
fn commit_hands_the_slot_over() {
    let mut s = surface(2, 2);
    assert_eq!((s.stride(), s.size_bytes()), (8, 16));
    s.paint(&PaintOp::Solid { px: 5 });
    assert_eq!(s.commit(), CommitPlan { request_frame: true, attach: Some(0) });
    assert!(s.frame_pending());
    assert_eq!(s.buffers().current(), 1);
    assert!(s.buffers().slot(0).is_busy());
    assert_eq!(s.buffers().slot(0).pixels(), &vec![5u32; 4]);
    // A callback is outstanding: none is asked for again.
    assert_eq!(s.commit(), CommitPlan { request_frame: false, attach: Some(1) });
    assert!(s.buffers().slot(1).is_busy());
    s.on_buffer_release(0);
    assert!(!s.buffers().slot(0).is_busy());
    assert!(s.buffers().slot(1).is_busy());
    let mut bare = SurfaceState::new(None);
    assert_eq!(bare.commit(), CommitPlan { request_frame: true, attach: None });
}

#[test]
fn wait_is_ready_when_a_slot_is_free() {
    let mut s = surface(2, 2);
    assert_eq!(s.wait_for_free_buffer(0, false), WaitStep::Ready);
    s.commit();
    assert_eq!(s.wait_for_free_buffer(0, false), WaitStep::Ready);
    s.commit();
    // Both slots are held.
    assert_eq!(s.wait_for_free_buffer(0, false), WaitStep::Pump { warn: false, disabled: false });
    s.on_buffer_release(1);
    assert_eq!(s.wait_for_free_buffer(10, false), WaitStep::Ready);
    assert_eq!(s.buffers().current(), 1);
}

#[test]
fn wait_paces_on_frame_callbacks_once_they_work() {
    let mut s = surface(2, 2);
    s.commit();
    assert!(!s.frame_callback_ok());
    // Callbacks are not trusted yet: a free slot is enough.
    assert_eq!(s.wait_for_free_buffer(0, false), WaitStep::Ready);
    s.on_frame_done();
    assert!(s.frame_callback_ok());
    assert!(!s.frame_pending());
    assert_eq!(s.frame_tick(), 1);
    s.commit();
    // Now an outstanding callback holds the next paint back.
    s.on_buffer_release(0);
    assert_eq!(s.wait_for_free_buffer(0, false), WaitStep::Pump { warn: false, disabled: false });
    s.on_frame_done();
    assert_eq!(s.wait_for_free_buffer(17, false), WaitStep::Ready);
    assert_eq!(s.frame_tick(), 2);
}

#[test]
fn wait_deadlines() {
    assert_eq!((DISABLE_FRAME_CB_AFTER_MS, WARN_AFTER_MS, HARD_BAIL_AFTER_MS), (200, 250, 1500));
    let stuck = || {
        let mut s = surface(2, 2);
        s.commit();
        s.on_frame_done();
        s.commit();
        s.commit();
        assert!(s.frame_callback_ok() && s.frame_pending());
        s
    };
    let mut s = stuck();
    assert_eq!(s.wait_for_free_buffer(199, false), WaitStep::Pump { warn: false, disabled: false });
    assert!(s.frame_callback_ok() && s.frame_pending());
    // At 200 ms callback pacing is given up.
    assert_eq!(s.wait_for_free_buffer(200, false), WaitStep::Pump { warn: false, disabled: true });
    assert!(!s.frame_callback_ok() && !s.frame_pending());
    assert_eq!(s.wait_for_free_buffer(249, false), WaitStep::Pump { warn: false, disabled: false });
    // At 250 ms the wait warns, once.
    assert_eq!(s.wait_for_free_buffer(250, false), WaitStep::Pump { warn: true, disabled: false });
    assert_eq!(s.wait_for_free_buffer(251, true), WaitStep::Pump { warn: false, disabled: false });
    assert_eq!(s.wait_for_free_buffer(1499, true), WaitStep::Pump { warn: false, disabled: false });
    // At 1500 ms the wait ends whatever the compositor did.
    let mut s = stuck();
    assert_eq!(s.wait_for_free_buffer(1500, true), WaitStep::HardBail);
    assert!(!s.frame_callback_ok() && !s.frame_pending());
    assert!(s.buffers().current_is_busy());
    assert_eq!(s.wait_for_free_buffer(u64::MAX, false), WaitStep::HardBail);
}

#[test]
fn configure_sets_the_size() {
    let mut s = SurfaceState::new(Some("DP-1".to_string()));
    assert!(s.alive() && !s.configured() && !s.usable());
    assert_eq!(s.last_colour(), Rgb { r: 0, g: 0, b: 0 });
    s.on_configure(1920, 1080);
    assert!(s.configured() && s.usable());
    assert_eq!((s.width(), s.height(), s.pixel_count()), (1920, 1080, 1920 * 1080));
    // A size of nothing leaves the surface unconfigured.
    s.on_configure(0, 1080);
    assert!(!s.configured() && !s.usable());
    assert_eq!((s.width(), s.height()), (0, 1080));
    // So does a size that no slot can hold.
    s.on_configure(1920, 1080);
    s.on_configure(65536, 65536);
    assert!(!s.configured());
    assert_eq!((s.width(), s.height()), (0, 0));
    s.on_configure(23170, 23170);
    assert!(s.configured());
    s.on_configure(23171, 23171);
    assert!(!s.configured());
    assert!(s.check());
}

#[test]
fn a_new_size_drops_the_kept_frame_and_asks_for_new_buffers() {
    let mut s = surface(2, 2);
    s.show(Rgb { r: 1, g: 1, b: 1 }, true, vec![7; 4]);
    assert!(s.has_image());
    assert!(!s.needs_buffers());
    s.on_configure(2, 2);
    assert_eq!(s.last_frame(), Some(&vec![7u32; 4]));
    s.on_configure(3, 2);
    assert_eq!(s.last_frame(), None);
    assert!(!s.has_image());
    assert_eq!(s.last_colour(), Rgb { r: 1, g: 1, b: 1 });
    assert!(s.needs_buffers());
    assert_eq!(s.from_frame(), vec![0x0001_0101u32; 6]);
    s.commit();
    assert!(s.frame_pending());
    assert!(s.ensure_buffers());
    assert!(!s.frame_pending());
    assert_eq!((s.stride(), s.size_bytes()), (12, 24));
    assert_eq!(s.buffers().current_pixels().len(), 6);
    assert!(!s.ensure_buffers());
    s.drop_buffers();
    assert!(s.needs_buffers());
    assert!(s.check());
}

#[test]
fn closing_and_destroying() {
    let mut s = surface(2, 2);
    s.show(Rgb { r: 9, g: 9, b: 9 }, false, vec![1; 4]);
    s.commit();
    s.on_closed();
    assert!(s.alive() && !s.configured() && !s.frame_pending() && !s.frame_callback_ok());
    assert_eq!(s.last_frame(), Some(&vec![1u32; 4]));
    s.destroy();
    assert!(!s.alive() && !s.configured());
    assert_eq!((s.width(), s.height(), s.stride(), s.size_bytes()), (0, 0, 0, 0));
    assert_eq!(s.last_frame(), None);
    assert_eq!(s.last_colour(), Rgb { r: 9, g: 9, b: 9 });
    assert_eq!(s.output_name().map(|n| n.as_str()), Some("OUT"));
    s.resurrect();
    assert!(s.alive() && !s.configured());
    let mut t = surface(1, 1);
    t.show(Rgb { r: 9, g: 9, b: 9 }, true, vec![1]);
    t.forget();
    assert!(t.alive() && t.configured() && !t.has_image());
    assert_eq!(t.last_frame(), None);
    t.recolour(Rgb { r: 3, g: 3, b: 3 });
    assert_eq!(t.last_colour(), Rgb { r: 3, g: 3, b: 3 });
}

#[test]
fn shows_only_scans_the_kept_frame() {
    let mut s = surface(2, 1);
    assert!(s.shows_only(0));
    assert!(!s.shows_only(1));
    s.show(Rgb { r: 0, g: 0, b: 1 }, false, vec![1, 1]);
    assert!(s.shows_only(1));
    s.show(Rgb { r: 0, g: 0, b: 1 }, true, vec![1, 2]);
    assert!(!s.shows_only(1));
    assert_eq!(s.solid_frame(4), vec![4, 4]);
    assert!(s.selected_by(&None));
    assert!(s.selected_by(&Some("OUT".to_string())));
    assert!(!s.selected_by(&Some("OUT2".to_string())));
    assert!(!SurfaceState::new(None).selected_by(&Some("".to_string())));
}

#[test]
fn configure_wait_sleeps_a_little_longer_each_round() {
    let env = Probe { wayland_display: true, compositor: true, shm: true, layer_shell: true, outputs: 2 };
    let mut e = Engine::new(&env).expect("engine");
    assert_eq!(e.wait_for_configured(0), ConfigureWait::Proceed);
    e.ensure_surfaces().expect("surfaces");
    for (round, ms) in [(0u32, 20u64), (1, 25), (2, 30), (5, 45), (8, 60)] {
        assert_eq!(e.wait_for_configured(round), ConfigureWait::Sleep { ms });
    }
    assert_eq!(e.wait_for_configured(9), ConfigureWait::Failed);
    assert_eq!(e.wait_for_configured(u32::MAX), ConfigureWait::Failed);
    e.on_configure(1, 8, 8);
    assert_eq!(e.wait_for_configured(3), ConfigureWait::Sleep { ms: 35 });
    assert_eq!(e.wait_for_configured(9), ConfigureWait::Proceed);
    e.on_configure(0, 8, 8);
    assert_eq!(e.wait_for_configured(0), ConfigureWait::Proceed);
    e.on_closed(0);
    assert_eq!(e.wait_for_configured(0), ConfigureWait::Sleep { ms: 20 });
    assert!(!e.on_configure(5, 1, 1));
    assert!(!e.on_closed(5));
    e.on_buffer_release(5, 0);
    e.on_frame_done(5);
    assert!(e.check());
}

#[test]
fn selection_by_output() {
    let mut e = engine(&[(2, 2), (3, 1), (0, 0)]);
    assert_eq!(selected_surfaces(&e, &None), vec![0, 1]);
    assert_eq!(selected_surfaces(&e, &Some("OUT-1".to_string())), vec![1]);
    assert_eq!(selected_surfaces(&e, &Some("OUT-2".to_string())), Vec::<usize>::new());
    assert!(any_paints(&e, &None));
    assert!(!any_paints(&e, &Some("OUT-2".to_string())));
    assert!(e.paints(1, &None) && !e.paints(2, &None) && !e.paints(3, &None));
    assert!(e.knows_output(&"OUT-2".to_string()));
    assert!(!e.knows_output(&"OUT-3".to_string()));
    assert_eq!(
        wanted_frames(&e, &None),
        vec![FrameRef { si: 0, width: 2, height: 2 }, FrameRef { si: 1, width: 3, height: 1 }]
    );
    e.show_surface(1, Rgb { r: 0, g: 0, b: 2 }, true, vec![5, 6, 7]);
    e.recolour_surface(0, Rgb { r: 0, g: 0, b: 9 });
    assert_eq!(capture_from_frames(&e, &None), vec![Some(vec![9; 4]), Some(vec![5, 6, 7]), None]);
    assert_eq!(capture_from_frames(&e, &Some("OUT-0".to_string())), vec![Some(vec![9; 4]), None, None]);
}

#[test]
fn instant_colour_skips_surfaces_without_a_free_slot() {
    let mut e = engine(&[(2, 1), (1, 1), (0, 0)]);
    let red = Rgb { r: 255, g: 0, b: 0 };
    assert_eq!(apply_solid(&mut e, red), ApplyReport { matched: 2, applied: 2, skipped: 1 });
    assert_eq!(
        e.take_requests(),
        vec![
            Request::FrameCallback { si: 0 },
            Request::Commit { si: 0, slot: 0, width: 2, height: 1 },
            Request::FrameCallback { si: 1 },
            Request::Commit { si: 1, slot: 0, width: 1, height: 1 },
            Request::Flush,
        ]
    );
    assert_eq!(
        apply_solid_on(&mut e, red, &Some("OUT-1".to_string())),
        ApplyReport { matched: 1, applied: 1, skipped: 1 }
    );
    assert_eq!(
        e.take_requests(),
        vec![Request::Commit { si: 1, slot: 1, width: 1, height: 1 }, Request::Flush]
    );
    // Both slots of the second surface are held now.
    let blue = Rgb { r: 0, g: 0, b: 255 };
    assert_eq!(apply_solid(&mut e, blue), ApplyReport { matched: 2, applied: 1, skipped: 2 });
    assert_eq!(e.surface(0).last_colour(), blue);
    assert_eq!(e.surface(1).last_colour(), red);
    assert_eq!(e.surface(1).last_frame(), Some(&vec![0x00FF_0000u32]));
    assert_eq!(
        apply_solid_on(&mut e, blue, &Some("nowhere".to_string())),
        ApplyReport { matched: 0, applied: 0, skipped: 1 }
    );
    assert_eq!(e.take_requests().last(), Some(&Request::Flush));
    assert_eq!(e.take_requests(), vec![]);
}

#[test]
fn colour_transitions_begin() {
    let mut e = engine(&[(2, 1)]);
    let white = Rgb { r: 255, g: 255, b: 255 };
    let black = Rgb { r: 0, g: 0, b: 0 };
    let out = Some("OUT-0".to_string());
    assert!(matches!(
        transition_to_on(&mut e, white, Transition::Instant, 100, &None, WipeFrom::Left),
        ColourStart::Applied { report: ApplyReport { matched: 1, applied: 1, skipped: 0 } }
    ));
    e.take_requests();
    assert!(matches!(fade_to(&mut e, white, 100), ColourStart::Elided));
    assert!(matches!(fade_to_on(&mut e, white, 100, &out), ColourStart::Elided));
    assert!(matches!(wipe_to_on(&mut e, white, 100, &out), ColourStart::Elided));
    assert_eq!(e.take_requests(), vec![]);
    assert!(matches!(
        fade_to_on(&mut e, black, 100, &Some("nowhere".to_string())),
        ColourStart::NoSurfaces
    ));
    assert!(matches!(fade_to(&mut e, black, 100), ColourStart::Animate { .. }));
    assert!(matches!(wipe_to_on(&mut e, black, 100, &out), ColourStart::Animate { .. }));
    match wipe_to_on_from(&mut e, black, 0, &out, WipeFrom::Right) {
        ColourStart::Animate { mut animation } => {
            assert_eq!(animation.phase(), Phase::Tick);
            e.on_buffer_release(0, 0);
            // First pass at time 7: the clock of the transition starts.
            assert_eq!(animation.step(&mut e, 7), DriverAction::Continue);
            assert_eq!(animation.tt(), 0);
            assert_eq!(
                e.take_requests(),
                vec![Request::Commit { si: 0, slot: 1, width: 2, height: 1 }]
            );
            assert_eq!(e.surface(0).buffers().slot(1).pixels(), &vec![0x00FF_FFFFu32; 2]);
            assert_eq!(animation.step(&mut e, 7), DriverAction::Idle { ms: SOFT_IDLE_MS });
            assert_eq!(e.take_requests(), vec![Request::Flush, Request::DispatchPending]);
            assert_eq!(animation.frames(), 1);
            // One millisecond later the duration (taken as 1 ms) has passed:
            // the final pass.
            e.on_buffer_release(0, 1);
            assert_eq!(animation.step(&mut e, 8), DriverAction::Continue);
            assert_eq!(animation.phase(), Phase::Final);
            assert_eq!(e.surface(0).last_frame(), Some(&vec![0u32; 2]));
            assert_eq!(animation.step(&mut e, 8), DriverAction::Done { frames: 1 });
            assert_eq!(animation.phase(), Phase::Done);
            assert_eq!(animation.step(&mut e, 9), DriverAction::Done { frames: 1 });
        }
        _ => panic!("the transition is needed"),
    }
}

#[test]
fn image_frames_begin() {
    let e = engine(&[(2, 1), (1, 1)]);
    let bg = Rgb { r: 1, g: 2, b: 3 };
    let t = gesso::spec::TransitionSpec { kind: Transition::Instant, duration: 0, wipe_from: WipeFrom::Left };
    let src = Bitmap::new(1, 1, vec![9, 9, 9, 255]).expect("bitmap");
    let frames = render_targets(&e, &None, &src, gesso::spec::Mode::Tile, bg).expect("frames");
    assert_eq!(frames, vec![Some(vec![0x0009_0909u32; 2]), Some(vec![0x0009_0909u32])]);
    assert!(cache_valid(&e, &None, &frames));
    assert!(!cache_valid(&e, &None, &vec![Some(vec![0; 2]), None]));
    assert!(!cache_valid(&e, &None, &vec![Some(vec![0; 2])]));
    assert!(!cache_valid(&e, &None, &vec![Some(vec![0; 2]), Some(vec![0; 2])]));
    assert!(cache_valid(&e, &Some("OUT-0".to_string()), &vec![Some(vec![0; 2])]));
    assert!(!cache_valid(&e, &Some("nowhere".to_string()), &frames));
    assert_eq!(
        render_targets(&e, &Some("OUT-1".to_string()), &src, gesso::spec::Mode::Center, bg),
        Ok(vec![None, Some(vec![0x0009_0909u32])])
    );
    let a: Animation = begin_image(&e, frames, bg, t, &None).expect("animation");
    assert_eq!(a.phase(), Phase::Final);
    assert_eq!(a.target_frame(1), Some(&vec![0x0009_0909u32]));
    assert_eq!(a.target_frame(2), None);
    assert_eq!(
        begin_image(&e, vec![], bg, t, &Some("nowhere".to_string())).err(),
        Some(EngineError::NoSurfaceMatched)
    );
    let colour = gesso::spec::Spec::Colour { colour: bg, output: None, transition: t };
    assert_eq!(image_request(&colour).err(), Some(EngineError::NotAnImage));
    let image = gesso::spec::Spec::Image {
        path: "/a.png".to_string(),
        mode: gesso::spec::Mode::Fit,
        colour: bg,
        output: Some("DP-1".to_string()),
        transition: t,
    };
    let parts = image_request(&image).expect("parts");
    assert_eq!((parts.path.as_str(), parts.mode, parts.bg, parts.transition), ("/a.png", gesso::spec::Mode::Fit, bg, t));
    assert_eq!(parts.output, Some("DP-1".to_string()));
}
