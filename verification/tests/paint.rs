use termwindow_render::draw::FreeTypeLoadTarget;
use termwindow_render::paint::{
    AllowImage, AnimationAction, FpsSample, PaintAction, PaintEvent, PaintPhase, PassOutcome,
    QuadCheck,
};
use termwindow_render::term_window::{RenderConfig, TermWindow};

fn window() -> TermWindow {
    let config = RenderConfig {
        max_fps: 60,
        compositor: false,
        freetype_load_target: FreeTypeLoadTarget::Other,
        freetype_render_target: None,
    };
    TermWindow::new(config, 0)
}

fn step(window: &mut TermWindow, event: PaintEvent) -> PaintAction {
    window.paint_impl(event).unwrap()
}

fn pass(window: &mut TermWindow, outcome: PassOutcome) -> PaintAction {
    step(window, PaintEvent::PassEnded { outcome, has_animation: None })
}

fn out_of_space(window: &mut TermWindow) -> PaintAction {
    let outcome = PassOutcome::OutOfTextureSpace { size: Some(256), current_size: 128 };
    pass(window, outcome)
}

fn paint(window: &mut TermWindow, now: u64, animation: Option<u64>, focused: bool) -> PaintAction {
    step(window, PaintEvent::Begin { now });
    let outcome = PassOutcome::Painted;
    step(window, PaintEvent::PassEnded { outcome, has_animation: animation });
    step(window, PaintEvent::QuadsChecked(QuadCheck::Sufficient));
    let drawn = PaintEvent::Drawn { now: now + 10 };
    assert_eq!(step(window, drawn), PaintAction::RecordPaint { duration: 10 });
    step(window, PaintEvent::Recorded { focused })
}

#[test]
fn plain_paint() {
    let mut w = window();
    assert_eq!(step(&mut w, PaintEvent::Begin { now: 5 }), PaintAction::RunPass);
    assert_eq!(pass(&mut w, PassOutcome::Painted), PaintAction::CheckQuads);
    let checked = PaintEvent::QuadsChecked(QuadCheck::Sufficient);
    assert_eq!(step(&mut w, checked), PaintAction::CallDraw);
    let drawn = PaintEvent::Drawn { now: 25 };
    assert_eq!(step(&mut w, drawn), PaintAction::RecordPaint { duration: 20 });
    let recorded = PaintEvent::Recorded { focused: true };
    assert_eq!(step(&mut w, recorded), PaintAction::Return);
    assert_eq!(w.paint_state().last_frame_duration, 20);
    assert_eq!(w.paint_state().phase, PaintPhase::Idle);
    assert_eq!(w.paint_state().num_frames, 1);
}

#[test]
fn more_quads_lead_to_another_pass() {
    let mut w = window();
    step(&mut w, PaintEvent::Begin { now: 5 });
    pass(&mut w, PassOutcome::Painted);
    let checked = PaintEvent::QuadsChecked(QuadCheck::AllocatedMore);
    assert_eq!(step(&mut w, checked), PaintAction::Invalidate);
    assert_eq!(step(&mut w, PaintEvent::Done), PaintAction::RunPass);
    pass(&mut w, PassOutcome::Painted);
    let checked = PaintEvent::QuadsChecked(QuadCheck::Failed);
    assert_eq!(step(&mut w, checked), PaintAction::CallDraw);
}

#[test]
fn atlas_is_cleared_first_and_grown_later() {
    let mut w = window();
    step(&mut w, PaintEvent::Begin { now: 5 });
    assert_eq!(out_of_space(&mut w), PaintAction::RecreateAtlas { size: 128 });
    assert_eq!(step(&mut w, PaintEvent::AtlasRecreated { ok: true }), PaintAction::Invalidate);
    assert_eq!(step(&mut w, PaintEvent::Done), PaintAction::RunPass);
    assert_eq!(out_of_space(&mut w), PaintAction::RecreateAtlas { size: 256 });
    assert_eq!(w.paint_state().allow_images, AllowImage::Yes);
}

#[test]
fn images_give_way_step_by_step() {
    let mut w = window();
    step(&mut w, PaintEvent::Begin { now: 5 });
    for images in [
        AllowImage::Scale(2),
        AllowImage::Scale(4),
        AllowImage::Scale(8),
        AllowImage::No,
    ] {
        out_of_space(&mut w);
        step(&mut w, PaintEvent::AtlasRecreated { ok: false });
        assert_eq!(w.paint_state().allow_images, images);
        assert_eq!(step(&mut w, PaintEvent::Done), PaintAction::RunPass);
    }
    out_of_space(&mut w);
    assert_eq!(step(&mut w, PaintEvent::AtlasRecreated { ok: false }), PaintAction::Invalidate);
    assert_eq!(step(&mut w, PaintEvent::Done), PaintAction::CallDraw);
    assert_eq!(w.paint_state().allow_images, AllowImage::No);
    step(&mut w, PaintEvent::Drawn { now: 6 });
    step(&mut w, PaintEvent::Recorded { focused: false });

    // The next paint starts over.
    step(&mut w, PaintEvent::Begin { now: 7 });
    assert_eq!(w.paint_state().allow_images, AllowImage::Yes);
}

#[test]
fn lower_images() {
    assert_eq!(AllowImage::Yes.lower(), Some(AllowImage::Scale(2)));
    assert_eq!(AllowImage::Scale(8).lower(), Some(AllowImage::No));
    assert_eq!(AllowImage::Scale(3).lower(), None);
    assert_eq!(AllowImage::No.lower(), None);
}

#[test]
fn shape_caches_are_cleared() {
    let mut w = window();
    step(&mut w, PaintEvent::Begin { now: 5 });
    for generation in 1..4 {
        assert_eq!(pass(&mut w, PassOutcome::ClearShapeCache), PaintAction::Invalidate);
        assert_eq!(step(&mut w, PaintEvent::Done), PaintAction::ClearShapeCaches);
        assert_eq!(w.paint_state().shape_generation, generation);
        assert_eq!(step(&mut w, PaintEvent::Done), PaintAction::RunPass);
    }
}

#[test]
fn other_failures_still_draw() {
    for outcome in [
        PassOutcome::Failed,
        PassOutcome::OutOfTextureSpace { size: None, current_size: 128 },
    ] {
        let mut w = window();
        step(&mut w, PaintEvent::Begin { now: 5 });
        assert_eq!(pass(&mut w, outcome), PaintAction::CallDraw);
    }
}

#[test]
fn frame_rate_is_measured_every_second() {
    let mut w = window();
    for i in 0..4u64 {
        paint(&mut w, i * 250_000_000, None, false);
    }
    paint(&mut w, 1_000_000_000, None, false);
    assert_eq!(w.paint_state().fps, None);
    assert_eq!(w.paint_state().num_frames, 5);
    paint(&mut w, 1_250_000_000, None, false);
    assert_eq!(w.paint_state().fps, Some(FpsSample { frames: 6, duration: 1_250_000_000 }));
    assert_eq!(w.paint_state().num_frames, 0);
    assert_eq!(w.paint_state().last_fps_check_time, 1_250_000_000);
    paint(&mut w, 1_300_000_000, None, false);
    assert_eq!(w.paint_state().num_frames, 1);
}

#[test]
fn animation_is_scheduled() {
    let mut w = window();
    let action = paint(&mut w, 0, Some(100), true);
    assert_eq!(action, PaintAction::ScheduleAnimation { due: 100 });
    assert_eq!(step(&mut w, PaintEvent::Done), PaintAction::Return);
    assert_eq!(w.paint_state().scheduled_animation, Some(100));

    // An earlier animation needs another timer.
    let action = paint(&mut w, 20, Some(90), true);
    assert_eq!(action, PaintAction::ScheduleAnimation { due: 90 });
    step(&mut w, PaintEvent::Done);

    // A later one, or one that is due at the same time, does not.
    assert_eq!(paint(&mut w, 40, Some(90), true), PaintAction::Return);
    assert_eq!(w.paint_state().scheduled_animation, None);
    paint(&mut w, 60, Some(95), true);
    step(&mut w, PaintEvent::Done);
    assert_eq!(w.paint_state().scheduled_animation, Some(95));
    assert_eq!(w.animation_fired(), AnimationAction::InvalidateWindow);
    assert_eq!(w.paint_state().scheduled_animation, None);
}

#[test]
fn nothing_is_scheduled_without_focus_or_animation() {
    let mut w = window();
    assert_eq!(paint(&mut w, 0, Some(100), false), PaintAction::Return);
    assert_eq!(w.paint_state().scheduled_animation, None);
    assert_eq!(paint(&mut w, 20, None, true), PaintAction::Return);
    // What is on record stays there.
    paint(&mut w, 40, Some(100), true);
    step(&mut w, PaintEvent::Done);
    assert_eq!(paint(&mut w, 60, None, true), PaintAction::Return);
    assert_eq!(w.paint_state().scheduled_animation, Some(100));
    assert_eq!(w.paint_state().has_animation, None);
}

#[test]
fn unexpected_paint_event_changes_nothing() {
    let mut w = window();
    let before = w.paint_state();
    assert_eq!(w.paint_impl(PaintEvent::Done), None);
    assert_eq!(w.paint_state(), before);
}

#[test]
fn counters_need_room_only_where_they_count() {
    let mut state = window().paint_state();
    let begin = PaintEvent::Begin { now: 0 };
    assert!(state.has_room(begin));
    state.num_frames = usize::MAX;
    assert!(!state.has_room(begin));
    assert!(state.has_room(PaintEvent::Done));

    let mut w = window();
    step(&mut w, begin);
    pass(&mut w, PassOutcome::ClearShapeCache);
    let mut state = w.paint_state();
    state.num_frames = usize::MAX;
    assert!(state.has_room(PaintEvent::Done));
    state.shape_generation = usize::MAX;
    assert!(!state.has_room(PaintEvent::Done));
    assert!(state.has_room(begin));
}
