use termwindow_render::draw::{
    shader_millis, use_subpixel, Blending, DrawAction, DrawEvent, FreeTypeLoadTarget,
    Layer, LoadOp, PresentMode, RenderFrame, VertexIndexCount,
};
use termwindow_render::term_window::{RenderConfig, TermWindow};

fn config(max_fps: u64) -> RenderConfig {
    RenderConfig {
        max_fps,
        compositor: true,
        freetype_load_target: FreeTypeLoadTarget::Other,
        freetype_render_target: None,
    }
}

fn count(vertices: usize, indices: usize) -> VertexIndexCount {
    VertexIndexCount { vertices, indices }
}

fn layer(a: usize, b: usize, c: usize) -> Layer {
    Layer {
        buffers: [count(a, 2 * a), count(b, 2 * b), count(c, 2 * c)],
    }
}

fn step(window: &mut TermWindow, event: DrawEvent) -> DrawAction {
    window.call_draw(event).unwrap()
}

/// Opens a frame and returns the actions up to the one that asks for layers.
fn open(window: &mut TermWindow, frame: RenderFrame) -> Vec<DrawAction> {
    let mut actions = vec![step(window, DrawEvent::Begin { frame })];
    if frame == RenderFrame::WebGpu {
        actions.push(step(window, DrawEvent::Acquired { duration: 50_000 }));
    }
    actions.push(step(window, DrawEvent::Done));
    actions
}

/// Draws up to the end of the plan and returns the actions.
fn draw_all(window: &mut TermWindow, frame: RenderFrame, layers: Vec<Layer>) -> Vec<DrawAction> {
    let mut actions = open(window, frame);
    let mut event = DrawEvent::Layers { layers, age: 7_000_000_000 };
    loop {
        let action = step(window, event);
        actions.push(action);
        if let DrawAction::Submit | DrawAction::ReadClock = action {
            return actions;
        }
        event = DrawEvent::Done;
    }
}

/// Presents a frame that was submitted, and records how long that took.
fn present(window: &mut TermWindow, at: u64, duration: u128, mode: PresentMode) -> DrawAction {
    assert_eq!(step(window, DrawEvent::Done), DrawAction::Present);
    assert_eq!(
        step(window, DrawEvent::Presented { at, duration, mode }),
        DrawAction::RecordPresent { duration }
    );
    step(window, DrawEvent::Done)
}

#[test]
fn webgpu_frame_clears_once_and_advances_every_buffer() {
    let mut window = TermWindow::new(config(0), 0);
    let actions = draw_all(&mut window, RenderFrame::WebGpu, vec![layer(0, 4, 0), layer(8, 0, 0)]);
    let next = |layer, buffer| DrawAction::NextIndex { layer, buffer };
    assert_eq!(
        actions,
        vec![
            DrawAction::AcquireTexture,
            DrawAction::RecordAcquire { duration: 50_000 },
            DrawAction::ReadLayers,
            next(0, 0),
            DrawAction::RenderPass {
                layer: 0,
                buffer: 1,
                load: LoadOp::Clear,
                indices: 8,
                milliseconds: 7000
            },
            next(0, 1),
            next(0, 2),
            DrawAction::RenderPass {
                layer: 1,
                buffer: 0,
                load: LoadOp::Load,
                indices: 16,
                milliseconds: 7000
            },
            next(1, 0),
            next(1, 1),
            next(1, 2),
            DrawAction::Submit,
        ]
    );
}

#[test]
fn frame_without_layers_is_presented() {
    let mut window = TermWindow::new(config(0), 0);
    let actions = draw_all(&mut window, RenderFrame::WebGpu, vec![]);
    assert_eq!(
        actions,
        vec![
            DrawAction::AcquireTexture,
            DrawAction::RecordAcquire { duration: 50_000 },
            DrawAction::ReadLayers,
            DrawAction::Submit,
        ]
    );
    let mut window = TermWindow::new(config(0), 0);
    let actions = draw_all(&mut window, RenderFrame::Glium, vec![]);
    assert_eq!(
        actions,
        vec![DrawAction::ClearFrame, DrawAction::ReadLayers, DrawAction::ReadClock]
    );
}

#[test]
fn glium_frame_blends_text_by_channel_for_subpixels() {
    let mut settings = config(0);
    settings.freetype_render_target = Some(FreeTypeLoadTarget::HorizontalLcd);
    let mut window = TermWindow::new(settings, 0);
    let actions = draw_all(&mut window, RenderFrame::Glium, vec![layer(4, 4, 0)]);
    assert_eq!(
        actions[2],
        DrawAction::DrawElements {
            layer: 0,
            buffer: 0,
            count: count(4, 8),
            subpixel_aa: false,
            blending: Blending::Alpha,
            milliseconds: 7000
        }
    );
    assert_eq!(
        actions[4],
        DrawAction::DrawElements {
            layer: 0,
            buffer: 1,
            count: count(4, 8),
            subpixel_aa: true,
            blending: Blending::DualSource,
            milliseconds: 7000
        }
    );
    assert_eq!(actions.len(), 8);
}

#[test]
fn render_target_overrides_load_target() {
    let mut settings = config(0);
    assert!(!use_subpixel(&settings));
    settings.freetype_load_target = FreeTypeLoadTarget::VerticalLcd;
    assert!(use_subpixel(&settings));
    settings.freetype_render_target = Some(FreeTypeLoadTarget::Other);
    assert!(!use_subpixel(&settings));
}

#[test]
fn shader_millis_wrap() {
    assert_eq!(shader_millis(999_999), 0);
    assert_eq!(shader_millis(1_000_000), 1);
    assert_eq!(shader_millis(4_294_967_295_999_999), u32::MAX);
    assert_eq!(shader_millis(4_294_967_296_000_000), 0);
}

#[test]
fn fifo_waits_for_the_compositor_unless_the_driver_did() {
    let mode = PresentMode::Fifo;
    let mut window = TermWindow::new(config(0), 0);
    draw_all(&mut window, RenderFrame::WebGpu, vec![]);
    assert_eq!(present(&mut window, 100, 4_000_000, mode), DrawAction::FlushCompositor);
    let flushed = DrawEvent::Flushed { hresult: 0, duration: 9 };
    assert_eq!(step(&mut window, flushed), DrawAction::RecordFlush { duration: 9 });
    assert_eq!(step(&mut window, DrawEvent::Done), DrawAction::Return { ok: true });
    assert_eq!(window.last_frame_instant(), 100);

    draw_all(&mut window, RenderFrame::WebGpu, vec![]);
    assert_eq!(present(&mut window, 200, 4_000_001, mode), DrawAction::Return { ok: true });
    assert_eq!(window.last_frame_instant(), 200);
}

#[test]
fn failed_flush_is_not_recorded() {
    let mut window = TermWindow::new(config(0), 0);
    draw_all(&mut window, RenderFrame::WebGpu, vec![]);
    present(&mut window, 1, 0, PresentMode::Fifo);
    let flushed = DrawEvent::Flushed { hresult: -1, duration: 9 };
    assert_eq!(step(&mut window, flushed), DrawAction::Return { ok: true });
}

#[test]
fn other_modes_do_not_wait_for_the_compositor() {
    for mode in [
        PresentMode::AutoVsync,
        PresentMode::AutoNoVsync,
        PresentMode::FifoRelaxed,
        PresentMode::Immediate,
        PresentMode::Mailbox,
    ] {
        let mut window = TermWindow::new(config(0), 0);
        draw_all(&mut window, RenderFrame::WebGpu, vec![]);
        assert_eq!(present(&mut window, 1, 0, mode), DrawAction::Return { ok: true });
    }
    let mut settings = config(0);
    settings.compositor = false;
    let mut window = TermWindow::new(settings, 0);
    draw_all(&mut window, RenderFrame::WebGpu, vec![]);
    assert_eq!(present(&mut window, 1, 0, PresentMode::Fifo), DrawAction::Return { ok: true });
}

#[test]
fn changed_settings_count_from_then_on() {
    let mut settings = config(0);
    settings.compositor = false;
    let mut window = TermWindow::new(settings, 0);
    window.configure(config(0));
    draw_all(&mut window, RenderFrame::WebGpu, vec![]);
    assert_eq!(present(&mut window, 1, 0, PresentMode::Fifo), DrawAction::FlushCompositor);
}

#[test]
fn frame_boundary_leaves_out_the_sleep() {
    let mut window = TermWindow::new(config(60), 0);
    draw_all(&mut window, RenderFrame::WebGpu, vec![]);
    let action = present(&mut window, 3_000_000, 0, PresentMode::Mailbox);
    assert_eq!(action, DrawAction::ReadClock);
    assert_eq!(
        step(&mut window, DrawEvent::Clock(4_666_667)),
        DrawAction::PreciseSleep { duration: 10_000_000 }
    );
    let slept = DrawEvent::Slept { duration: 10_500_000 };
    assert_eq!(step(&mut window, slept), DrawAction::RecordSleep { duration: 10_500_000 });
    assert_eq!(window.last_frame_instant(), 0);
    assert_eq!(step(&mut window, DrawEvent::Done), DrawAction::Return { ok: true });
    assert_eq!(window.last_frame_instant(), 3_000_000);
}

#[test]
fn nothing_waits_before_the_frame_is_presented() {
    let waits = |action: &DrawAction| {
        matches!(
            action,
            DrawAction::FlushCompositor | DrawAction::ReadClock | DrawAction::PreciseSleep { .. }
        )
    };
    let layers = vec![layer(1, 1, 1), layer(0, 2, 0)];
    let mut window = TermWindow::new(config(60), 0);
    let mut actions = draw_all(&mut window, RenderFrame::WebGpu, layers.clone());
    actions.push(step(&mut window, DrawEvent::Done));
    assert_eq!(actions[actions.len() - 1], DrawAction::Present);
    assert!(!actions.iter().any(waits));

    let mut window = TermWindow::new(config(60), 0);
    let actions = draw_all(&mut window, RenderFrame::Glium, layers);
    let drawn = actions.len() - 1;
    assert!(!actions[..drawn].iter().any(waits));
    assert_eq!(actions[drawn], DrawAction::ReadClock);
}

#[test]
fn glium_frame_is_stamped_and_paced() {
    let mut window = TermWindow::new(config(60), 1_000_000);
    draw_all(&mut window, RenderFrame::Glium, vec![]);
    assert_eq!(step(&mut window, DrawEvent::Clock(2_000_000)), DrawAction::ReadClock);
    // Late: the frame is not followed by a sleep.
    assert_eq!(
        step(&mut window, DrawEvent::Clock(17_666_667)),
        DrawAction::Return { ok: true }
    );
    assert_eq!(window.last_frame_instant(), 2_000_000);
}

#[test]
fn sleep_of_no_length_is_not_recorded() {
    let mut window = TermWindow::new(config(60), 0);
    draw_all(&mut window, RenderFrame::Glium, vec![]);
    step(&mut window, DrawEvent::Clock(1));
    step(&mut window, DrawEvent::Clock(2));
    let slept = DrawEvent::Slept { duration: 0 };
    assert_eq!(step(&mut window, slept), DrawAction::Return { ok: true });
}

#[test]
fn failed_frames_leave_the_boundary_alone() {
    let mut window = TermWindow::new(config(60), 5);
    step(&mut window, DrawEvent::Begin { frame: RenderFrame::WebGpu });
    assert_eq!(step(&mut window, DrawEvent::Failed), DrawAction::Return { ok: false });
    assert_eq!(window.last_frame_instant(), 5);

    open(&mut window, RenderFrame::Glium);
    let layers = vec![layer(1, 1, 1)];
    step(&mut window, DrawEvent::Layers { layers, age: 0 });
    step(&mut window, DrawEvent::Done);
    // Moving on cannot fail.
    assert_eq!(window.call_draw(DrawEvent::Failed), None);
    step(&mut window, DrawEvent::Done);
    assert_eq!(step(&mut window, DrawEvent::Failed), DrawAction::Return { ok: false });
    assert_eq!(window.last_frame_instant(), 5);
    // The next frame can be drawn.
    let begin = DrawEvent::Begin { frame: RenderFrame::Glium };
    assert_eq!(step(&mut window, begin), DrawAction::ClearFrame);
}

#[test]
fn unexpected_draw_event_changes_nothing() {
    let mut window = TermWindow::new(config(60), 5);
    assert_eq!(window.call_draw(DrawEvent::Done), None);
    step(&mut window, DrawEvent::Begin { frame: RenderFrame::Glium });
    assert_eq!(window.call_draw(DrawEvent::Failed), None);
    // Clearing is still under way.
    assert_eq!(step(&mut window, DrawEvent::Done), DrawAction::ReadLayers);
}
