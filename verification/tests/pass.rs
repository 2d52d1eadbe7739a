use termwindow_render::draw::FreeTypeLoadTarget;
use termwindow_render::modal::{ModalAction, ModalEvent};
use termwindow_render::paint::{AllowImage, PaintEvent, PassOutcome};
use termwindow_render::paint_pass::{
    background_top, PaletteSource, PaneInfo, PassAction, PassEvent, PassFacts, PassFault,
    PixelRect,
};
use termwindow_render::term_window::{RenderConfig, TermWindow};

fn window() -> TermWindow {
    let config = RenderConfig {
        max_fps: 60,
        compositor: false,
        freetype_load_target: FreeTypeLoadTarget::Other,
        freetype_render_target: None,
    };
    TermWindow::new(config, 0)
}

fn facts() -> PassFacts {
    PassFacts {
        focused: true,
        has_background: false,
        opaque: true,
        show_tab_bar: true,
        pixel_width: 800,
        pixel_height: 600,
    }
}

fn fill(palette: PaletteSource) -> PassAction {
    PassAction::FillBackground {
        palette,
        buffer: 0,
        rect: PixelRect { x: 0, y: 0, width: 800, height: 600 },
    }
}

fn pane(is_active: bool) -> PaneInfo {
    PaneInfo {
        is_active,
        viewport: None,
        physical_top: 40,
    }
}

/// Runs a pass in which every action but `fail` succeeds.
fn run(
    window: &mut TermWindow,
    panes: Vec<PaneInfo>,
    facts: PassFacts,
    loaded_any: bool,
    splits: Option<usize>,
    fail: Option<PassAction>,
) -> Vec<PassAction> {
    let mut actions = Vec::new();
    let mut action = window.paint_pass(PassEvent::Begin).unwrap();
    loop {
        actions.push(action);
        let event = match action {
            PassAction::Return(_) => return actions,
            PassAction::ClearQuads => PassEvent::QuadsCleared { panes: panes.clone(), facts },
            _ if Some(action) == fail => PassEvent::Failed,
            PassAction::RenderBackgrounds { .. } => PassEvent::BackgroundsRendered { loaded_any },
            PassAction::QuerySplits => PassEvent::Splits(splits),
            _ => PassEvent::Done,
        };
        action = window.paint_pass(event).unwrap();
    }
}

#[test]
fn full_pass() {
    let mut w = window();
    w.push_ui_item(1);
    w.push_ui_item(2);
    assert_eq!(*w.ui_items(), vec![1, 2]);
    let actions = run(&mut w, vec![pane(false), pane(true)], facts(), true, Some(2), None);
    assert_eq!(
        actions,
        vec![
            PassAction::ClearQuads,
            PassAction::MapLayer,
            fill(PaletteSource::Window),
            PassAction::PaintPane { pane: 0 },
            PassAction::UpdateTextCursor { pane: 1 },
            PassAction::AdviseFocus { pane: 1 },
            PassAction::PaintPane { pane: 1 },
            PassAction::QuerySplits,
            PassAction::PaintSplit { split: 0 },
            PassAction::PaintSplit { split: 1 },
            PassAction::PaintTabBar,
            PassAction::PaintWindowBorders,
            PassAction::UnmapLayer,
            PassAction::PaintModal,
            PassAction::Return(Ok(())),
        ]
    );
    assert_eq!(*w.ui_items(), Vec::<u64>::new());
}

#[test]
fn smallest_pass() {
    let mut w = window();
    let mut f = facts();
    f.focused = false;
    f.opaque = false;
    f.show_tab_bar = false;
    let actions = run(&mut w, vec![pane(true)], f, true, None, None);
    assert_eq!(
        actions,
        vec![
            PassAction::ClearQuads,
            PassAction::MapLayer,
            PassAction::UpdateTextCursor { pane: 0 },
            PassAction::PaintPane { pane: 0 },
            PassAction::QuerySplits,
            PassAction::PaintWindowBorders,
            PassAction::UnmapLayer,
            PassAction::PaintModal,
            PassAction::Return(Ok(())),
        ]
    );
}

#[test]
fn only_pane_gives_the_background_color() {
    let mut w = window();
    let actions = run(&mut w, vec![pane(true)], facts(), true, None, None);
    assert_eq!(actions[2], fill(PaletteSource::OnlyPane));
    let actions = run(&mut w, vec![], facts(), true, None, None);
    assert_eq!(actions[2], fill(PaletteSource::Window));
}

#[test]
fn background_is_filled_until_it_is_loaded() {
    let mut f = facts();
    f.has_background = true;
    let mut w = window();
    let actions = run(&mut w, vec![pane(true)], f, false, None, None);
    assert_eq!(actions[2], PassAction::RenderBackgrounds { top: 40 });
    assert_eq!(actions[3], fill(PaletteSource::OnlyPane));
    let actions = run(&mut w, vec![pane(true)], f, true, None, None);
    assert_eq!(actions[2], PassAction::RenderBackgrounds { top: 40 });
    assert_eq!(actions[3], PassAction::UpdateTextCursor { pane: 0 });
}

#[test]
fn background_is_left_out_without_images() {
    let mut f = facts();
    f.has_background = true;
    let mut w = window();
    w.paint_impl(PaintEvent::Begin { now: 0 }).unwrap();
    for expected in [
        AllowImage::Scale(2),
        AllowImage::Scale(4),
        AllowImage::Scale(8),
        AllowImage::No,
    ] {
        let outcome = PassOutcome::OutOfTextureSpace { size: Some(2), current_size: 1 };
        w.paint_impl(PaintEvent::PassEnded { outcome, has_animation: None }).unwrap();
        w.paint_impl(PaintEvent::AtlasRecreated { ok: false }).unwrap();
        w.paint_impl(PaintEvent::Done).unwrap();
        assert_eq!(w.paint_state().allow_images, expected);
        let actions = run(&mut w, vec![pane(true)], f, true, None, None);
        if expected == AllowImage::No {
            assert_eq!(actions[2], PassAction::UpdateTextCursor { pane: 0 });
        } else {
            assert_eq!(actions[2], PassAction::RenderBackgrounds { top: 40 });
        }
    }
}

#[test]
fn top_row_is_that_of_the_first_active_pane() {
    assert_eq!(background_top(&vec![]), 0);
    assert_eq!(background_top(&vec![pane(false)]), 0);
    let scrolled = PaneInfo { is_active: true, viewport: Some(-7), physical_top: 3 };
    assert_eq!(background_top(&vec![pane(false), scrolled, pane(true)]), -7);
    assert_eq!(background_top(&vec![pane(true), scrolled]), 40);
}

#[test]
fn each_failure_ends_the_pass_with_its_context() {
    let mut f = facts();
    f.has_background = true;
    for (action, fault, context) in [
        (PassAction::MapLayer, PassFault::MapLayer, "layer_for_zindex(0)"),
        (
            PassAction::RenderBackgrounds { top: 40 },
            PassFault::RenderBackgrounds,
            "render_backgrounds",
        ),
        (
            fill(PaletteSource::OnlyPane),
            PassFault::FillBackground,
            "filled_rectangle for window background",
        ),
        (PassAction::PaintPane { pane: 0 }, PassFault::PaintPane, "paint_pane"),
        (PassAction::PaintSplit { split: 1 }, PassFault::PaintSplit, "paint_split"),
        (PassAction::PaintTabBar, PassFault::PaintTabBar, "paint_tab_bar"),
        (
            PassAction::PaintWindowBorders,
            PassFault::PaintWindowBorders,
            "paint_window_borders",
        ),
        (PassAction::PaintModal, PassFault::PaintModal, "paint_modal"),
    ] {
        let mut w = window();
        let actions = run(&mut w, vec![pane(true)], f, false, Some(2), Some(action));
        let mut expected = vec![action];
        // A layer that is mapped does not stay mapped.
        if fault != PassFault::MapLayer && fault != PassFault::PaintModal {
            expected.push(PassAction::UnmapLayer);
        }
        expected.push(PassAction::Return(Err(fault)));
        assert_eq!(actions[actions.len() - expected.len()..], expected[..]);
        assert_eq!(fault.context(), context);
        let count = |wanted| actions.iter().filter(|a| **a == wanted).count();
        let mapped = if fault == PassFault::MapLayer { 0 } else { 1 };
        assert_eq!(count(PassAction::UnmapLayer), mapped);
        // The next pass can be made.
        assert_eq!(w.paint_pass(PassEvent::Begin), Some(PassAction::ClearQuads));
    }
}

#[test]
fn abandoned_layer_is_unmapped_before_the_pass_ends() {
    let mut w = window();
    let panes = vec![pane(true)];
    w.paint_pass(PassEvent::Begin);
    w.paint_pass(PassEvent::QuadsCleared { panes, facts: facts() });
    assert_eq!(w.paint_pass(PassEvent::Done), Some(fill(PaletteSource::OnlyPane)));
    assert_eq!(w.paint_pass(PassEvent::Failed), Some(PassAction::UnmapLayer));
    assert_eq!(w.paint_pass(PassEvent::Failed), None);
    assert_eq!(
        w.paint_pass(PassEvent::Done),
        Some(PassAction::Return(Err(PassFault::FillBackground)))
    );
}

#[test]
fn background_covers_the_window() {
    let mut f = facts();
    f.pixel_width = 1;
    f.pixel_height = 3840;
    let actions = run(&mut window(), vec![pane(true)], f, true, None, None);
    assert_eq!(
        actions[2],
        PassAction::FillBackground {
            palette: PaletteSource::OnlyPane,
            buffer: 0,
            rect: PixelRect { x: 0, y: 0, width: 1, height: 3840 },
        }
    );
}

#[test]
fn what_cannot_fail_does_not_wait_for_a_failure() {
    let mut w = window();
    assert_eq!(w.paint_pass(PassEvent::Failed), None);
    w.paint_pass(PassEvent::Begin);
    assert_eq!(w.paint_pass(PassEvent::Failed), None);
    let cleared = PassEvent::QuadsCleared { panes: vec![pane(true)], facts: facts() };
    assert_eq!(w.paint_pass(cleared), Some(PassAction::MapLayer));
}

#[test]
fn modal_adds_the_items_of_its_elements() {
    let mut w = window();
    w.push_ui_item(9);
    assert_eq!(w.paint_modal(ModalEvent::Begin), Some(ModalAction::ComputeElements));
    let elements = vec![vec![1, 2], vec![], vec![3]];
    assert_eq!(
        w.paint_modal(ModalEvent::Computed(Some(elements))),
        Some(ModalAction::RenderElement { element: 0 })
    );
    assert_eq!(
        w.paint_modal(ModalEvent::Done),
        Some(ModalAction::RenderElement { element: 1 })
    );
    assert_eq!(*w.ui_items(), vec![9, 1, 2]);
    w.paint_modal(ModalEvent::Done);
    assert_eq!(w.paint_modal(ModalEvent::Done), Some(ModalAction::Return { ok: true }));
    assert_eq!(*w.ui_items(), vec![9, 1, 2, 3]);
}

#[test]
fn failed_modal_element_adds_nothing() {
    let mut w = window();
    w.paint_modal(ModalEvent::Begin);
    w.paint_modal(ModalEvent::Computed(Some(vec![vec![1], vec![2]])));
    w.paint_modal(ModalEvent::Done);
    assert_eq!(w.paint_modal(ModalEvent::Failed), Some(ModalAction::Return { ok: false }));
    assert_eq!(*w.ui_items(), vec![1]);

    w.paint_modal(ModalEvent::Begin);
    assert_eq!(w.paint_modal(ModalEvent::Failed), Some(ModalAction::Return { ok: false }));
}

#[test]
fn window_without_modal_is_done_at_once() {
    let mut w = window();
    w.paint_modal(ModalEvent::Begin);
    assert_eq!(
        w.paint_modal(ModalEvent::Computed(None)),
        Some(ModalAction::Return { ok: true })
    );
    w.paint_modal(ModalEvent::Begin);
    assert_eq!(
        w.paint_modal(ModalEvent::Computed(Some(vec![]))),
        Some(ModalAction::Return { ok: true })
    );
    assert_eq!(w.paint_modal(ModalEvent::Done), None);
}
