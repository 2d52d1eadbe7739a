//! The state of a terminal window that rendering depends on.

use crate::draw::{DrawAction, DrawEvent, DrawState, FreeTypeLoadTarget};
use crate::modal::{ModalAction, ModalEvent, ModalState};
use crate::paint::{AnimationAction, PaintAction, PaintEvent, PaintState};
use crate::paint_pass::{PassAction, PassEvent, PassState};
use vstd::prelude::*;

verus! {

/// The settings that rendering depends on.
#[derive(Debug, Clone, Copy, PartialEq, Eq, Structural)]
pub struct RenderConfig {
    /// Frames per second to keep to; zero for no limit.
    pub max_fps: u64,
    /// Whether a desktop compositor paces presentation, so that it has to be
    /// waited for explicitly.
    pub compositor: bool,
    pub freetype_load_target: FreeTypeLoadTarget,
    /// Overrides `freetype_load_target` for rendering.
    pub freetype_render_target: Option<FreeTypeLoadTarget>,
}

/// A terminal window, as far as rendering decides about it.
#[derive(Debug)]
pub struct TermWindow {
    config: RenderConfig,
    draw: DrawState,
    paint: PaintState,
    pass: PassState,
    modal: ModalState,
    /// The interface items of the window, such as tabs and scrollbars: handles
    /// in the order they were painted.
    ui_items: Vec<u64>,
}

/// A `TermWindow`, as contracts see it.
#[verifier::ext_equal]
pub struct WindowView {
    pub config: RenderConfig,
    pub draw: crate::draw::DrawView,
    pub paint: PaintState,
    pub pass: crate::paint_pass::PassView,
    pub modal: crate::modal::ModalView,
}

impl WindowView {
    /// The same with other interface items.
    pub open spec fn with_items(self, ui_items: Seq<u64>) -> WindowView {
        WindowView { modal: crate::modal::ModalView { ui_items, ..self.modal }, ..self }
    }
}

/// What a step of a pass does to the window as a whole, or `None` where the
/// pass does not wait for the event.
pub open spec fn pass_in_window(window: WindowView, event: PassEvent) -> Option<
    (WindowView, PassAction),
> {
    match crate::paint_pass::pass_next(window.paint.allow_images, window.pass, event) {
        None => None,
        Some((pass, action)) => {
            let next = WindowView { pass, ..window };
            Some(
                (
                    if action == PassAction::ClearQuads {
                        next.with_items(Seq::empty())
                    } else {
                        next
                    },
                    action,
                ),
            )
        },
    }
}

impl View for TermWindow {
    type V = WindowView;

    closed spec fn view(&self) -> WindowView {
        WindowView {
            config: self.config,
            draw: self.draw@,
            paint: self.paint,
            pass: self.pass@,
            modal: self.modal.view_with(self.ui_items@),
        }
    }
}

impl TermWindow {
    /// A window that was opened at `now` and has shown nothing yet.
    pub fn new(config: RenderConfig, now: u64) -> (window: Self)
        ensures
            window@ == (WindowView {
                config,
                draw: crate::draw::DrawView::initial(now),
                paint: PaintState::initial(now),
                pass: crate::paint_pass::PassView::initial(),
                modal: crate::modal::ModalView::initial(),
            }),
    {
        TermWindow {
            config,
            draw: DrawState::new(now),
            paint: PaintState::new(now),
            pass: PassState::new(),
            modal: ModalState::new(),
            ui_items: Vec::new(),
        }
    }

    /// Takes over changed settings.
    pub fn configure(&mut self, config: RenderConfig)
        ensures
            final(self)@ == (WindowView { config, ..old(self)@ }),
    {
        self.config = config;
    }

    /// The paint that is under way, and what is kept from one to the next.
    pub fn paint_state(&self) -> (state: PaintState)
        ensures
            state == self@.paint,
    {
        self.paint
    }

    /// When the last frame was presented.
    pub fn last_frame_instant(&self) -> (at: u64)
        ensures
            at == self@.draw.last_frame_instant,
    {
        self.draw.last_frame_instant()
    }

    /// The interface items of the window, in the order they were painted.
    pub fn ui_items(&self) -> (items: &Vec<u64>)
        ensures
            items@ == self@.modal.ui_items,
    {
        &self.ui_items
    }

    /// Adds an interface item that was painted.
    pub fn push_ui_item(&mut self, item: u64)
        ensures
            final(self)@ == old(self)@.with_items(old(self)@.modal.ui_items.push(item)),
    {
        self.ui_items.push(item);
    }

    /// Takes the next step of drawing a frame.  `None`, with nothing changed,
    /// means that the event is not one that the frame waits for.
    pub fn call_draw(&mut self, event: DrawEvent) -> (action: Option<DrawAction>)
        ensures
            match crate::draw::draw_next(old(self)@.config, old(self)@.draw, event) {
                Some((draw, act)) => final(self)@ == (WindowView { draw, ..old(self)@ }) && action
                    == Some(act),
                None => final(self)@ == old(self)@ && action is None,
            },
    {
        self.draw.step(&self.config, event)
    }

    /// Takes the next step of painting the window.  `None`, with nothing
    /// changed, means that the event is not one that the paint waits for.
    pub fn paint_impl(&mut self, event: PaintEvent) -> (action: Option<PaintAction>)
        requires
            old(self)@.paint.can_count(event),
        ensures
            match crate::paint::paint_next(old(self)@.paint, event) {
                Some((paint, act)) => final(self)@ == (WindowView { paint, ..old(self)@ })
                    && action == Some(act),
                None => final(self)@ == old(self)@ && action is None,
            },
    {
        self.paint.step(event)
    }

    /// The animation timer went off: no timer is on record any more, and the
    /// window is to be invalidated.
    pub fn animation_fired(&mut self) -> (action: AnimationAction)
        ensures
            final(self)@ == (WindowView {
                paint: PaintState { scheduled_animation: None, ..old(self)@.paint },
                ..old(self)@
            }),
            action == AnimationAction::InvalidateWindow,
    {
        self.paint.fire_animation()
    }

    /// Takes the next step of a pass.  `None`, with nothing changed, means
    /// that the event is not one that the pass waits for.  The interface items
    /// of the window are gone once a pass has begun: they are collected anew.
    pub fn paint_pass(&mut self, event: PassEvent) -> (action: Option<PassAction>)
        ensures
            match crate::paint_pass::pass_next(
                old(self)@.paint.allow_images,
                old(self)@.pass,
                event,
            ) {
                Some((pass, act)) => {
                    let next = WindowView { pass, ..old(self)@ };
                    &&& action == Some(act)
                    &&& final(self)@ == if act == PassAction::ClearQuads {
                        next.with_items(Seq::empty())
                    } else {
                        next
                    }
                },
                None => final(self)@ == old(self)@ && action is None,
            },
            match pass_in_window(old(self)@, event) {
                Some((next, act)) => final(self)@ == next && action == Some(act),
                None => final(self)@ == old(self)@ && action is None,
            },
    {
        let action = self.pass.step(self.paint.allow_images, event);
        if let Some(PassAction::ClearQuads) = action {
            self.ui_items.clear();
        }
        action
    }

    /// Takes the next step of painting the modal.  `None`, with nothing
    /// changed, means that the event is not one that the modal waits for.
    pub fn paint_modal(&mut self, event: ModalEvent) -> (action: Option<ModalAction>)
        ensures
            match crate::modal::modal_next(old(self)@.modal, event) {
                Some((modal, act)) => final(self)@ == (WindowView { modal, ..old(self)@ })
                    && action == Some(act),
                None => final(self)@ == old(self)@ && action is None,
            },
    {
        self.modal.step(&mut self.ui_items, event)
    }
}

/// A pass collects the interface items of the window anew: there are none once
/// it has begun, and nothing else that is done in it takes any away.  It
/// renders images as the paint that it belongs to says, and changes nothing
/// else of the window.
pub proof fn law_pass_collects_items_anew(window: WindowView, event: PassEvent)
    ensures
        pass_in_window(window, event) matches Some((next, _)) ==> {
            &&& event is Begin ==> next.modal.ui_items.len() == 0
            &&& !(event is Begin) ==> next.modal.ui_items == window.modal.ui_items
            &&& event is QuadsCleared ==> next.pass.allow_images == window.paint.allow_images
            &&& next.config == window.config
            &&& next.draw == window.draw
            &&& next.paint == window.paint
            &&& next.modal.phase == window.modal.phase
            &&& next.modal.elements == window.modal.elements
        },
{
}

} // verus!
