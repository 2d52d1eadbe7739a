//! One pass over the contents of the window: its background, its panes and
//! the splits between them, the tab bar, the borders, and the modal.

use crate::paint::AllowImage;
use vstd::prelude::*;

verus! {

/// A pane, as far as a pass depends on it.
#[derive(Debug, Clone, Copy, PartialEq, Eq, Structural)]
pub struct PaneInfo {
    pub is_active: bool,
    /// The row at the top, where the pane is scrolled.
    pub viewport: Option<isize>,
    /// The row at the top, where it is not.
    pub physical_top: isize,
}

/// What a pass depends on besides the panes.
#[derive(Debug, Clone, Copy, PartialEq, Eq, Structural)]
pub struct PassFacts {
    pub focused: bool,
    /// Whether the window has a background of its own, such as an image.
    pub has_background: bool,
    /// Whether the background opacity is exactly one.
    pub opaque: bool,
    pub show_tab_bar: bool,
    /// The size of the window.
    pub pixel_width: usize,
    pub pixel_height: usize,
}

/// A rectangle in the window, in pixels.
#[derive(Debug, Clone, Copy, PartialEq, Eq, Structural)]
pub struct PixelRect {
    pub x: usize,
    pub y: usize,
    pub width: usize,
    pub height: usize,
}

/// The vertex buffer of a layer that the background color is filled into.
pub const BACKGROUND_BUFFER: usize = 0;

/// Where the background color comes from.
#[derive(Debug, Clone, Copy, PartialEq, Eq, Structural)]
pub enum PaletteSource {
    /// The palette of the only pane.
    OnlyPane,
    /// The palette of the window.
    Window,
}

/// What could not be done.
#[derive(Debug, Clone, Copy, PartialEq, Eq, Structural)]
pub enum PassFault {
    MapLayer,
    RenderBackgrounds,
    FillBackground,
    PaintPane,
    PaintSplit,
    PaintTabBar,
    PaintWindowBorders,
    PaintModal,
}

/// What to do next in a pass.
#[derive(Debug, Clone, Copy, PartialEq, Eq)]
pub enum PassAction {
    /// Clear the quads of all layers.
    ClearQuads,
    /// Map the quads of the bottom layer.
    MapLayer,
    /// Render the background of the window, scrolled to row `top`.
    RenderBackgrounds { top: isize },
    /// Fill a rectangle with the background color of a palette, which is
    /// multiplied by the background opacity.  It goes into the given vertex
    /// buffer of the bottom layer.
    FillBackground { palette: PaletteSource, buffer: usize, rect: PixelRect },
    /// Tell the input method where the cursor of a pane is.
    UpdateTextCursor { pane: usize },
    /// Tell a pane that it has the focus, and record that.
    AdviseFocus { pane: usize },
    PaintPane { pane: usize },
    /// Find out how many splits there are, where a pane is active.
    QuerySplits,
    PaintSplit { split: usize },
    PaintTabBar,
    PaintWindowBorders,
    /// Unmap the quads of the bottom layer.
    UnmapLayer,
    PaintModal,
    /// The pass is over, or was given up.
    Return(Result<(), PassFault>),
}

/// What came of a `PassAction`, or the request for a pass.
#[derive(Debug)]
pub enum PassEvent {
    /// A pass is to be made.
    Begin,
    /// `ClearQuads` is over, and these are the panes to paint.
    QuadsCleared { panes: Vec<PaneInfo>, facts: PassFacts },
    /// The action succeeded.
    Done,
    /// The action failed.
    Failed,
    /// `RenderBackgrounds` succeeded.  `loaded_any` is false as long as none
    /// of the backgrounds is loaded.
    BackgroundsRendered { loaded_any: bool },
    /// The answer to `QuerySplits`; `None` where no pane is active.
    Splits(Option<usize>),
}

/// Where a pass stands: the action that is under way.
#[derive(Debug, Clone, Copy, PartialEq, Eq, Structural)]
pub enum PassPhase {
    /// No pass is being made.
    Idle,
    ClearingQuads,
    MappingLayer,
    RenderingBackgrounds,
    FillingBackground,
    UpdatingCursor { pane: usize },
    AdvisingFocus { pane: usize },
    PaintingPane { pane: usize },
    QueryingSplits,
    PaintingSplit { split: usize, splits: usize },
    PaintingTabBar,
    PaintingBorders,
    UnmappingLayer,
    PaintingModal,
    /// Unmapping the quads of the bottom layer because something failed.
    AbandoningLayer { fault: PassFault },
}

/// The pass that is being made.
#[derive(Debug)]
pub struct PassState {
    phase: PassPhase,
    panes: Vec<PaneInfo>,
    facts: PassFacts,
    /// How images are rendered in this pass.
    allow_images: AllowImage,
}

/// A `PassState`, as contracts see it.
#[verifier::ext_equal]
pub struct PassView {
    pub phase: PassPhase,
    pub panes: Seq<PaneInfo>,
    pub facts: PassFacts,
    pub allow_images: AllowImage,
}

impl View for PassState {
    type V = PassView;

    closed spec fn view(&self) -> PassView {
        PassView {
            phase: self.phase,
            panes: self.panes@,
            facts: self.facts,
            allow_images: self.allow_images,
        }
    }
}

impl PassView {
    /// No pass has been made.
    pub open spec fn initial() -> PassView {
        PassView {
            phase: PassPhase::Idle,
            panes: Seq::empty(),
            facts: PassFacts {
                focused: false,
                has_background: false,
                opaque: true,
                show_tab_bar: false,
                pixel_width: 0,
                pixel_height: 0,
            },
            allow_images: AllowImage::Yes,
        }
    }

    /// A pane or split that is under way is one that there is.
    pub open spec fn wf(self) -> bool {
        match self.phase {
            PassPhase::UpdatingCursor { pane } => pane < self.panes.len()
                && self.panes[pane as int].is_active,
            PassPhase::AdvisingFocus { pane } => pane < self.panes.len()
                && self.panes[pane as int].is_active && self.facts.focused,
            PassPhase::PaintingPane { pane } => pane < self.panes.len(),
            PassPhase::PaintingSplit { split, splits } => split < splits,
            _ => true,
        }
    }

    /// The same in another phase.
    pub open spec fn at(self, phase: PassPhase) -> PassView {
        PassView { phase, ..self }
    }
}

/// The row at the top of the first active pane; zero where none is active.
pub open spec fn top_row(panes: Seq<PaneInfo>) -> isize
    decreases panes.len(),
{
    if panes.len() == 0 {
        0
    } else if panes[0].is_active {
        match panes[0].viewport {
            Some(top) => top,
            None => panes[0].physical_top,
        }
    } else {
        top_row(panes.drop_first())
    }
}

/// Whether the background of the window is rendered.
pub open spec fn renders_backgrounds(state: PassView) -> bool {
    state.facts.has_background && state.allow_images != AllowImage::No
}

/// Whether something shines through the panes, so that filling the window
/// would double up the background color.
pub open spec fn is_transparent(facts: PassFacts) -> bool {
    facts.has_background || !facts.opaque
}

/// The palette that the background color comes from.
pub open spec fn background_palette(panes: Seq<PaneInfo>) -> PaletteSource {
    if panes.len() == 1 {
        PaletteSource::OnlyPane
    } else {
        PaletteSource::Window
    }
}

/// Filling the whole window with the background color.
pub open spec fn fill_action(state: PassView) -> PassAction {
    PassAction::FillBackground {
        palette: background_palette(state.panes),
        buffer: BACKGROUND_BUFFER,
        rect: PixelRect {
            x: 0,
            y: 0,
            width: state.facts.pixel_width,
            height: state.facts.pixel_height,
        },
    }
}

pub open spec fn fill_next(state: PassView) -> (PassView, PassAction) {
    (state.at(PassPhase::FillingBackground), fill_action(state))
}

/// Goes to the background.
pub open spec fn background_next(state: PassView) -> (PassView, PassAction) {
    if renders_backgrounds(state) {
        (
            state.at(PassPhase::RenderingBackgrounds),
            PassAction::RenderBackgrounds { top: top_row(state.panes) },
        )
    } else if is_transparent(state.facts) {
        pane_next(state, 0)
    } else {
        fill_next(state)
    }
}

/// Goes to a pane, or on to the splits where that was the last one.
pub open spec fn pane_next(state: PassView, pane: int) -> (PassView, PassAction) {
    if pane >= state.panes.len() {
        (state.at(PassPhase::QueryingSplits), PassAction::QuerySplits)
    } else {
        let pane = pane as usize;
        if state.panes[pane as int].is_active {
            (
                state.at(PassPhase::UpdatingCursor { pane }),
                PassAction::UpdateTextCursor { pane },
            )
        } else {
            (state.at(PassPhase::PaintingPane { pane }), PassAction::PaintPane { pane })
        }
    }
}

/// Goes to a split, or on to the tab bar where that was the last one.
pub open spec fn split_next(state: PassView, split: int, splits: usize) -> (PassView, PassAction) {
    if split < splits {
        let split = split as usize;
        (state.at(PassPhase::PaintingSplit { split, splits }), PassAction::PaintSplit { split })
    } else {
        tab_bar_next(state)
    }
}

/// Goes to the tab bar, or on to the borders where it is hidden.
pub open spec fn tab_bar_next(state: PassView) -> (PassView, PassAction) {
    if state.facts.show_tab_bar {
        (state.at(PassPhase::PaintingTabBar), PassAction::PaintTabBar)
    } else {
        (state.at(PassPhase::PaintingBorders), PassAction::PaintWindowBorders)
    }
}

/// What it means that the action under way failed; `None` where it cannot.
pub open spec fn fault_of(phase: PassPhase) -> Option<PassFault> {
    match phase {
        PassPhase::MappingLayer => Some(PassFault::MapLayer),
        PassPhase::RenderingBackgrounds => Some(PassFault::RenderBackgrounds),
        PassPhase::FillingBackground => Some(PassFault::FillBackground),
        PassPhase::PaintingPane { .. } => Some(PassFault::PaintPane),
        PassPhase::PaintingSplit { .. } => Some(PassFault::PaintSplit),
        PassPhase::PaintingTabBar => Some(PassFault::PaintTabBar),
        PassPhase::PaintingBorders => Some(PassFault::PaintWindowBorders),
        PassPhase::PaintingModal => Some(PassFault::PaintModal),
        _ => None,
    }
}

/// Whether the quads of the bottom layer are mapped.
pub open spec fn holds_layer(phase: PassPhase) -> bool {
    match phase {
        PassPhase::Idle => false,
        PassPhase::ClearingQuads => false,
        PassPhase::MappingLayer => false,
        PassPhase::PaintingModal => false,
        _ => true,
    }
}

/// Something failed: the bottom layer is unmapped first, where it is mapped,
/// and then the pass is given up.
pub open spec fn fail_next(state: PassView, fault: PassFault) -> (PassView, PassAction) {
    if holds_layer(state.phase) {
        (state.at(PassPhase::AbandoningLayer { fault }), PassAction::UnmapLayer)
    } else {
        (state.at(PassPhase::Idle), PassAction::Return(Err(fault)))
    }
}

/// The next state and the action to perform, or `None` where the phase does
/// not wait for the event.  Once the quads are cleared, `allow_images` says how
/// images are rendered for the rest of the pass.
pub open spec fn pass_next(allow_images: AllowImage, state: PassView, event: PassEvent) -> Option<
    (PassView, PassAction),
> {
    match (state.phase, event) {
        (PassPhase::Idle, PassEvent::Begin) => Some(
            (state.at(PassPhase::ClearingQuads), PassAction::ClearQuads),
        ),
        (PassPhase::ClearingQuads, PassEvent::QuadsCleared { panes, facts }) => Some(
            (
                PassView { phase: PassPhase::MappingLayer, panes: panes@, facts, allow_images },
                PassAction::MapLayer,
            ),
        ),
        (PassPhase::MappingLayer, PassEvent::Done) => Some(background_next(state)),
        (PassPhase::RenderingBackgrounds, PassEvent::BackgroundsRendered { loaded_any }) => Some(
            if loaded_any {
                pane_next(state, 0)
            } else {
                fill_next(state)
            },
        ),
        (PassPhase::FillingBackground, PassEvent::Done) => Some(pane_next(state, 0)),
        (PassPhase::UpdatingCursor { pane }, PassEvent::Done) => Some(
            if state.facts.focused {
                (state.at(PassPhase::AdvisingFocus { pane }), PassAction::AdviseFocus { pane })
            } else {
                (state.at(PassPhase::PaintingPane { pane }), PassAction::PaintPane { pane })
            },
        ),
        (PassPhase::AdvisingFocus { pane }, PassEvent::Done) => Some(
            (state.at(PassPhase::PaintingPane { pane }), PassAction::PaintPane { pane }),
        ),
        (PassPhase::PaintingPane { pane }, PassEvent::Done) => Some(pane_next(state, pane + 1)),
        (PassPhase::QueryingSplits, PassEvent::Splits(splits)) => Some(
            match splits {
                Some(splits) => split_next(state, 0, splits),
                None => tab_bar_next(state),
            },
        ),
        (PassPhase::PaintingSplit { split, splits }, PassEvent::Done) => Some(
            split_next(state, split + 1, splits),
        ),
        (PassPhase::PaintingTabBar, PassEvent::Done) => Some(
            (state.at(PassPhase::PaintingBorders), PassAction::PaintWindowBorders),
        ),
        (PassPhase::PaintingBorders, PassEvent::Done) => Some(
            (state.at(PassPhase::UnmappingLayer), PassAction::UnmapLayer),
        ),
        (PassPhase::UnmappingLayer, PassEvent::Done) => Some(
            (state.at(PassPhase::PaintingModal), PassAction::PaintModal),
        ),
        (PassPhase::PaintingModal, PassEvent::Done) => Some(
            (state.at(PassPhase::Idle), PassAction::Return(Ok(()))),
        ),
        (PassPhase::AbandoningLayer { fault }, PassEvent::Done) => Some(
            (state.at(PassPhase::Idle), PassAction::Return(Err(fault))),
        ),
        (phase, PassEvent::Failed) => match fault_of(phase) {
            Some(fault) => Some(fail_next(state, fault)),
            None => None,
        },
        _ => None,
    }
}

impl PassFault {
    /// The step that failed, as error messages name it.
    pub open spec fn context_spec(self) -> Seq<char> {
        match self {
            PassFault::MapLayer => "layer_for_zindex(0)"@,
            PassFault::RenderBackgrounds => "render_backgrounds"@,
            PassFault::FillBackground => "filled_rectangle for window background"@,
            PassFault::PaintPane => "paint_pane"@,
            PassFault::PaintSplit => "paint_split"@,
            PassFault::PaintTabBar => "paint_tab_bar"@,
            PassFault::PaintWindowBorders => "paint_window_borders"@,
            PassFault::PaintModal => "paint_modal"@,
        }
    }

    /// The step that failed, as error messages name it.
    pub fn context(self) -> (context: &'static str)
        ensures
            context@ == self.context_spec(),
    {
        match self {
            PassFault::MapLayer => "layer_for_zindex(0)",
            PassFault::RenderBackgrounds => "render_backgrounds",
            PassFault::FillBackground => "filled_rectangle for window background",
            PassFault::PaintPane => "paint_pane",
            PassFault::PaintSplit => "paint_split",
            PassFault::PaintTabBar => "paint_tab_bar",
            PassFault::PaintWindowBorders => "paint_window_borders",
            PassFault::PaintModal => "paint_modal",
        }
    }
}

/// The row at the top of the first active pane; zero where none is active.
pub fn background_top(panes: &Vec<PaneInfo>) -> (top: isize)
    ensures
        top == top_row(panes@),
{
    let mut i: usize = 0;
    assert(panes@.skip(0) =~= panes@);
    while i < panes.len()
        invariant
            i <= panes.len(),
            top_row(panes@) == top_row(panes@.skip(i as int)),
        decreases panes.len() - i,
    {
        let pane = panes[i];
        if pane.is_active {
            return match pane.viewport {
                Some(top) => top,
                None => pane.physical_top,
            };
        }
        assert(panes@.skip(i as int).drop_first() =~= panes@.skip(i + 1));
        i = i + 1;
    }
    0
}

impl PassState {
    #[verifier::type_invariant]
    spec fn inv(self) -> bool {
        self@.wf()
    }

    /// No pass has been made.
    pub fn new() -> (state: Self)
        ensures
            state@ == PassView::initial(),
    {
        PassState {
            phase: PassPhase::Idle,
            panes: Vec::new(),
            facts: PassFacts {
                focused: false,
                has_background: false,
                opaque: true,
                show_tab_bar: false,
                pixel_width: 0,
                pixel_height: 0,
            },
            allow_images: AllowImage::Yes,
        }
    }

    fn go(&mut self, phase: PassPhase, action: PassAction) -> (result: Option<PassAction>)
        requires
            old(self)@.at(phase).wf(),
        ensures
            final(self)@ == old(self)@.at(phase),
            result == Some(action),
    {
        self.phase = phase;
        Some(action)
    }

    fn go_to_fill(&mut self) -> (result: Option<PassAction>)
        ensures
            (final(self)@, result.unwrap()) == fill_next(old(self)@),
            result is Some,
    {
        let palette = if self.panes.len() == 1 {
            // The padding of an only pane is drawn in its own colors.
            PaletteSource::OnlyPane
        } else {
            PaletteSource::Window
        };
        let rect = PixelRect {
            x: 0,
            y: 0,
            width: self.facts.pixel_width,
            height: self.facts.pixel_height,
        };
        self.go(
            PassPhase::FillingBackground,
            PassAction::FillBackground { palette, buffer: BACKGROUND_BUFFER, rect },
        )
    }

    fn go_to_background(&mut self) -> (result: Option<PassAction>)
        ensures
            (final(self)@, result.unwrap()) == background_next(old(self)@),
            result is Some,
    {
        let allowed: bool = match self.allow_images {
            AllowImage::Yes | AllowImage::Scale(_) => true,
            AllowImage::No => false,
        };
        if self.facts.has_background && allowed {
            let top: isize = background_top(&self.panes);
            self.go(PassPhase::RenderingBackgrounds, PassAction::RenderBackgrounds { top })
        } else if self.facts.has_background || !self.facts.opaque {
            // The panes render out through the padding, so there are no gaps
            // to fill.
            self.go_to_pane(0)
        } else {
            self.go_to_fill()
        }
    }

    fn go_to_pane(&mut self, pane: usize) -> (result: Option<PassAction>)
        ensures
            (final(self)@, result.unwrap()) == pane_next(old(self)@, pane as int),
            result is Some,
    {
        if pane >= self.panes.len() {
            self.go(PassPhase::QueryingSplits, PassAction::QuerySplits)
        } else if self.panes[pane].is_active {
            self.go(PassPhase::UpdatingCursor { pane }, PassAction::UpdateTextCursor { pane })
        } else {
            self.go(PassPhase::PaintingPane { pane }, PassAction::PaintPane { pane })
        }
    }

    fn go_to_split(&mut self, split: usize, splits: usize) -> (result: Option<PassAction>)
        ensures
            (final(self)@, result.unwrap()) == split_next(old(self)@, split as int, splits),
            result is Some,
    {
        if split < splits {
            self.go(PassPhase::PaintingSplit { split, splits }, PassAction::PaintSplit { split })
        } else {
            self.go_to_tab_bar()
        }
    }

    fn go_to_tab_bar(&mut self) -> (result: Option<PassAction>)
        ensures
            (final(self)@, result.unwrap()) == tab_bar_next(old(self)@),
            result is Some,
    {
        if self.facts.show_tab_bar {
            self.go(PassPhase::PaintingTabBar, PassAction::PaintTabBar)
        } else {
            self.go(PassPhase::PaintingBorders, PassAction::PaintWindowBorders)
        }
    }

    fn fail(&mut self) -> (result: Option<PassAction>)
        ensures
            match fault_of(old(self)@.phase) {
                Some(fault) => result is Some && (final(self)@, result.unwrap()) == fail_next(
                    old(self)@,
                    fault,
                ),
                None => final(self)@ == old(self)@ && result is None,
            },
    {
        let fault = match self.phase {
            PassPhase::MappingLayer => {
                return self.go(PassPhase::Idle, PassAction::Return(Err(PassFault::MapLayer)));
            },
            PassPhase::PaintingModal => {
                return self.go(PassPhase::Idle, PassAction::Return(Err(PassFault::PaintModal)));
            },
            PassPhase::RenderingBackgrounds => PassFault::RenderBackgrounds,
            PassPhase::FillingBackground => PassFault::FillBackground,
            PassPhase::PaintingPane { .. } => PassFault::PaintPane,
            PassPhase::PaintingSplit { .. } => PassFault::PaintSplit,
            PassPhase::PaintingTabBar => PassFault::PaintTabBar,
            PassPhase::PaintingBorders => PassFault::PaintWindowBorders,
            _ => {
                return None;
            },
        };
        // The bottom layer does not stay mapped.
        self.go(PassPhase::AbandoningLayer { fault }, PassAction::UnmapLayer)
    }

    /// Takes the next step of a pass, which renders images as `allow_images`
    /// says.  `None`, with nothing changed, means that the event is not one
    /// that the pass waits for.
    pub fn step(&mut self, allow_images: AllowImage, event: PassEvent) -> (action: Option<
        PassAction,
    >)
        ensures
            match pass_next(allow_images, old(self)@, event) {
                Some((next, act)) => final(self)@ == next && action == Some(act),
                None => final(self)@ == old(self)@ && action is None,
            },
    {
        proof {
            use_type_invariant(&*self);
        }
        match (self.phase, event) {
            (PassPhase::Idle, PassEvent::Begin) => {
                self.go(PassPhase::ClearingQuads, PassAction::ClearQuads)
            },
            (PassPhase::ClearingQuads, PassEvent::QuadsCleared { panes, facts }) => {
                *self = PassState { phase: PassPhase::MappingLayer, panes, facts, allow_images };
                Some(PassAction::MapLayer)
            },
            (PassPhase::MappingLayer, PassEvent::Done) => self.go_to_background(),
            (PassPhase::RenderingBackgrounds, PassEvent::BackgroundsRendered { loaded_any }) => {
                if loaded_any {
                    self.go_to_pane(0)
                } else {
                    // There was a problem with the backgrounds, or they have
                    // not been loaded yet.
                    self.go_to_fill()
                }
            },
            (PassPhase::FillingBackground, PassEvent::Done) => self.go_to_pane(0),
            (PassPhase::UpdatingCursor { pane }, PassEvent::Done) => {
                if self.facts.focused {
                    self.go(
                        PassPhase::AdvisingFocus { pane },
                        PassAction::AdviseFocus { pane },
                    )
                } else {
                    self.go(PassPhase::PaintingPane { pane }, PassAction::PaintPane { pane })
                }
            },
            (PassPhase::AdvisingFocus { pane }, PassEvent::Done) => {
                self.go(PassPhase::PaintingPane { pane }, PassAction::PaintPane { pane })
            },
            (PassPhase::PaintingPane { pane }, PassEvent::Done) => {
                assert(pane < self.panes.len());
                self.go_to_pane(pane + 1)
            },
            (PassPhase::QueryingSplits, PassEvent::Splits(splits)) => {
                match splits {
                    Some(splits) => self.go_to_split(0, splits),
                    None => self.go_to_tab_bar(),
                }
            },
            (PassPhase::PaintingSplit { split, splits }, PassEvent::Done) => {
                self.go_to_split(split + 1, splits)
            },
            (PassPhase::PaintingTabBar, PassEvent::Done) => {
                self.go(PassPhase::PaintingBorders, PassAction::PaintWindowBorders)
            },
            (PassPhase::PaintingBorders, PassEvent::Done) => {
                self.go(PassPhase::UnmappingLayer, PassAction::UnmapLayer)
            },
            (PassPhase::UnmappingLayer, PassEvent::Done) => {
                self.go(PassPhase::PaintingModal, PassAction::PaintModal)
            },
            (PassPhase::PaintingModal, PassEvent::Done) => {
                self.go(PassPhase::Idle, PassAction::Return(Ok(())))
            },
            (PassPhase::AbandoningLayer { fault }, PassEvent::Done) => {
                self.go(PassPhase::Idle, PassAction::Return(Err(fault)))
            },
            (_, PassEvent::Failed) => self.fail(),
            _ => None,
        }
    }
}

/// The steps of a pass, for runs.
pub open spec fn pass_steps(allow_images: AllowImage) -> spec_fn(PassView, PassEvent) -> Option<
    (PassView, PassAction),
> {
    |state: PassView, event: PassEvent| pass_next(allow_images, state, event)
}

/// What is done about the background, where `loaded_any` says whether some
/// background of the window is loaded.
pub open spec fn background_plan(state: PassView, loaded_any: bool) -> Seq<PassAction> {
    let fill = seq![fill_action(state)];
    if renders_backgrounds(state) {
        let render = seq![PassAction::RenderBackgrounds { top: top_row(state.panes) }];
        if loaded_any {
            render
        } else {
            render + fill
        }
    } else if is_transparent(state.facts) {
        Seq::empty()
    } else {
        fill
    }
}

/// What is done about a pane.
pub open spec fn pane_plan(panes: Seq<PaneInfo>, focused: bool, pane: int) -> Seq<PassAction> {
    let pane = pane as usize;
    if !panes[pane as int].is_active {
        seq![PassAction::PaintPane { pane }]
    } else if focused {
        seq![
            PassAction::UpdateTextCursor { pane },
            PassAction::AdviseFocus { pane },
            PassAction::PaintPane { pane },
        ]
    } else {
        seq![PassAction::UpdateTextCursor { pane }, PassAction::PaintPane { pane }]
    }
}

/// What is done about the panes from `first` on.
pub open spec fn panes_plan(panes: Seq<PaneInfo>, focused: bool, first: int) -> Seq<PassAction>
    decreases panes.len() - first,
{
    if first >= panes.len() {
        Seq::empty()
    } else {
        pane_plan(panes, focused, first) + panes_plan(panes, focused, first + 1)
    }
}

/// What is done about the splits from `first` on.
pub open spec fn splits_plan(first: int, splits: Option<usize>) -> Seq<PassAction> {
    let count = match splits {
        Some(count) => count as int,
        None => 0,
    };
    Seq::new(
        (if first < count {
            count - first
        } else {
            0
        }) as nat,
        |i: int| PassAction::PaintSplit { split: (first + i) as usize },
    )
}

/// What is done from the tab bar on.
pub open spec fn frame_plan(facts: PassFacts) -> Seq<PassAction> {
    let rest = seq![
        PassAction::PaintWindowBorders,
        PassAction::UnmapLayer,
        PassAction::PaintModal,
    ];
    if facts.show_tab_bar {
        seq![PassAction::PaintTabBar] + rest
    } else {
        rest
    }
}

/// All that is done in a pass, where some background is loaded or not, and
/// there are `splits`.
pub open spec fn pass_plan(state: PassView, loaded_any: bool, splits: Option<usize>) -> Seq<
    PassAction,
> {
    seq![PassAction::ClearQuads, PassAction::MapLayer] + background_plan(state, loaded_any)
        + panes_plan(state.panes, state.facts.focused, 0) + seq![PassAction::QuerySplits]
        + splits_plan(0, splits) + frame_plan(state.facts)
}

/// What comes of an action that succeeds, once the quads are cleared.
pub open spec fn success_of(
    action: PassAction,
    loaded_any: bool,
    splits: Option<usize>,
) -> PassEvent {
    match action {
        PassAction::RenderBackgrounds { .. } => PassEvent::BackgroundsRendered { loaded_any },
        PassAction::QuerySplits => PassEvent::Splits(splits),
        _ => PassEvent::Done,
    }
}

/// What comes of actions that all succeed.
pub open spec fn successes_of(
    actions: Seq<PassAction>,
    loaded_any: bool,
    splits: Option<usize>,
) -> Seq<PassEvent> {
    Seq::new(actions.len(), |i: int| success_of(actions[i], loaded_any, splits))
}

/// What it means that an action failed; `None` where it cannot.
pub open spec fn fault_of_action(action: PassAction) -> Option<PassFault> {
    match action {
        PassAction::MapLayer => Some(PassFault::MapLayer),
        PassAction::RenderBackgrounds { .. } => Some(PassFault::RenderBackgrounds),
        PassAction::FillBackground { .. } => Some(PassFault::FillBackground),
        PassAction::PaintPane { .. } => Some(PassFault::PaintPane),
        PassAction::PaintSplit { .. } => Some(PassFault::PaintSplit),
        PassAction::PaintTabBar => Some(PassFault::PaintTabBar),
        PassAction::PaintWindowBorders => Some(PassFault::PaintWindowBorders),
        PassAction::PaintModal => Some(PassFault::PaintModal),
        _ => None,
    }
}

/// Whether an action that can fail is performed while the bottom layer is
/// mapped.
pub open spec fn needs_layer(action: PassAction) -> bool {
    fault_of_action(action) is Some && action != PassAction::MapLayer && action
        != PassAction::PaintModal
}

/// What is done about a failure: the bottom layer is unmapped, where it is
/// mapped, and the pass is given up.
pub open spec fn failure_actions(action: PassAction, fault: PassFault) -> Seq<PassAction> {
    let give_up = PassAction::Return(Err(fault));
    if needs_layer(action) {
        seq![PassAction::UnmapLayer, give_up]
    } else {
        seq![give_up]
    }
}

/// What happens when an action fails: that, and that the bottom layer is
/// unmapped, where it is mapped.
pub open spec fn failure_events(action: PassAction) -> Seq<PassEvent> {
    if needs_layer(action) {
        seq![PassEvent::Failed, PassEvent::Done]
    } else {
        seq![PassEvent::Failed]
    }
}

/// What is left of a pass once the panes are painted.
spec fn after_panes(state: PassView, splits: Option<usize>) -> Seq<PassAction> {
    seq![PassAction::QuerySplits] + (splits_plan(0, splits) + frame_plan(state.facts))
}

/// What is left of a pass from a pane on.
spec fn from_pane(state: PassView, pane: int, splits: Option<usize>) -> Seq<PassAction> {
    panes_plan(state.panes, state.facts.focused, pane) + after_panes(state, splits)
}

/// The action that is under way.
spec fn current_action(state: PassView) -> PassAction {
    match state.phase {
        PassPhase::Idle => PassAction::Return(Ok(())),
        PassPhase::ClearingQuads => PassAction::ClearQuads,
        PassPhase::MappingLayer => PassAction::MapLayer,
        PassPhase::RenderingBackgrounds => PassAction::RenderBackgrounds {
            top: top_row(state.panes),
        },
        PassPhase::FillingBackground => fill_action(state),
        PassPhase::UpdatingCursor { pane } => PassAction::UpdateTextCursor { pane },
        PassPhase::AdvisingFocus { pane } => PassAction::AdviseFocus { pane },
        PassPhase::PaintingPane { pane } => PassAction::PaintPane { pane },
        PassPhase::QueryingSplits => PassAction::QuerySplits,
        PassPhase::PaintingSplit { split, .. } => PassAction::PaintSplit { split },
        PassPhase::PaintingTabBar => PassAction::PaintTabBar,
        PassPhase::PaintingBorders => PassAction::PaintWindowBorders,
        PassPhase::UnmappingLayer => PassAction::UnmapLayer,
        PassPhase::PaintingModal => PassAction::PaintModal,
        PassPhase::AbandoningLayer { .. } => PassAction::UnmapLayer,
    }
}

/// What is left of a pass after the action that is under way.
#[verifier::opaque]
spec fn rest_of(state: PassView, loaded_any: bool, splits: Option<usize>) -> Seq<PassAction> {
    match state.phase {
        PassPhase::Idle => Seq::empty(),
        PassPhase::ClearingQuads => Seq::empty(),
        PassPhase::MappingLayer => background_plan(state, loaded_any) + from_pane(
            state,
            0,
            splits,
        ),
        PassPhase::RenderingBackgrounds => if loaded_any {
            from_pane(state, 0, splits)
        } else {
            seq![fill_action(state)] + from_pane(state, 0, splits)
        },
        PassPhase::FillingBackground => from_pane(state, 0, splits),
        PassPhase::UpdatingCursor { pane } => if state.facts.focused {
            seq![PassAction::AdviseFocus { pane }] + (seq![PassAction::PaintPane { pane }]
                + from_pane(state, pane + 1, splits))
        } else {
            seq![PassAction::PaintPane { pane }] + from_pane(state, pane + 1, splits)
        },
        PassPhase::AdvisingFocus { pane } => seq![PassAction::PaintPane { pane }] + from_pane(
            state,
            pane + 1,
            splits,
        ),
        PassPhase::PaintingPane { pane } => from_pane(state, pane + 1, splits),
        PassPhase::QueryingSplits => splits_plan(0, splits) + frame_plan(state.facts),
        PassPhase::PaintingSplit { split, .. } => splits_plan(split + 1, splits) + frame_plan(
            state.facts,
        ),
        PassPhase::PaintingTabBar => seq![
            PassAction::PaintWindowBorders,
            PassAction::UnmapLayer,
            PassAction::PaintModal,
        ],
        PassPhase::PaintingBorders => seq![PassAction::UnmapLayer, PassAction::PaintModal],
        PassPhase::UnmappingLayer => seq![PassAction::PaintModal],
        PassPhase::PaintingModal => Seq::empty(),
        PassPhase::AbandoningLayer { .. } => Seq::empty(),
    }
}

/// A pass that is under way agrees with what is known of the splits and with
/// what there is to do.
spec fn on_course(state: PassView, splits: Option<usize>) -> bool {
    &&& state.wf()
    &&& state.panes.len() <= usize::MAX
    &&& match state.phase {
        PassPhase::Idle => false,
        PassPhase::ClearingQuads => false,
        PassPhase::AbandoningLayer { .. } => false,
        PassPhase::PaintingSplit { splits: count, .. } => splits == Some(count),
        _ => true,
    }
}

/// That `next` is where a pass goes on when `plan` is left.
spec fn goes_on(
    next: (PassView, PassAction),
    plan: Seq<PassAction>,
    loaded_any: bool,
    splits: Option<usize>,
) -> bool {
    &&& on_course(next.0, splits)
    &&& next.1 == current_action(next.0)
    &&& seq![next.1] + rest_of(next.0, loaded_any, splits) == plan
}

/// Stringing parts together does not depend on how they are grouped.
proof fn lemma_concat_is_associative<A>(a: Seq<A>, b: Seq<A>, c: Seq<A>)
    ensures
        a + (b + c) == a + b + c,
{
    assert(a + (b + c) =~= a + b + c);
}

/// One after the other or all at once, it comes to the same.
proof fn lemma_prepend<A>(a: A, b: A, c: A, rest: Seq<A>)
    ensures
        seq![a] + (seq![b] + rest) == seq![a, b] + rest,
        seq![a] + (seq![b] + (seq![c] + rest)) == seq![a, b, c] + rest,
{
    assert(seq![a] + (seq![b] + rest) =~= seq![a, b] + rest);
    assert(seq![a] + (seq![b] + (seq![c] + rest)) =~= seq![a, b, c] + rest);
}

proof fn lemma_going_to_pane(state: PassView, pane: int, loaded_any: bool, splits: Option<usize>)
    requires
        0 <= pane <= state.panes.len() <= usize::MAX,
    ensures
        goes_on(pane_next(state, pane), from_pane(state, pane, splits), loaded_any, splits),
{
    reveal(rest_of);
    let (next, action) = pane_next(state, pane);
    let rest = rest_of(next, loaded_any, splits);
    let panes = panes_plan(state.panes, state.facts.focused, pane);
    let end = after_panes(state, splits);
    if pane < state.panes.len() {
        let later = panes_plan(state.panes, state.facts.focused, pane + 1);
        let part = pane_plan(state.panes, state.facts.focused, pane);
        lemma_concat_is_associative(part, later, end);
        assert(panes + end == part + from_pane(state, pane + 1, splits));
        assert(from_pane(next, pane + 1, splits) == from_pane(state, pane + 1, splits));
        let i = pane as usize;
        if state.panes[pane].is_active && state.facts.focused {
            lemma_prepend(
                action,
                PassAction::AdviseFocus { pane: i },
                PassAction::PaintPane { pane: i },
                from_pane(state, pane + 1, splits),
            );
        } else if state.panes[pane].is_active {
            lemma_prepend(
                action,
                PassAction::PaintPane { pane: i },
                action,
                from_pane(state, pane + 1, splits),
            );
        }
    } else {
        assert(Seq::<PassAction>::empty() + end =~= end);
    }
}

proof fn lemma_going_to_tab_bar(state: PassView, loaded_any: bool, splits: Option<usize>)
    requires
        state.panes.len() <= usize::MAX,
    ensures
        goes_on(tab_bar_next(state), frame_plan(state.facts), loaded_any, splits),
{
    reveal(rest_of);
    let (next, action) = tab_bar_next(state);
    assert(seq![action] + rest_of(next, loaded_any, splits) =~= frame_plan(state.facts));
}

proof fn lemma_going_to_split(
    state: PassView,
    split: int,
    loaded_any: bool,
    splits: Option<usize>,
)
    requires
        0 <= split,
        state.panes.len() <= usize::MAX,
        splits matches Some(count) ==> split <= count,
    ensures
        goes_on(
            match splits {
                Some(count) => split_next(state, split, count),
                None => tab_bar_next(state),
            },
            splits_plan(split, splits) + frame_plan(state.facts),
            loaded_any,
            splits,
        ),
{
    reveal(rest_of);
    let plan = splits_plan(split, splits) + frame_plan(state.facts);
    if splits is Some && split < splits.unwrap() {
        let (next, action) = split_next(state, split, splits.unwrap());
        assert(seq![action] + splits_plan(split + 1, splits) =~= splits_plan(split, splits));
        assert(seq![action] + rest_of(next, loaded_any, splits) =~= plan);
    } else {
        lemma_going_to_tab_bar(state, loaded_any, splits);
        assert(plan =~= frame_plan(state.facts));
    }
}

proof fn lemma_going_to_background(state: PassView, loaded_any: bool, splits: Option<usize>)
    requires
        state.panes.len() <= usize::MAX,
    ensures
        goes_on(
            background_next(state),
            background_plan(state, loaded_any) + from_pane(state, 0, splits),
            loaded_any,
            splits,
        ),
{
    reveal(rest_of);
    let plan = background_plan(state, loaded_any) + from_pane(state, 0, splits);
    let (next, action) = background_next(state);
    if !renders_backgrounds(state) && is_transparent(state.facts) {
        lemma_going_to_pane(state, 0, loaded_any, splits);
        assert(plan =~= from_pane(state, 0, splits));
    } else {
        assert(from_pane(next, 0, splits) == from_pane(state, 0, splits));
        let fill = fill_action(state);
        lemma_concat_is_associative(seq![action], seq![fill], from_pane(state, 0, splits));
    }
}

/// An action that succeeds takes the pass on to what is left.
proof fn lemma_pass_step(
    allow_images: AllowImage,
    state: PassView,
    loaded_any: bool,
    splits: Option<usize>,
)
    requires
        on_course(state, splits),
    ensures
        ({
            let rest = rest_of(state, loaded_any, splits);
            let success = success_of(current_action(state), loaded_any, splits);
            &&& fault_of(state.phase) == fault_of_action(current_action(state))
            &&& fault_of(state.phase) is Some ==> holds_layer(state.phase) == needs_layer(
                current_action(state),
            )
            &&& pass_next(allow_images, state, success) matches Some(next) && next.0 == state.at(
                next.0.phase,
            ) && {
                ||| rest.len() > 0 && goes_on(next, rest, loaded_any, splits)
                ||| rest.len() == 0 && next == (
                    state.at(PassPhase::Idle),
                    PassAction::Return(Ok(())),
                )
            }
        }),
{
    reveal(rest_of);
    let rest = rest_of(state, loaded_any, splits);
    match state.phase {
        PassPhase::MappingLayer => {
            lemma_going_to_background(state, loaded_any, splits);
        },
        PassPhase::RenderingBackgrounds | PassPhase::FillingBackground => {
            lemma_going_to_pane(state, 0, loaded_any, splits);
        },
        PassPhase::PaintingPane { pane } => {
            lemma_going_to_pane(state, pane + 1, loaded_any, splits);
        },
        PassPhase::QueryingSplits => {
            lemma_going_to_split(state, 0, loaded_any, splits);
        },
        PassPhase::PaintingSplit { split, .. } => {
            lemma_going_to_split(state, split + 1, loaded_any, splits);
        },
        PassPhase::PaintingTabBar | PassPhase::PaintingBorders | PassPhase::UnmappingLayer => {
            let success = success_of(current_action(state), loaded_any, splits);
            let (next, action) = pass_next(allow_images, state, success).unwrap();
            assert(seq![action] + rest_of(next, loaded_any, splits) =~= rest);
        },
        _ => {},
    }
}

/// A pass that has got to know what there is to paint.
pub open spec fn begun_pass(
    panes: Seq<PaneInfo>,
    facts: PassFacts,
    allow_images: AllowImage,
) -> PassView {
    PassView { phase: PassPhase::MappingLayer, panes, facts, allow_images }
}

/// The events of a pass that performs `actions` with success.  The first of
/// these clears the quads, after which there are `panes` to paint.
pub open spec fn pass_events(
    panes: Vec<PaneInfo>,
    facts: PassFacts,
    actions: Seq<PassAction>,
    loaded_any: bool,
    splits: Option<usize>,
) -> Seq<PassEvent> {
    seq![PassEvent::Begin, PassEvent::QuadsCleared { panes, facts }] + successes_of(
        actions.drop_first(),
        loaded_any,
        splits,
    )
}

/// The action that is under way, and what is left of the pass after it.
spec fn plan_from(state: PassView, loaded_any: bool, splits: Option<usize>) -> Seq<PassAction> {
    seq![current_action(state)] + rest_of(state, loaded_any, splits)
}

proof fn lemma_plan_from_start(state: PassView, loaded_any: bool, splits: Option<usize>)
    requires
        state.phase == PassPhase::MappingLayer,
    ensures
        seq![PassAction::ClearQuads] + plan_from(state, loaded_any, splits) == pass_plan(
            state,
            loaded_any,
            splits,
        ),
{
    reveal(rest_of);
    let clear = seq![PassAction::ClearQuads];
    let map = seq![PassAction::MapLayer];
    let background = background_plan(state, loaded_any);
    let panes = panes_plan(state.panes, state.facts.focused, 0);
    let query = seq![PassAction::QuerySplits];
    let splits = splits_plan(0, splits);
    let frame = frame_plan(state.facts);
    lemma_regroup(clear, map, background, panes, query, splits, frame);
    assert(clear + map =~= seq![PassAction::ClearQuads, PassAction::MapLayer]);
}

/// Seven parts, grouped from the right and from the left.
proof fn lemma_regroup<A>(
    a: Seq<A>,
    b: Seq<A>,
    c: Seq<A>,
    d: Seq<A>,
    e: Seq<A>,
    f: Seq<A>,
    g: Seq<A>,
)
    ensures
        a + (b + (c + (d + (e + (f + g))))) == a + b + c + d + e + f + g,
{
    lemma_concat_is_associative(a + b + c + d + e, f, g);
    lemma_concat_is_associative(a + b + c + d, e, f + g);
    lemma_concat_is_associative(a + b + c, d, e + (f + g));
    lemma_concat_is_associative(a + b, c, d + (e + (f + g)));
    lemma_concat_is_associative(a, b, c + (d + (e + (f + g))));
}

/// After `n` actions of what is left, the next one is under way.
proof fn lemma_pass_follows_plan(
    allow_images: AllowImage,
    start: PassView,
    loaded_any: bool,
    splits: Option<usize>,
    n: int,
) -> (state: PassView)
    requires
        on_course(start, splits),
        0 <= n < plan_from(start, loaded_any, splits).len(),
    ensures
        ({
            let plan = plan_from(start, loaded_any, splits);
            &&& crate::trace::run(
                pass_steps(allow_images),
                start,
                successes_of(plan.take(n), loaded_any, splits),
            ) == Some((state, plan.subrange(1, n + 1)))
            &&& on_course(state, splits)
            &&& state == start.at(state.phase)
            &&& plan_from(state, loaded_any, splits) == plan.skip(n)
        }),
    decreases n,
{
    let plan = plan_from(start, loaded_any, splits);
    let steps = pass_steps(allow_images);
    let events = successes_of(plan.take(n), loaded_any, splits);
    if n == 0 {
        assert(events.len() == 0);
        assert(plan.subrange(1, 1) =~= Seq::<PassAction>::empty());
        assert(plan.skip(0) =~= plan);
        start
    } else {
        let m = n - 1;
        let before = lemma_pass_follows_plan(allow_images, start, loaded_any, splits, m);
        let left = plan_from(before, loaded_any, splits);
        assert(current_action(before) == left[0] && left[0] == plan[m]);
        assert(rest_of(before, loaded_any, splits) =~= left.skip(1));
        assert(left.skip(1) =~= plan.skip(n));
        let success = success_of(plan[m], loaded_any, splits);
        lemma_pass_step(allow_images, before, loaded_any, splits);
        let (state, action) = pass_next(allow_images, before, success).unwrap();
        assert(plan_from(state, loaded_any, splits) == plan.skip(n));
        assert(action == plan.skip(n)[0]);
        let earlier = successes_of(plan.take(m), loaded_any, splits);
        crate::trace::lemma_run_push(steps, start, earlier, success);
        assert(events =~= earlier.push(success));
        assert(plan.subrange(1, n + 1) =~= plan.subrange(1, m + 1).push(action));
        state
    }
}

/// A pass begins, and then performs `n` actions of its plan, of which the first
/// clears the quads.
proof fn lemma_pass_from_begin(
    allow_images: AllowImage,
    start: PassView,
    panes: Vec<PaneInfo>,
    facts: PassFacts,
    loaded_any: bool,
    splits: Option<usize>,
    n: int,
) -> (state: PassView)
    requires
        start.phase == PassPhase::Idle,
        panes@.len() <= usize::MAX,
        0 < n < pass_plan(begun_pass(panes@, facts, allow_images), loaded_any, splits).len(),
    ensures
        ({
            let begun = begun_pass(panes@, facts, allow_images);
            let plan = pass_plan(begun, loaded_any, splits);
            &&& crate::trace::run(
                pass_steps(allow_images),
                start,
                pass_events(panes, facts, plan.take(n), loaded_any, splits),
            ) == Some((state, plan.take(n + 1)))
            &&& on_course(state, splits)
            &&& state == begun.at(state.phase)
            &&& plan_from(state, loaded_any, splits) == plan.skip(n)
        }),
{
    let begun = begun_pass(panes@, facts, allow_images);
    let plan = pass_plan(begun, loaded_any, splits);
    let steps = pass_steps(allow_images);
    let cleared = PassEvent::QuadsCleared { panes, facts };
    let none = Seq::<PassEvent>::empty();
    let begin = none.push(PassEvent::Begin);
    let known = begin.push(cleared);
    lemma_plan_from_start(begun, loaded_any, splits);
    let later = plan_from(begun, loaded_any, splits);
    assert(plan.skip(1) =~= later);
    let state = lemma_pass_follows_plan(allow_images, begun, loaded_any, splits, n - 1);
    crate::trace::lemma_run_push(steps, start, none, PassEvent::Begin);
    crate::trace::lemma_run_push(steps, start, begin, cleared);
    let first = Seq::<PassAction>::empty().push(PassAction::ClearQuads).push(PassAction::MapLayer);
    assert(crate::trace::run(steps, start, known) == Some((begun, first)));
    let rest = successes_of(later.take(n - 1), loaded_any, splits);
    crate::trace::lemma_run_concat(steps, start, known, rest);
    assert(plan.take(n).drop_first() =~= later.take(n - 1));
    assert(pass_events(panes, facts, plan.take(n), loaded_any, splits) =~= known + rest);
    assert(plan[0] == PassAction::ClearQuads && plan[1] == later[0]);
    assert(first + later.subrange(1, n) =~= plan.take(n + 1));
    assert(later.skip(n - 1) =~= plan.skip(n));
    state
}

/// As long as nothing fails, a pass performs its whole plan in order.
pub proof fn law_pass_performs_its_plan(
    allow_images: AllowImage,
    start: PassView,
    panes: Vec<PaneInfo>,
    facts: PassFacts,
    loaded_any: bool,
    splits: Option<usize>,
)
    requires
        start.phase == PassPhase::Idle,
        panes@.len() <= usize::MAX,
    ensures
        ({
            let begun = begun_pass(panes@, facts, allow_images);
            let plan = pass_plan(begun, loaded_any, splits);
            crate::trace::run(
                pass_steps(allow_images),
                start,
                pass_events(panes, facts, plan, loaded_any, splits),
            ) == Some((begun.at(PassPhase::Idle), plan.push(PassAction::Return(Ok(())))))
        }),
{
    let begun = begun_pass(panes@, facts, allow_images);
    let plan = pass_plan(begun, loaded_any, splits);
    let n = plan.len() - 1;
    let state = lemma_pass_from_begin(
        allow_images,
        start,
        panes,
        facts,
        loaded_any,
        splits,
        n,
    );
    let earlier = pass_events(panes, facts, plan.take(n), loaded_any, splits);
    let success = success_of(plan[n], loaded_any, splits);
    let left = plan_from(state, loaded_any, splits);
    assert(current_action(state) == left[0] && left[0] == plan[n]);
    lemma_pass_step(allow_images, state, loaded_any, splits);
    crate::trace::lemma_run_push(pass_steps(allow_images), start, earlier, success);
    assert(pass_events(panes, facts, plan, loaded_any, splits) =~= earlier.push(success));
    assert(plan.take(n + 1) =~= plan);
}

/// An action that fails ends the pass, with an error that says which one it
/// was.  What comes before it in the plan has been performed, and nothing
/// that comes after it, except that a bottom layer that is mapped is unmapped.
pub proof fn law_failure_ends_the_pass(
    allow_images: AllowImage,
    start: PassView,
    panes: Vec<PaneInfo>,
    facts: PassFacts,
    loaded_any: bool,
    splits: Option<usize>,
    n: int,
    fault: PassFault,
)
    requires
        start.phase == PassPhase::Idle,
        panes@.len() <= usize::MAX,
        ({
            let plan = pass_plan(begun_pass(panes@, facts, allow_images), loaded_any, splits);
            0 <= n < plan.len() && fault_of_action(plan[n]) == Some(fault)
        }),
    ensures
        ({
            let begun = begun_pass(panes@, facts, allow_images);
            let plan = pass_plan(begun, loaded_any, splits);
            crate::trace::run(
                pass_steps(allow_images),
                start,
                pass_events(panes, facts, plan.take(n), loaded_any, splits) + failure_events(
                    plan[n],
                ),
            ) == Some(
                (begun.at(PassPhase::Idle), plan.take(n + 1) + failure_actions(plan[n], fault)),
            )
        }),
{
    let begun = begun_pass(panes@, facts, allow_images);
    let plan = pass_plan(begun, loaded_any, splits);
    let state = lemma_pass_from_begin(
        allow_images,
        start,
        panes,
        facts,
        loaded_any,
        splits,
        n,
    );
    let earlier = pass_events(panes, facts, plan.take(n), loaded_any, splits);
    let left = plan_from(state, loaded_any, splits);
    assert(current_action(state) == left[0] && left[0] == plan[n]);
    lemma_pass_step(allow_images, state, loaded_any, splits);
    let steps = pass_steps(allow_images);
    let failed = earlier.push(PassEvent::Failed);
    crate::trace::lemma_run_push(steps, start, earlier, PassEvent::Failed);
    crate::trace::lemma_run_push(steps, start, failed, PassEvent::Done);
    let before = plan.take(n + 1);
    if needs_layer(plan[n]) {
        assert(earlier + failure_events(plan[n]) =~= failed.push(PassEvent::Done));
        assert(before + failure_actions(plan[n], fault) =~= before.push(
            PassAction::UnmapLayer,
        ).push(PassAction::Return(Err(fault))));
    } else {
        assert(earlier + failure_events(plan[n]) =~= failed);
        assert(before + failure_actions(plan[n], fault) =~= before.push(
            PassAction::Return(Err(fault)),
        ));
    }
}

/// The whole window is filled with a background color in an opaque window without a
/// background of its own, and where that background is allowed but not loaded
/// yet.  In any other case the color would be doubled up.
pub proof fn law_background_is_filled_at_most_once(state: PassView, loaded_any: bool)
    ensures
        ({
            let fill = fill_action(state);
            let plan = background_plan(state, loaded_any);
            &&& plan.contains(fill) <==> if state.facts.has_background {
                state.allow_images != AllowImage::No && !loaded_any
            } else {
                state.facts.opaque
            }
            &&& plan.contains(fill) ==> plan.last() == fill && !plan.drop_last().contains(fill)
            &&& forall|i: int|
                0 <= i < plan.len() && (#[trigger] plan[i]) is FillBackground ==> plan[i] == fill
        }),
{
    let fill = fill_action(state);
    let plan = background_plan(state, loaded_any);
    if plan.len() > 0 && plan.last() == fill {
        assert(plan[plan.len() - 1] == fill);
    }
}

/// That the pane at `i` is the first one that is active.
pub open spec fn is_first_active(panes: Seq<PaneInfo>, i: int) -> bool {
    &&& 0 <= i < panes.len()
    &&& panes[i].is_active
    &&& forall|j: int| 0 <= j < i ==> !(#[trigger] panes[j]).is_active
}

/// The background is scrolled with the first active pane: to the row that it is
/// scrolled to, whichever that is, or else to its physical top.  Without an
/// active pane it is not scrolled.
pub proof fn law_background_scrolls_with_the_first_active_pane(panes: Seq<PaneInfo>, i: int)
    ensures
        is_first_active(panes, i) ==> {
            &&& panes[i].viewport matches Some(top) ==> top_row(panes) == top
            &&& panes[i].viewport is None ==> top_row(panes) == panes[i].physical_top
        },
        (forall|j: int| 0 <= j < panes.len() ==> !(#[trigger] panes[j]).is_active) ==> top_row(
            panes,
        ) == 0,
    decreases panes.len(),
{
    if panes.len() > 0 && !panes[0].is_active {
        let rest = panes.drop_first();
        law_background_scrolls_with_the_first_active_pane(rest, i - 1);
        assert(forall|j: int| 0 <= j < rest.len() ==> rest[j] == panes[j + 1]);
        if is_first_active(panes, i) {
            assert(i > 0);
            assert(rest[i - 1] == panes[i]);
            assert(is_first_active(rest, i - 1));
        }
    } else if panes.len() > 0 && is_first_active(panes, i) && i > 0 {
        assert(!panes[0].is_active);
    }
}

/// Panes that are not active, and what a pane behind the first active one looks
/// like, do not matter to the background.
pub proof fn law_background_depends_on_one_pane(a: Seq<PaneInfo>, b: Seq<PaneInfo>, i: int, j: int)
    requires
        is_first_active(a, i),
        is_first_active(b, j),
        a[i] == b[j],
    ensures
        top_row(a) == top_row(b),
{
    law_background_scrolls_with_the_first_active_pane(a, i);
    law_background_scrolls_with_the_first_active_pane(b, j);
}

/// The color that the window is filled with is that of the pane where there is
/// only one, and that of the window otherwise.  It fills the window from corner
/// to corner.
pub proof fn law_fill_covers_the_window(state: PassView)
    ensures
        fill_action(state) matches PassAction::FillBackground { palette, buffer, rect } && {
            &&& palette == PaletteSource::OnlyPane <==> state.panes.len() == 1
            &&& buffer == 0
            &&& rect.x == 0 && rect.y == 0
            &&& rect.width == state.facts.pixel_width
            &&& rect.height == state.facts.pixel_height
        },
{
}

/// The actions of a plan that are wanted, in order.
pub open spec fn select(plan: Seq<PassAction>, wanted: spec_fn(PassAction) -> bool) -> Seq<
    PassAction,
>
    decreases plan.len(),
{
    if plan.len() == 0 {
        Seq::empty()
    } else {
        let before = select(plan.drop_last(), wanted);
        if wanted(plan.last()) {
            before.push(plan.last())
        } else {
            before
        }
    }
}

proof fn lemma_select_concat(
    first: Seq<PassAction>,
    second: Seq<PassAction>,
    wanted: spec_fn(PassAction) -> bool,
)
    ensures
        select(first + second, wanted) == select(first, wanted) + select(second, wanted),
    decreases second.len(),
{
    if second.len() == 0 {
        assert(first + second =~= first);
    } else {
        lemma_select_concat(first, second.drop_last(), wanted);
        assert((first + second).drop_last() =~= first + second.drop_last());
    }
    assert(select(first + second, wanted) =~= select(first, wanted) + select(second, wanted));
}

proof fn lemma_select_none(plan: Seq<PassAction>, wanted: spec_fn(PassAction) -> bool)
    requires
        forall|i: int| 0 <= i < plan.len() ==> !wanted(#[trigger] plan[i]),
    ensures
        select(plan, wanted) == Seq::<PassAction>::empty(),
    decreases plan.len(),
{
    if plan.len() > 0 {
        assert(!wanted(plan[plan.len() - 1]));
        let before = plan.drop_last();
        assert forall|i: int| 0 <= i < before.len() implies !wanted(#[trigger] before[i]) by {
            assert(before[i] == plan[i]);
        }
        lemma_select_none(before, wanted);
    }
}

proof fn lemma_select_all(plan: Seq<PassAction>, wanted: spec_fn(PassAction) -> bool)
    requires
        forall|i: int| 0 <= i < plan.len() ==> wanted(#[trigger] plan[i]),
    ensures
        select(plan, wanted) == plan,
    decreases plan.len(),
{
    if plan.len() > 0 {
        assert(wanted(plan[plan.len() - 1]));
        let before = plan.drop_last();
        assert forall|i: int| 0 <= i < before.len() implies wanted(#[trigger] before[i]) by {
            assert(before[i] == plan[i]);
        }
        lemma_select_all(before, wanted);
        assert(before.push(plan.last()) =~= plan);
    } else {
        assert(plan =~= Seq::<PassAction>::empty());
    }
}

/// Whether an action is about the given pane.
pub open spec fn about_pane(pane: int) -> spec_fn(PassAction) -> bool {
    |action: PassAction|
        match action {
            PassAction::UpdateTextCursor { pane: p } => p == pane,
            PassAction::AdviseFocus { pane: p } => p == pane,
            PassAction::PaintPane { pane: p } => p == pane,
            _ => false,
        }
}

/// Whether an action is about the background.
pub open spec fn about_background() -> spec_fn(PassAction) -> bool {
    |action: PassAction| action is RenderBackgrounds || action is FillBackground
}

/// Whether an action is about a split.
pub open spec fn about_splits() -> spec_fn(PassAction) -> bool {
    |action: PassAction| action is PaintSplit
}

/// Whether an action is about anything else.
pub open spec fn about_the_rest() -> spec_fn(PassAction) -> bool {
    |action: PassAction|
        match action {
            PassAction::RenderBackgrounds { .. } => false,
            PassAction::FillBackground { .. } => false,
            PassAction::UpdateTextCursor { .. } => false,
            PassAction::AdviseFocus { .. } => false,
            PassAction::PaintPane { .. } => false,
            PassAction::PaintSplit { .. } => false,
            _ => true,
        }
}

/// Whether an action is about some pane.
spec fn is_pane_action(action: PassAction) -> bool {
    action is UpdateTextCursor || action is AdviseFocus || action is PaintPane
}

proof fn lemma_panes_plan_actions(panes: Seq<PaneInfo>, focused: bool, first: int, i: int)
    requires
        0 <= first,
        0 <= i < panes_plan(panes, focused, first).len(),
    ensures
        is_pane_action(panes_plan(panes, focused, first)[i]),
    decreases panes.len() - first,
{
    if first < panes.len() {
        let part = pane_plan(panes, focused, first);
        if i >= part.len() {
            lemma_panes_plan_actions(panes, focused, first + 1, i - part.len());
        }
    }
}

/// What of a pass is wanted, part by part.
proof fn lemma_select_pass(
    state: PassView,
    loaded_any: bool,
    splits: Option<usize>,
    wanted: spec_fn(PassAction) -> bool,
)
    ensures
        select(pass_plan(state, loaded_any, splits), wanted) == select(
            seq![PassAction::ClearQuads, PassAction::MapLayer],
            wanted,
        ) + select(background_plan(state, loaded_any), wanted) + select(
            panes_plan(state.panes, state.facts.focused, 0),
            wanted,
        ) + select(seq![PassAction::QuerySplits], wanted) + select(splits_plan(0, splits), wanted)
            + select(frame_plan(state.facts), wanted),
{
    let a = seq![PassAction::ClearQuads, PassAction::MapLayer];
    let b = background_plan(state, loaded_any);
    let c = panes_plan(state.panes, state.facts.focused, 0);
    let d = seq![PassAction::QuerySplits];
    let e = splits_plan(0, splits);
    let f = frame_plan(state.facts);
    lemma_select_concat(a, b, wanted);
    lemma_select_concat(a + b, c, wanted);
    lemma_select_concat(a + b + c, d, wanted);
    lemma_select_concat(a + b + c + d, e, wanted);
    lemma_select_concat(a + b + c + d + e, f, wanted);
}

/// Nothing is added by parts in which nothing is wanted.
proof fn lemma_only_one_part<A>(
    a: Seq<A>,
    b: Seq<A>,
    c: Seq<A>,
    d: Seq<A>,
    e: Seq<A>,
    f: Seq<A>,
)
    ensures
        a.len() == 0 && c.len() == 0 && d.len() == 0 && e.len() == 0 && f.len() == 0 ==> a + b + c
            + d + e + f == b,
        a.len() == 0 && b.len() == 0 && d.len() == 0 && e.len() == 0 && f.len() == 0 ==> a + b + c
            + d + e + f == c,
        a.len() == 0 && b.len() == 0 && c.len() == 0 && d.len() == 0 && f.len() == 0 ==> a + b + c
            + d + e + f == e,
        b.len() == 0 && c.len() == 0 && e.len() == 0 ==> a + b + c + d + e + f == a + d + f,
{
    let whole = a + b + c + d + e + f;
    if a.len() == 0 && c.len() == 0 && d.len() == 0 && e.len() == 0 && f.len() == 0 {
        assert(whole =~= b);
    }
    if a.len() == 0 && b.len() == 0 && d.len() == 0 && e.len() == 0 && f.len() == 0 {
        assert(whole =~= c);
    }
    if a.len() == 0 && b.len() == 0 && c.len() == 0 && d.len() == 0 && f.len() == 0 {
        assert(whole =~= e);
    }
    if b.len() == 0 && c.len() == 0 && e.len() == 0 {
        assert(whole =~= a + d + f);
    }
}

/// What a pass does about the background: the background of the window is
/// rendered where there is one and images are allowed, scrolled to the row at
/// the top.  The window is filled with a color where it is opaque and has no
/// background of its own, or where that is allowed but not loaded.
pub proof fn law_pass_paints_the_background(
    state: PassView,
    loaded_any: bool,
    splits: Option<usize>,
)
    ensures
        ({
            let rendered = state.facts.has_background && state.allow_images != AllowImage::No;
            let filled = if state.facts.has_background {
                rendered && !loaded_any
            } else {
                state.facts.opaque
            };
            let done = select(pass_plan(state, loaded_any, splits), about_background());
            &&& done.len() == (if rendered {
                1nat
            } else {
                0
            }) + (if filled {
                1nat
            } else {
                0
            })
            &&& rendered ==> done[0] == (PassAction::RenderBackgrounds {
                top: top_row(state.panes),
            })
            &&& filled ==> done.last() == fill_action(state)
        }),
{
    let wanted = about_background();
    let plan = background_plan(state, loaded_any);
    let panes = panes_plan(state.panes, state.facts.focused, 0);
    lemma_select_pass(state, loaded_any, splits, wanted);
    lemma_select_none(seq![PassAction::ClearQuads, PassAction::MapLayer], wanted);
    lemma_select_all(plan, wanted);
    assert forall|i: int| 0 <= i < panes.len() implies !wanted(#[trigger] panes[i]) by {
        lemma_panes_plan_actions(state.panes, state.facts.focused, 0, i);
    }
    lemma_select_none(panes, wanted);
    lemma_select_none(seq![PassAction::QuerySplits], wanted);
    lemma_select_none(splits_plan(0, splits), wanted);
    lemma_select_none(frame_plan(state.facts), wanted);
    lemma_only_one_part(
        Seq::<PassAction>::empty(),
        plan,
        Seq::empty(),
        Seq::empty(),
        Seq::empty(),
        Seq::empty(),
    );
}

/// What is done about one pane among those from `first` on.
proof fn lemma_select_pane(panes: Seq<PaneInfo>, focused: bool, first: int, pane: int)
    requires
        0 <= first,
        0 <= pane < panes.len() <= usize::MAX,
    ensures
        select(panes_plan(panes, focused, first), about_pane(pane)) == if first <= pane {
            pane_plan(panes, focused, pane)
        } else {
            Seq::empty()
        },
    decreases panes.len() - first,
{
    let wanted = about_pane(pane);
    if first < panes.len() {
        let part = pane_plan(panes, focused, first);
        let later = panes_plan(panes, focused, first + 1);
        lemma_select_pane(panes, focused, first + 1, pane);
        lemma_select_concat(part, later, wanted);
        if first == pane {
            lemma_select_all(part, wanted);
            assert(part + Seq::<PassAction>::empty() =~= part);
        } else {
            lemma_select_none(part, wanted);
            assert(Seq::<PassAction>::empty() + select(later, wanted) =~= select(later, wanted));
        }
    } else {
        lemma_select_none(panes_plan(panes, focused, first), wanted);
    }
}

/// What a pass does about a pane: it is painted once.  Before that, where it is
/// active, the input method is told where its cursor is, and where the window
/// has the focus too, so is the pane.
pub proof fn law_pass_paints_each_pane_once(
    state: PassView,
    loaded_any: bool,
    splits: Option<usize>,
    pane: usize,
)
    requires
        pane < state.panes.len() <= usize::MAX,
    ensures
        ({
            let done = select(pass_plan(state, loaded_any, splits), about_pane(pane as int));
            let active = state.panes[pane as int].is_active;
            &&& done.last() == (PassAction::PaintPane { pane })
            &&& active ==> done[0] == (PassAction::UpdateTextCursor { pane })
            &&& active && state.facts.focused ==> done[1] == (PassAction::AdviseFocus { pane })
            &&& done.len() == if !active {
                1nat
            } else if state.facts.focused {
                3
            } else {
                2
            }
        }),
{
    let wanted = about_pane(pane as int);
    let panes = panes_plan(state.panes, state.facts.focused, 0);
    lemma_select_pass(state, loaded_any, splits, wanted);
    lemma_select_none(seq![PassAction::ClearQuads, PassAction::MapLayer], wanted);
    lemma_select_none(background_plan(state, loaded_any), wanted);
    lemma_select_pane(state.panes, state.facts.focused, 0, pane as int);
    lemma_select_none(seq![PassAction::QuerySplits], wanted);
    lemma_select_none(splits_plan(0, splits), wanted);
    lemma_select_none(frame_plan(state.facts), wanted);
    lemma_only_one_part(
        Seq::<PassAction>::empty(),
        Seq::empty(),
        select(panes, wanted),
        Seq::empty(),
        Seq::empty(),
        Seq::empty(),
    );
}

/// What a pass does about the splits: it paints all of them, each one once and
/// in order.
pub proof fn law_pass_paints_each_split_once(
    state: PassView,
    loaded_any: bool,
    splits: Option<usize>,
)
    ensures
        ({
            let done = select(pass_plan(state, loaded_any, splits), about_splits());
            &&& splits matches Some(count) ==> done.len() == count
            &&& splits is None ==> done.len() == 0
            &&& forall|i: int|
                0 <= i < done.len() ==> #[trigger] done[i] == (PassAction::PaintSplit {
                    split: i as usize,
                })
        }),
{
    let wanted = about_splits();
    let panes = panes_plan(state.panes, state.facts.focused, 0);
    lemma_select_pass(state, loaded_any, splits, wanted);
    lemma_select_none(seq![PassAction::ClearQuads, PassAction::MapLayer], wanted);
    lemma_select_none(background_plan(state, loaded_any), wanted);
    assert forall|i: int| 0 <= i < panes.len() implies !wanted(#[trigger] panes[i]) by {
        lemma_panes_plan_actions(state.panes, state.facts.focused, 0, i);
    }
    lemma_select_none(panes, wanted);
    lemma_select_none(seq![PassAction::QuerySplits], wanted);
    lemma_select_all(splits_plan(0, splits), wanted);
    lemma_select_none(frame_plan(state.facts), wanted);
    lemma_only_one_part(
        Seq::<PassAction>::empty(),
        Seq::empty(),
        Seq::empty(),
        Seq::empty(),
        splits_plan(0, splits),
        Seq::empty(),
    );
}

/// What else a pass does, in order: it clears the quads, maps the bottom layer,
/// finds out about splits, paints the tab bar where that is shown and the
/// borders, unmaps the layer, and paints the modal.
pub proof fn law_pass_does_the_rest_once(state: PassView, loaded_any: bool, splits: Option<usize>)
    ensures
        select(pass_plan(state, loaded_any, splits), about_the_rest()) == seq![
            PassAction::ClearQuads,
            PassAction::MapLayer,
            PassAction::QuerySplits,
        ] + (if state.facts.show_tab_bar {
            seq![PassAction::PaintTabBar]
        } else {
            Seq::empty()
        }) + seq![
            PassAction::PaintWindowBorders,
            PassAction::UnmapLayer,
            PassAction::PaintModal,
        ],
{
    let wanted = about_the_rest();
    let clear = seq![PassAction::ClearQuads, PassAction::MapLayer];
    let query = seq![PassAction::QuerySplits];
    let frame = frame_plan(state.facts);
    let panes = panes_plan(state.panes, state.facts.focused, 0);
    lemma_select_pass(state, loaded_any, splits, wanted);
    lemma_select_all(clear, wanted);
    lemma_select_none(background_plan(state, loaded_any), wanted);
    assert forall|i: int| 0 <= i < panes.len() implies !wanted(#[trigger] panes[i]) by {
        lemma_panes_plan_actions(state.panes, state.facts.focused, 0, i);
    }
    lemma_select_none(panes, wanted);
    lemma_select_all(query, wanted);
    lemma_select_none(splits_plan(0, splits), wanted);
    lemma_select_all(frame, wanted);
    lemma_only_one_part(clear, Seq::empty(), Seq::empty(), query, Seq::empty(), frame);
    assert(clear + query + frame =~= seq![
        PassAction::ClearQuads,
        PassAction::MapLayer,
        PassAction::QuerySplits,
    ] + (if state.facts.show_tab_bar {
        seq![PassAction::PaintTabBar]
    } else {
        Seq::empty()
    }) + seq![PassAction::PaintWindowBorders, PassAction::UnmapLayer, PassAction::PaintModal]);
}

/// What an action comes after: the background is below the panes, the panes
/// below the splits, and so on.
pub open spec fn stage(action: PassAction) -> int {
    match action {
        PassAction::ClearQuads => 0,
        PassAction::MapLayer => 1,
        PassAction::RenderBackgrounds { .. } => 2,
        PassAction::FillBackground { .. } => 3,
        PassAction::UpdateTextCursor { .. } => 4,
        PassAction::AdviseFocus { .. } => 4,
        PassAction::PaintPane { .. } => 4,
        PassAction::QuerySplits => 5,
        PassAction::PaintSplit { .. } => 6,
        PassAction::PaintTabBar => 7,
        PassAction::PaintWindowBorders => 8,
        PassAction::UnmapLayer => 9,
        PassAction::PaintModal => 10,
        PassAction::Return(_) => 11,
    }
}

/// The pane or split that an action is about; zero for any other.
pub open spec fn place(action: PassAction) -> int {
    match action {
        PassAction::UpdateTextCursor { pane } => pane as int,
        PassAction::AdviseFocus { pane } => pane as int,
        PassAction::PaintPane { pane } => pane as int,
        PassAction::PaintSplit { split } => split as int,
        _ => 0,
    }
}

/// Whether one action may come before another: at an earlier stage, or at the
/// same one for a pane or split that is no later.
pub open spec fn may_precede(a: PassAction, b: PassAction) -> bool {
    stage(a) < stage(b) || (stage(a) == stage(b) && place(a) <= place(b))
}

/// That every action may come before all those that come after it.
pub open spec fn in_order(plan: Seq<PassAction>) -> bool {
    forall|i: int, j: int|
        0 <= i < j < plan.len() ==> may_precede(#[trigger] plan[i], #[trigger] plan[j])
}

/// That a plan stays within some stages.
spec fn within(plan: Seq<PassAction>, low: int, high: int) -> bool {
    forall|i: int| 0 <= i < plan.len() ==> low <= stage(#[trigger] plan[i]) <= high
}

proof fn lemma_in_order_concat(
    first: Seq<PassAction>,
    second: Seq<PassAction>,
    low: int,
    middle: int,
    high: int,
)
    requires
        in_order(first),
        in_order(second),
        within(first, low, middle),
        within(second, middle + 1, high),
        low <= middle < high,
    ensures
        in_order(first + second),
        within(first + second, low, high),
{
    let plan = first + second;
    let size = first.len();
    assert forall|i: int, j: int| 0 <= i < j < plan.len() implies may_precede(
        #[trigger] plan[i],
        #[trigger] plan[j],
    ) by {
        if j < size {
            assert(plan[i] == first[i] && plan[j] == first[j]);
        } else if i >= size {
            assert(plan[i] == second[i - size] && plan[j] == second[j - size]);
        } else {
            assert(plan[i] == first[i] && plan[j] == second[j - size]);
        }
    }
    assert forall|i: int| 0 <= i < plan.len() implies low <= stage(#[trigger] plan[i]) <= high by {
        if i < size {
            assert(plan[i] == first[i]);
        } else {
            assert(plan[i] == second[i - size]);
        }
    }
}

proof fn lemma_panes_in_order(panes: Seq<PaneInfo>, focused: bool, first: int)
    requires
        0 <= first,
        panes.len() <= usize::MAX,
    ensures
        in_order(panes_plan(panes, focused, first)),
        within(panes_plan(panes, focused, first), 4, 4),
        forall|i: int|
            0 <= i < panes_plan(panes, focused, first).len() ==> place(
                #[trigger] panes_plan(panes, focused, first)[i],
            ) >= first,
    decreases panes.len() - first,
{
    if first < panes.len() {
        let part = pane_plan(panes, focused, first);
        let later = panes_plan(panes, focused, first + 1);
        let plan = panes_plan(panes, focused, first);
        let size = part.len();
        lemma_panes_in_order(panes, focused, first + 1);
        assert forall|i: int| 0 <= i < plan.len() implies stage(#[trigger] plan[i]) == 4 && place(
            plan[i],
        ) >= first by {
            if i < size {
                assert(plan[i] == part[i]);
            } else {
                assert(plan[i] == later[i - size]);
            }
        }
        assert forall|i: int, j: int| 0 <= i < j < plan.len() implies may_precede(
            #[trigger] plan[i],
            #[trigger] plan[j],
        ) by {
            if j < size {
                assert(plan[i] == part[i] && plan[j] == part[j]);
            } else if i >= size {
                assert(plan[i] == later[i - size] && plan[j] == later[j - size]);
            } else {
                assert(plan[i] == part[i] && plan[j] == later[j - size]);
            }
        }
    }
}

/// A pass goes through its stages in order: first the background, then the
/// panes one after the other, then the splits one after the other, the tab bar,
/// the borders, and the modal on top of it all.
pub proof fn law_pass_goes_from_bottom_to_top(
    state: PassView,
    loaded_any: bool,
    splits: Option<usize>,
)
    requires
        state.panes.len() <= usize::MAX,
    ensures
        in_order(pass_plan(state, loaded_any, splits)),
{
    let a = seq![PassAction::ClearQuads, PassAction::MapLayer];
    let b = background_plan(state, loaded_any);
    let c = panes_plan(state.panes, state.facts.focused, 0);
    let d = seq![PassAction::QuerySplits];
    let e = splits_plan(0, splits);
    let f = frame_plan(state.facts);
    lemma_panes_in_order(state.panes, state.facts.focused, 0);
    lemma_in_order_concat(a, b, 0, 1, 3);
    lemma_in_order_concat(a + b, c, 0, 3, 4);
    lemma_in_order_concat(a + b + c, d, 0, 4, 5);
    lemma_in_order_concat(a + b + c + d, e, 0, 5, 6);
    lemma_in_order_concat(a + b + c + d + e, f, 0, 6, 10);
}

/// What an error says failed is what did.
pub proof fn law_fault_names_the_action(action: PassAction)
    ensures
        fault_of_action(action) == match action {
            PassAction::MapLayer => Some(PassFault::MapLayer),
            PassAction::RenderBackgrounds { .. } => Some(PassFault::RenderBackgrounds),
            PassAction::FillBackground { .. } => Some(PassFault::FillBackground),
            PassAction::PaintPane { .. } => Some(PassFault::PaintPane),
            PassAction::PaintSplit { .. } => Some(PassFault::PaintSplit),
            PassAction::PaintTabBar => Some(PassFault::PaintTabBar),
            PassAction::PaintWindowBorders => Some(PassFault::PaintWindowBorders),
            PassAction::PaintModal => Some(PassFault::PaintModal),
            _ => None,
        },
{
}

/// Whether the bottom layer is mapped after `events`, by what came of the
/// actions that map and unmap it.
pub open spec fn layer_is_mapped(events: Seq<PassEvent>, actions: Seq<PassAction>) -> bool
    decreases events.len(),
{
    if events.len() < 2 {
        false
    } else {
        let asked = actions[events.len() - 2];
        if asked == PassAction::MapLayer && events.last() is Done {
            true
        } else if asked == PassAction::UnmapLayer && events.last() is Done {
            false
        } else {
            layer_is_mapped(events.drop_last(), actions.drop_last())
        }
    }
}

/// Whether an action paints into the bottom layer.
pub open spec fn paints_layer(action: PassAction) -> bool {
    match action {
        PassAction::RenderBackgrounds { .. } => true,
        PassAction::FillBackground { .. } => true,
        PassAction::PaintPane { .. } => true,
        PassAction::PaintSplit { .. } => true,
        PassAction::PaintTabBar => true,
        PassAction::PaintWindowBorders => true,
        _ => false,
    }
}

/// What the phase of a pass says of its last action and of the layer.
spec fn layer_invariant(
    end: PassView,
    events: Seq<PassEvent>,
    actions: Seq<PassAction>,
) -> bool {
    let mapped = layer_is_mapped(events, actions);
    &&& end.phase != PassPhase::Idle ==> actions.len() > 0
    &&& match end.phase {
        PassPhase::Idle => !mapped && (actions.len() == 0 || actions.last() is Return),
        PassPhase::ClearingQuads => !mapped && actions.last() == PassAction::ClearQuads,
        PassPhase::MappingLayer => !mapped && actions.last() == PassAction::MapLayer,
        PassPhase::PaintingModal => !mapped && actions.last() == PassAction::PaintModal,
        _ => mapped && actions.last() == current_action(end),
    }
}

proof fn lemma_layer_invariant(allow_images: AllowImage, start: PassView, events: Seq<PassEvent>)
    requires
        start.phase == PassPhase::Idle,
    ensures
        crate::trace::run(pass_steps(allow_images), start, events) matches Some((end, actions))
            ==> layer_invariant(end, events, actions) && actions.len() == events.len(),
    decreases events.len(),
{
    if events.len() > 0 {
        let before = events.drop_last();
        lemma_layer_invariant(allow_images, start, before);
        if let Some((state, earlier)) = crate::trace::run(pass_steps(allow_images), start, before) {
            lemma_layer_step(allow_images, state, events, earlier);
        }
    }
}

proof fn lemma_layer_step(
    allow_images: AllowImage,
    state: PassView,
    events: Seq<PassEvent>,
    earlier: Seq<PassAction>,
)
    requires
        events.len() > 0,
        earlier.len() == events.len() - 1,
        layer_invariant(state, events.drop_last(), earlier),
    ensures
        pass_next(allow_images, state, events.last()) matches Some((end, action))
            ==> layer_invariant(end, events, earlier.push(action)),
{
    if let Some((end, action)) = pass_next(allow_images, state, events.last()) {
        let actions = earlier.push(action);
        assert(actions.drop_last() =~= earlier);
        if events.len() > 1 {
            assert(actions[events.len() - 2] == earlier.last());
        }
    }
}

/// The bottom layer is painted into only while it is mapped, the modal is
/// painted once it is unmapped, and however a pass ends, with or without
/// success, the layer does not stay mapped.
pub proof fn law_layer_does_not_stay_mapped(
    allow_images: AllowImage,
    start: PassView,
    events: Seq<PassEvent>,
    end: PassView,
    actions: Seq<PassAction>,
)
    requires
        start.phase == PassPhase::Idle,
        events.len() > 0,
        crate::trace::run(pass_steps(allow_images), start, events) == Some((end, actions)),
    ensures
        actions.last() is Return ==> !layer_is_mapped(events, actions),
        actions.last() == PassAction::PaintModal ==> !layer_is_mapped(events, actions),
        paints_layer(actions.last()) ==> layer_is_mapped(events, actions),
{
    lemma_layer_invariant(allow_images, start, events);
}

/// Whether an event is what can come of an action.
pub open spec fn answers(action: PassAction, event: PassEvent) -> bool {
    match action {
        PassAction::ClearQuads => event is QuadsCleared,
        PassAction::RenderBackgrounds { .. } => event is BackgroundsRendered || event is Failed,
        PassAction::QuerySplits => event is Splits,
        PassAction::UpdateTextCursor { .. } => event is Done,
        PassAction::AdviseFocus { .. } => event is Done,
        PassAction::UnmapLayer => event is Done,
        PassAction::Return(_) => event is Begin,
        _ => event is Done || event is Failed,
    }
}

/// After each action a pass waits for what can come of it, and for nothing
/// else.
pub proof fn law_pass_waits_for_what_comes_of_its_action(
    allow_images: AllowImage,
    state: PassView,
    event: PassEvent,
    later: PassEvent,
)
    ensures
        pass_next(allow_images, state, event) matches Some((next, action)) ==> (pass_next(
            allow_images,
            next,
            later,
        ) is Some <==> answers(action, later)),
{
}

} // verus!
