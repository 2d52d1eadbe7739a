//! Painting the window: passes over its contents until one succeeds, then the
//! frame is drawn, then the next animation frame is seen to.

use crate::frame_timing::duration_since;
use vstd::prelude::*;

verus! {

/// How often the frame rate is measured.
pub const FPS_CHECK_INTERVAL: u128 = 1_000_000_000;

/// How images are rendered.
#[derive(Debug, Clone, Copy, PartialEq, Eq, Structural)]
pub enum AllowImage {
    /// In full size.
    Yes,
    /// Scaled down by a factor.
    Scale(usize),
    /// Not at all.
    No,
}

/// So many frames were painted in so much time.
#[derive(Debug, Clone, Copy, PartialEq, Eq, Structural)]
pub struct FpsSample {
    pub frames: usize,
    pub duration: u128,
}

/// How a paint pass ended.
#[derive(Debug, Clone, Copy, PartialEq, Eq, Structural)]
pub enum PassOutcome {
    /// Everything was painted.
    Painted,
    /// The texture atlas of size `current_size` is full.  `size` is the size
    /// that would do, where there is one.
    OutOfTextureSpace { size: Option<usize>, current_size: usize },
    /// The fonts have changed, so cached shapes are of no use.
    ClearShapeCache,
    /// Anything else went wrong.
    Failed,
}

/// Whether the quads that were set aside sufficed for a paint pass.
#[derive(Debug, Clone, Copy, PartialEq, Eq, Structural)]
pub enum QuadCheck {
    /// They did.
    Sufficient,
    /// They did not, and there are more now.
    AllocatedMore,
    /// They did not, and there was no way to get more.
    Failed,
}

/// What to do next in order to paint the window.
#[derive(Debug, Clone, Copy, PartialEq, Eq, Structural)]
pub enum PaintAction {
    /// Run a paint pass.
    RunPass,
    /// Find out whether more quads had to be allocated.
    CheckQuads,
    /// Replace the texture atlas by an empty one of the given size.
    RecreateAtlas { size: usize },
    /// Invalidate the tab bar and the modal, which hold on to textures.
    Invalidate,
    /// Clear the shape caches.
    ClearShapeCaches,
    /// Draw the frame.
    CallDraw,
    /// Add the time that the paint took to the statistics.
    RecordPaint { duration: u128 },
    /// Set a timer that reports to `TermWindow::animation_fired`.
    ScheduleAnimation { due: u64 },
    /// The window is painted.
    Return,
}

/// What to do once the animation timer went off.
#[derive(Debug, Clone, Copy, PartialEq, Eq, Structural)]
pub enum AnimationAction {
    /// Invalidate the window, so that it is painted again.
    InvalidateWindow,
}

/// What came of a `PaintAction`, or the request to paint.
#[derive(Debug, Clone, Copy, PartialEq, Eq, Structural)]
pub enum PaintEvent {
    /// The window is to be painted.
    Begin { now: u64 },
    /// `RunPass` is over.  `has_animation` is when the next frame of an
    /// animation is due, as far as this paint has come across one.
    PassEnded { outcome: PassOutcome, has_animation: Option<u64> },
    /// The answer to `CheckQuads`.
    QuadsChecked(QuadCheck),
    /// `RecreateAtlas` is over.
    AtlasRecreated { ok: bool },
    /// `Invalidate`, `ClearShapeCaches` or `ScheduleAnimation` is over.
    Done,
    /// `CallDraw` is over, with or without success.
    Drawn { now: u64 },
    /// `RecordPaint` is over.
    Recorded { focused: bool },
}

/// What follows once the tab bar and the modal are invalidated.
#[derive(Debug, Clone, Copy, PartialEq, Eq, Structural)]
pub enum AfterInvalidate {
    RunPass,
    ClearShapeCaches,
    CallDraw,
}

/// Where a paint that began at `start` stands: the action that is under way.
#[derive(Debug, Clone, Copy, PartialEq, Eq, Structural)]
pub enum PaintPhase {
    /// Nothing is being painted.
    Idle,
    Passing { start: u64, first: bool },
    CheckingQuads { start: u64 },
    RecreatingAtlas { start: u64 },
    Invalidating { start: u64, then: AfterInvalidate },
    ClearingShapeCaches { start: u64 },
    Drawing { start: u64 },
    RecordingPaint,
    SchedulingAnimation,
}

/// The paint that is under way, and what is kept from one to the next.
#[derive(Debug, Clone, Copy, PartialEq, Eq, Structural)]
pub struct PaintState {
    pub phase: PaintPhase,
    /// Paints since the frame rate was measured.
    pub num_frames: usize,
    pub last_fps_check_time: u64,
    /// The last measurement of the frame rate.
    pub fps: Option<FpsSample>,
    pub allow_images: AllowImage,
    /// Counts how often the shape caches were cleared.
    pub shape_generation: usize,
    /// When the next frame of an animation is due.
    pub has_animation: Option<u64>,
    /// When the animation timer goes off.
    pub scheduled_animation: Option<u64>,
    /// How long the last paint took.
    pub last_frame_duration: u128,
}

impl PaintState {
    /// The counter that an event adds to, if any, has room for one more.
    pub open spec fn can_count(self, event: PaintEvent) -> bool {
        match (self.phase, event) {
            (PaintPhase::Idle, PaintEvent::Begin { .. }) => self.num_frames < usize::MAX,
            (
                PaintPhase::Invalidating { then: AfterInvalidate::ClearShapeCaches, .. },
                PaintEvent::Done,
            ) => self.shape_generation < usize::MAX,
            _ => true,
        }
    }

    /// Nothing has been painted.
    pub open spec fn initial(now: u64) -> PaintState {
        PaintState {
            phase: PaintPhase::Idle,
            num_frames: 0,
            last_fps_check_time: now,
            fps: None,
            allow_images: AllowImage::Yes,
            shape_generation: 0,
            has_animation: None,
            scheduled_animation: None,
            last_frame_duration: 0,
        }
    }

    /// The same in another phase.
    pub open spec fn at(self, phase: PaintPhase) -> PaintState {
        PaintState { phase, ..self }
    }
}

/// The next more modest way to render images, where there is one.
pub open spec fn lower_images(images: AllowImage) -> Option<AllowImage> {
    match images {
        AllowImage::Yes => Some(AllowImage::Scale(2)),
        AllowImage::Scale(factor) => if factor == 2 {
            Some(AllowImage::Scale(4))
        } else if factor == 4 {
            Some(AllowImage::Scale(8))
        } else if factor == 8 {
            Some(AllowImage::No)
        } else {
            None
        },
        AllowImage::No => None,
    }
}

/// A paint begins: images are allowed again, nothing is animated as far as is
/// known, and the frame rate is measured where that is due.
pub open spec fn begin_paint(state: PaintState, now: u64) -> PaintState {
    let fresh = PaintState {
        phase: PaintPhase::Passing { start: now, first: true },
        has_animation: None,
        allow_images: AllowImage::Yes,
        ..state
    };
    let frames = (state.num_frames + 1) as usize;
    let duration = crate::frame_timing::time_between(state.last_fps_check_time, now);
    if duration > FPS_CHECK_INTERVAL {
        PaintState {
            num_frames: 0,
            last_fps_check_time: now,
            fps: Some(FpsSample { frames, duration }),
            ..fresh
        }
    } else {
        PaintState { num_frames: frames, ..fresh }
    }
}

/// The frame is drawn, and that is how long the paint took.
pub open spec fn after_draw(state: PaintState, start: u64, now: u64) -> (PaintState, PaintAction) {
    let duration = crate::frame_timing::time_between(start, now);
    (
        PaintState {
            phase: PaintPhase::RecordingPaint,
            last_frame_duration: duration,
            ..state
        },
        PaintAction::RecordPaint { duration },
    )
}

/// What the paint took is recorded.  Where the window has the focus and
/// something is animated, a timer has to go off when its next frame is due,
/// unless one goes off before anyway.  In that case the earlier time is taken
/// off the record, so that the paint it leads to sets the next timer.
pub open spec fn after_record(state: PaintState, focused: bool) -> (PaintState, PaintAction) {
    let done = state.at(PaintPhase::Idle);
    match state.has_animation {
        Some(due) if focused => if state.scheduled_animation matches Some(prior) && prior <= due {
            (PaintState { scheduled_animation: None, ..done }, PaintAction::Return)
        } else {
            (
                PaintState {
                    phase: PaintPhase::SchedulingAnimation,
                    scheduled_animation: Some(due),
                    ..state
                },
                PaintAction::ScheduleAnimation { due },
            )
        },
        _ => (done, PaintAction::Return),
    }
}

/// What is to be done about the outcome of a paint pass.  An atlas that is
/// full is replaced by one of its own size after the first pass, and by one
/// that is large enough after a later one.
pub open spec fn after_pass(state: PaintState, start: u64, first: bool, outcome: PassOutcome) -> (
    PaintState,
    PaintAction,
) {
    match outcome {
        PassOutcome::Painted => (
            state.at(PaintPhase::CheckingQuads { start }),
            PaintAction::CheckQuads,
        ),
        PassOutcome::OutOfTextureSpace { size: Some(size), current_size } => (
            state.at(PaintPhase::RecreatingAtlas { start }),
            PaintAction::RecreateAtlas {
                size: if first {
                    current_size
                } else {
                    size
                },
            },
        ),
        PassOutcome::ClearShapeCache => (
            state.at(PaintPhase::Invalidating { start, then: AfterInvalidate::ClearShapeCaches }),
            PaintAction::Invalidate,
        ),
        _ => (state.at(PaintPhase::Drawing { start }), PaintAction::CallDraw),
    }
}

/// The next state and the action to perform, or `None` where the phase does
/// not wait for the event.
pub open spec fn paint_next(state: PaintState, event: PaintEvent) -> Option<
    (PaintState, PaintAction),
> {
    match (state.phase, event) {
        (PaintPhase::Idle, PaintEvent::Begin { now }) => Some(
            (begin_paint(state, now), PaintAction::RunPass),
        ),
        (
            PaintPhase::Passing { start, first },
            PaintEvent::PassEnded { outcome, has_animation },
        ) => Some(after_pass(PaintState { has_animation, ..state }, start, first, outcome)),
        (PaintPhase::CheckingQuads { start }, PaintEvent::QuadsChecked(check)) => Some(
            match check {
                QuadCheck::AllocatedMore => (
                    state.at(PaintPhase::Invalidating { start, then: AfterInvalidate::RunPass }),
                    PaintAction::Invalidate,
                ),
                _ => (state.at(PaintPhase::Drawing { start }), PaintAction::CallDraw),
            },
        ),
        (PaintPhase::RecreatingAtlas { start }, PaintEvent::AtlasRecreated { ok }) => {
            let retry = state.at(
                PaintPhase::Invalidating { start, then: AfterInvalidate::RunPass },
            );
            Some(
                (
                    if ok {
                        retry
                    } else {
                        match lower_images(state.allow_images) {
                            Some(allow_images) => PaintState { allow_images, ..retry },
                            None => state.at(
                                PaintPhase::Invalidating { start, then: AfterInvalidate::CallDraw },
                            ),
                        }
                    },
                    PaintAction::Invalidate,
                ),
            )
        },
        (PaintPhase::Invalidating { start, then }, PaintEvent::Done) => Some(
            match then {
                AfterInvalidate::RunPass => (
                    state.at(PaintPhase::Passing { start, first: false }),
                    PaintAction::RunPass,
                ),
                AfterInvalidate::ClearShapeCaches => (
                    PaintState {
                        phase: PaintPhase::ClearingShapeCaches { start },
                        shape_generation: (state.shape_generation + 1) as usize,
                        ..state
                    },
                    PaintAction::ClearShapeCaches,
                ),
                AfterInvalidate::CallDraw => (
                    state.at(PaintPhase::Drawing { start }),
                    PaintAction::CallDraw,
                ),
            },
        ),
        (PaintPhase::ClearingShapeCaches { start }, PaintEvent::Done) => Some(
            (state.at(PaintPhase::Passing { start, first: false }), PaintAction::RunPass),
        ),
        (PaintPhase::Drawing { start }, PaintEvent::Drawn { now }) => Some(
            after_draw(state, start, now),
        ),
        (PaintPhase::RecordingPaint, PaintEvent::Recorded { focused }) => Some(
            after_record(state, focused),
        ),
        (PaintPhase::SchedulingAnimation, PaintEvent::Done) => Some(
            (state.at(PaintPhase::Idle), PaintAction::Return),
        ),
        _ => None,
    }
}

impl AllowImage {
    /// The next more modest way to render images, where there is one.
    pub fn lower(self) -> (lower: Option<AllowImage>)
        ensures
            lower == lower_images(self),
    {
        match self {
            AllowImage::Yes => Some(AllowImage::Scale(2)),
            AllowImage::Scale(2) => Some(AllowImage::Scale(4)),
            AllowImage::Scale(4) => Some(AllowImage::Scale(8)),
            AllowImage::Scale(8) => Some(AllowImage::No),
            _ => None,
        }
    }
}

impl PaintState {
    /// Nothing has been painted; the frame rate is measured from `now`.
    pub fn new(now: u64) -> (state: Self)
        ensures
            state == PaintState::initial(now),
    {
        PaintState {
            phase: PaintPhase::Idle,
            num_frames: 0,
            last_fps_check_time: now,
            fps: None,
            allow_images: AllowImage::Yes,
            shape_generation: 0,
            has_animation: None,
            scheduled_animation: None,
            last_frame_duration: 0,
        }
    }

    fn go(&mut self, phase: PaintPhase, action: PaintAction) -> (result: Option<PaintAction>)
        ensures
            *final(self) == old(self).at(phase),
            result == Some(action),
    {
        self.phase = phase;
        Some(action)
    }

    fn begin(&mut self, now: u64) -> (result: Option<PaintAction>)
        requires
            old(self).num_frames < usize::MAX,
        ensures
            *final(self) == begin_paint(*old(self), now),
            result == Some(PaintAction::RunPass),
    {
        self.num_frames = self.num_frames + 1;
        // As long as nothing on screen is animated, the window need not be
        // invalidated that often.
        self.has_animation = None;
        self.allow_images = AllowImage::Yes;
        let duration: u128 = duration_since(now, self.last_fps_check_time);
        if duration > FPS_CHECK_INTERVAL {
            self.fps = Some(FpsSample { frames: self.num_frames, duration });
            self.num_frames = 0;
            self.last_fps_check_time = now;
        }
        self.go(PaintPhase::Passing { start: now, first: true }, PaintAction::RunPass)
    }

    fn end_pass(&mut self, start: u64, first: bool, outcome: PassOutcome) -> (result: Option<
        PaintAction,
    >)
        ensures
            (*final(self), result.unwrap()) == after_pass(*old(self), start, first, outcome),
            result is Some,
    {
        match outcome {
            PassOutcome::Painted => {
                self.go(PaintPhase::CheckingQuads { start }, PaintAction::CheckQuads)
            },
            PassOutcome::OutOfTextureSpace { size: Some(size), current_size } => {
                let size: usize = if first {
                    // Clearing out the atlas may do.
                    current_size
                } else {
                    size
                };
                self.go(PaintPhase::RecreatingAtlas { start }, PaintAction::RecreateAtlas { size })
            },
            PassOutcome::ClearShapeCache => {
                self.go(
                    PaintPhase::Invalidating { start, then: AfterInvalidate::ClearShapeCaches },
                    PaintAction::Invalidate,
                )
            },
            PassOutcome::OutOfTextureSpace { size: None, .. } | PassOutcome::Failed => {
                self.go(PaintPhase::Drawing { start }, PaintAction::CallDraw)
            },
        }
    }

    fn end_paint(&mut self, focused: bool) -> (result: Option<PaintAction>)
        ensures
            (*final(self), result.unwrap()) == after_record(*old(self), focused),
            result is Some,
    {
        if focused {
            if let Some(due) = self.has_animation {
                let prior = self.scheduled_animation;
                self.scheduled_animation = None;
                let already_due: bool = match prior {
                    Some(prior) => prior <= due,
                    None => false,
                };
                if !already_due {
                    self.scheduled_animation = Some(due);
                    return self.go(
                        PaintPhase::SchedulingAnimation,
                        PaintAction::ScheduleAnimation { due },
                    );
                }
            }
        }
        self.go(PaintPhase::Idle, PaintAction::Return)
    }

    /// Whether the counter that an event adds to, if any, has room for one
    /// more.
    pub fn has_room(&self, event: PaintEvent) -> (room: bool)
        ensures
            room == self.can_count(event),
    {
        match (self.phase, event) {
            (PaintPhase::Idle, PaintEvent::Begin { .. }) => self.num_frames < usize::MAX,
            (
                PaintPhase::Invalidating { then: AfterInvalidate::ClearShapeCaches, .. },
                PaintEvent::Done,
            ) => self.shape_generation < usize::MAX,
            _ => true,
        }
    }

    /// Takes the next step of painting the window.  `None`, with nothing
    /// changed, means that the event is not one that the paint waits for.
    pub fn step(&mut self, event: PaintEvent) -> (action: Option<PaintAction>)
        requires
            old(self).can_count(event),
        ensures
            match paint_next(*old(self), event) {
                Some((next, act)) => *final(self) == next && action == Some(act),
                None => *final(self) == *old(self) && action is None,
            },
    {
        match (self.phase, event) {
            (PaintPhase::Idle, PaintEvent::Begin { now }) => self.begin(now),
            (
                PaintPhase::Passing { start, first },
                PaintEvent::PassEnded { outcome, has_animation },
            ) => {
                self.has_animation = has_animation;
                self.end_pass(start, first, outcome)
            },
            (PaintPhase::CheckingQuads { start }, PaintEvent::QuadsChecked(check)) => {
                match check {
                    QuadCheck::AllocatedMore => self.go(
                        PaintPhase::Invalidating { start, then: AfterInvalidate::RunPass },
                        PaintAction::Invalidate,
                    ),
                    QuadCheck::Sufficient | QuadCheck::Failed => self.go(
                        PaintPhase::Drawing { start },
                        PaintAction::CallDraw,
                    ),
                }
            },
            (PaintPhase::RecreatingAtlas { start }, PaintEvent::AtlasRecreated { ok }) => {
                let mut then = AfterInvalidate::RunPass;
                if !ok {
                    match self.allow_images.lower() {
                        Some(allow_images) => {
                            self.allow_images = allow_images;
                        },
                        None => {
                            then = AfterInvalidate::CallDraw;
                        },
                    }
                }
                self.go(
                    PaintPhase::Invalidating { start, then },
                    PaintAction::Invalidate,
                )
            },
            (PaintPhase::Invalidating { start, then }, PaintEvent::Done) => {
                match then {
                    AfterInvalidate::RunPass => self.go(
                        PaintPhase::Passing { start, first: false },
                        PaintAction::RunPass,
                    ),
                    AfterInvalidate::ClearShapeCaches => {
                        self.shape_generation = self.shape_generation + 1;
                        self.go(
                            PaintPhase::ClearingShapeCaches { start },
                            PaintAction::ClearShapeCaches,
                        )
                    },
                    AfterInvalidate::CallDraw => self.go(
                        PaintPhase::Drawing { start },
                        PaintAction::CallDraw,
                    ),
                }
            },
            (PaintPhase::ClearingShapeCaches { start }, PaintEvent::Done) => {
                self.go(PaintPhase::Passing { start, first: false }, PaintAction::RunPass)
            },
            (PaintPhase::Drawing { start }, PaintEvent::Drawn { now }) => {
                let duration: u128 = duration_since(now, start);
                self.last_frame_duration = duration;
                self.go(PaintPhase::RecordingPaint, PaintAction::RecordPaint { duration })
            },
            (PaintPhase::RecordingPaint, PaintEvent::Recorded { focused }) => {
                self.end_paint(focused)
            },
            (PaintPhase::SchedulingAnimation, PaintEvent::Done) => {
                self.go(PaintPhase::Idle, PaintAction::Return)
            },
            _ => None,
        }
    }

    /// The animation timer went off: no timer is on record any more.
    pub fn fire_animation(&mut self) -> (action: AnimationAction)
        ensures
            *final(self) == (PaintState { scheduled_animation: None, ..*old(self) }),
            action == AnimationAction::InvalidateWindow,
    {
        self.scheduled_animation = None;
        AnimationAction::InvalidateWindow
    }
}

/// The steps of painting, for runs.
pub open spec fn paint_steps() -> spec_fn(PaintState, PaintEvent) -> Option<
    (PaintState, PaintAction),
> {
    |state: PaintState, event: PaintEvent| paint_next(state, event)
}

/// The events of one paint: a request, and then what came of each action.
pub open spec fn one_paint(events: Seq<PaintEvent>) -> bool {
    &&& events.len() > 0
    &&& events[0] is Begin
    &&& forall|i: int| 0 < i < events.len() ==> !(#[trigger] events[i] is Begin)
}

/// How often replacing the atlas failed.
pub open spec fn atlas_failures(events: Seq<PaintEvent>) -> nat
    decreases events.len(),
{
    if events.len() == 0 {
        0
    } else {
        atlas_failures(events.drop_last()) + if events.last() == (PaintEvent::AtlasRecreated {
            ok: false,
        }) {
            1nat
        } else {
            0
        }
    }
}

/// How often a pass asked for the shape caches to be cleared.
pub open spec fn shape_failures(events: Seq<PaintEvent>) -> nat
    decreases events.len(),
{
    if events.len() == 0 {
        0
    } else {
        shape_failures(events.drop_last()) + if events.last() matches PaintEvent::PassEnded {
            outcome: PassOutcome::ClearShapeCache,
            ..
        } {
            1nat
        } else {
            0
        }
    }
}

/// How often a frame was drawn.
pub open spec fn draw_count(actions: Seq<PaintAction>) -> nat
    decreases actions.len(),
{
    if actions.len() == 0 {
        0
    } else {
        draw_count(actions.drop_last()) + if actions.last() == PaintAction::CallDraw {
            1nat
        } else {
            0
        }
    }
}

/// How images are rendered once replacing the atlas has failed `failures`
/// times.
pub open spec fn images_after(failures: nat) -> AllowImage {
    if failures == 0 {
        AllowImage::Yes
    } else if failures == 1 {
        AllowImage::Scale(2)
    } else if failures == 2 {
        AllowImage::Scale(4)
    } else if failures == 3 {
        AllowImage::Scale(8)
    } else {
        AllowImage::No
    }
}

/// What holds all through a paint.
spec fn paint_invariant(
    start: PaintState,
    end: PaintState,
    events: Seq<PaintEvent>,
    actions: Seq<PaintAction>,
) -> bool {
    let failures = atlas_failures(events);
    let cleared = start.shape_generation + shape_failures(events);
    &&& end.allow_images == images_after(failures)
    &&& actions.last() == PaintAction::Return <==> end.phase == PaintPhase::Idle
    &&& end.phase matches PaintPhase::Passing { first, .. } ==> (first <==> events.len() == 1)
    &&& match end.phase {
        PaintPhase::Idle => failures <= 5 && draw_count(actions) == 1,
        PaintPhase::Drawing { .. } => failures <= 5 && draw_count(actions) == 1,
        PaintPhase::RecordingPaint => failures <= 5 && draw_count(actions) == 1,
        PaintPhase::SchedulingAnimation => failures <= 5 && draw_count(actions) == 1,
        PaintPhase::Invalidating { then: AfterInvalidate::CallDraw, .. } => failures == 5
            && draw_count(actions) == 0,
        _ => failures <= 4 && draw_count(actions) == 0,
    }
    &&& match end.phase {
        PaintPhase::Invalidating { then: AfterInvalidate::ClearShapeCaches, .. } =>
        end.shape_generation + 1 == cleared,
        _ => end.shape_generation == cleared,
    }
}

proof fn lemma_paint_invariant(start: PaintState, events: Seq<PaintEvent>)
    requires
        start.phase == PaintPhase::Idle,
        one_paint(events),
        start.shape_generation + shape_failures(events) <= usize::MAX,
    ensures
        crate::trace::run(paint_steps(), start, events) matches Some((end, actions))
            ==> paint_invariant(start, end, events, actions),
    decreases events.len(),
{
    let before = events.drop_last();
    crate::trace::lemma_run_len(paint_steps(), start, before);
    if events.len() == 1 {
        assert(before.len() == 0);
        assert(atlas_failures(before) == 0);
        assert(shape_failures(before) == 0);
        assert(crate::trace::run(paint_steps(), start, before) == Some(
            (start, Seq::<PaintAction>::empty()),
        ));
        assert(draw_count(Seq::empty()) == 0);
        let one = Seq::<PaintAction>::empty().push(PaintAction::RunPass);
        assert(one.drop_last() =~= Seq::<PaintAction>::empty());
    } else {
        assert(one_paint(before));
        lemma_paint_invariant(start, before);
        assert(!(events[events.len() - 1] is Begin));
        if let Some((state, actions)) = crate::trace::run(paint_steps(), start, before) {
            if let Some((_, action)) = paint_next(state, events.last()) {
                assert(actions.push(action).drop_last() =~= actions);
            }
        }
    }
}

/// Every paint ends with the frame being drawn once, whatever went wrong
/// before.
pub proof fn law_every_paint_draws_once(
    start: PaintState,
    events: Seq<PaintEvent>,
    end: PaintState,
    actions: Seq<PaintAction>,
)
    requires
        start.phase == PaintPhase::Idle,
        one_paint(events),
        start.shape_generation + shape_failures(events) <= usize::MAX,
        crate::trace::run(paint_steps(), start, events) == Some((end, actions)),
        actions.last() == PaintAction::Return,
    ensures
        end.phase == PaintPhase::Idle,
        draw_count(actions) == 1,
{
    lemma_paint_invariant(start, events);
}

/// Each time that replacing the atlas fails, images are rendered more
/// modestly: in full, by a half, by a quarter, by an eighth, not at all.  The
/// fifth failure is the last one of a paint.
pub proof fn law_images_give_way_to_texture_space(
    start: PaintState,
    events: Seq<PaintEvent>,
    end: PaintState,
    actions: Seq<PaintAction>,
)
    requires
        start.phase == PaintPhase::Idle,
        one_paint(events),
        start.shape_generation + shape_failures(events) <= usize::MAX,
        crate::trace::run(paint_steps(), start, events) == Some((end, actions)),
    ensures
        end.allow_images == images_after(atlas_failures(events)),
        atlas_failures(events) <= 5,
        end.phase is Passing ==> atlas_failures(events) <= 4,
{
    lemma_paint_invariant(start, events);
}

/// Only the first pass of a paint counts as the first one.
pub proof fn law_one_pass_comes_first(
    start: PaintState,
    events: Seq<PaintEvent>,
    end: PaintState,
    actions: Seq<PaintAction>,
)
    requires
        start.phase == PaintPhase::Idle,
        one_paint(events),
        start.shape_generation + shape_failures(events) <= usize::MAX,
        crate::trace::run(paint_steps(), start, events) == Some((end, actions)),
    ensures
        end.phase matches PaintPhase::Passing { first, .. } ==> (first <==> events.len() == 1),
{
    lemma_paint_invariant(start, events);
}

/// Once a paint is over, the shape generation has grown by one for each pass
/// that asked for the shape caches to be cleared.
pub proof fn law_shape_generation_counts_clearings(
    start: PaintState,
    events: Seq<PaintEvent>,
    end: PaintState,
    actions: Seq<PaintAction>,
)
    requires
        start.phase == PaintPhase::Idle,
        one_paint(events),
        start.shape_generation + shape_failures(events) <= usize::MAX,
        crate::trace::run(paint_steps(), start, events) == Some((end, actions)),
        end.phase == PaintPhase::Idle,
    ensures
        end.shape_generation == start.shape_generation + shape_failures(events),
{
    lemma_paint_invariant(start, events);
}

/// Every paint is counted in one measurement of the frame rate: it adds one to
/// the count, and a measurement takes the whole count.
pub proof fn law_paints_are_counted_once(state: PaintState, now: u64)
    requires
        state.num_frames < usize::MAX,
    ensures
        ({
            let next = begin_paint(state, now);
            if next.last_fps_check_time == state.last_fps_check_time {
                next.fps == state.fps && next.num_frames == state.num_frames + 1
            } else {
                &&& next.num_frames == 0
                &&& next.fps matches Some(sample) && sample.frames == state.num_frames + 1
                    && sample.duration == next.last_fps_check_time - state.last_fps_check_time
                    && sample.duration > FPS_CHECK_INTERVAL
            }
        }),
{
}

/// The texture atlas is first tried again at its own size, and only then at
/// the size that was asked for.
pub proof fn law_atlas_grows_on_second_attempt(
    state: PaintState,
    start: u64,
    first: bool,
    size: usize,
    current_size: usize,
    has_animation: Option<u64>,
)
    requires
        state.phase == (PaintPhase::Passing { start, first }),
    ensures
        paint_next(
            state,
            PaintEvent::PassEnded {
                outcome: PassOutcome::OutOfTextureSpace { size: Some(size), current_size },
                has_animation,
            },
        ) matches Some((_, action)) && action == (PaintAction::RecreateAtlas {
            size: if first {
                current_size
            } else {
                size
            },
        }),
{
}

/// A timer is set only for a focused window with an animation, only for when
/// that is due, and only where no earlier time is on record.
pub proof fn law_animation_timer_is_needed(state: PaintState, event: PaintEvent)
    ensures
        paint_next(state, event) matches Some((next, PaintAction::ScheduleAnimation { due })) ==> {
            &&& event == (PaintEvent::Recorded { focused: true })
            &&& state.has_animation == Some(due)
            &&& next.scheduled_animation == Some(due)
            &&& state.scheduled_animation matches Some(prior) ==> due < prior
        },
{
}

/// The time that a paint took, from its beginning until the frame was drawn,
/// is kept and recorded, before anything is scheduled.
pub proof fn law_paint_time_is_recorded(state: PaintState, start: u64, now: u64)
    requires
        state.phase == (PaintPhase::Drawing { start }),
    ensures
        paint_next(state, PaintEvent::Drawn { now }) matches Some((next, action)) && {
            let duration = crate::frame_timing::time_between(start, now);
            &&& action == (PaintAction::RecordPaint { duration })
            &&& next.last_frame_duration == duration
            &&& next.scheduled_animation == state.scheduled_animation
        },
{
}

/// A paint starts afresh: images are allowed, nothing is known to be animated,
/// and it runs a first pass.  The frame rate is measured once more than one
/// second has passed since it was last measured, over all paints since then.
pub proof fn law_paint_starts_afresh(state: PaintState, now: u64)
    requires
        state.phase == PaintPhase::Idle,
        state.num_frames < usize::MAX,
    ensures
        paint_next(state, PaintEvent::Begin { now }) matches Some((next, action)) && {
            &&& action == PaintAction::RunPass
            &&& next.phase == (PaintPhase::Passing { start: now, first: true })
            &&& next.allow_images == AllowImage::Yes
            &&& next.has_animation is None
            &&& next.scheduled_animation == state.scheduled_animation
            &&& next.shape_generation == state.shape_generation
            &&& next.last_frame_duration == state.last_frame_duration
            &&& if now > state.last_fps_check_time + 1_000_000_000 {
                &&& next.num_frames == 0
                &&& next.last_fps_check_time == now
                &&& next.fps matches Some(sample) && sample.frames == state.num_frames + 1
                    && state.last_fps_check_time + sample.duration == now
            } else {
                &&& next.num_frames == state.num_frames + 1
                &&& next.last_fps_check_time == state.last_fps_check_time
                &&& next.fps == state.fps
            }
        },
{
}

/// Everything that a paint keeps changes only when it is due: the frame rate
/// and its count when a paint begins, images also when the atlas could not be
/// replaced, animation also when a pass has ended, the shape generation when
/// the shape caches are cleared, the time of a paint when the frame is drawn,
/// and the timer on record when that is recorded.
pub proof fn law_paint_changes_only_what_is_due(state: PaintState, event: PaintEvent)
    ensures
        paint_next(state, event) matches Some((next, action)) ==> {
            &&& !(event is Begin) ==> next.num_frames == state.num_frames && next.fps == state.fps
                && next.last_fps_check_time == state.last_fps_check_time
            &&& !(event is Begin) && event != (PaintEvent::AtlasRecreated { ok: false })
                ==> next.allow_images == state.allow_images
            &&& !(event is Begin) && !(event is PassEnded) ==> next.has_animation
                == state.has_animation
            &&& event matches PaintEvent::PassEnded { has_animation, .. } ==> next.has_animation
                == has_animation
            &&& action != PaintAction::ClearShapeCaches ==> next.shape_generation
                == state.shape_generation
            &&& action == PaintAction::ClearShapeCaches && state.shape_generation < usize::MAX
                ==> next.shape_generation == state.shape_generation + 1
            &&& !(event is Drawn) ==> next.last_frame_duration == state.last_frame_duration
            &&& !(event is Recorded) ==> next.scheduled_animation == state.scheduled_animation
        },
{
}

/// A pass that painted everything is followed by the frame being drawn, unless
/// there are more quads now: then what holds on to textures is invalidated and
/// another pass is run.
pub proof fn law_painted_pass_is_drawn_unless_quads_grew(
    state: PaintState,
    start: u64,
    first: bool,
    has_animation: Option<u64>,
    check: QuadCheck,
)
    requires
        state.phase == (PaintPhase::Passing { start, first }),
    ensures
        ({
            let outcome = PassOutcome::Painted;
            let ended = PaintEvent::PassEnded { outcome, has_animation };
            let checked = PaintEvent::QuadsChecked(check);
            match check {
                QuadCheck::AllocatedMore => crate::trace::run(
                    paint_steps(),
                    state,
                    seq![ended, checked, PaintEvent::Done],
                ) == Some(
                    (
                        PaintState {
                            phase: PaintPhase::Passing { start, first: false },
                            has_animation,
                            ..state
                        },
                        seq![
                            PaintAction::CheckQuads,
                            PaintAction::Invalidate,
                            PaintAction::RunPass,
                        ],
                    ),
                ),
                _ => crate::trace::run(paint_steps(), state, seq![ended, checked]) == Some(
                    (
                        PaintState { phase: PaintPhase::Drawing { start }, has_animation, ..state },
                        seq![PaintAction::CheckQuads, PaintAction::CallDraw],
                    ),
                ),
            }
        }),
{
    let outcome = PassOutcome::Painted;
    let ended = PaintEvent::PassEnded { outcome, has_animation };
    let checked = PaintEvent::QuadsChecked(check);
    lemma_two_steps(state, ended, checked);
    lemma_three_steps(state, ended, checked, PaintEvent::Done);
}

/// A run of two events, step by step.
proof fn lemma_two_steps(state: PaintState, first: PaintEvent, second: PaintEvent)
    ensures
        crate::trace::run(paint_steps(), state, seq![first, second]) == (match paint_next(
            state,
            first,
        ) {
            None => None,
            Some((middle, a)) => match paint_next(middle, second) {
                None => None,
                Some((end, b)) => Some((end, seq![a, b])),
            },
        }),
{
    let none = Seq::<PaintEvent>::empty();
    crate::trace::lemma_run_push(paint_steps(), state, none, first);
    crate::trace::lemma_run_push(paint_steps(), state, none.push(first), second);
    assert(seq![first, second] =~= none.push(first).push(second));
    if let Some((_, actions)) = crate::trace::run(paint_steps(), state, seq![first, second]) {
        let (middle, a) = paint_next(state, first).unwrap();
        assert(actions =~= seq![a, paint_next(middle, second).unwrap().1]);
    }
}

/// A run of three events, step by step.
proof fn lemma_three_steps(
    state: PaintState,
    first: PaintEvent,
    second: PaintEvent,
    third: PaintEvent,
)
    ensures
        crate::trace::run(paint_steps(), state, seq![first, second, third]) == (match paint_next(
            state,
            first,
        ) {
            None => None,
            Some((m, a)) => match paint_next(m, second) {
                None => None,
                Some((n, b)) => match paint_next(n, third) {
                    None => None,
                    Some((end, c)) => Some((end, seq![a, b, c])),
                },
            },
        }),
{
    lemma_two_steps(state, first, second);
    crate::trace::lemma_run_push(paint_steps(), state, seq![first, second], third);
    assert(seq![first, second, third] =~= seq![first, second].push(third));
    if let Some((_, actions)) = crate::trace::run(
        paint_steps(),
        state,
        seq![first, second, third],
    ) {
        let (m, a) = paint_next(state, first).unwrap();
        let (n, b) = paint_next(m, second).unwrap();
        assert(actions =~= seq![a, b, paint_next(n, third).unwrap().1]);
    }
}

/// A pass that ran out of texture space has the atlas replaced, by one of its
/// own size after the first pass and by one that is large enough after a later
/// one.  Another pass is run, with images rendered more modestly where that
/// failed.  Only where images are not rendered any more is the frame drawn as
/// it is.
pub proof fn law_full_atlas_is_replaced(
    state: PaintState,
    start: u64,
    first: bool,
    size: usize,
    current_size: usize,
    has_animation: Option<u64>,
    ok: bool,
)
    requires
        state.phase == (PaintPhase::Passing { start, first }),
    ensures
        crate::trace::run(
            paint_steps(),
            state,
            seq![
                PaintEvent::PassEnded {
                    outcome: PassOutcome::OutOfTextureSpace { size: Some(size), current_size },
                    has_animation,
                },
                PaintEvent::AtlasRecreated { ok },
                PaintEvent::Done,
            ],
        ) matches Some((end, actions)) && {
            let wanted = if first {
                current_size
            } else {
                size
            };
            let lower = match state.allow_images {
                AllowImage::Yes => Some(AllowImage::Scale(2)),
                AllowImage::Scale(factor) => if factor == 8 {
                    Some(AllowImage::No)
                } else if factor == 2 || factor == 4 {
                    Some(AllowImage::Scale((2 * factor) as usize))
                } else {
                    None
                },
                AllowImage::No => None,
            };
            let again = PaintPhase::Passing { start, first: false };
            &&& actions.len() == 3
            &&& actions[0] == (PaintAction::RecreateAtlas { size: wanted })
            &&& actions[1] == PaintAction::Invalidate
            &&& if ok {
                actions[2] == PaintAction::RunPass && end == (PaintState {
                    phase: again,
                    has_animation,
                    ..state
                })
            } else if lower is Some {
                actions[2] == PaintAction::RunPass && end == (PaintState {
                    phase: again,
                    has_animation,
                    allow_images: lower.unwrap(),
                    ..state
                })
            } else {
                actions[2] == PaintAction::CallDraw && end == (PaintState {
                    phase: PaintPhase::Drawing { start },
                    has_animation,
                    ..state
                })
            }
        },
{
    lemma_three_steps(
        state,
        PaintEvent::PassEnded {
            outcome: PassOutcome::OutOfTextureSpace { size: Some(size), current_size },
            has_animation,
        },
        PaintEvent::AtlasRecreated { ok },
        PaintEvent::Done,
    );
}

/// A pass that found the fonts changed has the shape caches cleared, under a
/// new shape generation, and another pass is run.  One that failed in any other
/// way has the frame drawn as it is.
pub proof fn law_changed_fonts_clear_caches_and_other_faults_draw(
    state: PaintState,
    start: u64,
    first: bool,
    current_size: usize,
    has_animation: Option<u64>,
)
    requires
        state.phase == (PaintPhase::Passing { start, first }),
        state.shape_generation < usize::MAX,
    ensures
        crate::trace::run(
            paint_steps(),
            state,
            seq![
                PaintEvent::PassEnded { outcome: PassOutcome::ClearShapeCache, has_animation },
                PaintEvent::Done,
                PaintEvent::Done,
            ],
        ) == Some(
            (
                PaintState {
                    phase: PaintPhase::Passing { start, first: false },
                    has_animation,
                    shape_generation: (state.shape_generation + 1) as usize,
                    ..state
                },
                seq![PaintAction::Invalidate, PaintAction::ClearShapeCaches, PaintAction::RunPass],
            ),
        ),
        paint_next(
            state,
            PaintEvent::PassEnded { outcome: PassOutcome::Failed, has_animation },
        ) matches Some((_, action)) && action == PaintAction::CallDraw,
        paint_next(
            state,
            PaintEvent::PassEnded {
                outcome: PassOutcome::OutOfTextureSpace { size: None, current_size },
                has_animation,
            },
        ) matches Some((_, action)) && action == PaintAction::CallDraw,
{
    lemma_three_steps(
        state,
        PaintEvent::PassEnded { outcome: PassOutcome::ClearShapeCache, has_animation },
        PaintEvent::Done,
        PaintEvent::Done,
    );
}

/// When the paint that is under way began.
spec fn begun_at(phase: PaintPhase) -> Option<u64> {
    match phase {
        PaintPhase::Passing { start, .. } => Some(start),
        PaintPhase::CheckingQuads { start } => Some(start),
        PaintPhase::RecreatingAtlas { start } => Some(start),
        PaintPhase::Invalidating { start, .. } => Some(start),
        PaintPhase::ClearingShapeCaches { start } => Some(start),
        PaintPhase::Drawing { start } => Some(start),
        _ => None,
    }
}

/// What the last pass among `events` has come across of animation.
pub open spec fn last_animation(events: Seq<PaintEvent>) -> Option<u64>
    decreases events.len(),
{
    if events.len() == 0 {
        None
    } else {
        match events.last() {
            PaintEvent::PassEnded { has_animation, .. } => has_animation,
            _ => last_animation(events.drop_last()),
        }
    }
}

proof fn lemma_paint_remembers(start: PaintState, events: Seq<PaintEvent>)
    requires
        start.phase == PaintPhase::Idle,
        one_paint(events),
    ensures
        crate::trace::run(paint_steps(), start, events) matches Some((end, _)) ==> {
            &&& begun_at(end.phase) matches Some(begun) ==> events[0] == (PaintEvent::Begin {
                now: begun,
            })
            &&& end.has_animation == last_animation(events)
        },
    decreases events.len(),
{
    let before = events.drop_last();
    if events.len() == 1 {
        assert(before.len() == 0);
        assert(last_animation(before) is None);
        assert(crate::trace::run(paint_steps(), start, before) == Some(
            (start, Seq::<PaintAction>::empty()),
        ));
    } else {
        assert(one_paint(before));
        lemma_paint_remembers(start, before);
        assert(!(events[events.len() - 1] is Begin));
    }
}

/// The time of a paint counts from its beginning, however many passes it took,
/// until the frame was drawn.
pub proof fn law_paint_time_counts_from_the_beginning(
    start: PaintState,
    events: Seq<PaintEvent>,
    end: PaintState,
    actions: Seq<PaintAction>,
    begun: u64,
    now: u64,
    elapsed: int,
)
    requires
        start.phase == PaintPhase::Idle,
        one_paint(events),
        events[0] == (PaintEvent::Begin { now: begun }),
        crate::trace::run(paint_steps(), start, events) == Some((end, actions)),
        end.phase is Drawing,
        elapsed >= 0,
        begun + elapsed == now,
    ensures
        paint_next(end, PaintEvent::Drawn { now }) matches Some((next, action)) && {
            &&& action matches PaintAction::RecordPaint { duration } && duration == elapsed
            &&& next.last_frame_duration == elapsed
        },
{
    lemma_paint_remembers(start, events);
}

/// What the last pass has come across of animation decides about the timer.
/// In a window with the focus a timer is set for it, exactly unless one is on
/// record for that time or an earlier one, which is then taken off the record.
/// In any other case what is on record stays there.
pub proof fn law_animation_timer_follows_the_last_pass(
    start: PaintState,
    events: Seq<PaintEvent>,
    end: PaintState,
    actions: Seq<PaintAction>,
    focused: bool,
)
    requires
        start.phase == PaintPhase::Idle,
        one_paint(events),
        crate::trace::run(paint_steps(), start, events) == Some((end, actions)),
        end.phase is RecordingPaint,
    ensures
        paint_next(end, PaintEvent::Recorded { focused }) matches Some((next, action)) && match (
            last_animation(events),
            end.scheduled_animation,
        ) {
            (Some(due), Some(prior)) if focused && prior <= due => action == PaintAction::Return
                && next.scheduled_animation is None,
            (Some(due), _) if focused => action == (PaintAction::ScheduleAnimation { due })
                && next.scheduled_animation == Some(due),
            _ => action == PaintAction::Return && next.scheduled_animation
                == end.scheduled_animation,
        },
{
    lemma_paint_remembers(start, events);
}

/// Whether an event is what can come of an action.
pub open spec fn answers(action: PaintAction, event: PaintEvent) -> bool {
    match action {
        PaintAction::RunPass => event is PassEnded,
        PaintAction::CheckQuads => event is QuadsChecked,
        PaintAction::RecreateAtlas { .. } => event is AtlasRecreated,
        PaintAction::CallDraw => event is Drawn,
        PaintAction::RecordPaint { .. } => event is Recorded,
        PaintAction::Return => event is Begin,
        _ => event is Done,
    }
}

/// After each action a paint waits for what can come of it, and for nothing
/// else.
pub proof fn law_paint_waits_for_what_comes_of_its_action(
    state: PaintState,
    event: PaintEvent,
    later: PaintEvent,
)
    ensures
        paint_next(state, event) matches Some((next, action)) ==> (paint_next(next, later) is Some
            <==> answers(action, later)),
{
}

/// A paint can take any step, except one that adds to a counter which is at its
/// largest value.
pub proof fn law_only_a_full_counter_stops_a_paint(state: PaintState, event: PaintEvent)
    ensures
        state.num_frames < usize::MAX && state.shape_generation < usize::MAX ==> state.can_count(
            event,
        ),
        state.can_count(event) ==> (paint_next(state, event) matches Some((next, action)) ==> {
            &&& event is Begin ==> next.num_frames == 0 || next.num_frames == state.num_frames + 1
            &&& action == PaintAction::ClearShapeCaches ==> next.shape_generation
                == state.shape_generation + 1
        }),
        !state.can_count(event) ==> match event {
            PaintEvent::Begin { .. } => state.num_frames == usize::MAX,
            _ => event is Done && state.shape_generation == usize::MAX,
        },
{
}

/// A window that was just opened has painted nothing and set no timer, and its
/// frame rate is measured from when it was opened: a paint within one second
/// measures nothing, and a later one covers the time since then.
pub proof fn law_frame_rate_is_first_measured_from_opening(opened: u64, now: u64)
    requires
        opened <= now,
    ensures
        ({
            let state = PaintState::initial(opened);
            &&& state.num_frames == 0 && state.shape_generation == 0
            &&& state.last_frame_duration == 0
            &&& state.fps is None && state.scheduled_animation is None
            &&& paint_next(state, PaintEvent::Begin { now }) matches Some((next, _)) && if now
                - opened <= 1_000_000_000 {
                next.fps is None && next.num_frames == 1
            } else {
                next.fps matches Some(sample) && sample.frames == 1 && sample.duration == now
                    - opened
            }
        }),
{
}

} // verus!
