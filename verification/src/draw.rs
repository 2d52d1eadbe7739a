//! Drawing one frame: what is drawn, how the frame is presented, and how the
//! next one is held back.

use crate::frame_pacing::pace_frame;
use crate::frame_timing::duration_since;
use crate::term_window::RenderConfig;
use vstd::prelude::*;

verus! {

/// Vertex buffers in each layer.
pub const BUFFERS_PER_LAYER: usize = 3;

/// The buffer of a layer that holds text, and so may be drawn with subpixel
/// antialiasing.
pub const TEXT_BUFFER: usize = 1;

/// Where presenting took longer than this, the driver has waited for the
/// vertical blank already.
pub const DRIVER_VSYNC_THRESHOLD: u128 = 4_000_000;

/// The graphics interface that a frame is drawn with.
#[derive(Debug, Clone, Copy, PartialEq, Eq, Structural)]
pub enum RenderFrame {
    Glium,
    WebGpu,
}

/// How a surface hands its frames to the display.
#[derive(Debug, Clone, Copy, PartialEq, Eq, Structural)]
pub enum PresentMode {
    AutoVsync,
    AutoNoVsync,
    Fifo,
    FifoRelaxed,
    Immediate,
    Mailbox,
}

/// What glyphs are rasterized for.
#[derive(Debug, Clone, Copy, PartialEq, Eq, Structural)]
pub enum FreeTypeLoadTarget {
    HorizontalLcd,
    VerticalLcd,
    /// Any target without subpixels.
    Other,
}

/// How much of a vertex buffer is in use.
#[derive(Debug, Clone, Copy, PartialEq, Eq, Structural)]
pub struct VertexIndexCount {
    pub vertices: usize,
    pub indices: usize,
}

/// The vertex buffers of one layer, in drawing order.
#[derive(Debug, Clone, Copy)]
pub struct Layer {
    pub buffers: [VertexIndexCount; 3],
}

/// What becomes of the earlier contents of the frame when a pass begins.
#[derive(Debug, Clone, Copy, PartialEq, Eq, Structural)]
pub enum LoadOp {
    /// They are cleared to transparent black.
    Clear,
    /// They are kept.
    Load,
}

/// How what is drawn is blended with what is there.
#[derive(Debug, Clone, Copy, PartialEq, Eq, Structural)]
pub enum Blending {
    /// One weight per color channel, for subpixel antialiasing.
    DualSource,
    /// By the alpha channel.
    Alpha,
}

/// What to do next in order to draw a frame.
#[derive(Debug, Clone, Copy, PartialEq, Eq, Structural)]
pub enum DrawAction {
    /// Acquire the texture of the next frame of the swapchain.
    AcquireTexture,
    /// Add the time spent acquiring the texture to the statistics.
    RecordAcquire { duration: u128 },
    /// Clear the frame to transparent black.
    ClearFrame,
    /// Find out what there is to draw.
    ReadLayers,
    /// Draw a buffer in a render pass of its own.
    RenderPass { layer: usize, buffer: usize, load: LoadOp, indices: u32, milliseconds: u32 },
    /// Draw a buffer.
    DrawElements {
        layer: usize,
        buffer: usize,
        count: VertexIndexCount,
        subpixel_aa: bool,
        blending: Blending,
        milliseconds: u32,
    },
    /// Let the buffer move on to its next set of vertices.
    NextIndex { layer: usize, buffer: usize },
    /// Submit the render passes.
    Submit,
    /// Present the frame, and take the time right after.
    Present,
    /// Add the time spent presenting to the statistics.
    RecordPresent { duration: u128 },
    /// Wait for the compositor.
    FlushCompositor,
    /// Add the time spent waiting for the compositor to the statistics.
    RecordFlush { duration: u128 },
    /// Read the clock.
    ReadClock,
    /// Sleep.
    PreciseSleep { duration: u128 },
    /// Add the time slept to the statistics.
    RecordSleep { duration: u128 },
    /// The frame is done, or was given up.
    Return { ok: bool },
}

/// What came of a `DrawAction`, or the request to draw.
#[derive(Debug)]
pub enum DrawEvent {
    /// A frame is to be drawn.
    Begin { frame: RenderFrame },
    /// `AcquireTexture` succeeded and took `duration`.
    Acquired { duration: u128 },
    /// `layers` are to be drawn, in a window that was created `age` ago.
    Layers { layers: Vec<Layer>, age: u128 },
    /// `AcquireTexture` or `DrawElements` failed.
    Failed,
    /// The action succeeded.
    Done,
    /// `Present` took `duration`, and was over at `at`.
    Presented { at: u64, duration: u128, mode: PresentMode },
    /// `FlushCompositor` took `duration`; a negative result is a failure.
    Flushed { hresult: i32, duration: u128 },
    /// The answer to `ReadClock`.
    Clock(u64),
    /// `PreciseSleep` took `duration`.
    Slept { duration: u128 },
}

/// Where a frame stands: the action that is under way.
#[derive(Debug, Clone, Copy, PartialEq, Eq, Structural)]
pub enum DrawPhase {
    /// No frame is being drawn.
    Idle,
    /// Acquiring the texture or clearing the frame.
    Opening { frame: RenderFrame },
    RecordingAcquire,
    ReadingLayers { frame: RenderFrame },
    /// Performing the step of the plan at `next`.
    Drawing { frame: RenderFrame, next: usize },
    Submitting,
    Presenting,
    RecordingPresent { at: u64, duration: u128, mode: PresentMode },
    Flushing { at: u64 },
    RecordingFlush { at: u64 },
    /// Reading the clock that the frame counts as presented by.
    Stamping,
    /// Reading the clock for how much of the frame is over.
    Pacing { at: u64 },
    Sleeping { at: u64 },
    RecordingSleep { at: u64 },
}

/// The frame that is being drawn, and when the last one was presented.
#[derive(Debug)]
pub struct DrawState {
    phase: DrawPhase,
    plan: Vec<DrawAction>,
    last_frame_instant: u64,
}

/// A `DrawState`, as contracts see it.
#[verifier::ext_equal]
pub struct DrawView {
    pub phase: DrawPhase,
    pub plan: Seq<DrawAction>,
    pub last_frame_instant: u64,
}

impl View for DrawState {
    type V = DrawView;

    closed spec fn view(&self) -> DrawView {
        DrawView {
            phase: self.phase,
            plan: self.plan@,
            last_frame_instant: self.last_frame_instant,
        }
    }
}

impl DrawView {
    /// Nothing has been drawn.
    pub open spec fn initial(now: u64) -> DrawView {
        DrawView { phase: DrawPhase::Idle, plan: Seq::empty(), last_frame_instant: now }
    }

    /// A step that is under way is one of the plan.
    pub open spec fn wf(self) -> bool {
        self.phase matches DrawPhase::Drawing { next, .. } ==> next < self.plan.len()
    }

    /// The same with another phase.
    pub open spec fn at(self, phase: DrawPhase) -> DrawView {
        DrawView { phase, ..self }
    }
}

/// Milliseconds in `nanos`, modulo 2^32.
pub open spec fn wrapped_millis(nanos: u128) -> u32 {
    ((nanos / 1_000_000) % 0x1_0000_0000) as u32
}

/// The `k`th buffer, counted through all layers.
pub open spec fn nth_buffer(layers: Seq<Layer>, k: int) -> VertexIndexCount {
    layers[k / 3].buffers@[k % 3]
}

/// Whether some buffer before the `k`th holds anything.
pub open spec fn drawn_before(layers: Seq<Layer>, k: int) -> bool {
    exists|j: int| 0 <= j < k && #[trigger] nth_buffer(layers, j).vertices > 0
}

/// The steps for the `k`th buffer: a render pass where it holds anything, of
/// which the first one clears the frame.  The buffer moves on in any case.
pub open spec fn webgpu_part(layers: Seq<Layer>, milliseconds: u32) -> spec_fn(int) -> Seq<
    DrawAction,
> {
    |k: int|
        {
            let layer = (k / 3) as usize;
            let buffer = (k % 3) as usize;
            let advance = seq![DrawAction::NextIndex { layer, buffer }];
            if nth_buffer(layers, k).vertices > 0 {
                seq![
                    DrawAction::RenderPass {
                        layer,
                        buffer,
                        load: if drawn_before(layers, k) {
                            LoadOp::Load
                        } else {
                            LoadOp::Clear
                        },
                        indices: (nth_buffer(layers, k).indices as int % 0x1_0000_0000) as u32,
                        milliseconds,
                    },
                ] + advance
            } else {
                advance
            }
        }
}

/// The steps for all buffers.
pub open spec fn webgpu_plan(layers: Seq<Layer>, milliseconds: u32) -> Seq<DrawAction> {
    crate::trace::concat_parts(3 * layers.len(), webgpu_part(layers, milliseconds))
}

/// Whether glyphs are rasterized for the subpixels of a display.
pub open spec fn uses_subpixels(config: RenderConfig) -> bool {
    let target = match config.freetype_render_target {
        Some(target) => target,
        None => config.freetype_load_target,
    };
    target == FreeTypeLoadTarget::HorizontalLcd || target == FreeTypeLoadTarget::VerticalLcd
}

/// The steps for the `k`th buffer: it is drawn where it holds anything.  Text
/// that was rasterized for subpixels is blended channel by channel.
pub open spec fn glium_part(
    layers: Seq<Layer>,
    subpixels: bool,
    milliseconds: u32,
) -> spec_fn(int) -> Seq<DrawAction> {
    |k: int|
        {
            let layer = (k / 3) as usize;
            let buffer = (k % 3) as usize;
            let subpixel_aa = subpixels && buffer == TEXT_BUFFER;
            let advance = seq![DrawAction::NextIndex { layer, buffer }];
            if nth_buffer(layers, k).vertices > 0 {
                seq![
                    DrawAction::DrawElements {
                        layer,
                        buffer,
                        count: nth_buffer(layers, k),
                        subpixel_aa,
                        blending: if subpixel_aa {
                            Blending::DualSource
                        } else {
                            Blending::Alpha
                        },
                        milliseconds,
                    },
                ] + advance
            } else {
                advance
            }
        }
}

/// The steps for all buffers.
pub open spec fn glium_plan(layers: Seq<Layer>, subpixels: bool, milliseconds: u32) -> Seq<
    DrawAction,
> {
    crate::trace::concat_parts(3 * layers.len(), glium_part(layers, subpixels, milliseconds))
}

/// The plan for a frame.
pub open spec fn draw_plan(
    config: RenderConfig,
    frame: RenderFrame,
    layers: Seq<Layer>,
    age: u128,
) -> Seq<DrawAction> {
    match frame {
        RenderFrame::WebGpu => webgpu_plan(layers, wrapped_millis(age)),
        RenderFrame::Glium => glium_plan(layers, uses_subpixels(config), wrapped_millis(age)),
    }
}

/// The frame that was presented at `at` is done.
pub open spec fn finish_next(state: DrawView, at: u64) -> (DrawView, DrawAction) {
    (
        DrawView { phase: DrawPhase::Idle, last_frame_instant: at, ..state },
        DrawAction::Return { ok: true },
    )
}

/// The frame was presented at `at`; the next one may have to be held back.
pub open spec fn pace_next(config: RenderConfig, state: DrawView, at: u64) -> (
    DrawView,
    DrawAction,
) {
    if config.max_fps > 0 {
        (state.at(DrawPhase::Pacing { at }), DrawAction::ReadClock)
    } else {
        finish_next(state, at)
    }
}

/// Goes to the step of the plan at `next`, or on from the plan where it is
/// through.
pub open spec fn plan_next(state: DrawView, frame: RenderFrame, next: int) -> (
    DrawView,
    DrawAction,
) {
    if next < state.plan.len() {
        (state.at(DrawPhase::Drawing { frame, next: next as usize }), state.plan[next])
    } else {
        match frame {
            RenderFrame::WebGpu => (state.at(DrawPhase::Submitting), DrawAction::Submit),
            RenderFrame::Glium => (state.at(DrawPhase::Stamping), DrawAction::ReadClock),
        }
    }
}

/// The next state and the action to perform, or `None` where the phase does
/// not wait for the event.
pub open spec fn draw_next(config: RenderConfig, state: DrawView, event: DrawEvent) -> Option<
    (DrawView, DrawAction),
> {
    match (state.phase, event) {
        (DrawPhase::Idle, DrawEvent::Begin { frame }) => Some(
            (
                state.at(DrawPhase::Opening { frame }),
                match frame {
                    RenderFrame::WebGpu => DrawAction::AcquireTexture,
                    RenderFrame::Glium => DrawAction::ClearFrame,
                },
            ),
        ),
        (DrawPhase::Opening { frame: RenderFrame::WebGpu }, DrawEvent::Acquired { duration }) => Some(
            (state.at(DrawPhase::RecordingAcquire), DrawAction::RecordAcquire { duration }),
        ),
        (DrawPhase::RecordingAcquire, DrawEvent::Done) => Some(
            (
                state.at(DrawPhase::ReadingLayers { frame: RenderFrame::WebGpu }),
                DrawAction::ReadLayers,
            ),
        ),
        (DrawPhase::Opening { frame: RenderFrame::Glium }, DrawEvent::Done) => Some(
            (
                state.at(DrawPhase::ReadingLayers { frame: RenderFrame::Glium }),
                DrawAction::ReadLayers,
            ),
        ),
        (DrawPhase::ReadingLayers { frame }, DrawEvent::Layers { layers, age }) => Some(
            plan_next(
                DrawView { plan: draw_plan(config, frame, layers@, age), ..state },
                frame,
                0,
            ),
        ),
        (DrawPhase::Opening { frame: RenderFrame::WebGpu }, DrawEvent::Failed) => Some(
            (state.at(DrawPhase::Idle), DrawAction::Return { ok: false }),
        ),
        (DrawPhase::Drawing { frame, next }, DrawEvent::Done) => Some(
            plan_next(state, frame, next + 1),
        ),
        (DrawPhase::Drawing { next, .. }, DrawEvent::Failed) => {
            if state.plan[next as int] is DrawElements {
                Some((state.at(DrawPhase::Idle), DrawAction::Return { ok: false }))
            } else {
                None
            }
        },
        (DrawPhase::Submitting, DrawEvent::Done) => Some(
            (state.at(DrawPhase::Presenting), DrawAction::Present),
        ),
        (DrawPhase::Presenting, DrawEvent::Presented { at, duration, mode }) => Some(
            (
                state.at(DrawPhase::RecordingPresent { at, duration, mode }),
                DrawAction::RecordPresent { duration },
            ),
        ),
        (DrawPhase::RecordingPresent { at, duration, mode }, DrawEvent::Done) => if config.compositor
            && mode == PresentMode::Fifo && duration <= DRIVER_VSYNC_THRESHOLD {
            Some((state.at(DrawPhase::Flushing { at }), DrawAction::FlushCompositor))
        } else {
            Some(pace_next(config, state, at))
        },
        (DrawPhase::Flushing { at }, DrawEvent::Flushed { hresult, duration }) => if hresult < 0 {
            Some(pace_next(config, state, at))
        } else {
            Some((state.at(DrawPhase::RecordingFlush { at }), DrawAction::RecordFlush { duration }))
        },
        (DrawPhase::RecordingFlush { at }, DrawEvent::Done) => Some(pace_next(config, state, at)),
        (DrawPhase::Stamping, DrawEvent::Clock(at)) => Some(pace_next(config, state, at)),
        (DrawPhase::Pacing { at }, DrawEvent::Clock(now)) => {
            let elapsed = crate::frame_timing::time_between(state.last_frame_instant, now);
            match crate::frame_pacing::pace_sleep(elapsed as int, config.max_fps as int) {
                Some(duration) => Some(
                    (
                        state.at(DrawPhase::Sleeping { at }),
                        DrawAction::PreciseSleep { duration },
                    ),
                ),
                None => Some(finish_next(state, at)),
            }
        },
        (DrawPhase::Sleeping { at }, DrawEvent::Slept { duration }) => if duration > 0 {
            Some((state.at(DrawPhase::RecordingSleep { at }), DrawAction::RecordSleep { duration }))
        } else {
            Some(finish_next(state, at))
        },
        (DrawPhase::RecordingSleep { at }, DrawEvent::Done) => Some(finish_next(state, at)),
        _ => None,
    }
}

impl DrawState {
    #[verifier::type_invariant]
    spec fn inv(self) -> bool {
        self@.wf()
    }

    /// Nothing has been drawn; the first frame counts from `now`.
    pub fn new(now: u64) -> (state: Self)
        ensures
            state@ == DrawView::initial(now),
    {
        DrawState { phase: DrawPhase::Idle, plan: Vec::new(), last_frame_instant: now }
    }

    /// When the last frame was presented.
    pub fn last_frame_instant(&self) -> (at: u64)
        ensures
            at == self@.last_frame_instant,
    {
        self.last_frame_instant
    }

    fn go(&mut self, phase: DrawPhase, action: DrawAction) -> (result: Option<DrawAction>)
        requires
            old(self)@.at(phase).wf(),
        ensures
            final(self)@ == old(self)@.at(phase),
            result == Some(action),
    {
        self.phase = phase;
        Some(action)
    }

    fn finish(&mut self, at: u64) -> (result: Option<DrawAction>)
        ensures
            (final(self)@, result.unwrap()) == finish_next(old(self)@, at),
            result is Some,
    {
        // The next frame is measured from when this one was presented, which
        // leaves out the time that was slept since.
        proof {
            use_type_invariant(&*self);
        }
        self.last_frame_instant = at;
        self.go(DrawPhase::Idle, DrawAction::Return { ok: true })
    }

    fn pace(&mut self, config: &RenderConfig, at: u64) -> (result: Option<DrawAction>)
        ensures
            (final(self)@, result.unwrap()) == pace_next(*config, old(self)@, at),
            result is Some,
    {
        if config.max_fps > 0 {
            self.go(DrawPhase::Pacing { at }, DrawAction::ReadClock)
        } else {
            self.finish(at)
        }
    }

    fn follow_plan(&mut self, frame: RenderFrame, next: usize) -> (result: Option<DrawAction>)
        requires
            next <= old(self)@.plan.len(),
        ensures
            (final(self)@, result.unwrap()) == plan_next(old(self)@, frame, next as int),
            result is Some,
    {
        if next < self.plan.len() {
            let action = self.plan[next];
            self.go(DrawPhase::Drawing { frame, next }, action)
        } else {
            match frame {
                RenderFrame::WebGpu => self.go(DrawPhase::Submitting, DrawAction::Submit),
                RenderFrame::Glium => self.go(DrawPhase::Stamping, DrawAction::ReadClock),
            }
        }
    }
}

/// Milliseconds in `nanos`, as the shaders count them.
pub fn shader_millis(nanos: u128) -> (milliseconds: u32)
    ensures
        milliseconds == wrapped_millis(nanos),
{
    ((nanos / 1_000_000) % 0x1_0000_0000) as u32
}

/// Whether glyphs are rasterized for the subpixels of a display.
pub fn use_subpixel(config: &RenderConfig) -> (subpixels: bool)
    ensures
        subpixels == uses_subpixels(*config),
{
    let target = match config.freetype_render_target {
        Some(target) => target,
        None => config.freetype_load_target,
    };
    match target {
        FreeTypeLoadTarget::HorizontalLcd | FreeTypeLoadTarget::VerticalLcd => true,
        FreeTypeLoadTarget::Other => false,
    }
}

/// What a frame is made of when it is drawn with WebGPU.
pub fn call_draw_webgpu(layers: &Vec<Layer>, milliseconds: u32) -> (plan: Vec<DrawAction>)
    ensures
        plan@ == webgpu_plan(layers@, milliseconds),
{
    let ghost part = webgpu_part(layers@, milliseconds);
    let mut plan: Vec<DrawAction> = Vec::new();
    let mut cleared: bool = false;
    let mut layer: usize = 0;
    while layer < layers.len()
        invariant
            layer <= layers.len(),
            part == webgpu_part(layers@, milliseconds),
            plan@ == crate::trace::concat_parts(3 * layer as nat, part),
            cleared == drawn_before(layers@, 3 * layer as int),
        decreases layers.len() - layer,
    {
        let mut buffer: usize = 0;
        while buffer < BUFFERS_PER_LAYER
            invariant
                layer < layers.len(),
                buffer <= BUFFERS_PER_LAYER,
                part == webgpu_part(layers@, milliseconds),
                plan@ == crate::trace::concat_parts((3 * layer + buffer) as nat, part),
                cleared == drawn_before(layers@, 3 * layer + buffer),
            decreases BUFFERS_PER_LAYER - buffer,
        {
            let count = layers[layer].buffers[buffer];
            let ghost k = 3 * layer + buffer;
            assert(k / 3 == layer && k % 3 == buffer);
            assert(count == nth_buffer(layers@, k));
            let ghost before = plan@;
            if count.vertices > 0 {
                let load = if cleared {
                    LoadOp::Load
                } else {
                    LoadOp::Clear
                };
                let indices: u32 = (count.indices as u64 % 0x1_0000_0000) as u32;
                plan.push(
                    DrawAction::RenderPass { layer, buffer, load, indices, milliseconds },
                );
                cleared = true;
            }
            plan.push(DrawAction::NextIndex { layer, buffer });
            assert(plan@ =~= before + part(k));
            buffer = buffer + 1;
        }
        layer = layer + 1;
    }
    plan
}

/// What a frame is made of when it is drawn with OpenGL.
pub fn call_draw_glium(layers: &Vec<Layer>, subpixels: bool, milliseconds: u32) -> (plan: Vec<
    DrawAction,
>)
    ensures
        plan@ == glium_plan(layers@, subpixels, milliseconds),
{
    let ghost part = glium_part(layers@, subpixels, milliseconds);
    let mut plan: Vec<DrawAction> = Vec::new();
    let mut layer: usize = 0;
    while layer < layers.len()
        invariant
            layer <= layers.len(),
            part == glium_part(layers@, subpixels, milliseconds),
            plan@ == crate::trace::concat_parts(3 * layer as nat, part),
        decreases layers.len() - layer,
    {
        let mut buffer: usize = 0;
        while buffer < BUFFERS_PER_LAYER
            invariant
                layer < layers.len(),
                buffer <= BUFFERS_PER_LAYER,
                part == glium_part(layers@, subpixels, milliseconds),
                plan@ == crate::trace::concat_parts((3 * layer + buffer) as nat, part),
            decreases BUFFERS_PER_LAYER - buffer,
        {
            let count = layers[layer].buffers[buffer];
            let ghost k = 3 * layer + buffer;
            assert(k / 3 == layer && k % 3 == buffer);
            assert(count == nth_buffer(layers@, k));
            let ghost before = plan@;
            if count.vertices > 0 {
                let subpixel_aa: bool = subpixels && buffer == TEXT_BUFFER;
                let blending = if subpixel_aa {
                    Blending::DualSource
                } else {
                    Blending::Alpha
                };
                plan.push(
                    DrawAction::DrawElements {
                        layer,
                        buffer,
                        count,
                        subpixel_aa,
                        blending,
                        milliseconds,
                    },
                );
            }
            plan.push(DrawAction::NextIndex { layer, buffer });
            assert(plan@ =~= before + part(k));
            buffer = buffer + 1;
        }
        layer = layer + 1;
    }
    plan
}

impl DrawState {
    /// Takes the next step of drawing a frame.  `None`, with nothing changed,
    /// means that the event is not one that the frame waits for.
    pub fn step(&mut self, config: &RenderConfig, event: DrawEvent) -> (action: Option<DrawAction>)
        ensures
            match draw_next(*config, old(self)@, event) {
                Some((next, act)) => final(self)@ == next && action == Some(act),
                None => final(self)@ == old(self)@ && action is None,
            },
    {
        proof {
            use_type_invariant(&*self);
        }
        match (self.phase, event) {
            (DrawPhase::Idle, DrawEvent::Begin { frame }) => {
                match frame {
                    RenderFrame::WebGpu => self.go(
                        DrawPhase::Opening { frame },
                        DrawAction::AcquireTexture,
                    ),
                    RenderFrame::Glium => self.go(
                        DrawPhase::Opening { frame },
                        DrawAction::ClearFrame,
                    ),
                }
            },
            (
                DrawPhase::Opening { frame: RenderFrame::WebGpu },
                DrawEvent::Acquired { duration },
            ) => {
                self.go(DrawPhase::RecordingAcquire, DrawAction::RecordAcquire { duration })
            },
            (DrawPhase::RecordingAcquire, DrawEvent::Done) => {
                let frame = RenderFrame::WebGpu;
                self.go(DrawPhase::ReadingLayers { frame }, DrawAction::ReadLayers)
            },
            (DrawPhase::Opening { frame: RenderFrame::Glium }, DrawEvent::Done) => {
                let frame = RenderFrame::Glium;
                self.go(DrawPhase::ReadingLayers { frame }, DrawAction::ReadLayers)
            },
            (DrawPhase::ReadingLayers { frame }, DrawEvent::Layers { layers, age }) => {
                let milliseconds: u32 = shader_millis(age);
                self.plan = match frame {
                    RenderFrame::WebGpu => call_draw_webgpu(&layers, milliseconds),
                    RenderFrame::Glium => call_draw_glium(
                        &layers,
                        use_subpixel(config),
                        milliseconds,
                    ),
                };
                self.follow_plan(frame, 0)
            },
            (DrawPhase::Opening { frame: RenderFrame::WebGpu }, DrawEvent::Failed) => {
                self.go(DrawPhase::Idle, DrawAction::Return { ok: false })
            },
            (DrawPhase::Drawing { frame, next }, DrawEvent::Done) => {
                assert(next < self.plan.len());
                self.follow_plan(frame, next + 1)
            },
            (DrawPhase::Drawing { next, .. }, DrawEvent::Failed) => {
                match self.plan[next] {
                    DrawAction::DrawElements { .. } => self.go(
                        DrawPhase::Idle,
                        DrawAction::Return { ok: false },
                    ),
                    _ => None,
                }
            },
            (DrawPhase::Submitting, DrawEvent::Done) => {
                self.go(DrawPhase::Presenting, DrawAction::Present)
            },
            (DrawPhase::Presenting, DrawEvent::Presented { at, duration, mode }) => {
                self.go(
                    DrawPhase::RecordingPresent { at, duration, mode },
                    DrawAction::RecordPresent { duration },
                )
            },
            (DrawPhase::RecordingPresent { at, duration, mode }, DrawEvent::Done) => {
                // A driver that has blocked for long has waited for the
                // vertical blank already.
                if config.compositor && mode == PresentMode::Fifo && duration
                    <= DRIVER_VSYNC_THRESHOLD {
                    self.go(DrawPhase::Flushing { at }, DrawAction::FlushCompositor)
                } else {
                    self.pace(config, at)
                }
            },
            (DrawPhase::Flushing { at }, DrawEvent::Flushed { hresult, duration }) => {
                if hresult < 0 {
                    self.pace(config, at)
                } else {
                    self.go(
                        DrawPhase::RecordingFlush { at },
                        DrawAction::RecordFlush { duration },
                    )
                }
            },
            (DrawPhase::RecordingFlush { at }, DrawEvent::Done) => {
                self.pace(config, at)
            },
            (DrawPhase::Stamping, DrawEvent::Clock(at)) => {
                self.pace(config, at)
            },
            (DrawPhase::Pacing { at }, DrawEvent::Clock(now)) => {
                let elapsed: u128 = duration_since(now, self.last_frame_instant);
                match pace_frame(elapsed, config.max_fps) {
                    Some(duration) => self.go(
                        DrawPhase::Sleeping { at },
                        DrawAction::PreciseSleep { duration },
                    ),
                    None => self.finish(at),
                }
            },
            (DrawPhase::Sleeping { at }, DrawEvent::Slept { duration }) => {
                if duration > 0 {
                    self.go(
                        DrawPhase::RecordingSleep { at },
                        DrawAction::RecordSleep { duration },
                    )
                } else {
                    self.finish(at)
                }
            },
            (DrawPhase::RecordingSleep { at }, DrawEvent::Done) => { self.finish(at) },
            _ => None,
        }
    }
}

/// The steps of drawing a frame, for runs.
pub open spec fn draw_steps(config: RenderConfig) -> spec_fn(DrawView, DrawEvent) -> Option<
    (DrawView, DrawAction),
> {
    |state: DrawView, event: DrawEvent| draw_next(config, state, event)
}

/// Whether the action at `i` is the first render pass.
pub open spec fn is_first_pass(plan: Seq<DrawAction>, i: int) -> bool {
    forall|j: int| 0 <= j < i ==> !(#[trigger] plan[j] is RenderPass)
}

proof fn lemma_first_pass_clears(layers: Seq<Layer>, milliseconds: u32, n: nat)
    ensures
        ({
            let plan = crate::trace::concat_parts(n, webgpu_part(layers, milliseconds));
            &&& forall|i: int|
                0 <= i < plan.len() ==> (#[trigger] plan[i] matches DrawAction::RenderPass {
                    load,
                    ..
                } ==> (load == LoadOp::Clear <==> is_first_pass(plan, i)))
            &&& is_first_pass(plan, plan.len() as int) <==> !drawn_before(layers, n as int)
        }),
    decreases n,
{
    let part = webgpu_part(layers, milliseconds);
    let plan = crate::trace::concat_parts(n, part);
    if n > 0 {
        let m = (n - 1) as nat;
        let before = crate::trace::concat_parts(m, part);
        let size = before.len() as int;
        lemma_first_pass_clears(layers, milliseconds, m);
        assert(plan == before + part(m as int));
        assert forall|i: int| 0 <= i <= size implies is_first_pass(plan, i) == is_first_pass(
            before,
            i,
        ) by {
            assert(forall|j: int| 0 <= j < i ==> plan[j] == before[j]);
        }
        if nth_buffer(layers, m as int).vertices > 0 {
            assert(plan[size] is RenderPass);
            assert(!is_first_pass(plan, plan.len() as int));
            assert(drawn_before(layers, n as int));
        } else {
            assert(plan.len() == size + 1);
            assert(!(plan[size] is RenderPass));
            assert(drawn_before(layers, n as int) == drawn_before(layers, m as int)) by {
                if drawn_before(layers, n as int) {
                    let j = choose|j: int|
                        0 <= j < n && #[trigger] nth_buffer(layers, j).vertices > 0;
                    assert(j < m);
                }
                if drawn_before(layers, m as int) {
                    let j = choose|j: int|
                        0 <= j < m && #[trigger] nth_buffer(layers, j).vertices > 0;
                    assert(j < n);
                }
            }
            assert(is_first_pass(plan, plan.len() as int) == is_first_pass(plan, size));
        }
        assert forall|i: int| 0 <= i < plan.len() implies (#[trigger] plan[i] matches
            DrawAction::RenderPass { load, .. } ==> (load == LoadOp::Clear <==> is_first_pass(
            plan,
            i,
        ))) by {
            if i < size {
                assert(plan[i] == before[i]);
            } else if i == size {
                assert(plan[i] == part(m as int)[0]);
            } else {
                assert(plan[i] == part(m as int)[i - size]);
            }
        }
    }
}

/// Of the render passes of a frame, the first one clears it and no other
/// does.
pub proof fn law_only_first_pass_clears(layers: Seq<Layer>, milliseconds: u32, i: int)
    requires
        0 <= i < webgpu_plan(layers, milliseconds).len(),
    ensures
        webgpu_plan(layers, milliseconds)[i] matches DrawAction::RenderPass { load, .. } ==> (load
            == LoadOp::Clear <==> is_first_pass(webgpu_plan(layers, milliseconds), i)),
{
    lemma_first_pass_clears(layers, milliseconds, 3 * layers.len());
}

/// Whether an action draws the given buffer.
pub open spec fn draws(action: DrawAction, layer: usize, buffer: usize) -> bool {
    match action {
        DrawAction::RenderPass { layer: l, buffer: b, .. } => l == layer && b == buffer,
        DrawAction::DrawElements { layer: l, buffer: b, .. } => l == layer && b == buffer,
        _ => false,
    }
}

/// The steps for the `k`th buffer, with either interface.
spec fn frame_part(
    config: RenderConfig,
    frame: RenderFrame,
    layers: Seq<Layer>,
    age: u128,
) -> spec_fn(int) -> Seq<DrawAction> {
    match frame {
        RenderFrame::WebGpu => webgpu_part(layers, wrapped_millis(age)),
        RenderFrame::Glium => glium_part(layers, uses_subpixels(config), wrapped_millis(age)),
    }
}

proof fn lemma_frame_part(
    config: RenderConfig,
    frame: RenderFrame,
    layers: Seq<Layer>,
    age: u128,
    k: int,
)
    ensures
        ({
            let steps = frame_part(config, frame, layers, age)(k);
            let layer = (k / 3) as usize;
            let buffer = (k % 3) as usize;
            &&& 1 <= steps.len() <= 2
            &&& steps.last() == DrawAction::NextIndex { layer, buffer }
            &&& steps.len() == 2 <==> nth_buffer(layers, k).vertices > 0
            &&& steps.len() == 2 ==> draws(steps[0], layer, buffer)
        }),
{
}

/// A frame draws just the buffers that hold anything, with either interface,
/// and lets every buffer move on, drawn or not.
pub proof fn law_frame_draws_what_there_is(
    config: RenderConfig,
    frame: RenderFrame,
    layers: Seq<Layer>,
    age: u128,
    layer: usize,
    buffer: usize,
)
    requires
        layers.len() <= usize::MAX,
        layer < layers.len(),
        buffer < BUFFERS_PER_LAYER,
    ensures
        (exists|action: DrawAction|
            draw_plan(config, frame, layers, age).contains(action) && #[trigger] draws(
                action,
                layer,
                buffer,
            )) <==> layers[layer as int].buffers@[buffer as int].vertices > 0,
        draw_plan(config, frame, layers, age).contains(DrawAction::NextIndex { layer, buffer }),
{
    let n = 3 * layers.len();
    let plan = draw_plan(config, frame, layers, age);
    let part = frame_part(config, frame, layers, age);
    let k = 3 * layer + buffer;
    assert(k / 3 == layer && k % 3 == buffer);
    lemma_frame_part(config, frame, layers, age, k);
    let steps = part(k);
    assert(steps.contains(steps.last())) by {
        assert(steps[steps.len() - 1] == steps.last());
    }
    crate::trace::lemma_concat_parts_contains(n, part, steps.last());
    if steps.len() == 2 {
        assert(steps.contains(steps[0]));
        crate::trace::lemma_concat_parts_contains(n, part, steps[0]);
        assert(draws(steps[0], layer, buffer));
    } else {
        assert forall|action: DrawAction|
            plan.contains(action) implies !#[trigger] draws(action, layer, buffer) by {
            crate::trace::lemma_concat_parts_contains(n, part, action);
            let j = choose|j: int| 0 <= j < n && (#[trigger] part(j)).contains(action);
            lemma_frame_part(config, frame, layers, age, j);
            if draws(action, layer, buffer) {
                assert(part(j)[0] == action);
                assert(j / 3 == layer && j % 3 == buffer);
            }
        }
    }
}

/// Blending is by color channel for text that was rasterized for subpixels,
/// and by alpha for everything else.
pub proof fn law_only_text_is_blended_by_channel(
    config: RenderConfig,
    layers: Seq<Layer>,
    age: u128,
    i: int,
)
    requires
        0 <= i < draw_plan(config, RenderFrame::Glium, layers, age).len(),
    ensures
        draw_plan(config, RenderFrame::Glium, layers, age)[i] matches DrawAction::DrawElements {
            buffer,
            blending,
            subpixel_aa,
            ..
        } ==> {
            &&& subpixel_aa <==> uses_subpixels(config) && buffer == TEXT_BUFFER
            &&& subpixel_aa <==> blending == Blending::DualSource
        },
{
    let plan = draw_plan(config, RenderFrame::Glium, layers, age);
    let part = glium_part(layers, uses_subpixels(config), wrapped_millis(age));
    assert(plan.contains(plan[i]));
    crate::trace::lemma_concat_parts_contains(3 * layers.len(), part, plan[i]);
    let j = choose|j: int| 0 <= j < 3 * layers.len() && (#[trigger] part(j)).contains(plan[i]);
    if plan[i] is DrawElements {
        assert(part(j)[0] == plan[i]);
    }
}

/// What it takes to open a frame: the texture is acquired in `acquire`, which
/// is recorded, or the frame is cleared.
pub open spec fn opening_actions(frame: RenderFrame, acquire: u128) -> Seq<DrawAction> {
    match frame {
        RenderFrame::WebGpu => seq![
            DrawAction::AcquireTexture,
            DrawAction::RecordAcquire { duration: acquire },
            DrawAction::ReadLayers,
        ],
        RenderFrame::Glium => seq![DrawAction::ClearFrame, DrawAction::ReadLayers],
    }
}

/// The events of a frame that opens and is then asked for its layers.
pub open spec fn opening_events(frame: RenderFrame, acquire: u128) -> Seq<DrawEvent> {
    let begun = Seq::<DrawEvent>::empty().push(DrawEvent::Begin { frame });
    match frame {
        RenderFrame::WebGpu => begun.push(DrawEvent::Acquired { duration: acquire }).push(
            DrawEvent::Done,
        ),
        RenderFrame::Glium => begun.push(DrawEvent::Done),
    }
}

/// The events of a frame that opens and then performs `n` steps of its plan.
pub open spec fn drawing_events(
    frame: RenderFrame,
    acquire: u128,
    layers: Vec<Layer>,
    age: u128,
    n: nat,
) -> Seq<DrawEvent> {
    opening_events(frame, acquire).push(DrawEvent::Layers { layers, age })
        + crate::trace::repeated(DrawEvent::Done, n)
}

proof fn lemma_opening(config: RenderConfig, start: DrawView, frame: RenderFrame, acquire: u128)
    requires
        start.phase == DrawPhase::Idle,
    ensures
        crate::trace::run(draw_steps(config), start, opening_events(frame, acquire)) == Some(
            (start.at(DrawPhase::ReadingLayers { frame }), opening_actions(frame, acquire)),
        ),
{
    let next = draw_steps(config);
    let none = Seq::<DrawEvent>::empty();
    let begin = DrawEvent::Begin { frame };
    let begun = none.push(begin);
    crate::trace::lemma_run_push(next, start, none, begin);
    if frame == RenderFrame::WebGpu {
        let acquired = DrawEvent::Acquired { duration: acquire };
        crate::trace::lemma_run_push(next, start, begun, acquired);
        crate::trace::lemma_run_push(next, start, begun.push(acquired), DrawEvent::Done);
    } else {
        crate::trace::lemma_run_push(next, start, begun, DrawEvent::Done);
    }
    let actions = crate::trace::run(next, start, opening_events(frame, acquire)).unwrap().1;
    assert(actions =~= opening_actions(frame, acquire));
}

proof fn lemma_plan_is_followed(config: RenderConfig, base: DrawView, frame: RenderFrame, n: nat)
    requires
        n <= base.plan.len() <= usize::MAX,
    ensures
        crate::trace::run(
            draw_steps(config),
            plan_next(base, frame, 0).0,
            crate::trace::repeated(DrawEvent::Done, n),
        ) == Some(
            (
                plan_next(base, frame, n as int).0,
                Seq::new(n, |i: int| plan_next(base, frame, i + 1).1),
            ),
        ),
    decreases n,
{
    let first = plan_next(base, frame, 0).0;
    let events = crate::trace::repeated(DrawEvent::Done, n);
    let actions = Seq::new(n, |i: int| plan_next(base, frame, i + 1).1);
    if n == 0 {
        assert(events.len() == 0);
        assert(actions =~= Seq::<DrawAction>::empty());
    } else {
        let m = (n - 1) as nat;
        let earlier = crate::trace::repeated(DrawEvent::Done, m);
        let before = Seq::new(m, |i: int| plan_next(base, frame, i + 1).1);
        lemma_plan_is_followed(config, base, frame, m);
        crate::trace::lemma_run_push(draw_steps(config), first, earlier, DrawEvent::Done);
        assert(events =~= earlier.push(DrawEvent::Done));
        let state = plan_next(base, frame, m as int).0;
        assert(state == base.at(DrawPhase::Drawing { frame, next: m as usize }));
        assert(plan_next(state, frame, n as int) == plan_next(base, frame, n as int));
        assert(actions =~= before.push(plan_next(base, frame, n as int).1));
    }
}

/// As long as nothing fails, a frame is opened, its whole plan is performed in
/// order, and then it goes on to be presented.  The time that it took to
/// acquire the texture is recorded.
pub proof fn law_whole_plan_is_performed(
    config: RenderConfig,
    start: DrawView,
    frame: RenderFrame,
    acquire: u128,
    layers: Vec<Layer>,
    age: u128,
)
    requires
        start.phase == DrawPhase::Idle,
        draw_plan(config, frame, layers@, age).len() <= usize::MAX,
    ensures
        ({
            let plan = draw_plan(config, frame, layers@, age);
            let opening = opening_actions(frame, acquire);
            crate::trace::run(
                draw_steps(config),
                start,
                drawing_events(frame, acquire, layers, age, plan.len()),
            ) == Some(
                match frame {
                    RenderFrame::WebGpu => (
                        DrawView { phase: DrawPhase::Submitting, plan, ..start },
                        opening + plan + seq![DrawAction::Submit],
                    ),
                    RenderFrame::Glium => (
                        DrawView { phase: DrawPhase::Stamping, plan, ..start },
                        opening + plan + seq![DrawAction::ReadClock],
                    ),
                },
            )
        }),
{
    let plan = draw_plan(config, frame, layers@, age);
    let base = DrawView { plan, ..start };
    let opening = opening_actions(frame, acquire);
    let (first, action) = plan_next(base, frame, 0);
    let read = DrawEvent::Layers { layers, age };
    let opened = opening_events(frame, acquire);
    let rest = crate::trace::repeated(DrawEvent::Done, plan.len());
    lemma_opening(config, start, frame, acquire);
    crate::trace::lemma_run_push(draw_steps(config), start, opened, read);
    let before = opening.push(action);
    assert(crate::trace::run(draw_steps(config), start, opened.push(read)) == Some(
        (first, before),
    ));
    lemma_plan_is_followed(config, base, frame, plan.len());
    crate::trace::lemma_run_concat(draw_steps(config), start, opened.push(read), rest);
    let after = Seq::new(plan.len(), |i: int| plan_next(base, frame, i + 1).1);
    let last = match frame {
        RenderFrame::WebGpu => DrawAction::Submit,
        RenderFrame::Glium => DrawAction::ReadClock,
    };
    lemma_plan_from_steps(base, frame, opening, last);
    assert(before + after == opening + plan + seq![last]);
}

/// The steps of a plan, taken one by one, are the plan and what follows it.
proof fn lemma_plan_from_steps(
    base: DrawView,
    frame: RenderFrame,
    opening: Seq<DrawAction>,
    last: DrawAction,
)
    requires
        last == plan_next(base, frame, base.plan.len() as int).1,
    ensures
        opening.push(plan_next(base, frame, 0).1) + Seq::new(
            base.plan.len(),
            |i: int| plan_next(base, frame, i + 1).1,
        ) == opening + base.plan + seq![last],
{
    let plan = base.plan;
    let after = Seq::new(plan.len(), |i: int| plan_next(base, frame, i + 1).1);
    let steps = opening.push(plan_next(base, frame, 0).1) + after;
    let whole = opening + plan + seq![last];
    let size = opening.len();
    assert forall|i: int| 0 <= i < whole.len() implies steps[i] == whole[i] by {
        if i >= size {
            assert(steps[i] == plan_next(base, frame, i - size).1);
        }
    }
    assert(steps =~= whole);
}

/// When the frame was presented: the first time among `events`.
pub open spec fn presented_at(events: Seq<DrawEvent>) -> Option<u64>
    decreases events.len(),
{
    if events.len() == 0 {
        None
    } else {
        match presented_at(events.drop_last()) {
            Some(at) => Some(at),
            None => match events.last() {
                DrawEvent::Presented { at, .. } => Some(at),
                DrawEvent::Clock(at) => Some(at),
                _ => None,
            },
        }
    }
}

/// The events of one frame: a request, and then what came of each action.
pub open spec fn one_frame(events: Seq<DrawEvent>) -> bool {
    &&& events.len() > 0
    &&& events[0] is Begin
    &&& forall|i: int| 0 < i < events.len() ==> !(#[trigger] events[i] is Begin)
}

/// Whether `actions` hold a sleep.
pub open spec fn sleeps(actions: Seq<DrawAction>) -> bool {
    exists|i: int| 0 <= i < actions.len() && #[trigger] actions[i] is PreciseSleep
}

/// Whether an action is one that a plan is made of.
pub open spec fn is_plan_step(action: DrawAction) -> bool {
    action is RenderPass || action is DrawElements || action is NextIndex
}

/// What holds all through a frame.
spec fn frame_invariant(
    config: RenderConfig,
    start: DrawView,
    end: DrawView,
    events: Seq<DrawEvent>,
    actions: Seq<DrawAction>,
) -> bool {
    &&& config.max_fps == 0 ==> !sleeps(actions)
    &&& match end.phase {
        DrawPhase::Idle => match actions.last() {
            DrawAction::Return { ok: true } => presented_at(events) == Some(
                end.last_frame_instant,
            ),
            DrawAction::Return { ok: false } => end.last_frame_instant == start.last_frame_instant
                && presented_at(events) is None && !sleeps(actions),
            _ => false,
        },
        phase => {
            &&& end.last_frame_instant == start.last_frame_instant
            &&& !(actions.last() is Return)
            &&& match phase {
                DrawPhase::RecordingPresent { at, .. } => presented_at(events) == Some(at),
                DrawPhase::Flushing { at } => presented_at(events) == Some(at),
                DrawPhase::RecordingFlush { at } => presented_at(events) == Some(at),
                DrawPhase::Pacing { at } => presented_at(events) == Some(at) && config.max_fps > 0,
                DrawPhase::Sleeping { at } => presented_at(events) == Some(at) && config.max_fps
                    > 0,
                DrawPhase::RecordingSleep { at } => presented_at(events) == Some(at)
                    && config.max_fps > 0,
                DrawPhase::Drawing { next, .. } => {
                    &&& presented_at(events) is None
                    &&& !sleeps(actions)
                    &&& next < end.plan.len()
                    &&& forall|i: int|
                        0 <= i < end.plan.len() ==> is_plan_step(#[trigger] end.plan[i])
                },
                _ => presented_at(events) is None && !sleeps(actions),
            }
        },
    }
}

proof fn lemma_plan_steps(
    config: RenderConfig,
    frame: RenderFrame,
    layers: Seq<Layer>,
    age: u128,
)
    ensures
        ({
            let plan = draw_plan(config, frame, layers, age);
            forall|i: int| 0 <= i < plan.len() ==> is_plan_step(#[trigger] plan[i])
        }),
{
    let plan = draw_plan(config, frame, layers, age);
    let part = frame_part(config, frame, layers, age);
    assert forall|i: int| 0 <= i < plan.len() implies is_plan_step(#[trigger] plan[i]) by {
        assert(plan.contains(plan[i]));
        crate::trace::lemma_concat_parts_contains(3 * layers.len(), part, plan[i]);
        let j = choose|j: int|
            0 <= j < 3 * layers.len() && (#[trigger] part(j)).contains(plan[i]);
        lemma_frame_part(config, frame, layers, age, j);
        assert(part(j)[0] == plan[i] || part(j).last() == plan[i]);
    }
}

proof fn lemma_frame_invariant(config: RenderConfig, start: DrawView, events: Seq<DrawEvent>)
    requires
        start.phase == DrawPhase::Idle,
        one_frame(events),
    ensures
        crate::trace::run(draw_steps(config), start, events) matches Some((end, actions))
            ==> frame_invariant(config, start, end, events, actions),
    decreases events.len(),
{
    let before = events.drop_last();
    crate::trace::lemma_run_len(draw_steps(config), start, before);
    if events.len() == 1 {
        assert(before.len() == 0);
        assert(presented_at(before) is None);
        assert(crate::trace::run(draw_steps(config), start, before) == Some(
            (start, Seq::<DrawAction>::empty()),
        ));
    } else {
        assert(one_frame(before));
        lemma_frame_invariant(config, start, before);
        let event = events.last();
        assert(!(events[events.len() - 1] is Begin));
        if let Some((state, actions)) = crate::trace::run(draw_steps(config), start, before) {
            if let (DrawPhase::ReadingLayers { frame }, DrawEvent::Layers { layers, age }) = (
                state.phase,
                event,
            ) {
                lemma_plan_steps(config, frame, layers@, age);
            }
            if let Some((end, action)) = draw_next(config, state, event) {
                let after = actions.push(action);
                assert(crate::trace::run(draw_steps(config), start, events) == Some((end, after)));
                if !sleeps(actions) && !(action is PreciseSleep) {
                    assert(!sleeps(after));
                }
                assert(frame_invariant(config, start, end, events, after));
            }
        }
    }
}

/// A frame that was presented is measured from when that happened, whatever
/// was waited for or slept since.
pub proof fn law_frame_boundary_leaves_out_own_sleep(
    config: RenderConfig,
    start: DrawView,
    events: Seq<DrawEvent>,
    end: DrawView,
    actions: Seq<DrawAction>,
)
    requires
        start.phase == DrawPhase::Idle,
        one_frame(events),
        crate::trace::run(draw_steps(config), start, events) == Some((end, actions)),
        actions.last() == (DrawAction::Return { ok: true }),
    ensures
        end.phase == DrawPhase::Idle,
        presented_at(events) == Some(end.last_frame_instant),
{
    lemma_frame_invariant(config, start, events);
}

/// A frame that failed was never presented: it is not paced, and it leaves the
/// time of the last one alone.
pub proof fn law_failed_frame_is_not_paced(
    config: RenderConfig,
    start: DrawView,
    events: Seq<DrawEvent>,
    end: DrawView,
    actions: Seq<DrawAction>,
)
    requires
        start.phase == DrawPhase::Idle,
        one_frame(events),
        crate::trace::run(draw_steps(config), start, events) == Some((end, actions)),
        actions.last() == (DrawAction::Return { ok: false }),
    ensures
        end.phase == DrawPhase::Idle,
        end.last_frame_instant == start.last_frame_instant,
        presented_at(events) is None,
        !sleeps(actions),
{
    lemma_frame_invariant(config, start, events);
}

/// Without a limit on the frame rate a frame is never followed by a sleep.
pub proof fn law_unlimited_frames_are_not_paced(
    config: RenderConfig,
    start: DrawView,
    events: Seq<DrawEvent>,
)
    requires
        config.max_fps == 0,
        start.phase == DrawPhase::Idle,
        one_frame(events),
    ensures
        crate::trace::run(draw_steps(config), start, events) matches Some((_, actions)) ==> !sleeps(
            actions,
        ),
{
    lemma_frame_invariant(config, start, events);
}

/// The time that presenting took is always recorded.  Then the compositor is
/// waited for where the frame was presented in order, unless the driver has
/// blocked for longer than `DRIVER_VSYNC_THRESHOLD`, and never otherwise.
pub proof fn law_compositor_is_flushed_unless_driver_waited(
    config: RenderConfig,
    state: DrawView,
    at: u64,
    duration: u128,
    mode: PresentMode,
)
    requires
        state.phase == DrawPhase::Presenting,
    ensures
        draw_next(config, state, DrawEvent::Presented { at, duration, mode }) matches Some(
            (recording, action),
        ) && {
            &&& action == (DrawAction::RecordPresent { duration })
            &&& draw_next(config, recording, DrawEvent::Done) matches Some((_, then_action)) && (
            then_action == DrawAction::FlushCompositor <==> config.compositor && mode
                == PresentMode::Fifo && duration <= DRIVER_VSYNC_THRESHOLD)
        },
{
}

/// Whether an action waits for the display, or prepares to: the compositor is
/// flushed, the clock is read for pacing, or a sleep is slept.
pub open spec fn waits(action: DrawAction) -> bool {
    action is FlushCompositor || action is ReadClock || action is PreciseSleep
}

/// How many actions open a frame.
pub open spec fn opening_len(frame: RenderFrame) -> int {
    match frame {
        RenderFrame::WebGpu => 3,
        RenderFrame::Glium => 2,
    }
}

/// That the first of `actions` bring the frame onto the display: it is opened,
/// the whole of `plan` is performed and, with WebGPU, the frame is submitted
/// and presented.
pub open spec fn is_shown(
    frame: RenderFrame,
    plan: Seq<DrawAction>,
    actions: Seq<DrawAction>,
) -> bool {
    let opened = opening_len(frame);
    let drawn = opened + plan.len();
    &&& drawn <= actions.len()
    &&& actions.subrange(opened, drawn) == plan
    &&& frame == RenderFrame::WebGpu ==> {
        &&& drawn + 2 <= actions.len()
        &&& actions[drawn] == DrawAction::Submit
        &&& actions[drawn + 1] == DrawAction::Present
    }
}

/// That no action of a frame waits.
spec fn none_waits(actions: Seq<DrawAction>) -> bool {
    forall|i: int| 0 <= i < actions.len() ==> !waits(#[trigger] actions[i])
}

/// That actions wait only after the frame is shown.
spec fn waits_after_showing(
    frame: RenderFrame,
    plan: Seq<DrawAction>,
    actions: Seq<DrawAction>,
) -> bool {
    forall|i: int|
        0 <= i < actions.len() && waits(#[trigger] actions[i]) ==> is_shown(
            frame,
            plan,
            actions.take(i),
        )
}

/// How far a frame has come, by the phase that it is in.
spec fn order_invariant(frame: RenderFrame, end: DrawView, actions: Seq<DrawAction>) -> bool {
    let opened = opening_len(frame);
    &&& waits_after_showing(frame, end.plan, actions)
    &&& match end.phase {
        DrawPhase::Idle => true,
        DrawPhase::Opening { frame: f } => f == frame && actions.len() == 1 && none_waits(actions),
        DrawPhase::RecordingAcquire => frame == RenderFrame::WebGpu && actions.len() == 2
            && none_waits(actions),
        DrawPhase::ReadingLayers { frame: f } => f == frame && actions.len() == opened
            && none_waits(actions),
        DrawPhase::Drawing { frame: f, next } => {
            &&& f == frame
            &&& next < end.plan.len()
            &&& actions.len() == opened + next + 1
            &&& actions.skip(opened) == end.plan.take(next + 1)
            &&& forall|i: int| 0 <= i < end.plan.len() ==> is_plan_step(#[trigger] end.plan[i])
        },
        DrawPhase::Submitting => {
            &&& frame == RenderFrame::WebGpu
            &&& actions.len() == opened + end.plan.len() + 1
            &&& actions.subrange(opened, opened + end.plan.len()) == end.plan
            &&& actions.last() == DrawAction::Submit
        },
        _ => is_shown(frame, end.plan, actions),
    }
}

/// A frame that is shown stays shown.
proof fn lemma_still_shown(
    frame: RenderFrame,
    plan: Seq<DrawAction>,
    actions: Seq<DrawAction>,
    action: DrawAction,
)
    requires
        is_shown(frame, plan, actions),
    ensures
        is_shown(frame, plan, actions.push(action)),
{
    let opened = opening_len(frame);
    let drawn = opened + plan.len();
    assert(actions.push(action).subrange(opened, drawn) =~= actions.subrange(opened, drawn));
}

/// One more action keeps the order, where the frame is shown before it waits.
proof fn lemma_order_push(
    frame: RenderFrame,
    plan: Seq<DrawAction>,
    actions: Seq<DrawAction>,
    action: DrawAction,
)
    requires
        waits_after_showing(frame, plan, actions),
        waits(action) ==> is_shown(frame, plan, actions),
    ensures
        waits_after_showing(frame, plan, actions.push(action)),
{
    let after = actions.push(action);
    assert forall|i: int| 0 <= i < after.len() && waits(#[trigger] after[i]) implies is_shown(
        frame,
        plan,
        after.take(i),
    ) by {
        if i < actions.len() {
            assert(after[i] == actions[i]);
            assert(after.take(i) =~= actions.take(i));
        } else {
            assert(after.take(i) =~= actions);
        }
    }
}

/// One step of the plan, or the way out of it.
proof fn lemma_order_in_plan(
    frame: RenderFrame,
    state: DrawView,
    actions: Seq<DrawAction>,
    next: int,
)
    requires
        0 <= next <= state.plan.len() <= usize::MAX,
        waits_after_showing(frame, state.plan, actions),
        actions.len() == opening_len(frame) + next,
        actions.skip(opening_len(frame)) == state.plan.take(next),
        forall|i: int| 0 <= i < state.plan.len() ==> is_plan_step(#[trigger] state.plan[i]),
    ensures
        ({
            let (end, action) = plan_next(state, frame, next);
            order_invariant(frame, end, actions.push(action))
        }),
{
    let opened = opening_len(frame);
    let (end, action) = plan_next(state, frame, next);
    let after = actions.push(action);
    if next < state.plan.len() {
        assert(is_plan_step(state.plan[next]));
        assert(after.skip(opened) =~= actions.skip(opened).push(action));
        assert(state.plan.take(next + 1) =~= state.plan.take(next).push(action));
    } else {
        assert(state.plan.take(next) =~= state.plan);
        assert(actions.subrange(opened, opened + state.plan.len()) =~= actions.skip(opened));
        if frame == RenderFrame::Glium {
            lemma_still_shown(frame, state.plan, actions, action);
        } else {
            assert(after.subrange(opened, opened + state.plan.len()) =~= actions.skip(opened));
        }
    }
    lemma_order_push(frame, state.plan, actions, action);
}

/// That the plan is one that there is room for, or has still to be made.
spec fn plan_fits(state: DrawView) -> bool {
    match state.phase {
        DrawPhase::Opening { .. } => true,
        DrawPhase::RecordingAcquire => true,
        DrawPhase::ReadingLayers { .. } => true,
        _ => state.plan.len() <= usize::MAX,
    }
}

/// A step keeps the order.
proof fn lemma_order_step(
    config: RenderConfig,
    frame: RenderFrame,
    state: DrawView,
    event: DrawEvent,
    actions: Seq<DrawAction>,
)
    requires
        !(event is Begin),
        plan_fits(state) ==> order_invariant(frame, state, actions),
    ensures
        draw_next(config, state, event) matches Some((end, action)) ==> plan_fits(end)
            ==> order_invariant(frame, end, actions.push(action)),
{
    let opened = opening_len(frame);
    let next = draw_next(config, state, event);
    if next is Some && plan_fits(next.unwrap().0) {
        let (end, action) = next.unwrap();
        let after = actions.push(action);
        match state.phase {
            DrawPhase::ReadingLayers { .. } => {
                assert(event is Layers);
                if let DrawEvent::Layers { layers, age } = event {
                    let plan = draw_plan(config, frame, layers@, age);
                    let read = DrawView { plan, ..state };
                    lemma_plan_steps(config, frame, layers@, age);
                    assert(actions.skip(opened) =~= plan.take(0));
                    lemma_order_in_plan(frame, read, actions, 0);
                }
            },
            DrawPhase::Drawing { next, .. } => {
                if event is Done {
                    lemma_order_in_plan(frame, state, actions, next + 1);
                } else {
                    lemma_order_push(frame, state.plan, actions, action);
                }
            },
            DrawPhase::Opening { .. } | DrawPhase::RecordingAcquire => {
                assert(none_waits(after));
            },
            DrawPhase::Submitting => {
                let drawn = opened + state.plan.len();
                assert(after.subrange(opened, drawn) =~= actions.subrange(opened, drawn));
                lemma_order_push(frame, state.plan, actions, action);
            },
            _ => {
                lemma_still_shown(frame, state.plan, actions, action);
                lemma_order_push(frame, state.plan, actions, action);
            },
        }
    }
}

proof fn lemma_order(
    config: RenderConfig,
    start: DrawView,
    events: Seq<DrawEvent>,
    frame: RenderFrame,
)
    requires
        start.phase == DrawPhase::Idle,
        one_frame(events),
        events[0] == (DrawEvent::Begin { frame }),
    ensures
        crate::trace::run(draw_steps(config), start, events) matches Some((end, actions))
            ==> plan_fits(end) ==> order_invariant(frame, end, actions),
    decreases events.len(),
{
    let before = events.drop_last();
    if events.len() == 1 {
        assert(before.len() == 0);
        assert(crate::trace::run(draw_steps(config), start, before) == Some(
            (start, Seq::<DrawAction>::empty()),
        ));
    } else {
        assert(one_frame(before));
        lemma_order(config, start, before, frame);
        assert(!(events[events.len() - 1] is Begin));
        if let Some((state, actions)) = crate::trace::run(draw_steps(config), start, before) {
            lemma_order_step(config, frame, state, events.last(), actions);
        }
    }
}

/// Nothing holds a frame up before it is shown: the compositor is flushed, the
/// clock is read for pacing and a sleep is slept only once the frame has been
/// drawn in full and, with WebGPU, submitted and presented.
pub proof fn law_waiting_comes_after_presenting(
    config: RenderConfig,
    start: DrawView,
    frame: RenderFrame,
    events: Seq<DrawEvent>,
    end: DrawView,
    actions: Seq<DrawAction>,
    i: int,
)
    requires
        start.phase == DrawPhase::Idle,
        one_frame(events),
        events[0] == (DrawEvent::Begin { frame }),
        crate::trace::run(draw_steps(config), start, events) == Some((end, actions)),
        end.plan.len() <= usize::MAX,
        0 <= i < actions.len(),
        waits(actions[i]),
    ensures
        is_shown(frame, end.plan, actions.take(i)),
{
    lemma_order(config, start, events, frame);
}

/// The shaders count whole milliseconds, modulo 2^32.
pub proof fn law_shaders_count_milliseconds(nanos: u128)
    ensures
        nanos < 4_294_967_296_000_000 ==> wrapped_millis(nanos) * 1_000_000 <= nanos < (
        wrapped_millis(nanos) + 1) * 1_000_000,
        nanos >= 4_294_967_296_000_000 ==> wrapped_millis(nanos) == wrapped_millis(
            (nanos - 4_294_967_296_000_000) as u128,
        ),
{
    let millis = nanos / 1_000_000;
    if nanos >= 4_294_967_296_000_000 {
        let less = (nanos - 4_294_967_296_000_000) as u128;
        assert(less / 1_000_000 == millis - 0x1_0000_0000);
        assert((millis - 0x1_0000_0000) % 0x1_0000_0000 == millis as int % 0x1_0000_0000);
    }
}

/// Subpixels are used exactly where glyphs are rasterized for an LCD, of
/// either orientation.  A render target decides that whatever the load target
/// is; without one the load target does.
pub proof fn law_subpixels_are_used_for_lcd_targets(config: RenderConfig)
    ensures
        config.freetype_render_target is None ==> match config.freetype_load_target {
            FreeTypeLoadTarget::HorizontalLcd => uses_subpixels(config),
            FreeTypeLoadTarget::VerticalLcd => uses_subpixels(config),
            FreeTypeLoadTarget::Other => !uses_subpixels(config),
        },
        config.freetype_render_target matches Some(target) ==> match target {
            FreeTypeLoadTarget::HorizontalLcd => uses_subpixels(config),
            FreeTypeLoadTarget::VerticalLcd => uses_subpixels(config),
            FreeTypeLoadTarget::Other => !uses_subpixels(config),
        },
{
}

/// Setting the render target to what the load target is changes nothing, and
/// where there is a render target the load target does not matter.
pub proof fn law_render_target_stands_in_for_load_target(
    config: RenderConfig,
    target: FreeTypeLoadTarget,
)
    ensures
        config.freetype_render_target is None ==> uses_subpixels(
            RenderConfig { freetype_render_target: Some(config.freetype_load_target), ..config },
        ) == uses_subpixels(config),
        config.freetype_render_target is Some ==> uses_subpixels(
            RenderConfig { freetype_load_target: target, ..config },
        ) == uses_subpixels(config),
{
}

/// Each step of a plan that draws says what there is in its buffer: all of its
/// vertices and indices, and nothing else.  With WebGPU the number of indices
/// has 32 bits.
pub proof fn law_steps_draw_what_is_in_the_buffer(
    config: RenderConfig,
    frame: RenderFrame,
    layers: Seq<Layer>,
    age: u128,
    i: int,
)
    requires
        layers.len() <= usize::MAX,
        0 <= i < draw_plan(config, frame, layers, age).len(),
    ensures
        match draw_plan(config, frame, layers, age)[i] {
            DrawAction::RenderPass { layer, buffer, indices, milliseconds, .. } => {
                let held = layers[layer as int].buffers@[buffer as int];
                &&& frame == RenderFrame::WebGpu
                &&& layer < layers.len() && buffer < 3
                &&& held.vertices > 0
                &&& held.indices < 0x1_0000_0000 ==> indices == held.indices
                &&& (held.indices - indices) % 0x1_0000_0000 == 0
                &&& milliseconds == wrapped_millis(age)
            },
            DrawAction::DrawElements { layer, buffer, count, milliseconds, .. } => {
                let held = layers[layer as int].buffers@[buffer as int];
                &&& frame == RenderFrame::Glium
                &&& layer < layers.len() && buffer < 3
                &&& held.vertices > 0
                &&& count.vertices == held.vertices && count.indices == held.indices
                &&& milliseconds == wrapped_millis(age)
            },
            DrawAction::NextIndex { layer, buffer } => layer < layers.len() && buffer < 3,
            _ => false,
        },
{
    let n = 3 * layers.len();
    let plan = draw_plan(config, frame, layers, age);
    let part = frame_part(config, frame, layers, age);
    assert(plan.contains(plan[i]));
    crate::trace::lemma_concat_parts_contains(n, part, plan[i]);
    let j = choose|j: int| 0 <= j < n && (#[trigger] part(j)).contains(plan[i]);
    lemma_frame_part(config, frame, layers, age, j);
    let steps = part(j);
    assert(0 <= j / 3 < layers.len() && 0 <= j % 3 < 3);
    let held = nth_buffer(layers, j);
    if steps.last() != plan[i] {
        assert(steps.len() == 2 && steps[0] == plan[i]);
        let whole = held.indices as int;
        assert((whole - whole % 0x1_0000_0000) % 0x1_0000_0000 == 0);
        assert(held.indices < 0x1_0000_0000 ==> whole % 0x1_0000_0000 == whole);
    }
}

/// The buffers that are let move on, in order.
pub open spec fn advances(actions: Seq<DrawAction>) -> Seq<(usize, usize)>
    decreases actions.len(),
{
    if actions.len() == 0 {
        Seq::empty()
    } else {
        let before = advances(actions.drop_last());
        match actions.last() {
            DrawAction::NextIndex { layer, buffer } => before.push((layer, buffer)),
            _ => before,
        }
    }
}

proof fn lemma_advances_concat(first: Seq<DrawAction>, second: Seq<DrawAction>)
    ensures
        advances(first + second) == advances(first) + advances(second),
    decreases second.len(),
{
    if second.len() == 0 {
        assert(first + second =~= first);
    } else {
        lemma_advances_concat(first, second.drop_last());
        assert((first + second).drop_last() =~= first + second.drop_last());
    }
    assert(advances(first + second) =~= advances(first) + advances(second));
}

/// That a step which draws a buffer is followed by that buffer moving on.
pub open spec fn then_moves_on(plan: Seq<DrawAction>, i: int) -> bool {
    match plan[i] {
        DrawAction::RenderPass { layer, buffer, .. } => i + 1 < plan.len() && plan[i + 1]
            == (DrawAction::NextIndex { layer, buffer }),
        DrawAction::DrawElements { layer, buffer, .. } => i + 1 < plan.len() && plan[i + 1]
            == (DrawAction::NextIndex { layer, buffer }),
        _ => true,
    }
}

proof fn lemma_buffers_in_order(
    config: RenderConfig,
    frame: RenderFrame,
    layers: Seq<Layer>,
    age: u128,
    n: nat,
)
    ensures
        ({
            let plan = crate::trace::concat_parts(n, frame_part(config, frame, layers, age));
            &&& advances(plan) == Seq::new(n, |k: int| ((k / 3) as usize, (k % 3) as usize))
            &&& forall|i: int| 0 <= i < plan.len() ==> #[trigger] then_moves_on(plan, i)
        }),
    decreases n,
{
    let part = frame_part(config, frame, layers, age);
    let plan = crate::trace::concat_parts(n, part);
    let order = Seq::new(n, |k: int| ((k / 3) as usize, (k % 3) as usize));
    if n == 0 {
        assert(advances(plan) =~= order);
    } else {
        let m = (n - 1) as nat;
        let before = crate::trace::concat_parts(m, part);
        let earlier = Seq::new(m, |k: int| ((k / 3) as usize, (k % 3) as usize));
        let steps = part(m as int);
        let size = before.len();
        lemma_buffers_in_order(config, frame, layers, age, m);
        lemma_frame_part(config, frame, layers, age, m as int);
        lemma_advances_concat(before, steps);
        let next = ((m as int / 3) as usize, (m as int % 3) as usize);
        assert(advances(Seq::<DrawAction>::empty()) == Seq::<(usize, usize)>::empty());
        let most = steps.drop_last();
        if steps.len() == 1 {
            assert(most =~= Seq::<DrawAction>::empty());
        } else {
            assert(most.drop_last() =~= Seq::<DrawAction>::empty());
            assert(draws(most.last(), next.0, next.1));
        }
        assert(advances(most) =~= Seq::<(usize, usize)>::empty());
        assert(advances(steps) =~= seq![next]);
        assert(advances(plan) =~= earlier.push(next));
        assert(advances(plan) =~= order);
        assert forall|i: int| 0 <= i < plan.len() implies #[trigger] then_moves_on(plan, i) by {
            if i < size {
                assert(then_moves_on(before, i));
                assert(plan[i] == before[i]);
                if i + 1 < size {
                    assert(plan[i + 1] == before[i + 1]);
                }
            } else {
                assert(plan[i] == steps[i - size]);
                if steps.len() == 2 && i == size {
                    assert(draws(plan[i], next.0, next.1));
                    assert(plan[i + 1] == steps[1]);
                }
            }
        }
    }
}

/// A frame takes all buffers in order, layer by layer.  Each one moves on just
/// once, and what is drawn of it is drawn right before.
pub proof fn law_buffers_are_taken_in_order(
    config: RenderConfig,
    frame: RenderFrame,
    layers: Seq<Layer>,
    age: u128,
)
    requires
        layers.len() <= usize::MAX,
    ensures
        ({
            let plan = draw_plan(config, frame, layers, age);
            let order = advances(plan);
            &&& order.len() == 3 * layers.len()
            &&& forall|layer: int, buffer: int|
                0 <= layer < layers.len() && 0 <= buffer < 3 ==> #[trigger] order[3 * layer
                    + buffer] == (layer as usize, buffer as usize)
            &&& forall|i: int| 0 <= i < plan.len() ==> #[trigger] then_moves_on(plan, i)
        }),
{
    lemma_buffers_in_order(config, frame, layers, age, 3 * layers.len());
    let order = advances(draw_plan(config, frame, layers, age));
    assert forall|layer: int, buffer: int|
        0 <= layer < layers.len() && 0 <= buffer < 3 implies #[trigger] order[3 * layer + buffer]
        == (layer as usize, buffer as usize) by {
        let k = 3 * layer + buffer;
        assert(k / 3 == layer && k % 3 == buffer);
    }
}

/// How long a frame is followed by a sleep, where `elapsed` has passed since
/// the frame before.
pub open spec fn time_left(max_fps: u64, elapsed: int) -> int {
    let frame = crate::frame_pacing::frame_time(
        if max_fps > 10_000 {
            10_000
        } else {
            max_fps as int
        },
    );
    frame - elapsed - crate::frame_pacing::safety_buffer(frame)
}

/// A frame is paced by the time since the frame before was presented.  Where
/// the clock reads that time plus `elapsed`, what is left of the frame less the
/// safety buffer is slept, where that is a tenth of a millisecond or more.
/// Otherwise the frame is done.
pub proof fn law_pacing_counts_from_the_last_frame(
    config: RenderConfig,
    start: DrawView,
    events: Seq<DrawEvent>,
    end: DrawView,
    actions: Seq<DrawAction>,
    now: u64,
    elapsed: int,
)
    requires
        start.phase == DrawPhase::Idle,
        one_frame(events),
        crate::trace::run(draw_steps(config), start, events) == Some((end, actions)),
        end.phase is Pacing,
        elapsed >= 0,
        now == start.last_frame_instant + elapsed,
    ensures
        draw_next(config, end, DrawEvent::Clock(now)) matches Some((next, action)) && {
            let left = time_left(config.max_fps, elapsed);
            if left >= 100_000 {
                &&& action matches DrawAction::PreciseSleep { duration } && duration == left
                &&& next.last_frame_instant == start.last_frame_instant
            } else {
                &&& action == (DrawAction::Return { ok: true })
                &&& presented_at(events) == Some(next.last_frame_instant)
            }
        },
{
    lemma_frame_invariant(config, start, events);
    crate::frame_pacing::law_elapsed_sleep_and_buffer_make_up_the_frame(
        elapsed,
        config.max_fps as int,
    );
}

/// Pacing does not depend on where the clock starts: with the last frame and
/// the reading both later by the same time, the same is done.
pub proof fn law_pacing_does_not_depend_on_the_origin_of_the_clock(
    config: RenderConfig,
    state: DrawView,
    now: u64,
    shift: u64,
)
    requires
        state.phase is Pacing,
        state.last_frame_instant + shift <= u64::MAX,
        now + shift <= u64::MAX,
    ensures
        ({
            let later = DrawView {
                last_frame_instant: (state.last_frame_instant + shift) as u64,
                ..state
            };
            draw_next(config, later, DrawEvent::Clock((now + shift) as u64)).unwrap().1
                == draw_next(config, state, DrawEvent::Clock(now)).unwrap().1
        }),
{
}

/// What follows a frame that was presented, up to the end of it: a clock
/// reading `now`, and a sleep that took `slept`, as far as there is any.
pub open spec fn pacing_events(config: RenderConfig, last: u64, now: u64, slept: u128) -> Seq<
    DrawEvent,
> {
    let elapsed = if now > last {
        now - last
    } else {
        0
    };
    if config.max_fps == 0 {
        Seq::empty()
    } else if time_left(config.max_fps, elapsed) < 100_000 {
        seq![DrawEvent::Clock(now)]
    } else if slept == 0 {
        seq![DrawEvent::Clock(now), DrawEvent::Slept { duration: slept }]
    } else {
        seq![DrawEvent::Clock(now), DrawEvent::Slept { duration: slept }, DrawEvent::Done]
    }
}

/// What is done to pace a frame, and then to end it.
pub open spec fn pacing_actions(config: RenderConfig, last: u64, now: u64, slept: u128) -> Seq<
    DrawAction,
> {
    let elapsed = if now > last {
        now - last
    } else {
        0
    };
    let left = time_left(config.max_fps, elapsed);
    let done = DrawAction::Return { ok: true };
    if config.max_fps == 0 {
        seq![done]
    } else if left < 100_000 {
        seq![DrawAction::ReadClock, done]
    } else if slept == 0 {
        seq![DrawAction::ReadClock, DrawAction::PreciseSleep { duration: left as u128 }, done]
    } else {
        seq![
            DrawAction::ReadClock,
            DrawAction::PreciseSleep { duration: left as u128 },
            DrawAction::RecordSleep { duration: slept },
            done,
        ]
    }
}

proof fn lemma_pacing(config: RenderConfig, state: DrawView, at: u64, now: u64, slept: u128)
    ensures
        ({
            let (paced, action) = pace_next(config, state, at);
            let last = state.last_frame_instant;
            let events = pacing_events(config, last, now, slept);
            let actions = pacing_actions(config, last, now, slept);
            &&& action == actions[0]
            &&& crate::trace::run(draw_steps(config), paced, events) == Some(
                (
                    DrawView { phase: DrawPhase::Idle, last_frame_instant: at, ..state },
                    actions.drop_first(),
                ),
            )
        }),
{
    let next = draw_steps(config);
    let (paced, action) = pace_next(config, state, at);
    let last = state.last_frame_instant;
    let elapsed = crate::frame_timing::time_between(last, now) as int;
    let events = pacing_events(config, last, now, slept);
    let actions = pacing_actions(config, last, now, slept);
    let none = Seq::<DrawEvent>::empty();
    let read = none.push(DrawEvent::Clock(now));
    let woken = read.push(DrawEvent::Slept { duration: slept });
    crate::frame_pacing::law_elapsed_sleep_and_buffer_make_up_the_frame(
        elapsed,
        config.max_fps as int,
    );
    crate::trace::lemma_run_push(next, paced, none, DrawEvent::Clock(now));
    crate::trace::lemma_run_push(next, paced, read, DrawEvent::Slept { duration: slept });
    crate::trace::lemma_run_push(next, paced, woken, DrawEvent::Done);
    if config.max_fps == 0 {
        assert(events =~= none);
    } else if time_left(config.max_fps, elapsed) < 100_000 {
        assert(events =~= read);
    } else if slept == 0 {
        assert(events =~= woken);
    } else {
        assert(events =~= woken.push(DrawEvent::Done));
    }
    assert(crate::trace::run(next, paced, events).unwrap().1 =~= actions.drop_first());
}

/// A frame that is drawn with OpenGL, from its beginning to its end: it is
/// cleared, its plan is performed, the clock is read at `at`, and then it is
/// paced.
pub proof fn law_glium_frame(
    config: RenderConfig,
    start: DrawView,
    layers: Vec<Layer>,
    age: u128,
    at: u64,
    now: u64,
    slept: u128,
)
    requires
        start.phase == DrawPhase::Idle,
        draw_plan(config, RenderFrame::Glium, layers@, age).len() <= usize::MAX,
    ensures
        ({
            let plan = draw_plan(config, RenderFrame::Glium, layers@, age);
            let last = start.last_frame_instant;
            crate::trace::run(
                draw_steps(config),
                start,
                drawing_events(RenderFrame::Glium, 0, layers, age, plan.len()).push(
                    DrawEvent::Clock(at),
                ) + pacing_events(config, last, now, slept),
            ) == Some(
                (
                    DrawView { plan, last_frame_instant: at, ..start },
                    seq![DrawAction::ClearFrame, DrawAction::ReadLayers] + plan + seq![
                        DrawAction::ReadClock,
                    ] + pacing_actions(config, last, now, slept),
                ),
            )
        }),
{
    let frame = RenderFrame::Glium;
    let next = draw_steps(config);
    let plan = draw_plan(config, frame, layers@, age);
    let last = start.last_frame_instant;
    let drawn = drawing_events(frame, 0, layers, age, plan.len());
    law_whole_plan_is_performed(config, start, frame, 0, layers, age);
    let stamping = DrawView { phase: DrawPhase::Stamping, plan, ..start };
    let before = opening_actions(frame, 0) + plan + seq![DrawAction::ReadClock];
    crate::trace::lemma_run_push(next, start, drawn, DrawEvent::Clock(at));
    lemma_pacing(config, stamping, at, now, slept);
    let tail = pacing_actions(config, last, now, slept);
    let rest = pacing_events(config, last, now, slept);
    crate::trace::lemma_run_concat(next, start, drawn.push(DrawEvent::Clock(at)), rest);
    lemma_first_and_rest(before, tail);
}

/// What comes first may as well be put at the end of what is before.
proof fn lemma_first_and_rest<A>(before: Seq<A>, tail: Seq<A>)
    requires
        tail.len() > 0,
    ensures
        before.push(tail[0]) + tail.drop_first() == before + tail,
{
    assert(before.push(tail[0]) + tail.drop_first() =~= before + tail);
}

/// What a frame that was presented with WebGPU goes through before it is
/// paced: the time is recorded, and the compositor of the desktop is waited
/// for where the frame was presented in order within four milliseconds.
pub open spec fn presenting_events(
    config: RenderConfig,
    at: u64,
    duration: u128,
    mode: PresentMode,
    hresult: i32,
    flush: u128,
) -> Seq<DrawEvent> {
    let presented = seq![
        DrawEvent::Done,
        DrawEvent::Presented { at, duration, mode },
        DrawEvent::Done,
    ];
    if config.compositor && mode == PresentMode::Fifo && duration <= 4_000_000 {
        let flushed = presented.push(DrawEvent::Flushed { hresult, duration: flush });
        if hresult >= 0 {
            flushed.push(DrawEvent::Done)
        } else {
            flushed
        }
    } else {
        presented
    }
}

/// What is done to present a frame with WebGPU.  The time that the compositor
/// took is recorded unless it failed.
pub open spec fn presenting_actions(
    config: RenderConfig,
    duration: u128,
    mode: PresentMode,
    hresult: i32,
    flush: u128,
) -> Seq<DrawAction> {
    let presented = seq![DrawAction::Present, DrawAction::RecordPresent { duration }];
    if config.compositor && mode == PresentMode::Fifo && duration <= 4_000_000 {
        let flushed = presented.push(DrawAction::FlushCompositor);
        if hresult >= 0 {
            flushed.push(DrawAction::RecordFlush { duration: flush })
        } else {
            flushed
        }
    } else {
        presented
    }
}

proof fn lemma_presenting(
    config: RenderConfig,
    state: DrawView,
    at: u64,
    duration: u128,
    mode: PresentMode,
    hresult: i32,
    flush: u128,
)
    requires
        state.phase == DrawPhase::Submitting,
    ensures
        ({
            let (paced, action) = pace_next(config, state, at);
            crate::trace::run(
                draw_steps(config),
                state,
                presenting_events(config, at, duration, mode, hresult, flush),
            ) == Some(
                (paced, presenting_actions(config, duration, mode, hresult, flush).push(action)),
            )
        }),
{
    let next = draw_steps(config);
    let (paced, action) = pace_next(config, state, at);
    let presented = DrawEvent::Presented { at, duration, mode };
    let flushed = DrawEvent::Flushed { hresult, duration: flush };
    let e0 = Seq::<DrawEvent>::empty();
    let e1 = e0.push(DrawEvent::Done);
    let e2 = e1.push(presented);
    let e3 = e2.push(DrawEvent::Done);
    let e4 = e3.push(flushed);
    crate::trace::lemma_run_push(next, state, e0, DrawEvent::Done);
    crate::trace::lemma_run_push(next, state, e1, presented);
    crate::trace::lemma_run_push(next, state, e2, DrawEvent::Done);
    crate::trace::lemma_run_push(next, state, e3, flushed);
    crate::trace::lemma_run_push(next, state, e4, DrawEvent::Done);
    let events = presenting_events(config, at, duration, mode, hresult, flush);
    if config.compositor && mode == PresentMode::Fifo && duration <= 4_000_000 {
        if hresult >= 0 {
            assert(events =~= e4.push(DrawEvent::Done));
        } else {
            assert(events =~= e4);
        }
    } else {
        assert(events =~= e3);
    }
    let (end, actions) = crate::trace::run(next, state, events).unwrap();
    assert(actions =~= presenting_actions(config, duration, mode, hresult, flush).push(action));
    assert(end =~= paced);
}

/// A frame that is drawn with WebGPU, from its beginning to its end: a texture
/// is acquired, the plan is performed and submitted, the frame is presented at
/// `at`, and then it is paced.
pub proof fn law_webgpu_frame(
    config: RenderConfig,
    start: DrawView,
    acquire: u128,
    layers: Vec<Layer>,
    age: u128,
    at: u64,
    duration: u128,
    mode: PresentMode,
    hresult: i32,
    flush: u128,
    now: u64,
    slept: u128,
)
    requires
        start.phase == DrawPhase::Idle,
        draw_plan(config, RenderFrame::WebGpu, layers@, age).len() <= usize::MAX,
    ensures
        ({
            let plan = draw_plan(config, RenderFrame::WebGpu, layers@, age);
            let last = start.last_frame_instant;
            crate::trace::run(
                draw_steps(config),
                start,
                drawing_events(RenderFrame::WebGpu, acquire, layers, age, plan.len())
                    + presenting_events(config, at, duration, mode, hresult, flush)
                    + pacing_events(config, last, now, slept),
            ) == Some(
                (
                    DrawView { plan, last_frame_instant: at, ..start },
                    seq![
                        DrawAction::AcquireTexture,
                        DrawAction::RecordAcquire { duration: acquire },
                        DrawAction::ReadLayers,
                    ] + plan + seq![DrawAction::Submit] + presenting_actions(
                        config,
                        duration,
                        mode,
                        hresult,
                        flush,
                    ) + pacing_actions(config, last, now, slept),
                ),
            )
        }),
{
    let frame = RenderFrame::WebGpu;
    let next = draw_steps(config);
    let plan = draw_plan(config, frame, layers@, age);
    let last = start.last_frame_instant;
    let drawn = drawing_events(frame, acquire, layers, age, plan.len());
    let presented = presenting_events(config, at, duration, mode, hresult, flush);
    let rest = pacing_events(config, last, now, slept);
    law_whole_plan_is_performed(config, start, frame, acquire, layers, age);
    let submitting = DrawView { phase: DrawPhase::Submitting, plan, ..start };
    lemma_presenting(config, submitting, at, duration, mode, hresult, flush);
    lemma_pacing(config, submitting, at, now, slept);
    crate::trace::lemma_run_concat(next, start, drawn, presented);
    crate::trace::lemma_run_concat(next, start, drawn + presented, rest);
    let first = opening_actions(frame, acquire) + plan + seq![DrawAction::Submit];
    let middle = presenting_actions(config, duration, mode, hresult, flush);
    let tail = pacing_actions(config, last, now, slept);
    assert(first + middle.push(tail[0]) =~= (first + middle).push(tail[0]));
    lemma_first_and_rest(first + middle, tail);
}

/// A frame whose texture cannot be acquired is given up at once, and so is one
/// of which a buffer cannot be drawn.  Nothing that comes later in the plan is
/// performed.
pub proof fn law_failure_gives_the_frame_up(
    config: RenderConfig,
    start: DrawView,
    layers: Vec<Layer>,
    age: u128,
    n: int,
)
    requires
        start.phase == DrawPhase::Idle,
        draw_plan(config, RenderFrame::Glium, layers@, age).len() <= usize::MAX,
    ensures
        crate::trace::run(
            draw_steps(config),
            start,
            seq![DrawEvent::Begin { frame: RenderFrame::WebGpu }, DrawEvent::Failed],
        ) == Some((start, seq![DrawAction::AcquireTexture, DrawAction::Return { ok: false }])),
        ({
            let plan = draw_plan(config, RenderFrame::Glium, layers@, age);
            0 <= n < plan.len() && plan[n] is DrawElements ==> crate::trace::run(
                draw_steps(config),
                start,
                drawing_events(RenderFrame::Glium, 0, layers, age, n as nat).push(
                    DrawEvent::Failed,
                ),
            ) == Some(
                (
                    DrawView { plan, ..start },
                    seq![DrawAction::ClearFrame, DrawAction::ReadLayers] + plan.take(n + 1)
                        + seq![DrawAction::Return { ok: false }],
                ),
            )
        }),
{
    let next = draw_steps(config);
    let none = Seq::<DrawEvent>::empty();
    let begin = DrawEvent::Begin { frame: RenderFrame::WebGpu };
    crate::trace::lemma_run_push(next, start, none, begin);
    crate::trace::lemma_run_push(next, start, none.push(begin), DrawEvent::Failed);
    assert(seq![begin, DrawEvent::Failed] =~= none.push(begin).push(DrawEvent::Failed));
    assert(crate::trace::run(next, start, none.push(begin).push(DrawEvent::Failed)).unwrap().1
        =~= seq![DrawAction::AcquireTexture, DrawAction::Return { ok: false }]);
    let frame = RenderFrame::Glium;
    let plan = draw_plan(config, frame, layers@, age);
    if 0 <= n < plan.len() && plan[n] is DrawElements {
        let base = DrawView { plan, ..start };
        let opened = opening_events(frame, 0);
        let read = DrawEvent::Layers { layers, age };
        let steps = crate::trace::repeated(DrawEvent::Done, n as nat);
        let opening = opening_actions(frame, 0);
        lemma_opening(config, start, frame, 0);
        crate::trace::lemma_run_push(next, start, opened, read);
        lemma_plan_is_followed(config, base, frame, n as nat);
        crate::trace::lemma_run_concat(next, start, opened.push(read), steps);
        let drawn = opened.push(read) + steps;
        let state = plan_next(base, frame, n).0;
        assert(state == base.at(DrawPhase::Drawing { frame, next: n as usize }));
        crate::trace::lemma_run_push(next, start, drawn, DrawEvent::Failed);
        let after = Seq::new(n as nat, |i: int| plan_next(base, frame, i + 1).1);
        let before = opening.push(plan_next(base, frame, 0).1);
        let whole = opening + plan.take(n + 1);
        assert forall|i: int| 0 <= i < whole.len() implies (before + after)[i] == whole[i] by {
            if i >= opening.len() {
                assert((before + after)[i] == plan_next(base, frame, i - opening.len()).1);
            }
        }
        assert(before + after =~= whole);
        assert(whole.push(DrawAction::Return { ok: false }) =~= whole + seq![
            DrawAction::Return { ok: false },
        ]);
    }
}

/// Whether an event is what can come of an action.
pub open spec fn answers(action: DrawAction, event: DrawEvent) -> bool {
    match action {
        DrawAction::AcquireTexture => event is Acquired || event is Failed,
        DrawAction::DrawElements { .. } => event is Done || event is Failed,
        DrawAction::ReadLayers => event is Layers,
        DrawAction::Present => event is Presented,
        DrawAction::FlushCompositor => event is Flushed,
        DrawAction::ReadClock => event is Clock,
        DrawAction::PreciseSleep { .. } => event is Slept,
        DrawAction::Return { .. } => event is Begin,
        _ => event is Done,
    }
}

/// After each action a frame waits for what can come of it, and for nothing
/// else.
pub proof fn law_draw_waits_for_what_comes_of_its_action(
    config: RenderConfig,
    state: DrawView,
    event: DrawEvent,
    later: DrawEvent,
)
    requires
        state.plan.len() <= usize::MAX,
        forall|i: int| 0 <= i < state.plan.len() ==> is_plan_step(#[trigger] state.plan[i]),
        event matches DrawEvent::Layers { layers, age } ==> (state.phase matches
            DrawPhase::ReadingLayers { frame } ==> draw_plan(config, frame, layers@, age).len()
            <= usize::MAX),
    ensures
        draw_next(config, state, event) matches Some((next, action)) ==> (draw_next(
            config,
            next,
            later,
        ) is Some <==> answers(action, later)),
{
    if let (DrawPhase::ReadingLayers { frame }, DrawEvent::Layers { layers, age }) = (
        state.phase,
        event,
    ) {
        lemma_plan_steps(config, frame, layers@, age);
    }
}

/// The first frame of a window is paced like any other, by the time since the
/// window was opened.
pub proof fn law_first_frame_counts_from_opening(
    config: RenderConfig,
    opened: u64,
    event: DrawEvent,
)
    ensures
        DrawView::initial(opened).last_frame_instant == opened,
        draw_next(config, DrawView::initial(opened), event) is Some <==> event is Begin,
{
}

} // verus!
