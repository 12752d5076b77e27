//! The decisions of the render loop: what to do when no frame waits, how a
//! frame taken from the hand-off becomes pixels to draw, and when the
//! renderer counts as at work.
//!
//! The loop starts out waiting and shows an idle animation for as long as
//! no frame has ever arrived. With the first frame it turns to streaming
//! for good, and from then on only waits for frames.

use vstd::prelude::*;
use crate::codec::{decode_payload, decoded_payload, DecodeError};
use crate::pipeline::{
    after_finish,
    after_receive,
    consistent,
    frame_of,
    DecodeMode,
    Pipeline,
    PipelineState,
};
use crate::protocol::{Frame, FrameView};

verus! {

/// Whether a frame has ever arrived.
#[derive(Clone, Copy, Debug, PartialEq, Eq, Structural)]
pub enum Phase {
    /// None has: the idle animation runs.
    Waiting,
    /// One has: the loop only waits for the next.
    Streaming,
}

/// What the loop finds at the start of a cycle.
#[derive(Debug)]
pub enum Wake {
    /// A frame, now in the renderer's hand.
    Frame(Frame),
    /// Nothing, and nothing ever came: show one pass of the idle animation.
    Animate,
    /// Nothing: wait for the next frame.
    Wait,
}

/// What the loop finds, as plain values.
pub enum WakeView {
    Frame(FrameView),
    Animate,
    Wait,
}

impl Wake {
    /// The finding as plain values.
    pub open spec fn view(&self) -> WakeView {
        match self {
            Wake::Frame(f) => WakeView::Frame(f@),
            Wake::Animate => WakeView::Animate,
            Wake::Wait => WakeView::Wait,
        }
    }
}

/// What a whole cycle comes to.
#[derive(Debug)]
pub enum RenderStep {
    /// Draw these pixel bytes where the header says.
    Draw(Frame),
    /// The frame's payload did not expand: it is dropped.
    Dropped(DecodeError),
    /// Show one pass of the idle animation.
    Animate,
    /// Wait for the next frame.
    Wait,
}

/// What a whole cycle comes to, as plain values.
pub enum RenderStepView {
    Draw(FrameView),
    Dropped(DecodeError),
    Animate,
    Wait,
}

impl RenderStep {
    /// The step as plain values.
    pub open spec fn view(&self) -> RenderStepView {
        match self {
            RenderStep::Draw(f) => RenderStepView::Draw(f@),
            RenderStep::Dropped(e) => RenderStepView::Dropped(*e),
            RenderStep::Animate => RenderStepView::Animate,
            RenderStep::Wait => RenderStepView::Wait,
        }
    }
}

/// What is done when no frame waits.
pub open spec fn idle_wake(phase: Phase) -> WakeView {
    match phase {
        Phase::Waiting => WakeView::Animate,
        Phase::Streaming => WakeView::Wait,
    }
}

/// The start of a cycle: the phase and the hand-off after it, and what was
/// found. Work on an earlier frame ends here at the latest. A frame that
/// waits is taken, which turns the loop to streaming and marks the renderer
/// as at work.
pub open spec fn begun(phase: Phase, s: PipelineState) -> (Phase, PipelineState, WakeView) {
    match s.slot {
        Some(f) => (Phase::Streaming, after_receive(after_finish(s)), WakeView::Frame(f)),
        None => (phase, after_finish(s), idle_wake(phase)),
    }
}

/// The pixels that the renderer draws for a frame taken from the hand-off:
/// the payload expanded where that is the renderer's part, else the frame
/// as it is.
pub open spec fn expanded(mode: DecodeMode, frame: FrameView) -> Result<FrameView, DecodeError> {
    match mode {
        DecodeMode::OnReceive => Ok(frame),
        DecodeMode::OnRender => match decoded_payload(frame.payload) {
            Ok(image) => Ok(FrameView { payload: image, header: frame.header }),
            Err(e) => Err(e),
        },
    }
}

/// A whole cycle on a hand-off that the renderer holds alone. A frame whose
/// payload does not expand is dropped: the renderer is idle again at once,
/// and the loop goes on streaming.
pub open spec fn cycled(phase: Phase, s: PipelineState) -> (Phase, PipelineState, RenderStepView) {
    let (next_phase, next, wake) = begun(phase, s);
    match wake {
        WakeView::Animate => (next_phase, next, RenderStepView::Animate),
        WakeView::Wait => (next_phase, next, RenderStepView::Wait),
        WakeView::Frame(f) => match expanded(s.mode, f) {
            Ok(image) => (next_phase, next, RenderStepView::Draw(image)),
            Err(e) => (next_phase, after_finish(next), RenderStepView::Dropped(e)),
        },
    }
}

/// Turns a frame taken from the hand-off into the pixels to draw, or says
/// why it is dropped.
pub fn expand(mode: DecodeMode, frame: Frame) -> (r: Result<Frame, DecodeError>)
    ensures
        frame_of(r) == expanded(mode, frame@),
{
    match mode {
        DecodeMode::OnReceive => Ok(frame),
        DecodeMode::OnRender => match decode_payload(frame.payload.as_slice()) {
            Ok(image) => Ok(Frame { payload: image, header: frame.header }),
            Err(e) => Err(e),
        },
    }
}

/// The render loop's memory from one cycle to the next.
pub struct Renderer {
    phase: Phase,
}

impl Renderer {
    /// The phase of the loop.
    pub closed spec fn view(&self) -> Phase {
        self.phase
    }

    /// A loop that has seen no frame.
    pub fn new() -> (r: Self)
        ensures
            r@ == Phase::Waiting,
    {
        Renderer { phase: Phase::Waiting }
    }

    /// The phase of the loop.
    pub fn phase(&self) -> (p: Phase)
        ensures
            p == self@,
    {
        self.phase
    }

    /// Starts a cycle: ends the work on the frame of the cycle before, and
    /// takes the frame that waits, if one does. The renderer counts as at
    /// work exactly when a frame is returned.
    pub fn begin_cycle(&mut self, pipeline: &mut Pipeline) -> (wake: Wake)
        requires
            consistent(old(pipeline)@),
        ensures
            consistent(final(pipeline)@),
            (final(self)@, final(pipeline)@, wake@) == begun(old(self)@, old(pipeline)@),
            final(pipeline)@.busy == (wake is Frame),
    {
        pipeline.finish();
        match pipeline.try_receive() {
            Some(frame) => {
                self.phase = Phase::Streaming;
                Wake::Frame(frame)
            },
            None => match self.phase {
                Phase::Waiting => Wake::Animate,
                Phase::Streaming => Wake::Wait,
            },
        }
    }

    /// Ends a cycle: the frame in hand was drawn or dropped.
    pub fn end_cycle(&self, pipeline: &mut Pipeline)
        requires
            consistent(old(pipeline)@),
        ensures
            consistent(final(pipeline)@),
            final(pipeline)@ == after_finish(old(pipeline)@),
    {
        pipeline.finish();
    }

    /// Runs a whole cycle up to the drawing. After a `Draw` the renderer
    /// counts as at work until the next cycle starts or `end_cycle` is
    /// called; after anything else it is idle.
    pub fn cycle(&mut self, pipeline: &mut Pipeline) -> (step: RenderStep)
        requires
            consistent(old(pipeline)@),
        ensures
            consistent(final(pipeline)@),
            (final(self)@, final(pipeline)@, step@) == cycled(old(self)@, old(pipeline)@),
            final(pipeline)@.busy == (step is Draw),
            step is Dropped ==> final(self)@ == Phase::Streaming,
    {
        let mode: DecodeMode = pipeline.mode();
        match self.begin_cycle(pipeline) {
            Wake::Animate => RenderStep::Animate,
            Wake::Wait => RenderStep::Wait,
            Wake::Frame(frame) => match expand(mode, frame) {
                Ok(image) => RenderStep::Draw(image),
                Err(e) => {
                    pipeline.finish();
                    RenderStep::Dropped(e)
                },
            },
        }
    }
}

/// Once a frame has arrived the loop streams for good: no cycle leads back
/// to the idle animation.
pub proof fn lemma_streaming_is_final(s: PipelineState)
    ensures
        cycled(Phase::Streaming, s).0 == Phase::Streaming,
        !(cycled(Phase::Streaming, s).2 is Animate),
        s.slot is Some ==> cycled(Phase::Waiting, s).0 == Phase::Streaming,
        s.slot is None ==> cycled(Phase::Waiting, s).2 is Animate,
{
}

/// A payload that does not expand, or expands to another length than it
/// declares, stops nothing: the frame is dropped, the renderer is idle, the
/// hand-off is sound, and the next cycle waits for a frame as before.
pub proof fn lemma_bad_payload_is_dropped(phase: Phase, s: PipelineState, frame: FrameView)
    requires
        consistent(s),
        s.mode == DecodeMode::OnRender,
        s.slot == Some(frame),
        decoded_payload(frame.payload) is Err,
    ensures
        ({
            let (next_phase, next, step) = cycled(phase, s);
            &&& step == RenderStepView::Dropped(decoded_payload(frame.payload)->Err_0)
            &&& !next.busy
            &&& next.slot is None
            &&& consistent(next)
            &&& next_phase == Phase::Streaming
            &&& cycled(next_phase, next).2 is Wait
        }),
{
}

} // verus!
