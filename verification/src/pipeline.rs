//! The hand-off of completed frames from the receiving side to the
//! rendering side: a mailbox with room for one frame, and the flag that says
//! that the renderer is at work.
//!
//! The receiving side offers a frame and is refused while the mailbox is
//! occupied, so it can never run ahead of the renderer by more than the one
//! frame that waits. Where payloads are expanded by the renderer, a frame
//! is also refused while the renderer is at work, so that the frame in hand
//! and the frame that waits never exist together.

use vstd::prelude::*;
use crate::codec::{decode_payload, decoded_payload, DecodeError};
use crate::protocol::{Frame, FrameView};

verus! {

/// Which side expands the payload of a frame.
#[derive(Clone, Copy, Debug, PartialEq, Eq, Structural)]
pub enum DecodeMode {
    /// The receiving side expands it and hands on pixel bytes.
    OnReceive,
    /// The receiving side hands on the payload as it came, and the renderer
    /// expands it just before drawing.
    OnRender,
}

/// The hand-off as plain values.
pub struct PipelineState {
    pub mode: DecodeMode,
    /// The frame that waits for the renderer.
    pub slot: Option<FrameView>,
    /// The renderer is expanding or drawing a frame.
    pub busy: bool,
    /// Frames accepted from the receiving side so far.
    pub sent: nat,
    /// Frames taken by the renderer so far.
    pub taken: nat,
}

/// The hand-off before any frame.
pub open spec fn initial_pipeline(mode: DecodeMode) -> PipelineState {
    PipelineState { mode, slot: None, busy: false, sent: 0, taken: 0 }
}

/// The number of frames in the mailbox: none or one.
pub open spec fn waiting(s: PipelineState) -> nat {
    if s.slot is Some {
        1
    } else {
        0
    }
}

/// What holds of the hand-off at all times: every frame accepted and not
/// yet taken is the one in the mailbox, and where the renderer expands,
/// no frame waits while the renderer is at work.
pub open spec fn consistent(s: PipelineState) -> bool {
    &&& s.sent == s.taken + waiting(s)
    &&& s.mode == DecodeMode::OnRender ==> !(s.busy && s.slot is Some)
}

/// Whether a frame offered now is accepted.
pub open spec fn accepts(s: PipelineState) -> bool {
    s.slot is None && (s.mode == DecodeMode::OnRender ==> !s.busy)
}

/// The hand-off after a frame was accepted.
pub open spec fn after_send(s: PipelineState, frame: FrameView) -> PipelineState {
    PipelineState { mode: s.mode, slot: Some(frame), busy: s.busy, sent: s.sent + 1, taken: s.taken }
}

/// The hand-off after the renderer took the frame that waited.
pub open spec fn after_receive(s: PipelineState) -> PipelineState {
    PipelineState { mode: s.mode, slot: None, busy: true, sent: s.sent, taken: s.taken + 1 }
}

/// The hand-off after the renderer is done with its frame.
pub open spec fn after_finish(s: PipelineState) -> PipelineState {
    PipelineState { mode: s.mode, slot: s.slot, busy: false, sent: s.sent, taken: s.taken }
}

/// What the receiving side hands on for a completed frame: the frame as
/// it came where the renderer expands, else the frame with its payload
/// expanded, or the reason why the frame is dropped.
pub open spec fn prepared(mode: DecodeMode, frame: FrameView) -> Result<FrameView, DecodeError> {
    match mode {
        DecodeMode::OnRender => Ok(frame),
        DecodeMode::OnReceive => match decoded_payload(frame.payload) {
            Ok(image) => Ok(FrameView { payload: image, header: frame.header }),
            Err(e) => Err(e),
        },
    }
}

/// A result with its frame as plain values.
pub open spec fn frame_of(r: Result<Frame, DecodeError>) -> Result<FrameView, DecodeError> {
    match r {
        Ok(f) => Ok(f@),
        Err(e) => Err(e),
    }
}

/// Makes a completed frame ready for the mailbox. A payload that does not
/// expand is dropped here and never reaches the renderer.
pub fn prepare(mode: DecodeMode, frame: Frame) -> (r: Result<Frame, DecodeError>)
    ensures
        frame_of(r) == prepared(mode, frame@),
{
    match mode {
        DecodeMode::OnRender => Ok(frame),
        DecodeMode::OnReceive => match decode_payload(frame.payload.as_slice()) {
            Ok(image) => Ok(Frame { payload: image, header: frame.header }),
            Err(e) => Err(e),
        },
    }
}

/// The mailbox and the renderer's flag.
pub struct Pipeline {
    mode: DecodeMode,
    slot: Option<Frame>,
    busy: bool,
    sent: Ghost<nat>,
    taken: Ghost<nat>,
}

impl Pipeline {
    /// The hand-off as plain values.
    pub closed spec fn view(&self) -> PipelineState {
        PipelineState {
            mode: self.mode,
            slot: match self.slot {
                Some(f) => Some(f@),
                None => None,
            },
            busy: self.busy,
            sent: self.sent@,
            taken: self.taken@,
        }
    }

    /// An empty hand-off with an idle renderer.
    pub fn new(mode: DecodeMode) -> (p: Self)
        ensures
            p@ == initial_pipeline(mode),
            consistent(p@),
    {
        Pipeline { mode, slot: None, busy: false, sent: Ghost(0), taken: Ghost(0) }
    }

    /// Which side expands payloads.
    pub fn mode(&self) -> (m: DecodeMode)
        ensures
            m == self@.mode,
    {
        self.mode
    }

    /// Whether the renderer is at work.
    pub fn is_busy(&self) -> (b: bool)
        ensures
            b == self@.busy,
    {
        self.busy
    }

    /// Whether a frame waits in the mailbox.
    pub fn is_full(&self) -> (b: bool)
        ensures
            b == (self@.slot is Some),
    {
        self.slot.is_some()
    }

    /// Whether a frame offered now would be accepted.
    pub fn can_send(&self) -> (b: bool)
        ensures
            b == accepts(self@),
    {
        self.slot.is_none() && (match self.mode {
            DecodeMode::OnRender => !self.busy,
            DecodeMode::OnReceive => true,
        })
    }

    /// Offers a frame. It is accepted if the mailbox is empty and, where
    /// the renderer expands, the renderer is idle; otherwise it comes back
    /// and nothing changes. A frame is thus accepted only after every
    /// earlier one was taken.
    pub fn try_send(&mut self, frame: Frame) -> (r: Result<(), Frame>)
        requires
            consistent(old(self)@),
        ensures
            consistent(final(self)@),
            accepts(old(self)@) ==> r is Ok && final(self)@ == after_send(old(self)@, frame@)
                && old(self)@.sent == old(self)@.taken,
            !accepts(old(self)@) ==> r == Err::<(), Frame>(frame) && final(self)@ == old(self)@,
    {
        if self.can_send() {
            self.slot = Some(frame);
            self.sent = Ghost((self.sent@ + 1) as nat);
            Ok(())
        } else {
            Err(frame)
        }
    }

    /// Takes the frame that waits, if there is one, and marks the renderer
    /// as at work from that moment.
    pub fn try_receive(&mut self) -> (r: Option<Frame>)
        requires
            consistent(old(self)@),
        ensures
            consistent(final(self)@),
            match old(self)@.slot {
                Some(f) => r is Some && r->0@ == f && final(self)@ == after_receive(old(self)@),
                None => r is None && final(self)@ == old(self)@,
            },
    {
        if self.slot.is_some() {
            let mut taken: Option<Frame> = None;
            core::mem::swap(&mut taken, &mut self.slot);
            self.busy = true;
            self.taken = Ghost((self.taken@ + 1) as nat);
            taken
        } else {
            None
        }
    }

    /// Marks the renderer as idle again: its frame was drawn or dropped.
    pub fn finish(&mut self)
        requires
            consistent(old(self)@),
        ensures
            consistent(final(self)@),
            final(self)@ == after_finish(old(self)@),
    {
        self.busy = false;
    }
}

/// The hand-off starts out sound, and stays so through every step that is
/// open to it.
pub proof fn lemma_steps_keep_consistent(mode: DecodeMode, s: PipelineState, frame: FrameView)
    requires
        consistent(s),
    ensures
        consistent(initial_pipeline(mode)),
        accepts(s) ==> consistent(after_send(s, frame)),
        s.slot is Some ==> consistent(after_receive(s)),
        consistent(after_finish(s)),
{
}

/// The receiving side is never ahead of the renderer by more than the one
/// frame that waits; and where the renderer expands, the frame that waits
/// and the frame in the renderer's hand never exist together.
pub proof fn lemma_backpressure(s: PipelineState)
    requires
        consistent(s),
    ensures
        s.sent - s.taken <= 1,
        s.mode == DecodeMode::OnRender ==> waiting(s) + (if s.busy {
            1nat
        } else {
            0nat
        }) <= 1,
{
}

/// Frame number `n` is accepted only when the `n - 1` before it were all
/// taken: a send into an occupied mailbox is refused.
pub proof fn lemma_send_waits_for_receive(s: PipelineState, frame: FrameView)
    requires
        consistent(s),
    ensures
        accepts(s) ==> s.taken == s.sent && consistent(after_send(s, frame)),
        s.sent > s.taken ==> !accepts(s),
        s.slot is Some ==> consistent(after_receive(s)) && accepts(after_finish(after_receive(s))),
        consistent(after_finish(s)),
{
}

} // verus!
