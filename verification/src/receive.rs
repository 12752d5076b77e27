//! One turn of the receiving loop: a chunk from the transport goes through
//! the protocol, and a completed frame is made ready for the hand-off.

use vstd::prelude::*;
use crate::codec::DecodeError;
use crate::pipeline::{prepare, prepared, DecodeMode};
use crate::protocol::{step, well_formed, Action, Frame, FrameView, Outcome, Receiver};

verus! {

/// What the receiving loop does after a chunk.
#[derive(Debug)]
pub enum ReceiveStep {
    /// Read the next chunk.
    Continue,
    /// Offer this frame to the hand-off, and read on once it is accepted.
    Offer(Frame),
    /// A frame was completed but its payload did not expand: read on.
    Dropped(DecodeError),
    /// Reset into the bootloader, now.
    Reboot,
}

/// What the receiving loop does after a chunk, as plain values.
pub enum ReceiveStepView {
    Continue,
    Offer(FrameView),
    Dropped(DecodeError),
    Reboot,
}

impl ReceiveStep {
    /// The step as plain values.
    pub open spec fn view(&self) -> ReceiveStepView {
        match self {
            ReceiveStep::Continue => ReceiveStepView::Continue,
            ReceiveStep::Offer(f) => ReceiveStepView::Offer(f@),
            ReceiveStep::Dropped(e) => ReceiveStepView::Dropped(*e),
            ReceiveStep::Reboot => ReceiveStepView::Reboot,
        }
    }
}

/// What follows from the protocol's outcome for a chunk.
pub open spec fn received(mode: DecodeMode, outcome: Outcome) -> ReceiveStepView {
    match outcome {
        Outcome::Continue => ReceiveStepView::Continue,
        Outcome::Reboot => ReceiveStepView::Reboot,
        Outcome::Deliver(frame) => match prepared(mode, frame) {
            Ok(ready) => ReceiveStepView::Offer(ready),
            Err(e) => ReceiveStepView::Dropped(e),
        },
    }
}

/// Takes one chunk from the transport. A frame that it completes is made
/// ready for the hand-off; where the receiving side expands payloads, one
/// that does not expand is dropped and the loop reads on.
pub fn receive_chunk(receiver: &mut Receiver, mode: DecodeMode, chunk: &[u8]) -> (r: ReceiveStep)
    requires
        well_formed(old(receiver)@),
    ensures
        well_formed(final(receiver)@),
        final(receiver)@ == step(old(receiver)@, chunk@).0,
        r@ == received(mode, step(old(receiver)@, chunk@).1),
{
    match receiver.on_chunk(chunk) {
        Action::Continue => ReceiveStep::Continue,
        Action::Reboot => ReceiveStep::Reboot,
        Action::Deliver(frame) => match prepare(mode, frame) {
            Ok(ready) => ReceiveStep::Offer(ready),
            Err(e) => ReceiveStep::Dropped(e),
        },
    }
}

} // verus!
