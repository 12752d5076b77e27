//! How a sweeper of the idle animation is shown: which of its pictures, and
//! turned which way.
//!
//! A sweeper has a picture with its mouth shut, and ten pictures each with
//! its mouth half open and wide open, one for each tenth of a half turn.
//! The other half of the turn is shown by the same pictures turned over.

use vstd::prelude::*;
use crate::canvas::Flip;

verus! {

/// The ticks for which a sweeper keeps the width of its mouth.
pub const FRAME_TICKS: u64 = 6;

/// The steps in which the mouth opens and shuts again.
pub const MOUTH_STEPS: usize = 5;

/// The directions in which a sweeper is shown.
pub const POSES: usize = 21;

/// The width of the mouth at a step: shut, half open, wide open, half
/// open, shut.
pub open spec fn mouth_at(step: int) -> int {
    if step == 1 || step == 3 {
        1
    } else if step == 2 {
        2
    } else {
        0
    }
}

/// The step after `current` at a tick: the next one on every sixth tick,
/// the first after the last, and the same otherwise.
pub open spec fn step_after(tick: int, current: int) -> int {
    if tick % (FRAME_TICKS as int) != 0 {
        current
    } else if current + 1 == MOUTH_STEPS {
        0
    } else {
        current + 1
    }
}

/// The picture for a direction: the pictures run up through the first half
/// turn and down again through the second.
pub open spec fn picture_at(pose: int) -> int {
    if pose <= 9 {
        pose
    } else if pose == 10 {
        0
    } else {
        20 - pose
    }
}

/// How the picture for a direction is turned: mirrored at the half turn,
/// upside down beyond it, and as it is before it.
pub open spec fn flip_at(pose: int) -> Flip {
    if pose == 10 {
        Flip::Horizontal
    } else if pose > 10 {
        Flip::Vertical
    } else {
        Flip::Upright
    }
}

/// Gives the step of the mouth after a tick.
pub fn next_step(tick: u64, current: usize) -> (next: usize)
    requires
        current < MOUTH_STEPS,
    ensures
        next == step_after(tick as int, current as int),
        next < MOUTH_STEPS,
{
    if tick % FRAME_TICKS != 0 {
        current
    } else if current + 1 == MOUTH_STEPS {
        0
    } else {
        current + 1
    }
}

/// Gives the width of the mouth at a step.
pub fn mouth(step: usize) -> (width: usize)
    requires
        step < MOUTH_STEPS,
    ensures
        width == mouth_at(step as int),
        width <= 2,
{
    if step == 1 || step == 3 {
        1
    } else if step == 2 {
        2
    } else {
        0
    }
}

/// Holds a direction to the last one there is.
pub fn last_pose(pose: usize) -> (held: usize)
    ensures
        held == if pose >= POSES { POSES - 1 } else { pose as int },
        held < POSES,
{
    if pose >= POSES {
        POSES - 1
    } else {
        pose
    }
}

/// Gives the picture for a direction and how it is turned.
pub fn pose_picture(pose: usize) -> (shown: (usize, Flip))
    requires
        pose < POSES,
    ensures
        shown.0 == picture_at(pose as int),
        shown.1 == flip_at(pose as int),
        shown.0 <= 9,
{
    if pose == 10 {
        (0, Flip::Horizontal)
    } else if pose > 10 {
        (20 - pose, Flip::Vertical)
    } else {
        (pose, Flip::Upright)
    }
}

} // verus!
