//! Property values, their transition queues and the contract shared by every
//! kind of property.

use vstd::prelude::*;
use std::collections::VecDeque;

verus! {

/// The shape of an animated transition between two values.
#[derive(Clone, Copy, Debug, PartialEq, Eq, Structural)]
pub enum EasingCurve {
    Linear,
    InQuad,
    OutQuad,
    InBack,
    OutBack,
    InOutBack,
}

/// One queued transition: from `starting_value` to `ending_value` over
/// `duration_frames` frames, started at `global_frame_started` once it runs.
pub struct TransitionQueueEntry<T> {
    pub global_frame_started: Option<usize>,
    pub duration_frames: u64,
    pub curve: EasingCurve,
    pub starting_value: T,
    pub ending_value: T,
}

/// The queue of pending transitions of a property, and the value that the
/// transitions currently produce (`None` while nothing is animating).
pub struct TransitionManager<T> {
    pub queue: VecDeque<TransitionQueueEntry<T>>,
    pub value: Option<T>,
}

impl<T> TransitionManager<T> {
    /// An idle manager: no value and an empty queue.
    pub fn new() -> (res: Self)
        ensures
            res.value is None,
            res.queue@.len() == 0,
    {
        TransitionManager { queue: VecDeque::new(), value: None }
    }
}

} // verus!
