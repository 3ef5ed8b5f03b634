//! The `Expression` form of a property.

use vstd::prelude::*;
use crate::api::{EasingCurve, TransitionManager, TransitionQueueEntry};
use crate::properties::RuntimePropertiesStackFrame;
use std::rc::Rc;

verus! {

/// The `Expression` form of a property: the id of the function that
/// evaluates it, the memoized value that reads return (`cached_value`), and
/// its transitions.
pub struct PropertyExpression<T: Default> {
    pub id: usize,
    pub cached_value: T,
    pub transition_manager: TransitionManager<T>,
}

impl<T: Default> PropertyExpression<T> {
    /// A property for the evaluator `id`, holding `T`'s default value and no
    /// transitions.
    pub fn new(id: usize) -> (res: Self)
        ensures
            res.id == id,
            call_ensures(T::default, (), res.cached_value),
            res.transition_manager.value is None,
            res.transition_manager.queue@.len() == 0,
    {
        Self {
            id,
            cached_value: T::default(),
            transition_manager: TransitionManager::new(),
        }
    }
}

/// `entry` is a transition that has not started yet, from a copy of `from`
/// to `to`, over `duration_frames` frames along `curve`.
pub open spec fn is_pending_transition<T: Clone>(
    entry: TransitionQueueEntry<T>,
    from: T,
    to: T,
    duration_frames: u64,
    curve: EasingCurve,
) -> bool {
    &&& entry.global_frame_started is None
    &&& entry.duration_frames == duration_frames
    &&& entry.curve == curve
    &&& cloned(from, entry.starting_value)
    &&& entry.ending_value == to
}

impl<T: Default + Clone> PropertyExpression<T> {
    /// The memoized value.
    pub fn get(&self) -> (r: &T)
        ensures
            *r == self.cached_value,
    {
        &self.cached_value
    }

    /// Mutable access to the memoized value; nothing else changes.
    pub fn get_mut(&mut self) -> (r: &mut T)
        ensures
            *r == old(self).cached_value,
            final(self).cached_value == *final(r),
            final(self).id == old(self).id,
            final(self).transition_manager == old(self).transition_manager,
    {
        &mut self.cached_value
    }

    /// The id of the evaluator of this expression: always present.
    pub fn _get_vtable_id(&self) -> (r: Option<usize>)
        ensures
            r == Some(self.id),
    {
        Some(self.id)
    }

    /// Overwrites the memoized value; nothing else changes.
    pub fn set(&mut self, value: T)
        ensures
            final(self).cached_value == value,
            final(self).id == old(self).id,
            final(self).transition_manager == old(self).transition_manager,
    {
        self.cached_value = value;
    }

    /// Replaces every queued transition by one from a copy of the current
    /// value to `new_value`, and starts the transition value at that copy.
    pub fn ease_to(&mut self, new_value: T, duration_frames: u64, curve: EasingCurve)
        ensures
            final(self).transition_manager.value matches Some(v)
                && cloned(old(self).cached_value, v),
            final(self).transition_manager.queue@.len() == 1,
            is_pending_transition(
                final(self).transition_manager.queue@[0],
                old(self).cached_value,
                new_value,
                duration_frames,
                curve,
            ),
            final(self).cached_value == old(self).cached_value,
            final(self).id == old(self).id,
    {
        self.transition_manager.value = Some(self.get().clone());
        self.transition_manager.queue.clear();
        self.transition_manager.queue.push_back(
            TransitionQueueEntry {
                global_frame_started: None,
                duration_frames,
                curve,
                starting_value: self.cached_value.clone(),
                ending_value: new_value,
            },
        );
    }

    /// Appends a transition from a copy of the current value to `new_value`
    /// behind the queued ones; starts the transition value at a copy of the
    /// current value only where none was present.
    pub fn ease_to_later(&mut self, new_value: T, duration_frames: u64, curve: EasingCurve)
        ensures
            old(self).transition_manager.value is Some ==> final(self).transition_manager.value
                == old(self).transition_manager.value,
            old(self).transition_manager.value is None ==> (final(self).transition_manager.value
                matches Some(v) && cloned(old(self).cached_value, v)),
            final(self).transition_manager.queue@.len()
                == old(self).transition_manager.queue@.len() + 1,
            final(self).transition_manager.queue@.drop_last()
                == old(self).transition_manager.queue@,
            is_pending_transition(
                final(self).transition_manager.queue@.last(),
                old(self).cached_value,
                new_value,
                duration_frames,
                curve,
            ),
            final(self).cached_value == old(self).cached_value,
            final(self).id == old(self).id,
    {
        if let None = self.transition_manager.value {
            self.transition_manager.value = Some(self.get().clone());
        }
        self.transition_manager.queue.push_back(
            TransitionQueueEntry {
                global_frame_started: None,
                duration_frames,
                curve,
                starting_value: self.cached_value.clone(),
                ending_value: new_value,
            },
        );
    }

    /// The transition manager, only while a transition value is present.
    pub fn _get_transition_manager(&mut self) -> (r: Option<&mut TransitionManager<T>>)
        ensures
            r is Some <==> old(self).transition_manager.value is Some,
            r matches Some(m) ==> *m == old(self).transition_manager,
            r matches Some(m) ==> final(self).transition_manager == *final(m),
            r matches Some(m) ==> final(self).cached_value == old(self).cached_value,
            r matches Some(m) ==> final(self).id == old(self).id,
            r is None ==> *final(self) == *old(self),
    {
        if let None = self.transition_manager.value {
            None
        } else {
            Some(&mut self.transition_manager)
        }
    }
}

} // verus!

verus! {

/// Data structure used for dynamic injection of values into expressions: it
/// holds the current stack frame, through which properties and dependencies
/// are evaluated.
pub struct ExpressionContext {
    pub stack_frame: Rc<RuntimePropertiesStackFrame>,
}

} // verus!
