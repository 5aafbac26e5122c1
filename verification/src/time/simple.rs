//! The simple time generator.

use crate::time::{TimeGenerator, TimeState};
use std::ops::{Add, Sub};
use vstd::prelude::*;

verus! {

/// A simple [`TimeGenerator`] that generates times by delta.
///
/// You can create one by giving it its initial state (typically zero) and a delta. For
/// instance, for a video game that runs at 100 Hz on times in milliseconds, you want a delta
/// set to 10, because you need to generate a frame every 10ms. If the framerate drops, you can
/// change the value of the delta parameter to adapt.
pub struct SimpleTimeGenerator<T> {
    current: T,
    reset_value: T,
    delta: T,
}

impl<T: Copy + Add<Output = T> + Sub<Output = T>> SimpleTimeGenerator<T> {
    /// Create a new [`SimpleTimeGenerator`], at time `reset_value`.
    pub fn new(reset_value: T, delta: T) -> (generator: Self)
        ensures
            generator.state() == TimeState::initial(reset_value, delta),
    {
        SimpleTimeGenerator { current: reset_value, reset_value, delta }
    }

    /// The time that the generator goes back to when it is reset.
    pub fn reset_value(&self) -> (t: T)
        ensures
            t == self.state().reset_value,
    {
        self.reset_value
    }

    /// The size of a step.
    pub fn delta(&self) -> (d: T)
        ensures
            d == self.state().delta,
    {
        self.delta
    }
}

impl<T: Copy + Add<Output = T> + Sub<Output = T>> TimeGenerator for SimpleTimeGenerator<T> {
    type Time = T;

    closed spec fn state(&self) -> TimeState<T> {
        TimeState { current: self.current, reset_value: self.reset_value, delta: self.delta }
    }

    fn current(&self) -> (t: T) {
        self.current
    }

    fn tick(&mut self) -> (t: T) {
        let t = self.current;
        self.current = self.current + self.delta;
        t
    }

    fn untick(&mut self) -> (t: T) {
        let t = self.current;
        self.current = self.current - self.delta;
        t
    }

    fn reset(&mut self) {
        self.set(self.reset_value);
    }

    fn set(&mut self, value: T) {
        self.current = value;
    }

    fn change_delta(&mut self, delta: T) {
        self.delta = delta;
    }
}

} // verus!
