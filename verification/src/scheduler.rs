//! The scheduler: a timeline played by a time generator.

use crate::domain::total_order;
use crate::time::TimeGenerator;
use crate::timeline::Timeline;
use std::ops::{Add, Sub};
use vstd::prelude::*;

verus! {

/// A timeline together with the time generator that plays it.
///
/// The scheduler takes one step per call, and at its caller's pace. It keeps nothing of its own:
/// the current time is the generator's, and the timeline never changes.
#[verifier::reject_recursive_types(T)]
#[verifier::reject_recursive_types(A)]
pub struct Scheduler<'a, T, A, G> {
    timeline: Timeline<'a, T, A>,
    time_generator: G,
}

impl<'a, T, A, G> Scheduler<'a, T, A, G> where
    T: Copy + PartialOrd + Add<Output = T> + Sub<Output = T>,
    G: TimeGenerator<Time = T>,
 {
    /// The timeline that is played.
    pub closed spec fn spec_timeline(&self) -> &Timeline<'a, T, A> {
        &self.timeline
    }

    /// The generator that plays it.
    pub closed spec fn spec_time_generator(&self) -> &G {
        &self.time_generator
    }

    /// The time that the next step samples the timeline at.
    pub open spec fn now(&self) -> T {
        self.time_generator().state().current
    }

    /// Play `timeline` by `time_generator`, from the time that the generator is at.
    pub fn new(timeline: Timeline<'a, T, A>, time_generator: G) -> (scheduler: Self)
        ensures
            scheduler.timeline() == timeline,
            scheduler.time_generator() == time_generator,
    {
        Scheduler { timeline, time_generator }
    }

    /// The timeline that is played.
    #[verifier::when_used_as_spec(spec_timeline)]
    pub fn timeline(&self) -> (timeline: &Timeline<'a, T, A>)
        ensures
            timeline == self.timeline(),
    {
        &self.timeline
    }

    /// The generator that plays it.
    #[verifier::when_used_as_spec(spec_time_generator)]
    pub fn time_generator(&self) -> (time_generator: &G)
        ensures
            time_generator == self.time_generator(),
    {
        &self.time_generator
    }

    /// One step forward: the values of the timeline at the current time, which the generator
    /// then ticks forward.
    pub fn advance(&mut self) -> (rs: Vec<Option<A>>)
        requires
            old(self).time_generator().state().can_tick(),
        ensures
            final(self).timeline() == old(self).timeline(),
            old(self).time_generator().state().ticks_to(final(self).time_generator().state()),
            old(self).timeline().yields(old(self).now(), rs@),
            total_order::<T>() ==> old(self).timeline().sampled(old(self).now(), rs@),
    {
        let t = self.time_generator.tick();
        self.timeline.sample(t)
    }

    /// One step backward: the values of the timeline at the current time, which the generator
    /// then ticks backwards.
    pub fn rewind(&mut self) -> (rs: Vec<Option<A>>)
        requires
            old(self).time_generator().state().can_untick(),
        ensures
            final(self).timeline() == old(self).timeline(),
            old(self).time_generator().state().unticks_to(final(self).time_generator().state()),
            old(self).timeline().yields(old(self).now(), rs@),
            total_order::<T>() ==> old(self).timeline().sampled(old(self).now(), rs@),
    {
        let t = self.time_generator.untick();
        self.timeline.sample(t)
    }

    /// Reset the generator to the time it started from. The timeline is as it was.
    pub fn reset(&mut self)
        ensures
            final(self).timeline() == old(self).timeline(),
            final(self).time_generator().state() == old(self).time_generator().state().reset(),
    {
        self.time_generator.reset();
    }
}

} // verus!
