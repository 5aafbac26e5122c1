//! Time generators: where the current time comes from.

pub mod simple;

use crate::domain::{lemma_i64_arithmetic, minus_defined, minus_gives, plus_defined, plus_gives};
use std::ops::{Add, Sub};
use vstd::prelude::*;

verus! {

/// What a time generator keeps: the time it is at, the time it goes back to when it is reset,
/// and the size of its steps.
pub struct TimeState<T> {
    /// The time that the next step hands out.
    pub current: T,
    /// The time that the generator started from.
    pub reset_value: T,
    /// The size of a step.
    pub delta: T,
}

/// One thing that can be done to a time generator.
pub enum Step<T> {
    /// A step forward (`tick`).
    Tick,
    /// A step backward (`untick`).
    Untick,
    /// Back to the time that the generator started from (`reset`).
    Reset,
    /// To the given time (`set`).
    Seek(T),
    /// From now on, steps of the given size (`change_delta`).
    ChangeDelta(T),
}

impl<T> TimeState<T> {
    /// The state of a generator that was just made.
    pub open spec fn initial(reset_value: T, delta: T) -> Self {
        TimeState { current: reset_value, reset_value, delta }
    }

    /// The same state at another time.
    pub open spec fn at(self, current: T) -> Self {
        TimeState { current, ..self }
    }

    /// The same state with another size of step.
    pub open spec fn with_delta(self, delta: T) -> Self {
        TimeState { delta, ..self }
    }

    /// The state after a reset.
    pub open spec fn reset(self) -> Self {
        self.at(self.reset_value)
    }
}

impl<T: Add<Output = T> + Sub<Output = T>> TimeState<T> {
    /// A step forward from this state is defined: `current + delta` can be evaluated.
    pub open spec fn can_tick(self) -> bool {
        plus_defined(self.current, self.delta)
    }

    /// A step backward from this state is defined: `current - delta` can be evaluated.
    pub open spec fn can_untick(self) -> bool {
        minus_defined(self.current, self.delta)
    }

    /// A step forward may lead from this state to `next`: to the same state at a time that
    /// `current + delta` gives.
    pub open spec fn ticks_to(self, next: Self) -> bool {
        next == self.at(next.current) && plus_gives(self.current, self.delta, next.current)
    }

    /// A step backward may lead from this state to `next`: to the same state at a time that
    /// `current - delta` gives.
    pub open spec fn unticks_to(self, next: Self) -> bool {
        next == self.at(next.current) && minus_gives(self.current, self.delta, next.current)
    }

    /// `step` may lead from this state to `next`.
    pub open spec fn leads_to(self, step: Step<T>, next: Self) -> bool {
        match step {
            Step::Tick => self.ticks_to(next),
            Step::Untick => self.unticks_to(next),
            Step::Reset => next == self.reset(),
            Step::Seek(value) => next == self.at(value),
            Step::ChangeDelta(delta) => next == self.with_delta(delta),
        }
    }

    /// `steps`, taken one after the other, may lead from this state to `end`.
    pub open spec fn reaches(self, steps: Seq<Step<T>>, end: Self) -> bool
        decreases steps.len(),
    {
        if steps.len() == 0 {
            end == self
        } else {
            exists|before_last: Self|
                self.reaches(steps.drop_last(), before_last) && #[trigger] before_last.leads_to(
                    steps.last(),
                    end,
                )
        }
    }
}

/// The size of step that `steps` leave a generator with, if they change it.
pub open spec fn last_delta<T>(steps: Seq<Step<T>>) -> Option<T>
    decreases steps.len(),
{
    if steps.len() == 0 {
        None
    } else if let Step::ChangeDelta(delta) = steps.last() {
        Some(delta)
    } else {
        last_delta(steps.drop_last())
    }
}

/// A type that can generate time when asked.
///
/// A generator is at some time, the current one. A step hands out the current time and then
/// moves it by `delta`, forward or backward. Nothing keeps the current time within any range.
pub trait TimeGenerator {
    type Time: Copy + Add<Output = Self::Time> + Sub<Output = Self::Time>;

    /// What the generator keeps.
    spec fn state(&self) -> TimeState<Self::Time>;

    /// The current time.
    fn current(&self) -> (t: Self::Time)
        ensures
            t == self.state().current,
    ;

    /// Tick time forward: hand out the current time, then move it to `current + delta`.
    fn tick(&mut self) -> (t: Self::Time)
        requires
            old(self).state().can_tick(),
        ensures
            t == old(self).state().current,
            old(self).state().ticks_to(final(self).state()),
    ;

    /// Tick time backwards: hand out the current time, then move it to `current - delta`.
    fn untick(&mut self) -> (t: Self::Time)
        requires
            old(self).state().can_untick(),
        ensures
            t == old(self).state().current,
            old(self).state().unticks_to(final(self).state()),
    ;

    /// Reset the generator and time to their initial values. The size of a step stays.
    fn reset(&mut self)
        ensures
            final(self).state() == old(self).state().reset(),
    ;

    /// Move the current time to `value`.
    fn set(&mut self, value: Self::Time)
        ensures
            final(self).state() == old(self).state().at(value),
    ;

    /// Change the internal delta. The steps taken from now on have the new size; the current
    /// time stays.
    fn change_delta(&mut self, delta: Self::Time)
        ensures
            final(self).state() == old(self).state().with_delta(delta),
    ;
}

/// Whatever was done to a generator, the time that it goes back to is the one it was made with,
/// and a reset takes it there and leaves the size of its steps alone.
pub proof fn lemma_reset_restores<T: Add<Output = T> + Sub<Output = T>>(
    state: TimeState<T>,
    steps: Seq<Step<T>>,
    end: TimeState<T>,
)
    requires
        state.reaches(steps, end),
    ensures
        end.reset_value == state.reset_value,
        end.reset().current == state.reset_value,
        end.reset().delta == end.delta,
    decreases steps.len(),
{
    if steps.len() > 0 {
        let before_last = choose|before_last: TimeState<T>|
            state.reaches(steps.drop_last(), before_last) && #[trigger] before_last.leads_to(
                steps.last(),
                end,
            );
        lemma_reset_restores(state, steps.drop_last(), before_last);
    }
}

/// The size of a step is the one given last, or the one that the generator was made with.
pub proof fn lemma_delta_is_last_given<T: Add<Output = T> + Sub<Output = T>>(
    state: TimeState<T>,
    steps: Seq<Step<T>>,
    end: TimeState<T>,
)
    requires
        state.reaches(steps, end),
    ensures
        end.delta == match last_delta(steps) {
            Some(delta) => delta,
            None => state.delta,
        },
    decreases steps.len(),
{
    if steps.len() > 0 {
        let before_last = choose|before_last: TimeState<T>|
            state.reaches(steps.drop_last(), before_last) && #[trigger] before_last.leads_to(
                steps.last(),
                end,
            );
        lemma_delta_is_last_given(state, steps.drop_last(), before_last);
    }
}

/// On `i64` times, a step forward is defined where `current + delta` is an `i64`, and leads
/// there.
pub proof fn lemma_i64_tick(state: TimeState<i64>, next: TimeState<i64>)
    requires
        i64::MIN <= state.current + state.delta <= i64::MAX,
    ensures
        state.can_tick(),
        state.ticks_to(next) ==> next.current == state.current + state.delta,
{
    lemma_i64_arithmetic(state.current, state.delta, next.current);
}

/// On `i64` times, a step backward is defined where `current - delta` is an `i64`, and leads
/// there.
pub proof fn lemma_i64_untick(state: TimeState<i64>, next: TimeState<i64>)
    requires
        i64::MIN <= state.current - state.delta <= i64::MAX,
    ensures
        state.can_untick(),
        state.unticks_to(next) ==> next.current == state.current - state.delta,
{
    lemma_i64_arithmetic(state.current, state.delta, next.current);
}

/// Round trip. On `i64` times, a step forward and then a step backward, with the same `delta`,
/// lead back to the state they started from.
pub proof fn lemma_tick_untick_round_trip(
    state: TimeState<i64>,
    ticked: TimeState<i64>,
    back: TimeState<i64>,
)
    requires
        i64::MIN <= state.current + state.delta <= i64::MAX,
        state.ticks_to(ticked),
        ticked.unticks_to(back),
    ensures
        ticked.can_untick(),
        back == state,
{
    lemma_i64_tick(state, ticked);
    lemma_i64_untick(ticked, back);
}

/// Round trip. On `i64` times, a step backward and then a step forward, with the same `delta`,
/// lead back to the state they started from.
pub proof fn lemma_untick_tick_round_trip(
    state: TimeState<i64>,
    unticked: TimeState<i64>,
    back: TimeState<i64>,
)
    requires
        i64::MIN <= state.current - state.delta <= i64::MAX,
        state.unticks_to(unticked),
        unticked.ticks_to(back),
    ensures
        unticked.can_tick(),
        back == state,
{
    lemma_i64_untick(state, unticked);
    lemma_i64_tick(unticked, back);
}

} // verus!
