//! Cuts: behaviors restricted to an interval of time.

use crate::behavior::Behavior;
use crate::domain::{
    at_or_before, before, le_gives, lemma_i64_arithmetic, lt_gives, minus_defined, minus_gives,
    order_specified, total_order,
};
use std::ops::Sub;
use vstd::prelude::*;

verus! {

/// A cut in a behavior at given time (`T`).
///
/// Cuts represent slice to behaviors, with a given start and stop times. The cut covers the
/// times from `start_t` on and up to, but not including, `stop_t`. The difference between the
/// times gives the duration of the cut.
#[verifier::reject_recursive_types(T)]
#[verifier::reject_recursive_types(A)]
pub struct Cut<'a, T, A> {
    /// The behavior the cut refers to.
    pub behavior: &'a Behavior<'a, T, A>,
    /// Time (including) at which the cut starts in the behavior.
    pub start_t: T,
    /// Time (excluding) at which the cut stops in the behavior.
    pub stop_t: T,
}

impl<'a, T, A> Cut<'a, T, A> {
    /// The cut does not stop before it starts.
    pub open spec fn wf(&self) -> bool where T: PartialOrd {
        !before(self.stop_t, self.start_t)
    }

    /// `t` lies in the cut: at or after its start, and before its stop.
    pub open spec fn covers(&self, t: T) -> bool where T: PartialOrd {
        at_or_before(self.start_t, t) && before(t, self.stop_t)
    }

    /// Asked whether it covers `t`, the cut may find `inside`: it asks whether
    /// `start_t <= t` and, where that is so, whether `t < stop_t`.
    pub open spec fn finds(&self, t: T, inside: bool) -> bool where T: PartialOrd {
        ||| le_gives(self.start_t, t, false) && !inside
        ||| le_gives(self.start_t, t, true) && lt_gives(t, self.stop_t, inside)
    }

    /// `r` is an answer that the cut may give at time `t`: one of its behavior where the cut
    /// finds that it covers `t`, and `None` everywhere else, whatever the behavior would say
    /// there.
    pub open spec fn yields(&self, t: T, r: Option<A>) -> bool where T: PartialOrd {
        ||| self.finds(t, true) && self.behavior.yields(t, r)
        ||| self.finds(t, false) && r is None
    }

    /// Cut `behavior` from `start_t` to `stop_t`. There is no cut that stops before it starts:
    /// where `stop_t < start_t`, the answer is `None`, and everywhere else it is the cut. A cut
    /// may be empty (`start_t == stop_t`).
    pub fn new(behavior: &'a Behavior<'a, T, A>, start_t: T, stop_t: T) -> (r: Option<Self>) where
        T: PartialOrd,

        ensures
            lt_gives(stop_t, start_t, r is None),
            order_specified::<T>() ==> (r is None <==> before(stop_t, start_t)),
            total_order::<T>() && at_or_before(start_t, stop_t) ==> r is Some,
            r matches Some(cut) ==> {
                &&& cut.behavior == behavior
                &&& cut.start_t == start_t
                &&& cut.stop_t == stop_t
                &&& order_specified::<T>() ==> cut.wf()
            },
    {
        if stop_t < start_t {
            return None;
        }
        Some(Cut { behavior, start_t, stop_t })
    }

    /// The duration of the cut: `stop_t - start_t`.
    pub fn dur(&self) -> (d: T) where T: Copy + Sub<T, Output = T>
        requires
            minus_defined(self.stop_t, self.start_t),
        ensures
            minus_gives(self.stop_t, self.start_t, d),
    {
        self.stop_t - self.start_t
    }

    /// Whether the cut covers `t`: whether `start_t <= t` and `t < stop_t`.
    pub fn contains(&self, t: &T) -> (inside: bool) where T: PartialOrd
        ensures
            self.finds(*t, inside),
            order_specified::<T>() ==> inside == self.covers(*t),
    {
        self.start_t <= *t && *t < self.stop_t
    }

    /// The value of the cut at time `t`: that of its behavior where the cut covers `t`. Outside
    /// the cut the answer is `None` and the behavior is not asked.
    pub fn sample(&self, t: T) -> (r: Option<A>) where T: PartialOrd
        ensures
            self.yields(t, r),
            order_specified::<T>() ==> if self.covers(t) {
                self.behavior.yields(t, r)
            } else {
                r is None
            },
    {
        if self.contains(&t) {
            self.behavior.react(t)
        } else {
            None
        }
    }
}

/// The duration of a cut over `i64` times with its bounds in order is the difference of the
/// bounds, and it is not negative. It can be computed unless the bounds lie further apart than
/// an `i64` can say.
pub proof fn lemma_duration_not_negative<A>(cut: Cut<'_, i64, A>, d: i64)
    requires
        cut.wf(),
        cut.stop_t - cut.start_t <= i64::MAX,
    ensures
        minus_defined(cut.stop_t, cut.start_t),
        minus_gives(cut.stop_t, cut.start_t, d) ==> d == cut.stop_t - cut.start_t && d >= 0,
{
    lemma_i64_arithmetic(cut.stop_t, cut.start_t, d);
}

} // verus!
