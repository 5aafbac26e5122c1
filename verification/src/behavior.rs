//! Behaviors: values that vary over time.

use vstd::prelude::*;

verus! {

/// Something that can be asked for a value at a time.
trait Evaluator<T, A> {
    spec fn defined_at(&self, t: T) -> bool;

    spec fn yields(&self, t: T, r: Option<A>) -> bool;

    fn eval(&self, t: T) -> (r: Option<A>)
        requires
            self.defined_at(t),
        ensures
            self.yields(t, r),
    ;
}

/// A function object as an [`Evaluator`].
struct FnEvaluator<F> {
    f: F,
}

impl<T, A, F: Fn(T) -> Option<A>> Evaluator<T, A> for FnEvaluator<F> {
    spec fn defined_at(&self, t: T) -> bool {
        call_requires(self.f, (t,))
    }

    spec fn yields(&self, t: T, r: Option<A>) -> bool {
        call_ensures(self.f, (t,), r)
    }

    fn eval(&self, t: T) -> (r: Option<A>) {
        (self.f)(t)
    }
}

/// A behavior that gives values of type `A` varying over time `T`.
///
/// A behavior is just whatever function that can provide a value at any time of `T`. It may
/// have no value at some times: it then answers `None`, which is an answer like any other.
#[verifier::reject_recursive_types(T)]
#[verifier::reject_recursive_types(A)]
pub struct Behavior<'a, T, A> {
    behavior: Box<dyn Evaluator<T, A> + 'a>,
}

impl<'a, T, A> Behavior<'a, T, A> {
    /// A behavior can be asked at every time.
    #[verifier::type_invariant]
    spec fn total(&self) -> bool {
        forall|t: T| self.behavior.defined_at(t)
    }

    /// `r` is an answer that the behavior may give at time `t`.
    pub closed spec fn yields(&self, t: T, r: Option<A>) -> bool {
        self.behavior.yields(t, r)
    }

    /// The behavior has one answer at each time: asked twice at the same time, it answers the
    /// same.
    pub open spec fn deterministic(&self) -> bool {
        forall|t: T, r1: Option<A>, r2: Option<A>|
            #[trigger] self.yields(t, r1) && #[trigger] self.yields(t, r2) ==> r1 == r2
    }

    /// Wrap a function into a behavior. The function has to accept every time.
    pub fn from_fn<F>(f: F) -> (b: Self) where F: 'a + Fn(T) -> Option<A>
        requires
            forall|t: T| call_requires(f, (t,)),
        ensures
            forall|t: T, r: Option<A>| #[trigger] b.yields(t, r) <==> call_ensures(f, (t,), r),
    {
        Behavior { behavior: Box::new(FnEvaluator { f }) }
    }

    /// The value of the behavior at time `t`.
    pub fn react(&self, t: T) -> (r: Option<A>)
        ensures
            self.yields(t, r),
    {
        proof {
            use_type_invariant(self);
        }
        self.behavior.eval(t)
    }
}

} // verus!
