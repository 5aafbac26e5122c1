//! The time domain, as the contracts of this crate speak of it.
//!
//! Time is any type with `<` and `<=`; durations and generators also use its `+` and `-`. What
//! those operators compute is the type's own business, so the contracts say what is returned in
//! terms of what the operators give ([`lt_gives`], [`le_gives`], [`plus_gives`],
//! [`minus_gives`]). Where the type tells what its order is, they also say it by that order
//! ([`before`], [`at_or_before`]).

use std::ops::{Add, Sub};
use vstd::prelude::*;
use vstd::std_specs::cmp::{PartialOrdIs, PartialOrdSpec};

verus! {

/// `a < b` may evaluate to `r`.
pub open spec fn lt_gives<T: PartialOrd>(a: T, b: T, r: bool) -> bool {
    call_ensures(T::lt, (&a, &b), r)
}

/// `a <= b` may evaluate to `r`.
pub open spec fn le_gives<T: PartialOrd>(a: T, b: T, r: bool) -> bool {
    call_ensures(T::le, (&a, &b), r)
}

/// `a + b` can be evaluated.
pub open spec fn plus_defined<T: Add<Output = T>>(a: T, b: T) -> bool {
    call_requires(T::add, (a, b))
}

/// `a + b` may evaluate to `r`.
pub open spec fn plus_gives<T: Add<Output = T>>(a: T, b: T, r: T) -> bool {
    call_ensures(T::add, (a, b), r)
}

/// `a - b` can be evaluated.
pub open spec fn minus_defined<T: Sub<Output = T>>(a: T, b: T) -> bool {
    call_requires(T::sub, (a, b))
}

/// `a - b` may evaluate to `r`.
pub open spec fn minus_gives<T: Sub<Output = T>>(a: T, b: T, r: T) -> bool {
    call_ensures(T::sub, (a, b), r)
}

/// `T` tells what its order is, and `<` and `<=` compute it.
///
/// This holds of the integer types.
pub open spec fn order_specified<T: PartialOrd>() -> bool {
    T::obeys_partial_cmp_spec()
}

/// `a` is strictly earlier than `b`, in the order that `T` tells.
pub open spec fn before<T: PartialOrd>(a: T, b: T) -> bool {
    a.is_lt(&b)
}

/// `a` is earlier than `b`, or the two are the same point in time, in the order that `T` tells.
pub open spec fn at_or_before<T: PartialOrd>(a: T, b: T) -> bool {
    a.is_le(&b)
}

/// `T` tells what its order is, `<` and `<=` compute it, and it is total: any two times
/// compare, one way only, and the order is transitive.
pub open spec fn total_order<T: PartialOrd>() -> bool {
    &&& order_specified::<T>()
    &&& forall|a: T, b: T| #[trigger] at_or_before(a, b) <==> !before(b, a)
    &&& forall|a: T, b: T| #[trigger] before(a, b) ==> at_or_before(a, b)
    &&& forall|a: T, b: T, c: T|
        #[trigger] at_or_before(a, b) && #[trigger] at_or_before(b, c) ==> at_or_before(a, c)
}

/// Where `T` tells its order, `<` and `<=` give what the order says, and nothing else.
pub proof fn lemma_comparisons_follow_order<T: PartialOrd>(a: T, b: T, r: bool)
    requires
        order_specified::<T>(),
    ensures
        lt_gives(a, b, r) ==> r == before(a, b),
        le_gives(a, b, r) ==> r == at_or_before(a, b),
{
}

/// The order of `i64` is that of the integers, and it is total.
pub proof fn lemma_i64_total_order()
    ensures
        total_order::<i64>(),
        forall|a: i64, b: i64| #[trigger] before(a, b) <==> a < b,
        forall|a: i64, b: i64| #[trigger] at_or_before(a, b) <==> a <= b,
{
}

/// On `i64`, `+` and `-` can be evaluated where the result is an `i64`, and they give the sum
/// and the difference.
pub proof fn lemma_i64_arithmetic(a: i64, b: i64, r: i64)
    ensures
        i64::MIN <= a + b <= i64::MAX ==> plus_defined(a, b) && (plus_gives(a, b, r) ==> r == a
            + b),
        i64::MIN <= a - b <= i64::MAX ==> minus_defined(a, b) && (minus_gives(a, b, r) ==> r == a
            - b),
{
}

} // verus!
