//! Tracks: cuts laid out in one lane.
//!
//! The cuts of a track may overlap. Where several cover a time, the one that starts latest
//! answers there, and of those that start together the one that was added last.

use crate::cut::Cut;
use crate::domain::{
    at_or_before, before, le_gives, lemma_comparisons_follow_order, order_specified, total_order,
};
use vstd::prelude::*;

verus! {

/// The choice after one more cut, the one at `position`: that cut, where it covers the time
/// asked for (`inside`) and either nothing was chosen before it or it starts no earlier than
/// what was (`later`); the choice made before it everywhere else.
pub open spec fn choice_after(earlier: Option<int>, position: int, inside: bool, later: bool)
    -> Option<int> {
    if inside && (earlier is None || later) {
        Some(position)
    } else {
        earlier
    }
}

/// Going through `cuts` in the order in which they were added may end with the cut at `w`
/// chosen to answer at time `t`, or with none (`None`).
///
/// Each cut is asked whether it covers `t`. The first that does is chosen; each later one that
/// does takes over where the cut chosen so far starts at or before it (`<=`).
pub open spec fn chosen<T: PartialOrd, A>(cuts: Seq<Cut<'_, T, A>>, t: T, w: Option<int>) -> bool
    decreases cuts.len(),
{
    if cuts.len() == 0 {
        w is None
    } else {
        let last = cuts.len() - 1;
        exists|earlier: Option<int>, inside: bool, later: bool|
            {
                &&& chosen(cuts.drop_last(), t, earlier)
                &&& cuts[last].finds(t, inside)
                &&& inside ==> (earlier matches Some(e) ==> le_gives(
                    cuts[e].start_t,
                    cuts[last].start_t,
                    later,
                ))
                &&& w == #[trigger] choice_after(earlier, last, inside, later)
            }
    }
}

/// The cut at position `w` covers `t`, no cut that covers `t` starts later, and those that
/// start together with it were added before it.
pub open spec fn starts_latest<T: PartialOrd, A>(cuts: Seq<Cut<'_, T, A>>, t: T, w: int) -> bool {
    &&& 0 <= w < cuts.len()
    &&& cuts[w].covers(t)
    &&& forall|j: int|
        0 <= j < cuts.len() && (#[trigger] cuts[j]).covers(t) ==> at_or_before(
            cuts[j].start_t,
            cuts[w].start_t,
        )
    &&& forall|j: int|
        w < j < cuts.len() && (#[trigger] cuts[j]).covers(t) ==> before(
            cuts[j].start_t,
            cuts[w].start_t,
        )
}

/// A collection of cuts.
///
/// The cuts of a track may overlap. They are kept in the order in which they were added.
#[verifier::reject_recursive_types(T)]
#[verifier::reject_recursive_types(A)]
pub struct Track<'c, T, A> {
    cuts: Vec<Cut<'c, T, A>>,
}

impl<'c, T, A> View for Track<'c, T, A> {
    type V = Seq<Cut<'c, T, A>>;

    /// The cuts of the track, first added first.
    closed spec fn view(&self) -> Seq<Cut<'c, T, A>> {
        self.cuts@
    }
}

impl<'c, T, A> Track<'c, T, A> {
    /// `r` is an answer that the track may give at time `t`: one of the behavior of the cut
    /// that is [`chosen`], and `None` where none is.
    pub open spec fn yields(&self, t: T, r: Option<A>) -> bool where T: PartialOrd {
        exists|w: Option<int>| #[trigger]
            chosen(self@, t, w) && match w {
                None => r is None,
                Some(i) => 0 <= i < self@.len() && self@[i].behavior.yields(t, r),
            }
    }

    /// `r` is an answer at time `t` of the behavior of the cut that [`starts_latest`] among
    /// those that cover `t`, or `None` where no cut covers `t`.
    pub open spec fn sampled(&self, t: T, r: Option<A>) -> bool where T: PartialOrd {
        ||| exists|w: int| #[trigger] starts_latest(self@, t, w) && self@[w].behavior.yields(t, r)
        ||| r is None && forall|j: int| 0 <= j < self@.len() ==> !(#[trigger] self@[j]).covers(t)
    }

    /// Every behavior that the track cuts from has one answer at each time.
    pub open spec fn deterministic(&self) -> bool {
        forall|i: int| 0 <= i < self@.len() ==> (#[trigger] self@[i]).behavior.deterministic()
    }

    /// A track without cuts.
    pub fn new() -> (track: Self)
        ensures
            track@ == Seq::<Cut<'c, T, A>>::empty(),
    {
        Track { cuts: Vec::new() }
    }

    /// The number of cuts in the track.
    pub fn len(&self) -> (n: usize)
        ensures
            n == self@.len(),
    {
        self.cuts.len()
    }

    /// Add `cut` to the track, after the cuts that are there.
    pub fn add_cut(&mut self, cut: Cut<'c, T, A>)
        ensures
            final(self)@ == old(self)@.push(cut),
    {
        self.cuts.push(cut);
    }

    /// The value of the track at time `t`: that of the cut that answers at `t`. Where the order
    /// of time is total, that is the cut that starts latest among those that cover `t`, and of
    /// several that start together the one added last. Where no cut covers `t`, the answer is
    /// `None`.
    pub fn sample(&self, t: T) -> (r: Option<A>) where T: PartialOrd
        ensures
            self.yields(t, r),
            total_order::<T>() ==> self.sampled(t, r),
    {
        let mut best: Option<usize> = None;
        let ghost mut choice: Option<int> = None;
        let mut i: usize = 0;
        while i < self.cuts.len()
            invariant
                i <= self@.len(),
                self@ == self.cuts@,
                chosen(self@.take(i as int), t, choice),
                choice == match best {
                    None => None::<int>,
                    Some(w) => Some(w as int),
                },
                best matches Some(w) ==> w < i,
            decreases self.cuts.len() - i,
        {
            let ghost earlier = choice;
            let ghost mut later = false;
            let cut = &self.cuts[i];
            let inside = cut.contains(&t);
            if inside {
                match best {
                    None => {
                        best = Some(i);
                    },
                    Some(w) => {
                        let starts_no_earlier = self.cuts[w].start_t <= cut.start_t;
                        proof {
                            later = starts_no_earlier;
                        }
                        if starts_no_earlier {
                            best = Some(i);
                        }
                    },
                }
            }
            proof {
                choice = choice_after(earlier, i as int, inside, later);
                assert(self@.take(i + 1).drop_last() == self@.take(i as int));
            }
            i += 1;
        }
        proof {
            assert(self@.take(i as int) == self@);
            if total_order::<T>() {
                lemma_chosen_starts_latest(self@, t, choice);
            }
        }
        match best {
            None => None,
            Some(w) => self.cuts[w].behavior.react(t),
        }
    }
}

/// The cut chosen is one of the cuts.
pub proof fn lemma_chosen_in_range<T: PartialOrd, A>(cuts: Seq<Cut<'_, T, A>>, t: T, w: Option<int>)
    requires
        chosen(cuts, t, w),
    ensures
        w matches Some(i) ==> 0 <= i < cuts.len(),
    decreases cuts.len(),
{
    if cuts.len() > 0 {
        let last = cuts.len() - 1;
        let (earlier, inside, later) = choose|earlier: Option<int>, inside: bool, later: bool|
            {
                &&& chosen(cuts.drop_last(), t, earlier)
                &&& cuts[last].finds(t, inside)
                &&& inside ==> (earlier matches Some(e) ==> le_gives(
                    cuts[e].start_t,
                    cuts[last].start_t,
                    later,
                ))
                &&& w == #[trigger] choice_after(earlier, last, inside, later)
            };
        lemma_chosen_in_range(cuts.drop_last(), t, earlier);
    }
}

/// Where `T` tells its order, going through the cuts ends one way only.
pub proof fn lemma_chosen_once<T: PartialOrd, A>(
    cuts: Seq<Cut<'_, T, A>>,
    t: T,
    w1: Option<int>,
    w2: Option<int>,
)
    requires
        order_specified::<T>(),
        chosen(cuts, t, w1),
        chosen(cuts, t, w2),
    ensures
        w1 == w2,
    decreases cuts.len(),
{
    if cuts.len() > 0 {
        let last = cuts.len() - 1;
        let (e1, i1, l1) = choose|earlier: Option<int>, inside: bool, later: bool|
            {
                &&& chosen(cuts.drop_last(), t, earlier)
                &&& cuts[last].finds(t, inside)
                &&& inside ==> (earlier matches Some(e) ==> le_gives(
                    cuts[e].start_t,
                    cuts[last].start_t,
                    later,
                ))
                &&& w1 == #[trigger] choice_after(earlier, last, inside, later)
            };
        let (e2, i2, l2) = choose|earlier: Option<int>, inside: bool, later: bool|
            {
                &&& chosen(cuts.drop_last(), t, earlier)
                &&& cuts[last].finds(t, inside)
                &&& inside ==> (earlier matches Some(e) ==> le_gives(
                    cuts[e].start_t,
                    cuts[last].start_t,
                    later,
                ))
                &&& w2 == #[trigger] choice_after(earlier, last, inside, later)
            };
        lemma_chosen_once(cuts.drop_last(), t, e1, e2);
    }
}

/// Highest start wins. Where the order of time is total, the cut chosen is the one that starts
/// latest among the cuts that cover `t`, and among those that start together the one added
/// last; no cut is chosen only where none covers `t`.
pub proof fn lemma_chosen_starts_latest<T: PartialOrd, A>(
    cuts: Seq<Cut<'_, T, A>>,
    t: T,
    w: Option<int>,
)
    requires
        total_order::<T>(),
        chosen(cuts, t, w),
    ensures
        match w {
            Some(i) => starts_latest(cuts, t, i),
            None => forall|j: int| 0 <= j < cuts.len() ==> !(#[trigger] cuts[j]).covers(t),
        },
    decreases cuts.len(),
{
    if cuts.len() > 0 {
        let last = cuts.len() - 1;
        let shorter = cuts.drop_last();
        let (earlier, inside, later) = choose|earlier: Option<int>, inside: bool, later: bool|
            {
                &&& chosen(shorter, t, earlier)
                &&& cuts[last].finds(t, inside)
                &&& inside ==> (earlier matches Some(e) ==> le_gives(
                    cuts[e].start_t,
                    cuts[last].start_t,
                    later,
                ))
                &&& w == #[trigger] choice_after(earlier, last, inside, later)
            };
        lemma_chosen_starts_latest(shorter, t, earlier);
        lemma_chosen_in_range(shorter, t, earlier);
        assert(forall|j: int| 0 <= j < shorter.len() ==> shorter[j] == cuts[j]);
        match w {
            Some(i) => {
                let start = cuts[i].start_t;
                assert(at_or_before(start, start) <==> !before(start, start));
                if let Some(e) = earlier {
                    assert(cuts[e] == shorter[e]);
                    lemma_comparisons_follow_order(cuts[e].start_t, cuts[last].start_t, later);
                }
                assert forall|j: int| 0 <= j < cuts.len() && (#[trigger] cuts[j]).covers(
                    t,
                ) implies at_or_before(cuts[j].start_t, start) by {
                    if j < last {
                        assert(shorter[j].covers(t));
                        if i == last {
                            let e = earlier->0;
                            assert(at_or_before(shorter[j].start_t, shorter[e].start_t));
                            assert(at_or_before(cuts[e].start_t, start));
                        }
                    } else if i < last {
                        assert(!at_or_before(start, cuts[last].start_t));
                        assert(before(cuts[last].start_t, start));
                    }
                }
                assert forall|j: int| i < j < cuts.len() && (#[trigger] cuts[j]).covers(
                    t,
                ) implies before(cuts[j].start_t, start) by {
                    if j < last {
                        assert(shorter[j].covers(t));
                    } else {
                        assert(!at_or_before(start, cuts[last].start_t));
                    }
                }
            },
            None => {
                assert forall|j: int| 0 <= j < cuts.len() implies !(#[trigger] cuts[j]).covers(
                    t,
                ) by {
                    if j < last {
                        assert(!shorter[j].covers(t));
                    }
                }
            },
        }
    }
}

/// Where the order of time is total, one cut at most starts latest among those that cover `t`.
pub proof fn lemma_starts_latest_once<T: PartialOrd, A>(
    cuts: Seq<Cut<'_, T, A>>,
    t: T,
    w1: int,
    w2: int,
)
    requires
        total_order::<T>(),
        starts_latest(cuts, t, w1),
        starts_latest(cuts, t, w2),
    ensures
        w1 == w2,
{
}

/// Sampling is deterministic. Two answers that a track may give at the same time are the same,
/// where `T` tells its order and each behavior of the track has one answer at each time.
pub proof fn lemma_sample_deterministic<T: PartialOrd, A>(
    track: Track<'_, T, A>,
    t: T,
    r1: Option<A>,
    r2: Option<A>,
)
    requires
        order_specified::<T>(),
        track.deterministic(),
        track.yields(t, r1),
        track.yields(t, r2),
    ensures
        r1 == r2,
{
    let w1 = choose|w: Option<int>| #[trigger]
        chosen(track@, t, w) && match w {
            None => r1 is None,
            Some(i) => 0 <= i < track@.len() && track@[i].behavior.yields(t, r1),
        };
    let w2 = choose|w: Option<int>| #[trigger]
        chosen(track@, t, w) && match w {
            None => r2 is None,
            Some(i) => 0 <= i < track@.len() && track@[i].behavior.yields(t, r2),
        };
    lemma_chosen_once(track@, t, w1, w2);
}

} // verus!
