//! Timelines: tracks laid out side by side.

use crate::domain::{order_specified, total_order};
use crate::track::Track;
use vstd::prelude::*;

verus! {

/// A collection of tracks.
///
/// The tracks of a timeline run in parallel. They are kept in the order in which they were
/// added, and each is sampled on its own: what to make of their values together is left to
/// whoever asks for them.
#[verifier::reject_recursive_types(T)]
#[verifier::reject_recursive_types(A)]
pub struct Timeline<'c, T, A> {
    tracks: Vec<Track<'c, T, A>>,
}

impl<'c, T, A> View for Timeline<'c, T, A> {
    type V = Seq<Track<'c, T, A>>;

    /// The tracks of the timeline, first added first.
    closed spec fn view(&self) -> Seq<Track<'c, T, A>> {
        self.tracks@
    }
}

impl<'c, T, A> Timeline<'c, T, A> {
    /// `rs` holds an answer that each track may give at time `t`, in the order of the tracks.
    pub open spec fn yields(&self, t: T, rs: Seq<Option<A>>) -> bool where T: PartialOrd {
        &&& rs.len() == self@.len()
        &&& forall|i: int| 0 <= i < self@.len() ==> (#[trigger] self@[i]).yields(t, rs[i])
    }

    /// `rs` holds, for each track in the order of the tracks, an answer at time `t` of the cut
    /// that starts latest in that track.
    pub open spec fn sampled(&self, t: T, rs: Seq<Option<A>>) -> bool where T: PartialOrd {
        &&& rs.len() == self@.len()
        &&& forall|i: int| 0 <= i < self@.len() ==> (#[trigger] self@[i]).sampled(t, rs[i])
    }

    /// Every behavior that the timeline cuts from has one answer at each time.
    pub open spec fn deterministic(&self) -> bool {
        forall|i: int| 0 <= i < self@.len() ==> (#[trigger] self@[i]).deterministic()
    }

    /// A timeline without tracks.
    pub fn new() -> (timeline: Self)
        ensures
            timeline@ == Seq::<Track<'c, T, A>>::empty(),
    {
        Timeline { tracks: Vec::new() }
    }

    /// The number of tracks in the timeline.
    pub fn len(&self) -> (n: usize)
        ensures
            n == self@.len(),
    {
        self.tracks.len()
    }

    /// Add `track` to the timeline, after the tracks that are there.
    pub fn add_track(&mut self, track: Track<'c, T, A>)
        ensures
            final(self)@ == old(self)@.push(track),
    {
        self.tracks.push(track);
    }

    /// The values of the timeline at time `t`: one of each track, in the order of the tracks.
    /// Nothing is made of them together.
    pub fn sample(&self, t: T) -> (rs: Vec<Option<A>>) where T: Copy + PartialOrd
        ensures
            self.yields(t, rs@),
            total_order::<T>() ==> self.sampled(t, rs@),
    {
        let mut rs: Vec<Option<A>> = Vec::new();
        let mut i: usize = 0;
        while i < self.tracks.len()
            invariant
                i <= self@.len(),
                self@ == self.tracks@,
                rs@.len() == i,
                forall|j: int| 0 <= j < i ==> (#[trigger] self@[j]).yields(t, rs@[j]),
                total_order::<T>() ==> forall|j: int|
                    0 <= j < i ==> (#[trigger] self@[j]).sampled(t, rs@[j]),
            decreases self.tracks.len() - i,
        {
            let r = self.tracks[i].sample(t);
            rs.push(r);
            i += 1;
        }
        rs
    }
}

/// Sampling is deterministic. Two answers that a timeline may give at the same time are the
/// same, track by track, where `T` tells its order and each behavior of the timeline has one
/// answer at each time.
pub proof fn lemma_sample_deterministic<T: PartialOrd, A>(
    timeline: Timeline<'_, T, A>,
    t: T,
    rs1: Seq<Option<A>>,
    rs2: Seq<Option<A>>,
)
    requires
        order_specified::<T>(),
        timeline.deterministic(),
        timeline.yields(t, rs1),
        timeline.yields(t, rs2),
    ensures
        rs1 == rs2,
{
    assert forall|i: int| 0 <= i < rs1.len() implies rs1[i] == rs2[i] by {
        crate::track::lemma_sample_deterministic(timeline@[i], t, rs1[i], rs2[i]);
    }
    assert(rs1 =~= rs2);
}

} // verus!
