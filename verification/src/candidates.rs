//! The candidate list of one selection pass: a small vector that stays on the
//! stack while a group has few eligible channels, and the weighted draw from it.
//!
//! The list is smallvec's `SmallVec`, and the draw is rand's `WeightedIndex`.
//! Nothing here is proved: each function states what the crate's source shows of
//! the one call it makes.

use rand::distributions::{Distribution, WeightedIndex};
use smallvec::SmallVec;
use vstd::prelude::*;

verus! {

/// A channel that a selection pass may pop: its place in its group, and its
/// weight.
#[derive(Debug, Clone, Copy, PartialEq, Eq, Structural)]
pub struct Candidate {
    /// The place of the record within its group.
    pub place: usize,
    /// The selection weight of the record.
    pub weight: u32,
}

/// The candidates of a pass, in the order in which they were added. The list
/// is a `SmallVec` with room for eight candidates before it goes to the heap;
/// the verifier does not look into it, and knows it by `candidate_items`.
#[verifier::external_body]
pub struct Candidates {
    items: SmallVec<[Candidate; 8]>,
}

/// What a candidate list holds, first added first.
pub uninterp spec fn candidate_items(list: Candidates) -> Seq<Candidate>;

impl View for Candidates {
    type V = Seq<Candidate>;

    open spec fn view(&self) -> Seq<Candidate> {
        candidate_items(*self)
    }
}

impl Candidates {
    /// `SmallVec::new`: a list that holds nothing.
    #[verifier::external_body]
    pub(crate) fn new() -> (list: Self)
        ensures
            candidate_items(list) == Seq::<Candidate>::empty(),
    {
        Candidates { items: SmallVec::new() }
    }

    /// `SmallVec::len`: how many candidates the list holds.
    #[verifier::external_body]
    pub(crate) fn len(&self) -> (len: usize)
        ensures
            len == candidate_items(*self).len(),
    {
        self.items.len()
    }

    /// `SmallVec::index`: the candidate at place `at`. Out of bounds it panics.
    #[verifier::external_body]
    pub(crate) fn get(&self, at: usize) -> (candidate: Candidate)
        requires
            at < candidate_items(*self).len(),
        ensures
            candidate == candidate_items(*self)[at as int],
    {
        self.items[at]
    }

    /// `SmallVec::push`: appends `candidate` behind the others.
    #[verifier::external_body]
    pub(crate) fn push(&mut self, candidate: Candidate)
        ensures
            candidate_items(*final(self)) == candidate_items(*old(self)).push(candidate),
    {
        self.items.push(candidate);
    }

    /// `SmallVec::remove`: takes out the candidate at place `at` and moves the
    /// later ones up by one place. Out of bounds it panics.
    #[verifier::external_body]
    pub(crate) fn remove(&mut self, at: usize) -> (candidate: Candidate)
        requires
            at < candidate_items(*old(self)).len(),
        ensures
            candidate == candidate_items(*old(self))[at as int],
            candidate_items(*final(self)) == candidate_items(*old(self)).remove(at as int),
    {
        self.items.remove(at)
    }

    /// `SmallVec::clear`: empties the list and keeps its storage.
    #[verifier::external_body]
    pub(crate) fn clear(&mut self)
        ensures
            candidate_items(*final(self)) == Seq::<Candidate>::empty(),
    {
        self.items.clear();
    }

    /// Draws the place of one candidate at random, each with a chance in
    /// proportion to its weight: `WeightedIndex::new` over the weights, sampled
    /// once with `thread_rng`.
    ///
    /// `WeightedIndex::new` fails on an empty list and on a total weight of 0,
    /// which the two conditions rule out. It adds the weights up as `u128`, where
    /// the sum of as many 32-bit weights as a list can hold cannot overflow. The
    /// sample is a place in the list; which one is up to the generator, which
    /// each thread seeds from the operating system on first use.
    #[verifier::external_body]
    pub(crate) fn draw(&self) -> (at: usize)
        requires
            candidate_items(*self).len() > 0,
            forall|k: int|
                0 <= k < candidate_items(*self).len() ==> (#[trigger] candidate_items(
                    *self,
                )[k]).weight >= 1,
        ensures
            at < candidate_items(*self).len(),
    {
        let weights = self.items.iter().map(|candidate| u128::from(candidate.weight));
        WeightedIndex::new(weights).unwrap().sample(&mut rand::thread_rng())
    }
}

} // verus!
