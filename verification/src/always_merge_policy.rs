//! The merge policy of a batch-built index: always merge everything.

use vstd::prelude::*;

verus! {

/// `AlwaysMergePolicy` always merges all segments.
#[derive(Debug)]
pub struct AlwaysMergePolicy;

/// The merges that the policy asks for: one of all segments where there is
/// more than one segment, none otherwise.
pub open spec fn merge_candidates<S>(segment_ids: Seq<S>) -> Seq<Seq<S>> {
    if segment_ids.len() > 1 {
        seq![segment_ids]
    } else {
        Seq::empty()
    }
}

impl AlwaysMergePolicy {
    /// The merges to make for the segments with the identifiers
    /// `segment_ids`. Each candidate lists the segments of one merge.
    pub fn compute_merge_candidates<S>(&self, segment_ids: Vec<S>) -> (candidates: Vec<Vec<S>>)
        ensures
            candidates@.map_values(|c: Vec<S>| c@) == merge_candidates(segment_ids@),
            segment_ids@.len() > 1 ==> candidates@.len() == 1 && candidates@[0] == segment_ids,
            segment_ids@.len() <= 1 ==> candidates@.len() == 0,
    {
        let mut candidates: Vec<Vec<S>> = Vec::new();
        if segment_ids.len() > 1 {
            candidates.push(segment_ids);
            assert(candidates@.map_values(|c: Vec<S>| c@) =~= seq![segment_ids@]);
        } else {
            assert(candidates@.map_values(|c: Vec<S>| c@) =~= Seq::<Seq<S>>::empty());
        }
        candidates
    }
}

} // verus!
