//! The weighted index of the outside crate, together with the random stream
//! that its sampling and the workloads consume.
use vstd::prelude::*;

use dynamic_weighted_index::DynamicWeightedIndex;
use pcg_rand::Pcg64;
use rand::distributions::Distribution;
use rand::Rng;
use rand::SeedableRng;

verus! {

/// A `DynamicWeightedIndex<u64>` over positions `0..capacity` and the
/// `Pcg64` generator that drives it. Its contents are `index_weights`.
#[verifier::external_body]
pub struct WeightedSampler {
    index: DynamicWeightedIndex<u64>,
    rng: Pcg64,
}

/// Every weight the index holds stays below this limit. The index has five
/// levels, and a range gets a parent on the next level exactly when it holds
/// two or more elements, so each level holds at most half as many elements
/// as the level below. Weights below `2^15` fall into at most 15 ranges of
/// level 0, which leaves at most 15, 7, 3 and 1 elements on levels 1 to 4:
/// no range of level 4 ever needs a parent on a sixth level, which the index
/// does not have.
pub const WEIGHT_LIMIT: u64 = 32768;

/// Every weight of `w` is below `WEIGHT_LIMIT`.
pub open spec fn within_limit(w: Seq<u64>) -> bool {
    forall|j: int| 0 <= j < w.len() ==> w[j] < WEIGHT_LIMIT
}

/// The weight held for each position `0..capacity`; a position that was
/// never set, or was removed, holds `0`.
pub uninterp spec fn index_weights(d: WeightedSampler) -> Seq<u64>;

/// Whether sampling from weights `w` may return position `j`.
pub open spec fn may_return(w: Seq<u64>, j: int) -> bool {
    0 <= j < w.len() && w[j] > 0
}

/// Sum of a sequence of weights.
pub open spec fn weight_sum(s: Seq<u64>) -> nat
    decreases s.len(),
{
    if s.len() == 0 {
        0
    } else {
        weight_sum(s.drop_last()) + s.last() as nat
    }
}

impl WeightedSampler {
    /// Relies on `DynamicWeightedIndex::new`: `n` positions, all of weight 0
    /// (the generator comes from `SeedableRng::seed_from_u64`).
    #[verifier::external_body]
    pub fn new(n: usize, seed: u64) -> (r: WeightedSampler)
        ensures
            index_weights(r) == Seq::new(n as nat, |i: int| 0u64),
    {
        WeightedSampler { index: DynamicWeightedIndex::new(n), rng: Pcg64::seed_from_u64(seed) }
    }

    /// Relies on `DynamicWeightedIndex::set_weight`: overwrites the weight of
    /// position `i` (0 removes it). It indexes out of bounds past the
    /// capacity, keeps the total of all weights in a `u64`, and panics when a
    /// sixth level would be needed (ruled out by `WEIGHT_LIMIT`).
    #[verifier::external_body]
    pub fn set_weight(&mut self, i: usize, w: u64)
        requires
            i < index_weights(*old(self)).len(),
            w < WEIGHT_LIMIT,
            within_limit(index_weights(*old(self))),
            weight_sum(index_weights(*old(self)).update(i as int, w)) <= u64::MAX,
        ensures
            index_weights(*final(self)) == index_weights(*old(self)).update(i as int, w),
    {
        self.index.set_weight(i, w)
    }

    /// Relies on `DynamicWeightedIndex::remove_weight`: position `i` gets
    /// weight 0. It indexes out of bounds past the capacity, and re-files
    /// ranges as `set_weight` does (kept to five levels by `WEIGHT_LIMIT`).
    #[verifier::external_body]
    pub fn remove_weight(&mut self, i: usize)
        requires
            i < index_weights(*old(self)).len(),
            within_limit(index_weights(*old(self))),
        ensures
            index_weights(*final(self)) == index_weights(*old(self)).update(i as int, 0u64),
    {
        self.index.remove_weight(i)
    }

    /// Relies on `Distribution::sample` of `DynamicWeightedIndex`: `None`
    /// exactly when every weight is 0, else a position of positive weight.
    #[verifier::external_body]
    pub fn sample(&mut self) -> (r: Option<usize>)
        ensures
            index_weights(*final(self)) == index_weights(*old(self)),
            r is None <==> (forall|j: int| !may_return(index_weights(*old(self)), j)),
            r matches Some(j) ==> may_return(index_weights(*old(self)), j as int),
    {
        self.index.sample(&mut self.rng)
    }

    /// Relies on `Rng::gen_range` over `0..bound`: a value below `bound`. It
    /// panics on an empty range.
    #[verifier::external_body]
    pub fn draw_below(&mut self, bound: u64) -> (r: u64)
        requires
            bound > 0,
        ensures
            index_weights(*final(self)) == index_weights(*old(self)),
            r < bound,
    {
        self.rng.gen_range(0..bound)
    }
}

} // verus!
