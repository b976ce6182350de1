//! The random source that every stochastic step of the library draws from.
use vstd::prelude::*;
use rand::Rng;
use rand::seq::SliceRandom;


verus! {

#[verifier::external_type_specification]
#[verifier::external_body]
pub struct ExStdRng(rand::rngs::StdRng);

#[verifier::external_type_specification]
pub struct ExWeightedError(rand::distributions::WeightedError);

/// Relies on rand's `Rng::gen_ratio(1, 2)`: a fair coin. Nothing is known of
/// the outcome.
#[verifier::external_body]
pub(crate) fn flip_coin(rng: &mut rand::rngs::StdRng) -> bool {
    rng.gen_ratio(1, 2)
}

/// The sum of `weights`.
pub open spec fn weight_sum(weights: Seq<u32>) -> int
    decreases weights.len(),
{
    if weights.len() == 0 {
        0
    } else {
        weight_sum(weights.drop_last()) + weights.last()
    }
}

pub(crate) proof fn lemma_weight_sum_nonneg(weights: Seq<u32>)
    ensures
        weight_sum(weights) >= 0,
    decreases weights.len(),
{
    if weights.len() > 0 {
        lemma_weight_sum_nonneg(weights.drop_last());
    }
}

/// Relies on rand's `SliceRandom::choose_weighted`, applied to the indices of
/// `weights`: it fails with `NoItem` on an empty list and with
/// `AllWeightsZero` when every weight is zero; otherwise the index it returns
/// has a positive weight. Unsigned weights are never `InvalidWeight`, and the
/// running total of `WeightedIndex::new` must fit in `u32`.
#[verifier::external_body]
pub(crate) fn choose_weighted_index(rng: &mut rand::rngs::StdRng, weights: &Vec<u32>) -> (r: Result<usize, rand::distributions::WeightedError>)
    requires
        weight_sum(weights@) <= u32::MAX,
    ensures
        r is Err <==> weight_sum(weights@) == 0,
        r matches Ok(i) ==> i < weights@.len() && weights@[i as int] > 0,
        r matches Err(e) ==> (e == rand::distributions::WeightedError::NoItem <==> weights@.len() == 0),
        r matches Err(e) ==> (e == rand::distributions::WeightedError::NoItem || e == rand::distributions::WeightedError::AllWeightsZero),
{
    let indices: Vec<usize> = (0..weights.len()).collect();
    indices.choose_weighted(rng, |i| weights[*i]).map(|i| *i)
}

} // verus!
