//! Choosing parents: the selection strategy and its error.
use vstd::prelude::*;
use crate::individual::{scores, Individual};
use crate::random::{choose_weighted_index, weight_sum};
use rand::distributions::WeightedError;
use rand::rngs::StdRng;

verus! {

/// What rand's `Display` writes for each `WeightedError`.
pub open spec fn weighted_error_text(e: WeightedError) -> Seq<char> {
    match e {
        WeightedError::NoItem => "No weights provided in distribution"@,
        WeightedError::InvalidWeight => "A weight is invalid in distribution"@,
        WeightedError::AllWeightsZero => "All weights are zero in distribution"@,
        WeightedError::TooMany => "Too many weights (hit u32::MAX) in distribution"@,
    }
}

/// Relies on rand's `Display` for `WeightedError`, one fixed sentence for
/// each variant.
#[verifier::external_body]
fn weighted_error_to_string(e: &WeightedError) -> (r: String)
    ensures
        r@ == weighted_error_text(*e),
{
    e.to_string()
}

/// The words that start every selection failure.
pub open spec fn selection_failure_prefix() -> Seq<char> {
    "Selection failed to select due to error:\n "@
}

/// Why a parent could not be drawn.
#[derive(Debug)]
pub struct SelectionError {
    message: String,
}

impl View for SelectionError {
    type V = Seq<char>;

    closed spec fn view(&self) -> Seq<char> {
        self.message@
    }
}

impl SelectionError {
    /// The error that reports a failure of the weighted draw.
    pub fn from_error(e: WeightedError) -> (r: SelectionError)
        ensures
            r@ == selection_failure_prefix() + weighted_error_text(e),
    {
        let mut message = "Selection failed to select due to error:\n ".to_owned();
        let reason = weighted_error_to_string(&e);
        message.append(reason.as_str());
        SelectionError { message }
    }

    /// The message, `SelectionError: ` followed by the reason.
    pub fn to_string(&self) -> (r: String)
        ensures
            r@ == "SelectionError: "@ + self@,
    {
        let mut text = "SelectionError: ".to_owned();
        text.append(self.message.as_str());
        text
    }
}

/// A way of drawing one parent from a population: it fails exactly when no
/// member has a positive fitness, and otherwise draws a member that has one.
pub trait SelectionMethod {
    fn select<'a, G, I: Individual<G>>(&self, rng: &mut StdRng, population: &'a Vec<I>) -> (r: Result<&'a I, SelectionError>)
        requires
            weight_sum(scores(population@)) <= u32::MAX,
        ensures
            r is Err <==> weight_sum(scores(population@)) == 0,
            r matches Ok(p) ==> exists|i: int|
                0 <= i < population@.len() && population@[i] == *p && population@[i].score() > 0,
    ;
}

/// Draws each individual with probability proportional to its fitness.
#[derive(Clone, Copy, Debug, Default)]
pub struct RouletteWheelSelection;

impl SelectionMethod for RouletteWheelSelection {
    fn select<'a, G, I: Individual<G>>(&self, rng: &mut StdRng, population: &'a Vec<I>) -> (r: Result<&'a I, SelectionError>)
        ensures
            r matches Err(e) ==> e@ == selection_failure_prefix() + weighted_error_text(
                if population@.len() == 0 { WeightedError::NoItem } else { WeightedError::AllWeightsZero },
            ),
    {
        let mut weights: Vec<u32> = Vec::new();
        let mut i: usize = 0;
        while i < population.len()
            invariant
                i <= population@.len(),
                weights@ == scores(population@).take(i as int),
            decreases population@.len() - i,
        {
            let w = population[i].fitness();
            weights.push(w);
            i = i + 1;
            assert(weights@ =~= scores(population@).take(i as int));
        }
        assert(weights@ =~= scores(population@));
        match choose_weighted_index(rng, &weights) {
            Ok(k) => Ok(&population[k]),
            Err(e) => Err(SelectionError::from_error(e)),
        }
    }
}

} // verus!
