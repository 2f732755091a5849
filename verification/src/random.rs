use vstd::prelude::*;

use rand::distributions::weighted::alias_method::WeightedIndex;
use rand::distributions::{Distribution, WeightedError};
use rand::rngs::ThreadRng;
use rand::Rng;

verus! {

/// The random number generator of the current thread.
#[verifier::external_type_specification]
#[verifier::external_body]
pub struct ExThreadRng(ThreadRng);

/// A distribution over the positions of a list of weights, made by the
/// alias method; its contents are named by `picker_weights`.
#[verifier::external_body]
pub struct WeightedPicker {
    dist: WeightedIndex<u32>,
}

/// Why a list of weights could not be made into a distribution.
#[verifier::external_type_specification]
#[verifier::external_body]
pub struct ExWeightedError(WeightedError);

/// The weights that a distribution over positions was made from.
pub uninterp spec fn picker_weights(picker: WeightedPicker) -> Seq<u32>;

/// The sum of a list of weights.
pub open spec fn weight_total(w: Seq<u32>) -> int
    decreases w.len(),
{
    if w.len() == 0 {
        0
    } else {
        weight_total(w.drop_last()) + w.last()
    }
}

/// `Rng::gen_range(0, n)`: a number drawn uniformly below `n`. The source
/// panics when the range is empty, so `n` must be positive; the result is
/// below `n`, and nothing more is stated since it is chance.
#[verifier::external_body]
pub(crate) fn random_below(rng: &mut ThreadRng, n: usize) -> (r: usize)
    requires
        n > 0,
    ensures
        r < n,
{
    rng.gen_range(0, n)
}

/// `alias_method::WeightedIndex::new`: succeeds exactly when the list is not
/// empty, has at most `u32::MAX` entries, every weight is at most
/// `u32::MAX` divided by the number of entries, and the weights do not sum
/// to zero; the distribution then stands for the list it was made from.
/// Which error comes otherwise is not stated.
#[verifier::external_body]
pub(crate) fn weighted_index(weights: Vec<u32>) -> (res: Result<WeightedPicker, WeightedError>)
    ensures
        res is Ok <==> {
            &&& weights@.len() > 0
            &&& weights@.len() <= u32::MAX
            &&& forall|i: int| 0 <= i < weights@.len() ==> #[trigger] weights@[i] <= (u32::MAX as int) / (weights@.len() as int)
            &&& weight_total(weights@) > 0
        },
        res matches Ok(d) ==> picker_weights(d) == weights@,
{
    WeightedIndex::new(weights).map(|dist| WeightedPicker { dist })
}

/// `Distribution::sample` of an alias-method distribution: a position of the
/// list the distribution was made from. Which position comes is chance.
#[verifier::external_body]
pub(crate) fn draw_index(picker: &WeightedPicker, rng: &mut ThreadRng) -> (r: usize)
    ensures
        r < picker_weights(*picker).len(),
{
    picker.dist.sample(rng)
}

} // verus!
