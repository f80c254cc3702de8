//! Trusted declarations around the pseudo-random machinery: the generator,
//! weighted index sampling, uniform draws and shuffling. Each wrapper's
//! contract states only what the called crate's source shows.

use vstd::prelude::*;
use crate::numeric::sum_seq;
use rand::Rng;
use rand::SeedableRng;
use rand::distributions::Distribution;
use rand::seq::SliceRandom;

verus! {

#[verifier::external_type_specification]
#[verifier::external_body]
pub struct ExXoshiro512PlusPlus(rand_xoshiro::Xoshiro512PlusPlus);

#[verifier::external_type_specification]
#[verifier::external_body]
pub struct ExWeightedError(rand::distributions::WeightedError);

/// Holds a `rand::distributions::WeightedIndex` over `u64` weights. The
/// generic bounds of that type cannot be declared here, so the value lives
/// in an opaque field and is reached only through the trusted wrappers
/// below.
#[verifier::external_body]
pub struct WeightedU64Index {
    inner: rand::distributions::WeightedIndex<u64>,
}

/// The weights a `WeightedU64Index` was built over, in index order.
pub uninterp spec fn wi_weights(d: WeightedU64Index) -> Seq<u64>;

/// Relies on `Xoshiro512PlusPlus::seed_from_u64`: builds a generator from a
/// seed. Nothing is claimed of the state.
#[verifier::external_body]
fn xoshiro_from_seed(seed: u64) -> rand_xoshiro::Xoshiro512PlusPlus {
    rand_xoshiro::Xoshiro512PlusPlus::seed_from_u64(seed)
}

/// Relies on `Xoshiro512PlusPlus::from_entropy`: builds a generator from
/// operating-system entropy. Nothing is claimed of the state.
#[verifier::external_body]
fn xoshiro_from_entropy() -> rand_xoshiro::Xoshiro512PlusPlus {
    rand_xoshiro::Xoshiro512PlusPlus::from_entropy()
}

/// A deterministic generator for a given seed; a fixed seed reproduces a
/// fixed run.
pub fn seeded_rng(seed: u64) -> rand_xoshiro::Xoshiro512PlusPlus {
    xoshiro_from_seed(seed)
}

/// A generator seeded from operating-system entropy.
pub fn entropy_rng() -> rand_xoshiro::Xoshiro512PlusPlus {
    xoshiro_from_entropy()
}

/// Relies on `WeightedIndex::new`: fails exactly on an empty weight list or
/// an all-zero total; otherwise the distribution holds the given weights.
/// The sum bound keeps the internal running total from overflowing.
#[verifier::external_body]
pub(crate) fn wi_new(weights: &Vec<u64>) -> (r: Result<
    WeightedU64Index,
    rand::distributions::WeightedError,
>)
    requires
        sum_seq(weights@) <= u64::MAX,
    ensures
        r is Ok <==> (weights@.len() > 0 && sum_seq(weights@) > 0),
        r matches Ok(d) ==> wi_weights(d) == weights@,
{
    Ok(WeightedU64Index { inner: rand::distributions::WeightedIndex::new(weights)? })
}

/// Relies on `WeightedIndex::sample`: returns the index of one weight,
/// chosen with probability proportional to it; an index with zero weight is
/// never returned.
#[verifier::external_body]
pub(crate) fn wi_sample(
    d: &WeightedU64Index,
    rng: &mut rand_xoshiro::Xoshiro512PlusPlus,
) -> (i: usize)
    ensures
        i < wi_weights(*d).len(),
        wi_weights(*d)[i as int] > 0,
{
    d.inner.sample(rng)
}

/// Relies on `WeightedIndex::update_weights` with a single entry: fails
/// exactly when the new total would be zero, leaving the distribution
/// unchanged; on success the one weight is replaced. The sum bound keeps
/// the internal running total from overflowing.
#[verifier::external_body]
pub(crate) fn wi_update_weight(
    d: &mut WeightedU64Index,
    i: usize,
    w: u64,
) -> (r: Result<(), rand::distributions::WeightedError>)
    requires
        i < wi_weights(*old(d)).len(),
        sum_seq(wi_weights(*old(d)).update(i as int, w)) <= u64::MAX,
    ensures
        r is Ok <==> sum_seq(wi_weights(*old(d)).update(i as int, w)) > 0,
        r is Ok ==> wi_weights(*final(d)) == wi_weights(*old(d)).update(i as int, w),
        r is Err ==> *final(d) == *old(d),
{
    d.inner.update_weights(&[(i, &w)])
}

/// Relies on `Rng::gen_range` over `0..bound`: returns a value uniformly
/// drawn below the bound.
#[verifier::external_body]
pub(crate) fn draw_below(rng: &mut rand_xoshiro::Xoshiro512PlusPlus, bound: u64) -> (r: u64)
    requires
        bound > 0,
    ensures
        r < bound,
{
    rng.gen_range(0..bound)
}

/// Relies on `SliceRandom::shuffle`: permutes the elements in place.
#[verifier::external_body]
pub(crate) fn shuffle_indices(
    v: &mut Vec<u64>,
    rng: &mut rand_xoshiro::Xoshiro512PlusPlus,
)
    ensures
        final(v)@.len() == old(v)@.len(),
        final(v)@.to_multiset() == old(v)@.to_multiset(),
{
    v.shuffle(rng)
}

} // verus!
