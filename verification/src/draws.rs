//! Random draws out of the generator of the current thread.

use rand::distributions::{Distribution, Uniform};
use rand::rngs::ThreadRng;
use rand::seq::SliceRandom;
use rand::Rng;
use vstd::prelude::*;

verus! {

/// `ThreadRng` of `rand`: the generator of the current thread.
#[verifier::external_type_specification]
#[verifier::external_body]
pub struct ExThreadRng(ThreadRng);

/// Calls `Rng::gen_range` of `rand`, which draws a number from `low` on and below `high`. It
/// panics unless `low` is below `high`.
#[verifier::external_body]
pub(crate) fn gen_range(rng: &mut ThreadRng, low: u32, high: u32) -> (r: u32)
    requires
        low < high,
    ensures
        low <= r < high,
{
    rng.gen_range(low, high)
}

/// Calls `Rng::gen` of `rand` for a truth value. Either may come back.
#[verifier::external_body]
pub(crate) fn gen_bool(rng: &mut ThreadRng) -> (r: bool) {
    rng.gen()
}

/// A draw of `true` with a chance of `numerator` in `denominator` is certain where the chance is
/// all or nothing.
pub open spec fn ratio_allows(numerator: u32, denominator: u32, r: bool) -> bool {
    &&& numerator == denominator ==> r
    &&& numerator == 0 ==> !r
}

/// Calls `Rng::gen_ratio` of `rand`, which draws `true` with a chance of `numerator` in
/// `denominator`. It panics on a chance that is no fraction up to one.
#[verifier::external_body]
pub(crate) fn gen_ratio(rng: &mut ThreadRng, numerator: u32, denominator: u32) -> (r: bool)
    requires
        denominator != 0,
        numerator <= denominator,
    ensures
        ratio_allows(numerator, denominator, r),
{
    rng.gen_ratio(numerator, denominator)
}

/// Calls `Distribution::sample` of `rand` on the uniform distribution of the numbers below `end`,
/// and makes that distribution by `Uniform::new`, which panics if there are none.
#[verifier::external_body]
pub(crate) fn sample_below(rng: &mut ThreadRng, end: usize) -> (r: usize)
    requires
        end != 0,
    ensures
        r < end,
{
    Uniform::new(0, end).sample(rng)
}

/// Calls `SliceRandom::choose` of `rand`, which draws an item, or none where there are none.
#[verifier::external_body]
pub(crate) fn choose_item<T: Copy>(rng: &mut ThreadRng, items: &[T]) -> (r: Option<T>)
    ensures
        match r {
            Some(item) => items@.contains(item),
            None => items@.len() == 0,
        },
{
    items.choose(rng).copied()
}

} // verus!
