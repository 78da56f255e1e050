//! Random choices, made with the `rand` crate.
use rand::rngs::StdRng;
use rand::seq::IndexedRandom;
use vstd::prelude::*;

verus! {

/// The random number generator of the game.
#[verifier::external_type_specification]
#[verifier::external_body]
pub struct ExStdRng(StdRng);

/// Picks one of `items` with `IndexedRandom::choose` from `rand`.
///
/// Trusted: `choose` returns `None` when the slice is empty and otherwise a
/// reference to one of its elements; which one depends on the generator.
#[verifier::external_body]
pub(crate) fn choose_one(items: &Vec<usize>, rng: &mut StdRng) -> (r: Option<usize>)
    ensures
        r is None <==> items@.len() == 0,
        r matches Some(x) ==> items@.contains(x),
{
    items.as_slice().choose(rng).copied()
}

} // verus!
