//! Random picks. The generator is `rand`'s `StdRng`, handed in by the caller,
//! so that a game can be replayed from a seed. What is stated of a pick holds
//! of every outcome; nothing is stated of the generator afterwards.

use crate::cell::Cell;
use rand::rngs::StdRng;
use rand::seq::IteratorRandom;
use rand::seq::SliceRandom;
use rand::Rng;
use vstd::prelude::*;

verus! {

/// `rand::rngs::StdRng`, carried through as it is: nothing is known of what
/// it holds.
#[verifier::external_type_specification]
#[verifier::external_body]
pub struct ExStdRng(StdRng);

/// One of `moves`, drawn by `rand::seq::SliceRandom::choose`, which returns
/// `None` for an empty slice and otherwise one of its elements, each with
/// the same probability.
#[verifier::external_body]
pub(crate) fn choose_column(moves: &Vec<usize>, rng: &mut StdRng) -> (picked: Option<usize>)
    ensures
        moves@.len() == 0 ==> picked is None,
        moves@.len() > 0 ==> picked is Some && moves@.contains(picked.unwrap()),
{
    moves.as_slice().choose(rng).copied()
}

/// One of `tokens`, drawn by `rand::seq::IteratorRandom::choose`, which
/// returns `None` if and only if the iterator is empty and otherwise one of
/// the items it yields, each with the same probability.
#[verifier::external_body]
pub(crate) fn choose_token(tokens: &Vec<Cell>, rng: &mut StdRng) -> (picked: Option<Cell>)
    ensures
        tokens@.len() == 0 ==> picked is None,
        tokens@.len() > 0 ==> picked is Some && tokens@.contains(picked.unwrap()),
{
    tokens.iter().copied().choose(rng)
}

/// A fair coin, thrown by `rand::Rng::gen` for `bool`. Either side may come.
#[verifier::external_body]
pub(crate) fn flip(rng: &mut StdRng) -> bool {
    rng.gen::<bool>()
}

} // verus!
