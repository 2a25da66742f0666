use rand::seq::SliceRandom;
use vstd::prelude::*;

use crate::player::PlayerDetails;

verus! {

/// Relies on `rand::random_range`: on the non-empty range `0..n` it returns a
/// value of that range, drawn from the thread-local generator.
#[verifier::external_body]
pub(crate) fn random_below(n: usize) -> (r: usize)
    requires
        n > 0,
    ensures
        r < n,
{
    rand::random_range(0..n)
}

/// Relies on `rand::seq::SliceRandom::shuffle` for slices: it only swaps
/// elements, so the result is a permutation of the input.
#[verifier::external_body]
pub(crate) fn shuffle_players(players: &mut Vec<PlayerDetails>)
    ensures
        final(players)@.to_multiset() == old(players)@.to_multiset(),
{
    let mut rng = rand::rng();
    players.shuffle(&mut rng);
}

} // verus!
