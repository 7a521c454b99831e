//! Chance: the seeded generator of a round, and what is drawn from it.

use rand::rngs::StdRng;
use rand::seq::SliceRandom;
use rand::{Rng, SeedableRng};
use vstd::prelude::*;

verus! {

/// The generator of the `rand` crate.
#[verifier::external_type_specification]
#[verifier::external_body]
pub struct ExStdRng(StdRng);

/// The generator that starts from a seed.
pub uninterp spec fn rng_of_seed(seed: u64) -> StdRng;

/// Starts a generator with `SeedableRng::seed_from_u64`. The seed alone decides the
/// generator; what it draws is not described.
#[verifier::external_body]
fn start_rng(seed: u64) -> (r: StdRng)
    ensures
        r == rng_of_seed(seed),
{
    StdRng::seed_from_u64(seed)
}

/// Draws a position with `Rng::gen_range` from a range that starts at zero. The
/// result is in the range. Nothing else is said of it, as the draw of a position
/// depends on how wide the machine's addresses are. The range must not be empty.
#[verifier::external_body]
pub(crate) fn draw_index(rng: &mut StdRng, len: usize) -> (r: usize)
    requires
        len > 0,
    ensures
        r < len,
{
    rng.gen_range(0..len)
}

/// What `SliceRandom::shuffle` makes of a list of a length with a generator: from
/// which position each element comes, and the generator afterwards.
pub uninterp spec fn shuffle_of(rng: StdRng, len: nat) -> (Seq<int>, StdRng);

/// A list whose elements come from other positions of it.
pub open spec fn reordered<T>(s: Seq<T>, from: Seq<int>) -> Seq<T> {
    Seq::new(s.len(), |i: int| s[from[i]])
}

/// A list as a generator shuffles it.
pub open spec fn shuffled<T>(s: Seq<T>, rng: StdRng) -> Seq<T> {
    reordered(s, shuffle_of(rng, s.len()).0)
}

/// A generator after it has shuffled a list of a length.
pub open spec fn after_shuffle(rng: StdRng, len: nat) -> StdRng {
    shuffle_of(rng, len).1
}

/// Reorders a list with `SliceRandom::shuffle`. The generator and the length alone
/// decide the new order and the generator that is left; the list keeps its elements,
/// each as often as before. Which order it is is not described.
#[verifier::external_body]
pub(crate) fn shuffle_list<T>(list: &mut Vec<T>, rng: &mut StdRng)
    ensures
        final(list)@ == reordered(old(list)@, shuffle_of(*old(rng), old(list)@.len()).0),
        final(list)@.to_multiset() == old(list)@.to_multiset(),
        *final(rng) == shuffle_of(*old(rng), old(list)@.len()).1,
{
    list.shuffle(rng)
}

/// The seed of a round: its number, the first round where none is set.
pub open spec fn seed_of_round(cur_round: Option<i32>) -> u64 {
    match cur_round {
        Some(n) => n as u64,
        None => 1,
    }
}

/// Starts the generator of a round, which depends on nothing but the round.
pub fn round_rng(cur_round: Option<i32>) -> (r: StdRng)
    ensures
        r == rng_of_seed(seed_of_round(cur_round)),
{
    let round: i32 = match cur_round {
        Some(n) => n,
        None => 1,
    };
    start_rng(#[verifier::truncate] (round as u64))
}

} // verus!
