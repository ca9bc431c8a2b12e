use vstd::prelude::*;

use rand::rngs::StdRng;
use rand::seq::SliceRandom;
use rand::SeedableRng;

use crate::text::{chars_of, string_of};

verus! {

/// Relies on rand's `thread_rng` and `SliceRandom::shuffle`: the shuffle
/// only swaps elements, so the vector keeps its length and its elements,
/// in an order drawn at random.
#[verifier::external_body]
fn shuffle_chars(v: &mut Vec<char>)
    ensures
        final(v)@.len() == old(v)@.len(),
        final(v)@.to_multiset() == old(v)@.to_multiset(),
{
    let mut rng = rand::thread_rng();
    v.shuffle(&mut rng);
}

/// A random rearrangement of the characters of `input`: the same
/// characters, each as often as in `input`, in an order drawn afresh on
/// every call.
pub fn scramble(input: &str) -> (r: String)
    ensures
        r@.len() == input@.len(),
        r@.to_multiset() == input@.to_multiset(),
{
    let mut cs = chars_of(input);
    shuffle_chars(&mut cs);
    string_of(&cs)
}

/// What shuffling a sequence of characters gives with rand's `StdRng`
/// seeded by `seed`: it depends on the characters and the seed alone.
pub uninterp spec fn seeded_shuffle_of(s: Seq<char>, seed: u64) -> Seq<char>;

/// Relies on rand's `StdRng::seed_from_u64` and `SliceRandom::shuffle`:
/// the generator is deterministic, so the order depends on the elements
/// and the seed alone; the shuffle only swaps elements, so the vector
/// keeps its length and its elements.
#[verifier::external_body]
fn shuffle_seeded(v: &mut Vec<char>, seed: u64)
    ensures
        final(v)@ == seeded_shuffle_of(old(v)@, seed),
        final(v)@.len() == old(v)@.len(),
        final(v)@.to_multiset() == old(v)@.to_multiset(),
{
    let mut rng = StdRng::seed_from_u64(seed);
    v.shuffle(&mut rng);
}

/// A rearrangement of the characters of `input` drawn from the random
/// source that `seed` starts: the same input and seed always give the
/// same result.
pub fn scramble_seeded(input: &str, seed: u64) -> (r: String)
    ensures
        r@ == seeded_shuffle_of(input@, seed),
        r@.len() == input@.len(),
        r@.to_multiset() == input@.to_multiset(),
{
    let mut cs = chars_of(input);
    shuffle_seeded(&mut cs, seed);
    string_of(&cs)
}

} // verus!
