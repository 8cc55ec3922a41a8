//! The one random generator of a game, and the calls that draw on it.
//!
//! The generator is `rand_chacha`'s ChaCha with 8 rounds. Nothing in this
//! module is proved: each function states what the `rand` crates document of
//! the call it makes, and the rest of the library is verified against that.

use rand::seq::SliceRandom;
use rand::Rng;
use rand::SeedableRng;
use rand_chacha::ChaCha8Rng;
use vstd::prelude::*;

verus! {

/// `rand_chacha::ChaCha8Rng`, carried through the library as an opaque value.
#[verifier::external_type_specification]
#[verifier::external_body]
pub struct ExChaCha8Rng(ChaCha8Rng);

/// `SeedableRng::seed_from_u64`: a generator whose stream is fixed by `seed`.
/// Nothing is claimed of the generator itself.
#[verifier::external_body]
pub(crate) fn seeded_rng(seed: u64) -> ChaCha8Rng {
    ChaCha8Rng::seed_from_u64(seed)
}

/// `SeedableRng::from_entropy`: a generator seeded by the operating system.
/// Nothing is claimed of the generator. The call panics where the operating
/// system cannot supply entropy, which no argument decides.
#[verifier::external_body]
pub(crate) fn entropy_rng() -> ChaCha8Rng {
    ChaCha8Rng::from_entropy()
}

/// `SliceRandom::shuffle` on the whole vector: it only swaps elements, so the
/// vector afterwards holds the same items, each as often as before, in an
/// order that the generator decides.
#[verifier::external_body]
pub(crate) fn shuffle<T>(items: &mut Vec<T>, rng: &mut ChaCha8Rng)
    ensures
        final(items)@.to_multiset() == old(items)@.to_multiset(),
{
    items.shuffle(rng);
}

/// `Rng::gen_range` on `0..len`: some index below `len`. The call panics on
/// an empty range, so `len` must be positive.
#[verifier::external_body]
pub(crate) fn random_index(rng: &mut ChaCha8Rng, len: usize) -> (index: usize)
    requires
        len > 0,
    ensures
        index < len,
{
    rng.gen_range(0..len)
}

/// `SliceRandom::choose`: nothing from an empty vector, else one of its
/// items, picked by the generator.
#[verifier::external_body]
pub(crate) fn pick_one<T: Copy>(items: &Vec<T>, rng: &mut ChaCha8Rng) -> (chosen: Option<T>)
    ensures
        items@.len() == 0 ==> chosen is None,
        items@.len() > 0 ==> chosen is Some && items@.contains(chosen->0),
{
    items.choose(rng).copied()
}

/// `Rng::gen` for `bool`: either value.
#[verifier::external_body]
pub(crate) fn random_bool(rng: &mut ChaCha8Rng) -> bool {
    rng.gen()
}

} // verus!
