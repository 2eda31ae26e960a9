//! The random generator that the library draws from, and the few operations
//! it asks of it. Nothing here is proved: each contract repeats what the
//! generator's own documentation promises, and no more.

use rand::Rng;
use rand::SeedableRng;
use rand::seq::SliceRandom;
use rand_chacha::ChaCha20Rng;
use vstd::prelude::*;

verus! {

/// The ChaCha generator with twenty rounds. Its state is hidden from proofs,
/// so nothing is ever known of the numbers it will give.
#[verifier::external_type_specification]
#[verifier::external_body]
pub struct ExChaCha20Rng(ChaCha20Rng);

/// `Clone::clone` of the generator. Nothing is claimed of the copy.
pub assume_specification[ <ChaCha20Rng as Clone>::clone ](rng: &ChaCha20Rng) -> (copy: ChaCha20Rng);

/// `ChaCha20Rng::from_seed`: a generator whose whole stream follows from the
/// 32 seed bytes. Nothing is claimed of the stream.
#[verifier::external_body]
pub(crate) fn rng_from_seed(seed: [u8; 32]) -> ChaCha20Rng {
    ChaCha20Rng::from_seed(seed)
}

/// `ChaCha20Rng::seed_from_u64`: a generator seeded from one number.
/// Nothing is claimed of the stream.
#[verifier::external_body]
pub(crate) fn rng_from_u64(seed: u64) -> ChaCha20Rng {
    ChaCha20Rng::seed_from_u64(seed)
}

/// `Rng::fill` on `rand::thread_rng()`: 32 bytes from the thread's own
/// generator, which the operating system seeds. Nothing is claimed of them.
#[verifier::external_body]
pub(crate) fn random_seed() -> [u8; 32] {
    let mut seed = [0u8; 32];
    rand::thread_rng().fill(&mut seed);
    seed
}

/// `Rng::gen_range(0..bound)`: some number below the bound. The call panics
/// on an empty range, which the precondition rules out.
#[verifier::external_body]
pub(crate) fn gen_below(rng: &mut ChaCha20Rng, bound: usize) -> (n: usize)
    requires
        bound > 0,
    ensures
        n < bound,
{
    rng.gen_range(0..bound)
}

/// `SliceRandom::shuffle`: the slice is rearranged by swaps alone, so it
/// holds the same items as before, each as often as before.
#[verifier::external_body]
pub(crate) fn shuffle<T>(items: &mut Vec<T>, rng: &mut ChaCha20Rng)
    ensures
        final(items)@.to_multiset() == old(items)@.to_multiset(),
{
    items.shuffle(rng);
}

/// `SliceRandom::choose_multiple` asked for as many items as the slice has:
/// it picks that many distinct places of the slice, in some order, so what
/// comes back is a rearrangement of the whole slice.
#[verifier::external_body]
pub(crate) fn choose_all<T: Copy>(items: &Vec<T>, rng: &mut ChaCha20Rng) -> (chosen: Vec<T>)
    ensures
        chosen@.to_multiset() == items@.to_multiset(),
{
    items.choose_multiple(rng, items.len()).copied().collect()
}

} // verus!
