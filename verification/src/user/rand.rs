//! Random numbers for programs.

use vstd::prelude::*;
use rand_chacha::ChaCha20Rng;

verus! {

#[verifier::external_type_specification]
#[verifier::external_body]
pub struct ExChaCha20Rng(ChaCha20Rng);

/// `seed_from_u64` of rand_chacha's `ChaCha20Rng`: a generator that is
/// started from `seed`. Nothing is said of the numbers that it gives.
#[verifier::external_body]
pub fn new_rng(seed: u64) -> (rng: ChaCha20Rng) {
    rand_chacha::rand_core::SeedableRng::seed_from_u64(seed)
}

/// `next_u64` of rand_chacha's `ChaCha20Rng`: the next number of the
/// generator. Nothing is said of it.
#[verifier::external_body]
fn next_u64(rng: &mut ChaCha20Rng) -> (raw: u64) {
    rand_chacha::rand_core::RngCore::next_u64(rng)
}

/// The number from `low` up to and without `high` that the raw number
/// `raw` stands for: the rest of `raw` divided by the width of the range,
/// above `low`.
pub fn range_of(raw: u64, low: u64, high: u64) -> (n: u64)
    requires
        low < high,
    ensures
        n == raw % ((high - low) as u64) + low,
        low <= n < high,
{
    let span: u64 = high - low;
    (raw % span) + low
}

/// A random number from `low` up to and without `high`, as
/// [`range_of`] makes it of the next number of `rng`.
pub fn range(rng: &mut ChaCha20Rng, low: u64, high: u64) -> (n: u64)
    requires
        low < high,
    ensures
        low <= n < high,
{
    range_of(next_u64(rng), low, high)
}

} // verus!
