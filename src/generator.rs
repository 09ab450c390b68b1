//! Seeds and bits drawn from the thread-local generator of `rand`.
use vstd::prelude::*;
use crate::record::Fraction;

verus! {

/// Relies on `rand::random` (rand 0.8), which is `thread_rng().gen()`: a value
/// drawn from the thread-local generator.  Nothing is known of the value.
pub assume_specification<T>[ rand::random::<T> ]() -> (r: T)
    where
        rand::distributions::Standard: rand::distributions::Distribution<T>,
;

/// Draws `num_seeds` seeds from the thread-local generator.
pub fn generate_seeds(num_seeds: usize) -> (r: Vec<u64>)
    ensures
        r@.len() == num_seeds,
{
    let mut seeds: Vec<u64> = Vec::new();
    let mut i: usize = 0;
    while i < num_seeds
        invariant
            i <= num_seeds,
            seeds@.len() == i,
        decreases num_seeds - i,
    {
        let seed: u64 = rand::random::<u64>();
        seeds.push(seed);
        i = i + 1;
    }
    seeds
}

#[verifier::external_type_specification]
#[verifier::external_body]
pub struct ExStdRng(rand::rngs::StdRng);

/// Relies on `rand::SeedableRng::seed_from_u64` (rand_core 0.6) for
/// `StdRng`: a generator whose output is fixed by `seed`.
#[verifier::external_body]
fn seeded_generator(seed: u64) -> (r: rand::rngs::StdRng) {
    <rand::rngs::StdRng as rand::SeedableRng>::seed_from_u64(seed)
}

/// Relies on `rand::RngCore::next_u64` for `StdRng`: the next 64-bit output
/// of the generator, which it advances.  Nothing is known of the value.
#[verifier::external_body]
fn next_seed(rng: &mut rand::rngs::StdRng) -> (r: u64) {
    rand::RngCore::next_u64(rng)
}

/// Draws `num_seeds` seeds from a generator seeded with `seed`, so that a run
/// can be reproduced.
pub fn generate_seeds_from(seed: u64, num_seeds: usize) -> (r: Vec<u64>)
    ensures
        r@.len() == num_seeds,
{
    let mut rng = seeded_generator(seed);
    let mut seeds: Vec<u64> = Vec::new();
    let mut i: usize = 0;
    while i < num_seeds
        invariant
            i <= num_seeds,
            seeds@.len() == i,
        decreases num_seeds - i,
    {
        let value = next_seed(&mut rng);
        seeds.push(value);
        i = i + 1;
    }
    seeds
}

/// Number of random bits that the monobit test draws.
pub const MONOBIT_BITS: u64 = 1_000_000;

/// Monobit test: draws `MONOBIT_BITS` random bits and returns the proportion
/// of set ones, `ones / MONOBIT_BITS`.
pub fn run_monobit_test() -> (r: Fraction)
    ensures
        r.den == MONOBIT_BITS,
        r.num <= r.den,
{
    let mut ones: u64 = 0;
    let mut i: u64 = 0;
    while i < MONOBIT_BITS
        invariant
            i <= MONOBIT_BITS,
            ones <= i,
        decreases MONOBIT_BITS - i,
    {
        let bit: bool = rand::random::<bool>();
        if bit {
            ones = ones + 1;
        }
        i = i + 1;
    }
    Fraction::new(ones as u128, MONOBIT_BITS as u128)
}

} // verus!
