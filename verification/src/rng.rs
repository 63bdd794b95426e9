use vstd::prelude::*;

verus! {

/// Declares rand's `StdRng` so the field can own its random source; the
/// generator is opaque here, nothing is assumed about the values it yields
/// beyond what each sampling wrapper states.
#[verifier::external_type_specification]
#[verifier::external_body]
pub struct ExStdRng(rand::rngs::StdRng);

/// Relies on rand's `SeedableRng::seed_from_u64`: builds a generator from an
/// explicit seed, so tests can fix the whole draw sequence.
#[verifier::external_body]
pub(crate) fn rng_from_seed(seed: u64) -> (r: rand::rngs::StdRng) {
    <rand::rngs::StdRng as rand::SeedableRng>::seed_from_u64(seed)
}

/// Relies on rand's `SeedableRng::from_entropy`: builds a generator seeded
/// from the operating system.
#[verifier::external_body]
pub(crate) fn rng_from_entropy() -> (r: rand::rngs::StdRng) {
    <rand::rngs::StdRng as rand::SeedableRng>::from_entropy()
}

/// Relies on rand's `Rng::gen_range`: a value drawn from a non-empty integer
/// range lies inside that range, here uniform below six.
#[verifier::external_body]
pub(crate) fn sample_below_six(rng: &mut rand::rngs::StdRng) -> (r: u64)
    ensures
        r < 6,
{
    rand::Rng::gen_range(rng, 0..6u64)
}

} // verus!
