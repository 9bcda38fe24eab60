//! Trusted boundary to the entropy source and the seeded generator.

use vstd::prelude::*;
use rand::Rng;
use rand::RngCore;
use rand::SeedableRng;

verus! {

#[verifier::external_type_specification]
#[verifier::external_body]
pub struct ExRandError(rand::Error);

/// The first 32-byte block that `rand`'s standard generator yields when
/// seeded with the given 32 bytes; deterministic for a fixed seed in the
/// pinned version of the crate.
pub uninterp spec fn std_rng_output_of(seed: Seq<u8>) -> Seq<u8>;

/// Relies on `rand::rngs::OsRng::try_fill_bytes`: 32 bytes drawn from the
/// operating system's secure entropy source, or that source's error. Nothing
/// is promised of the bytes themselves.
#[verifier::external_body]
pub(crate) fn os_entropy_32() -> (r: Result<Vec<u8>, rand::Error>)
    ensures
        r matches Ok(b) ==> b@.len() == 32,
{
    let mut buf = [0u8; 32];
    match rand::rngs::OsRng.try_fill_bytes(&mut buf) {
        Ok(()) => Ok(buf.to_vec()),
        Err(e) => Err(e),
    }
}

/// Relies on `rand::rngs::StdRng::from_seed` and `rand::Rng::gen`: expands a
/// 32-byte seed into the seeded generator's first 32-byte block. This pays
/// the cost of seeding a cryptographically strong generator once per call
/// while keeping key derivation a pure function of the seed.
#[verifier::external_body]
pub(crate) fn expand_seed(seed: &Vec<u8>) -> (r: Vec<u8>)
    requires
        seed@.len() == 32,
    ensures
        r@ == std_rng_output_of(seed@),
        r@.len() == 32,
{
    let arr: [u8; 32] = seed.as_slice().try_into().unwrap();
    let mut rng = rand::rngs::StdRng::from_seed(arr);
    let out: [u8; 32] = rng.gen();
    out.to_vec()
}

} // verus!
