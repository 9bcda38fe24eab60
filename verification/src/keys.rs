//! Signing keypairs and their generation from operating-system entropy.

use vstd::prelude::*;
use crate::crypto;
use crate::entropy;
use crate::errors::ConfigError;

verus! {

/// An ed25519 signing pair. The private key is the 32-byte secret seed; the
/// public key is the verifying key derived from it. A pair is exclusively
/// owned by the call that generated it until it is handed to the caller.
pub struct KeyPair {
    pub private_key: Vec<u8>,
    pub public_key: Vec<u8>,
}

impl KeyPair {
    /// Both keys have their fixed widths and the public key is the one
    /// derived from the private key.
    pub open spec fn wf(self) -> bool {
        &&& self.private_key@.len() == 32
        &&& self.public_key@.len() == 32
        &&& self.public_key@ == crypto::public_key_of(self.private_key@)
    }

    /// Derives the pair whose private key is the deterministic expansion of
    /// `seed`.
    pub fn from_seed(seed: &Vec<u8>) -> (r: KeyPair)
        requires
            seed@.len() == 32,
        ensures
            r.wf(),
            r.private_key@ == entropy::std_rng_output_of(seed@),
    {
        let private_key = entropy::expand_seed(seed);
        let public_key = crypto::derive_public_key(&private_key);
        KeyPair { private_key, public_key }
    }

    /// Draws a fresh 32-byte seed from the operating system's entropy source
    /// and derives a pair from it. Fails exactly when the entropy source
    /// does, and that failure is fatal: the environment itself is broken.
    pub fn generate() -> (r: Result<KeyPair, ConfigError>)
        ensures
            r matches Ok(kp) ==> kp.wf(),
            r matches Err(e) ==> e == ConfigError::Environment,
    {
        match entropy::os_entropy_32() {
            Ok(seed) => Ok(KeyPair::from_seed(&seed)),
            Err(_) => Err(ConfigError::Environment),
        }
    }
}

} // verus!
