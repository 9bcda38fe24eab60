//! Validator identities: key material, derived addresses, and the two
//! peer directories.

use vstd::prelude::*;
use crate::address::AccountAddress;
use crate::bytes_util::copy_bytes;
use crate::crypto;
use crate::entropy;
use crate::errors::ConfigError;
use crate::keys::KeyPair;

verus! {

/// The private key material of one validator: its consensus signing pair and
/// its network signing pair.
pub struct ValidatorKeys {
    pub consensus_keypair: KeyPair,
    pub network_keypair: KeyPair,
}

impl ValidatorKeys {
    pub open spec fn wf(self) -> bool {
        &&& self.consensus_keypair.wf()
        &&& self.network_keypair.wf()
    }
}

/// A directory mapping each validator's address to its consensus public key.
pub struct ConsensusPeersConfig {
    pub peers: Vec<(AccountAddress, Vec<u8>)>,
}

/// A directory mapping each validator's address to its network public key.
pub struct NetworkPeersConfig {
    pub peers: Vec<(AccountAddress, Vec<u8>)>,
}

/// Every entry of a peer directory has a well-formed address and a 32-byte
/// public key.
pub open spec fn peers_wf(s: Seq<(AccountAddress, Vec<u8>)>) -> bool {
    forall|i: int|
        0 <= i < s.len() ==> (#[trigger] s[i]).0.wf() && s[i].1@.len() == 32
}

/// No two entries of a peer directory share an address.
pub open spec fn peer_addresses_distinct(s: Seq<(AccountAddress, Vec<u8>)>) -> bool {
    forall|i: int, j: int|
        0 <= i < j < s.len() ==> (#[trigger] s[i]).0.bytes@ != (#[trigger] s[j]).0.bytes@
}

/// The two peer directories list the same addresses in the same positions.
pub open spec fn peers_aligned(
    c: Seq<(AccountAddress, Vec<u8>)>,
    n: Seq<(AccountAddress, Vec<u8>)>,
) -> bool {
    &&& c.len() == n.len()
    &&& forall|i: int| 0 <= i < c.len() ==> (#[trigger] c[i]).0.bytes@ == (#[trigger] n[i]).0.bytes@
}

/// Whether some entry of the validator-key mapping already carries `addr`.
fn contains_address(keys: &Vec<(AccountAddress, ValidatorKeys)>, addr: &AccountAddress) -> (r:
    bool)
    ensures
        r == exists|j: int| 0 <= j < keys@.len() && (#[trigger] keys@[j]).0.bytes@ == addr.bytes@,
{
    let n = keys.len();
    let mut j: usize = 0;
    while j < n
        invariant
            j <= n,
            n == keys@.len(),
            forall|k: int| 0 <= k < j ==> (#[trigger] keys@[k]).0.bytes@ != addr.bytes@,
        decreases n - j,
    {
        if keys[j].0.equals(addr) {
            return true;
        }
        j = j + 1;
    }
    false
}

/// Builds `count` validator identities, every one through the identical code
/// path, and their two peer directories.
///
/// Each identity draws a 32-byte seed (from the caller when explicit seeds
/// are given, otherwise fresh from the operating system), expands it into the
/// consensus pair, chains the network pair from the consensus private key,
/// and is keyed by the address derived from its consensus public key. A
/// request for zero validators is rejected; an entropy failure, or a derived
/// address that collides with one already generated, aborts the build with an
/// environment error.
pub fn gen_validator_nodes(count: usize, seeds: Option<&Vec<Vec<u8>>>) -> (r: Result<
    (Vec<(AccountAddress, ValidatorKeys)>, ConsensusPeersConfig, NetworkPeersConfig),
    ConfigError,
>)
    requires
        seeds matches Some(s) ==> s@.len() == count && (forall|i: int|
            0 <= i < count ==> (#[trigger] s@[i])@.len() == 32),
    ensures
        count == 0 ==> (r matches Err(e) && e == ConfigError::InvalidValidatorCount),
        count >= 1 ==> (r matches Err(e) ==> e == ConfigError::Environment),
        r matches Ok(t) ==> ({
            &&& t.0@.len() == count
            &&& t.1.peers@.len() == count
            &&& t.2.peers@.len() == count
            &&& forall|i: int|
                0 <= i < count ==> (#[trigger] t.0@[i]).0.wf() && t.0@[i].1.wf()
            &&& forall|i: int|
                0 <= i < count ==> (#[trigger] t.0@[i]).0.bytes@ == crypto::sha3_256_of(
                    t.0@[i].1.consensus_keypair.public_key@,
                )
            &&& forall|i: int|
                0 <= i < count ==> (#[trigger] t.0@[i]).1.network_keypair.private_key@
                    == entropy::std_rng_output_of(t.0@[i].1.consensus_keypair.private_key@)
            &&& forall|i: int, j: int|
                0 <= i < j < count ==> (#[trigger] t.0@[i]).0.bytes@ != (#[trigger] t.0@[j]).0.bytes@
            &&& forall|i: int|
                0 <= i < count ==> (#[trigger] t.1.peers@[i]).0.bytes@ == t.0@[i].0.bytes@
                    && t.1.peers@[i].1@ == t.0@[i].1.consensus_keypair.public_key@
            &&& forall|i: int|
                0 <= i < count ==> (#[trigger] t.2.peers@[i]).0.bytes@ == t.0@[i].0.bytes@
                    && t.2.peers@[i].1@ == t.0@[i].1.network_keypair.public_key@
            &&& peers_wf(t.1.peers@)
            &&& peers_wf(t.2.peers@)
            &&& peers_aligned(t.1.peers@, t.2.peers@)
            &&& peer_addresses_distinct(t.1.peers@)
            &&& (seeds matches Some(s) ==> forall|i: int|
                0 <= i < count ==> (#[trigger] t.0@[i]).1.consensus_keypair.private_key@
                    == entropy::std_rng_output_of(s@[i]@))
        }),
{
    if count == 0 {
        return Err(ConfigError::InvalidValidatorCount);
    }
    let mut keys: Vec<(AccountAddress, ValidatorKeys)> = Vec::new();
    let mut cpeers: Vec<(AccountAddress, Vec<u8>)> = Vec::new();
    let mut npeers: Vec<(AccountAddress, Vec<u8>)> = Vec::new();
    let mut i: usize = 0;
    while i < count
        invariant
            i <= count,
            keys@.len() == i,
            cpeers@.len() == i,
            npeers@.len() == i,
            seeds matches Some(s) ==> s@.len() == count && (forall|k: int|
                0 <= k < count ==> (#[trigger] s@[k])@.len() == 32),
            forall|k: int| 0 <= k < i ==> (#[trigger] keys@[k]).0.wf() && keys@[k].1.wf(),
            forall|k: int|
                0 <= k < i ==> (#[trigger] keys@[k]).0.bytes@ == crypto::sha3_256_of(
                    keys@[k].1.consensus_keypair.public_key@,
                ),
            forall|k: int|
                0 <= k < i ==> (#[trigger] keys@[k]).1.network_keypair.private_key@
                    == entropy::std_rng_output_of(keys@[k].1.consensus_keypair.private_key@),
            forall|k1: int, k2: int|
                0 <= k1 < k2 < i ==> (#[trigger] keys@[k1]).0.bytes@ != (#[trigger] keys@[k2]).0.bytes@,
            forall|k: int|
                0 <= k < i ==> (#[trigger] cpeers@[k]).0.bytes@ == keys@[k].0.bytes@
                    && cpeers@[k].1@ == keys@[k].1.consensus_keypair.public_key@,
            forall|k: int|
                0 <= k < i ==> (#[trigger] npeers@[k]).0.bytes@ == keys@[k].0.bytes@
                    && npeers@[k].1@ == keys@[k].1.network_keypair.public_key@,
            seeds matches Some(s) ==> forall|k: int|
                0 <= k < i ==> (#[trigger] keys@[k]).1.consensus_keypair.private_key@
                    == entropy::std_rng_output_of(s@[k]@),
        decreases count - i,
    {
        let seed: Vec<u8> = match seeds {
            Some(s) => copy_bytes(&s[i]),
            None => match entropy::os_entropy_32() {
                Ok(b) => b,
                Err(_) => {
                    return Err(ConfigError::Environment);
                },
            },
        };
        let consensus = KeyPair::from_seed(&seed);
        let network = KeyPair::from_seed(&consensus.private_key);
        let addr = AccountAddress::from_public_key(&consensus.public_key);
        if contains_address(&keys, &addr) {
            return Err(ConfigError::Environment);
        }
        let cpk = copy_bytes(&consensus.public_key);
        let npk = copy_bytes(&network.public_key);
        let addr_c = AccountAddress { bytes: copy_bytes(&addr.bytes) };
        let addr_n = AccountAddress { bytes: copy_bytes(&addr.bytes) };
        cpeers.push((addr_c, cpk));
        npeers.push((addr_n, npk));
        keys.push((addr, ValidatorKeys { consensus_keypair: consensus, network_keypair: network }));
        i = i + 1;
    }
    Ok((keys, ConsensusPeersConfig { peers: cpeers }, NetworkPeersConfig { peers: npeers }))
}

} // verus!
