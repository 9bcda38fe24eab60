use config_builder::errors::ConfigError;
use config_builder::validator::gen_validator_nodes;
use sha3::Digest;
use sha3::Sha3_256;

#[test]
fn test_zero_validators_rejected() {
    let r = gen_validator_nodes(0, None);
    assert_eq!(r.err().unwrap(), ConfigError::InvalidValidatorCount);
}

#[test]
fn test_validator_counts_and_distinct_addresses() {
    // Building a set of size n yields exactly n distinct addresses.
    for n in 1..=4usize {
        let (keys, cpeers, npeers) = gen_validator_nodes(n, None).unwrap();
        assert_eq!(keys.len(), n);
        assert_eq!(cpeers.peers.len(), n);
        assert_eq!(npeers.peers.len(), n);
        for i in 0..n {
            for j in 0..n {
                if i != j {
                    assert_ne!(keys[i].0.bytes, keys[j].0.bytes);
                }
            }
        }
    }
}

#[test]
fn test_peer_directories_match_validator_keys() {
    let (keys, cpeers, npeers) = gen_validator_nodes(3, None).unwrap();
    for i in 0..3 {
        assert_eq!(cpeers.peers[i].0.bytes, keys[i].0.bytes);
        assert_eq!(npeers.peers[i].0.bytes, keys[i].0.bytes);
        assert_eq!(cpeers.peers[i].1, keys[i].1.consensus_keypair.public_key);
        assert_eq!(npeers.peers[i].1, keys[i].1.network_keypair.public_key);
    }
}

#[test]
fn test_explicit_seeds_are_deterministic() {
    let seeds = vec![vec![1u8; 32], vec![2u8; 32]];
    let (keys1, _, _) = gen_validator_nodes(2, Some(&seeds)).unwrap();
    let (keys2, _, _) = gen_validator_nodes(2, Some(&seeds)).unwrap();
    for i in 0..2 {
        assert_eq!(keys1[i].0.bytes, keys2[i].0.bytes);
        assert_eq!(
            keys1[i].1.consensus_keypair.private_key,
            keys2[i].1.consensus_keypair.private_key
        );
        assert_eq!(
            keys1[i].1.network_keypair.public_key,
            keys2[i].1.network_keypair.public_key
        );
    }
}

#[test]
fn test_address_derived_from_consensus_public_key() {
    let seeds = vec![vec![4u8; 32]];
    let (keys, _, _) = gen_validator_nodes(1, Some(&seeds)).unwrap();
    let expected = Sha3_256::digest(&keys[0].1.consensus_keypair.public_key).to_vec();
    assert_eq!(keys[0].0.bytes, expected);
}

#[test]
fn test_consensus_and_network_keys_differ() {
    let seeds = vec![vec![3u8; 32]];
    let (keys, _, _) = gen_validator_nodes(1, Some(&seeds)).unwrap();
    assert_ne!(
        keys[0].1.consensus_keypair.private_key,
        keys[0].1.network_keypair.private_key
    );
    assert_ne!(
        keys[0].1.consensus_keypair.public_key,
        keys[0].1.network_keypair.public_key
    );
}
