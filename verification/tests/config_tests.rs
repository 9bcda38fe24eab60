use config_builder::config::NodeConfig;
use config_builder::config::get_test_config;
use config_builder::config::get_test_config_with_validators;
use config_builder::genesis::decode_genesis_transaction;

#[test]
fn test_node_config_names_genesis_file() {
    let config = NodeConfig::get_single_node_test_config();
    assert_eq!(config.get_genesis_transaction_file(), "genesis.blob");
}

#[test]
fn test_single_validator_network() {
    let a = get_test_config_with_validators().unwrap();
    assert_eq!(a.validator_keys.len(), 1);
    assert_eq!(a.consensus_peers.peers.len(), 1);
    assert_eq!(a.network_peers.peers.len(), 1);
    assert_eq!(a.node_config.get_genesis_transaction_file(), "genesis.blob");
    assert!(!a.genesis_bytes.is_empty());

    // The root keypair signs the genesis transaction but is not a validator.
    assert_ne!(
        a.root_keypair.public_key,
        a.validator_keys[0].1.consensus_keypair.public_key
    );
    assert_ne!(
        a.root_keypair.private_key,
        a.validator_keys[0].1.consensus_keypair.private_key
    );

    let t = decode_genesis_transaction(&a.genesis_bytes).unwrap();
    assert!(t.check_signature());
    assert_eq!(t.public_key, a.root_keypair.public_key);
    assert_eq!(t.payload.len(), 4 + 96);
}

#[test]
fn test_get_test_config_returns_decodable_genesis() {
    let (config, root, bytes) = get_test_config().unwrap();
    assert_eq!(config.get_genesis_transaction_file(), "genesis.blob");
    assert!(!bytes.is_empty());
    let t = decode_genesis_transaction(&bytes).unwrap();
    assert!(t.check_signature());
    assert_eq!(t.public_key, root.public_key);
}

#[test]
fn test_independent_assemblies_differ() {
    // Fresh key material every call: two assemblies never share keys.
    let a1 = get_test_config_with_validators().unwrap();
    let a2 = get_test_config_with_validators().unwrap();
    assert_ne!(a1.root_keypair.private_key, a2.root_keypair.private_key);
    assert_ne!(a1.genesis_bytes, a2.genesis_bytes);
}
