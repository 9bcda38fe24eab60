use config_builder::genesis::SignatureCheckedTransaction;
use config_builder::genesis::decode_genesis_transaction;
use config_builder::genesis::gen_genesis_transaction;
use config_builder::genesis::gen_genesis_transaction_bytes;
use config_builder::keys::KeyPair;
use config_builder::validator::ConsensusPeersConfig;
use config_builder::validator::NetworkPeersConfig;
use config_builder::validator::gen_validator_nodes;
use ed25519_dalek::Signature;
use ed25519_dalek::Verifier;
use ed25519_dalek::VerifyingKey;

fn fixed_setup() -> (KeyPair, ConsensusPeersConfig, NetworkPeersConfig) {
    let seeds = vec![vec![11u8; 32], vec![12u8; 32]];
    let (_, cpeers, npeers) = gen_validator_nodes(2, Some(&seeds)).unwrap();
    let root = KeyPair::from_seed(&vec![9u8; 32]);
    (root, cpeers, npeers)
}

#[test]
fn test_signature_verifies_against_embedded_key_and_payload() {
    let (root, cpeers, npeers) = fixed_setup();
    let t = gen_genesis_transaction(&root, &cpeers, &npeers);
    assert!(t.check_signature());
    assert_eq!(t.public_key, root.public_key);
}

#[test]
fn test_tampered_payload_fails_verification() {
    let (root, cpeers, npeers) = fixed_setup();
    let t = gen_genesis_transaction(&root, &cpeers, &npeers);
    let mut tampered_payload = t.payload.clone();
    tampered_payload[5] ^= 1;
    let tampered = SignatureCheckedTransaction {
        payload: tampered_payload,
        signature: t.signature.clone(),
        public_key: t.public_key.clone(),
    };
    assert!(!tampered.check_signature());
}

#[test]
fn test_signature_verifies_under_dalek_directly() {
    let (root, cpeers, npeers) = fixed_setup();
    let t = gen_genesis_transaction(&root, &cpeers, &npeers);
    let vk_bytes: [u8; 32] = t.public_key.as_slice().try_into().unwrap();
    let sig_bytes: [u8; 64] = t.signature.as_slice().try_into().unwrap();
    let vk = VerifyingKey::from_bytes(&vk_bytes).unwrap();
    let sig = Signature::from_bytes(&sig_bytes);
    assert!(vk.verify(t.payload.as_slice(), &sig).is_ok());
}

#[test]
fn test_reencoding_is_deterministic() {
    let (root, cpeers, npeers) = fixed_setup();
    let t1 = gen_genesis_transaction(&root, &cpeers, &npeers);
    let t2 = gen_genesis_transaction(&root, &cpeers, &npeers);
    assert_eq!(t1.payload, t2.payload);
    let b1 = gen_genesis_transaction_bytes(&root, &cpeers, &npeers);
    let b2 = gen_genesis_transaction_bytes(&root, &cpeers, &npeers);
    assert_eq!(b1, b2);
}

#[test]
fn test_payload_independent_of_directory_order() {
    let (root, cpeers, npeers) = fixed_setup();
    let t1 = gen_genesis_transaction(&root, &cpeers, &npeers);
    let mut cp_rev = cpeers.peers;
    let mut np_rev = npeers.peers;
    cp_rev.reverse();
    np_rev.reverse();
    let cpeers_rev = ConsensusPeersConfig { peers: cp_rev };
    let npeers_rev = NetworkPeersConfig { peers: np_rev };
    let t2 = gen_genesis_transaction(&root, &cpeers_rev, &npeers_rev);
    assert_eq!(t1.payload, t2.payload);
    assert_eq!(t1.signature, t2.signature);
}

#[test]
fn test_payload_rows_sorted_by_address() {
    let seeds = vec![vec![21u8; 32], vec![22u8; 32], vec![23u8; 32]];
    let (_, cpeers, npeers) = gen_validator_nodes(3, Some(&seeds)).unwrap();
    let root = KeyPair::from_seed(&vec![9u8; 32]);
    let t = gen_genesis_transaction(&root, &cpeers, &npeers);
    assert_eq!(t.payload.len(), 4 + 3 * 96);
    assert_eq!(&t.payload[0..4], &[3, 0, 0, 0]);
    let row = |i: usize| &t.payload[4 + 96 * i..4 + 96 * i + 32];
    assert!(row(0) < row(1));
    assert!(row(1) < row(2));
}

#[test]
fn test_encode_decode_round_trip() {
    let (root, cpeers, npeers) = fixed_setup();
    let t = gen_genesis_transaction(&root, &cpeers, &npeers);
    let bytes = gen_genesis_transaction_bytes(&root, &cpeers, &npeers);
    assert!(!bytes.is_empty());
    let decoded = decode_genesis_transaction(&bytes).unwrap();
    assert_eq!(decoded.payload, t.payload);
    assert_eq!(decoded.signature, t.signature);
    assert_eq!(decoded.public_key, t.public_key);
    assert!(decoded.check_signature());
}

#[test]
fn test_decode_rejects_malformed_envelopes() {
    let (root, cpeers, npeers) = fixed_setup();
    let bytes = gen_genesis_transaction_bytes(&root, &cpeers, &npeers);
    assert!(decode_genesis_transaction(&vec![]).is_none());
    assert!(decode_genesis_transaction(&vec![1, 2, 3]).is_none());
    let truncated = bytes[..bytes.len() - 1].to_vec();
    assert!(decode_genesis_transaction(&truncated).is_none());
    let mut extended = bytes.clone();
    extended.push(0);
    assert!(decode_genesis_transaction(&extended).is_none());
}

#[test]
fn test_decode_rejects_inconsistent_row_count() {
    // The envelope length is consistent, but the payload announces two rows
    // while holding room for one.
    let mut bytes = vec![100, 0, 0, 0];
    bytes.extend(vec![2, 0, 0, 0]);
    bytes.extend(vec![0u8; 96]);
    bytes.extend(vec![1u8; 96]);
    assert_eq!(bytes.len(), 4 + 100 + 96);
    assert!(decode_genesis_transaction(&bytes).is_none());
}
