use config_builder::keys::KeyPair;
use ed25519_dalek::SigningKey;
use rand::Rng;
use rand::SeedableRng;
use rand::rngs::StdRng;

#[test]
fn test_from_seed_lengths() {
    let seed = vec![7u8; 32];
    let kp = KeyPair::from_seed(&seed);
    assert_eq!(kp.private_key.len(), 32);
    assert_eq!(kp.public_key.len(), 32);
}

#[test]
fn test_from_seed_deterministic() {
    let seed = vec![7u8; 32];
    let kp1 = KeyPair::from_seed(&seed);
    let kp2 = KeyPair::from_seed(&seed);
    assert_eq!(kp1.private_key, kp2.private_key);
    assert_eq!(kp1.public_key, kp2.public_key);
}

#[test]
fn test_from_seed_differs_by_seed() {
    let kp1 = KeyPair::from_seed(&vec![7u8; 32]);
    let kp2 = KeyPair::from_seed(&vec![8u8; 32]);
    assert_ne!(kp1.private_key, kp2.private_key);
    assert_ne!(kp1.public_key, kp2.public_key);
}

#[test]
fn test_from_seed_matches_generator_and_curve() {
    // The private key must be the seeded standard generator's first block,
    // and the public key the curve point ed25519 derives from it.
    let seed_bytes = [42u8; 32];
    let kp = KeyPair::from_seed(&seed_bytes.to_vec());

    let mut rng = StdRng::from_seed(seed_bytes);
    let expanded: [u8; 32] = rng.gen();
    assert_eq!(kp.private_key, expanded.to_vec());

    let sk = SigningKey::from_bytes(&expanded);
    let expected_public = sk.verifying_key().to_bytes().to_vec();
    assert_eq!(kp.public_key, expected_public);
}

#[test]
fn test_generate_yields_fresh_key_material() {
    // Two successive generations in one process must yield different keys.
    let kp1 = KeyPair::generate().unwrap();
    let kp2 = KeyPair::generate().unwrap();
    assert_ne!(kp1.private_key, kp2.private_key);
    assert_ne!(kp1.public_key, kp2.public_key);
    assert_eq!(kp1.private_key.len(), 32);
    assert_eq!(kp1.public_key.len(), 32);
}
