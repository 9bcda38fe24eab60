use config_builder::address::AccountAddress;
use sha3::Digest;
use sha3::Sha3_256;

#[test]
fn test_address_is_sha3_256_of_public_key() {
    // Known digest of the empty input.
    let addr = AccountAddress::from_public_key(&vec![]);
    let expected: Vec<u8> = vec![
        167, 255, 198, 248, 191, 30, 215, 102, 81, 193, 71, 86, 160, 97, 214, 98, 245, 128, 255,
        77, 228, 59, 73, 250, 130, 216, 10, 75, 128, 248, 67, 74,
    ];
    assert_eq!(addr.bytes, expected);
}

#[test]
fn test_address_matches_digest_crate() {
    let public_key = vec![5u8; 32];
    let addr = AccountAddress::from_public_key(&public_key);
    let expected = Sha3_256::digest(&public_key).to_vec();
    assert_eq!(addr.bytes, expected);
    assert_eq!(addr.bytes.len(), 32);
    assert_ne!(addr.bytes, public_key);
}

#[test]
fn test_address_equals() {
    let a = AccountAddress { bytes: vec![1, 2, 3] };
    let b = AccountAddress { bytes: vec![1, 2, 3] };
    let c = AccountAddress { bytes: vec![1, 2, 4] };
    assert!(a.equals(&b));
    assert!(!a.equals(&c));
}

#[test]
fn test_address_lexicographic_order() {
    let a = AccountAddress { bytes: vec![1, 2, 3] };
    let b = AccountAddress { bytes: vec![1, 2, 4] };
    let c = AccountAddress { bytes: vec![2, 0, 0] };
    assert!(a.le(&b));
    assert!(!b.le(&a));
    assert!(b.le(&c));
    assert!(a.le(&a));
}
