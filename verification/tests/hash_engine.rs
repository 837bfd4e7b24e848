use nika_treasury::hash::{
    combine, digest_eq, digest_le, hash_bytes, sorted_pair, HashPrimitive,
};

fn hex(d: &[u8; 32]) -> String {
    let mut s = String::new();
    for b in d.iter() {
        s.push_str(&format!("{:02x}", b));
    }
    s
}

fn filled(byte: u8) -> [u8; 32] {
    [byte; 32]
}

#[test]
fn keccak256_of_abc_is_the_known_digest() {
    let d = hash_bytes(HashPrimitive::Keccak256, b"abc");
    assert_eq!(hex(&d), "4e03657aea45a94fc7d47ba826c8d667c0d1e6e33a64a036ec44f58fa12d6c45");
}

#[test]
fn keccak256_of_nothing_is_the_known_digest() {
    let d = hash_bytes(HashPrimitive::Keccak256, b"");
    assert_eq!(hex(&d), "c5d2460186f7233c927e7db2dcc703c0e500b653ca82273b7bfad8045d85a470");
}

#[test]
fn sha256_of_abc_is_the_known_digest() {
    let d = hash_bytes(HashPrimitive::Sha256, b"abc");
    assert_eq!(hex(&d), "ba7816bf8f01cfea414140de5dae2223b00361a396177a9cb410ff61f20015ad");
}

#[test]
fn sha256_of_nothing_is_the_known_digest() {
    let d = hash_bytes(HashPrimitive::Sha256, b"");
    assert_eq!(hex(&d), "e3b0c44298fc1c149afbf4c8996fb92427ae41e4649b934ca495991b7852b855");
}

#[test]
fn the_two_primitives_disagree() {
    let k = hash_bytes(HashPrimitive::Keccak256, b"alice:100");
    let s = hash_bytes(HashPrimitive::Sha256, b"alice:100");
    assert_ne!(k, s);
}

#[test]
fn hash_bytes_agrees_with_the_outside_functions() {
    let data: Vec<u8> = (0u8..200).collect();
    assert_eq!(
        hash_bytes(HashPrimitive::Keccak256, &data),
        solana_program::keccak::hash(&data).to_bytes()
    );
    assert_eq!(
        hash_bytes(HashPrimitive::Sha256, &data),
        solana_program::hash::hash(&data).to_bytes()
    );
}

#[test]
fn digest_le_orders_by_the_first_differing_byte() {
    let mut a = filled(7);
    let mut b = filled(7);
    assert!(digest_le(&a, &b));
    assert!(digest_le(&b, &a));
    a[0] = 6;
    assert!(digest_le(&a, &b));
    assert!(!digest_le(&b, &a));
    // a later byte does not outweigh an earlier one
    a[31] = 255;
    assert!(digest_le(&a, &b));
    assert!(!digest_le(&b, &a));
    a[0] = 7;
    b[31] = 8;
    assert!(!digest_le(&a, &b));
    assert!(digest_le(&b, &a));
}

#[test]
fn digest_le_compares_bytes_unsigned() {
    let a = filled(0x7f);
    let b = filled(0x80);
    assert!(digest_le(&a, &b));
    assert!(!digest_le(&b, &a));
}

#[test]
fn digest_eq_needs_all_bytes_equal() {
    let a = filled(1);
    let mut b = filled(1);
    assert!(digest_eq(&a, &b));
    b[31] = 2;
    assert!(!digest_eq(&a, &b));
    b[31] = 1;
    b[0] = 0;
    assert!(!digest_eq(&a, &b));
}

#[test]
fn combine_hashes_the_smaller_digest_first() {
    let small = filled(1);
    let large = filled(2);
    let mut pair = Vec::new();
    pair.extend_from_slice(&small);
    pair.extend_from_slice(&large);
    let expected = solana_program::keccak::hash(&pair).to_bytes();
    assert_eq!(combine(HashPrimitive::Keccak256, &small, &large), expected);
    assert_eq!(combine(HashPrimitive::Keccak256, &large, &small), expected);
    let expected_sha = solana_program::hash::hash(&pair).to_bytes();
    assert_eq!(combine(HashPrimitive::Sha256, &small, &large), expected_sha);
    assert_eq!(combine(HashPrimitive::Sha256, &large, &small), expected_sha);
}

#[test]
fn combine_of_two_zero_digests_is_the_known_digest() {
    // Keccak-256 of 64 zero bytes.
    let zero = filled(0);
    let d = combine(HashPrimitive::Keccak256, &zero, &zero);
    assert_eq!(hex(&d), "ad3228b676f7d3cd4284a5443f17f1962b36e491b30a40b2405849e597ba5fb5");
}

#[test]
fn combine_commutes_on_many_pairs() {
    for i in 0u8..20 {
        let a = hash_bytes(HashPrimitive::Keccak256, &[i]);
        let b = hash_bytes(HashPrimitive::Keccak256, &[i, i]);
        assert_eq!(
            combine(HashPrimitive::Keccak256, &a, &b),
            combine(HashPrimitive::Keccak256, &b, &a)
        );
        assert_ne!(combine(HashPrimitive::Keccak256, &a, &b), a);
        assert_ne!(combine(HashPrimitive::Keccak256, &a, &b), b);
    }
}

#[test]
fn sorted_pair_puts_the_smaller_digest_first() {
    let small = filled(1);
    let mut large = filled(1);
    large[31] = 2;
    let mut expected = Vec::new();
    expected.extend_from_slice(&small);
    expected.extend_from_slice(&large);
    assert_eq!(sorted_pair(&small, &large), expected);
    assert_eq!(sorted_pair(&large, &small), expected);
    assert_eq!(sorted_pair(&small, &large).len(), 64);
    let twice = sorted_pair(&small, &small);
    assert_eq!(&twice[..32], &small[..]);
    assert_eq!(&twice[32..], &small[..]);
}

#[test]
fn combine_is_the_hash_of_the_sorted_pair() {
    let a = hash_bytes(HashPrimitive::Sha256, b"left");
    let b = hash_bytes(HashPrimitive::Sha256, b"right");
    let pair = sorted_pair(&a, &b);
    assert_eq!(combine(HashPrimitive::Sha256, &a, &b), hash_bytes(HashPrimitive::Sha256, &pair));
    assert_eq!(
        combine(HashPrimitive::Keccak256, &a, &b),
        hash_bytes(HashPrimitive::Keccak256, &pair)
    );
}
