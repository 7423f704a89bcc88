use indexer_core::hashing::{combine_hash, hash_borsh};
use indexer_core::merkle::{
    compute_root_from_path, verify_hash, verify_path, Direction, MerklePathItem,
};

// SHA-256 of the empty byte string.
const SHA256_EMPTY: [u8; 32] = [
    0xe3, 0xb0, 0xc4, 0x42, 0x98, 0xfc, 0x1c, 0x14, 0x9a, 0xfb, 0xf4, 0xc8, 0x99, 0x6f, 0xb9,
    0x24, 0x27, 0xae, 0x41, 0xe4, 0x64, 0x9b, 0x93, 0x4c, 0xa4, 0x95, 0x99, 0x1b, 0x78, 0x52,
    0xb8, 0x55,
];

#[test]
fn hash_of_empty_input_is_the_known_sha256_digest() {
    assert_eq!(hash_borsh(&vec![]), SHA256_EMPTY.to_vec());
}

#[test]
fn combine_hashes_the_pair_serialization() {
    let a = vec![0x11u8; 32];
    let b = vec![0x22u8; 32];
    let mut concat = a.clone();
    concat.extend_from_slice(&b);
    assert_eq!(combine_hash(&a, &b), hash_borsh(&concat));
    assert_ne!(combine_hash(&a, &b), combine_hash(&b, &a));
}

#[test]
fn empty_path_verifies_exactly_the_leaf_hash() {
    let leaf = vec![0x33u8; 32];
    let other = vec![0x44u8; 32];
    assert_eq!(compute_root_from_path(&vec![], &leaf), leaf);
    assert!(verify_hash(&leaf, &vec![], &leaf));
    assert!(!verify_hash(&other, &vec![], &leaf));
}

#[test]
fn proof_round_trip_verifies_and_a_flipped_bit_fails() {
    let item = b"leaf value".to_vec();
    let leaf_hash = hash_borsh(&item);
    let path = vec![
        MerklePathItem { direction: Direction::Left, hash: vec![0xaa; 32] },
        MerklePathItem { direction: Direction::Right, hash: vec![0xbb; 32] },
        MerklePathItem { direction: Direction::Left, hash: vec![0xcc; 32] },
    ];
    // The same fold the verifier performs, built step by step from the leaf.
    let step1 = combine_hash(&path[0].hash, &leaf_hash);
    let step2 = combine_hash(&step1, &path[1].hash);
    let root = combine_hash(&path[2].hash, &step2);
    assert_eq!(compute_root_from_path(&path, &leaf_hash), root);
    assert!(verify_path(&root, &path, &item));
    assert!(verify_hash(&root, &path, &leaf_hash));

    for step in 0..path.len() {
        for bit in [0usize, 131, 255] {
            let mut forged = path.clone();
            forged[step].hash[bit / 8] ^= 1 << (bit % 8);
            assert!(!verify_path(&root, &forged, &item));
        }
    }
    assert!(!verify_path(&root, &path, &b"other value".to_vec()));
}

#[test]
fn direction_decides_the_side_of_the_sibling() {
    let leaf = vec![0x55u8; 32];
    let sib = vec![0x66u8; 32];
    let left = vec![MerklePathItem { direction: Direction::Left, hash: sib.clone() }];
    let right = vec![MerklePathItem { direction: Direction::Right, hash: sib.clone() }];
    assert_eq!(compute_root_from_path(&left, &leaf), combine_hash(&sib, &leaf));
    assert_eq!(compute_root_from_path(&right, &leaf), combine_hash(&leaf, &sib));
}
