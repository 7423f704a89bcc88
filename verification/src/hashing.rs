//! Trusted digest primitives.
//!
//! The merkle verifier needs a fixed, collision-resistant two-to-one
//! compression over a canonical pair serialization. Both primitives call
//! into the counterparty chain's own hash implementation, so the digest
//! is stable across independent implementations for cross-party
//! verification; their results are named, not restated.

use vstd::prelude::*;

verus! {

/// The SHA-256 digest of a byte sequence, as computed by
/// `near_primitives_core::hash::CryptoHash`. A function of the bytes
/// alone; its definition is the outside implementation's.
pub uninterp spec fn hash_of(bytes: Seq<u8>) -> Seq<u8>;

/// Relies on `near_primitives_core::hash::CryptoHash::hash_bytes`: the
/// SHA-256 digest of the input, always 32 bytes, a function of the input
/// bytes alone. The caller supplies the value's canonical (Borsh)
/// serialization; hashing those bytes equals hashing the value with
/// `CryptoHash::hash_borsh`.
#[verifier::external_body]
pub fn hash_borsh(bytes: &Vec<u8>) -> (r: Vec<u8>)
    ensures
        r@ == hash_of(bytes@),
        r@.len() == 32,
{
    near_primitives_core::hash::CryptoHash::hash_bytes(bytes.as_slice()).0.to_vec()
}

/// Relies on `near_primitives_core::hash::CryptoHash::hash_borsh` applied
/// to a pair of 32-byte hashes, and on Borsh's documented layout of that
/// pair — tuple fields in order, fixed byte arrays as their raw bytes —
/// so the digest of the canonical pair serialization is the digest of
/// the two hashes concatenated.
#[verifier::external_body]
pub fn combine_hash(hash1: &Vec<u8>, hash2: &Vec<u8>) -> (r: Vec<u8>)
    requires
        hash1@.len() == 32,
        hash2@.len() == 32,
    ensures
        r@ == hash_of(hash1@ + hash2@),
        r@.len() == 32,
{
    let a = near_primitives_core::hash::CryptoHash(hash1.as_slice().try_into().unwrap());
    let b = near_primitives_core::hash::CryptoHash(hash2.as_slice().try_into().unwrap());
    near_primitives_core::hash::CryptoHash::hash_borsh((a, b)).0.to_vec()
}

} // verus!
