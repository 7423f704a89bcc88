//! Merkle inclusion-proof verifier.
//!
//! A leaf value, an ordered proof path and a trusted root — sourced from
//! a counterparty chain's light-client state — are supplied by the
//! caller; the verifier recomputes the root from the leaf upward and
//! compares. Proof failure is an expected, routine outcome: a malformed
//! or forged path simply fails verification, it never raises a fault.

use vstd::prelude::*;
use crate::hashing::{combine_hash, hash_borsh, hash_of};

verus! {

/// A 32-byte content identifier, as raw bytes.
pub type MerkleHash = Vec<u8>;

/// Which side of the accumulator the sibling hash stands on.
#[derive(Clone, Copy, Debug, PartialEq, Eq, Structural)]
pub enum Direction {
    Left,
    Right,
}

/// One step of a merkle path: a sibling hash and its side.
#[derive(Clone, Debug)]
pub struct MerklePathItem {
    pub direction: Direction,
    pub hash: MerkleHash,
}

/// Ordered sibling steps from leaf to root.
pub type MerklePath = Vec<MerklePathItem>;

/// A path is well formed when every sibling hash is 32 bytes, as a
/// fixed-size digest demands.
pub open spec fn path_wf(path: Seq<MerklePathItem>) -> bool {
    forall|i: int| 0 <= i < path.len() ==> (#[trigger] path[i]).hash@.len() == 32
}

/// One fold step: a left-tagged sibling precedes the accumulator, a
/// right-tagged sibling follows it.
pub open spec fn spec_step(item: MerklePathItem, acc: Seq<u8>) -> Seq<u8> {
    match item.direction {
        Direction::Left => hash_of(item.hash@ + acc),
        Direction::Right => hash_of(acc + item.hash@),
    }
}

/// The candidate root: the leaf hash folded upward through the path in
/// order.
pub open spec fn spec_root_from_path(path: Seq<MerklePathItem>, acc: Seq<u8>) -> Seq<u8>
    decreases path.len(),
{
    if path.len() == 0 {
        acc
    } else {
        spec_root_from_path(path.drop_first(), spec_step(path[0], acc))
    }
}

/// An inclusion proof is valid exactly when the recomputed root equals
/// the claimed one.
pub open spec fn spec_verify_hash(
    root: Seq<u8>,
    path: Seq<MerklePathItem>,
    item_hash: Seq<u8>,
) -> bool {
    spec_root_from_path(path, item_hash) == root
}

/// Byte-for-byte hash comparison.
fn hash_eq(a: &MerkleHash, b: &MerkleHash) -> (r: bool)
    ensures
        r == (a@ == b@),
{
    if a.len() != b.len() {
        return false;
    }
    let n = a.len();
    let mut i: usize = 0;
    while i < n
        invariant
            n == a@.len(),
            a@.len() == b@.len(),
            0 <= i <= n,
            forall|j: int| 0 <= j < i ==> a@[j] == b@[j],
        decreases n - i,
    {
        if a[i] != b[i] {
            return false;
        }
        i += 1;
    }
    proof {
        assert(a@ =~= b@);
    }
    true
}

/// Copy of a hash with the same bytes.
fn clone_hash(v: &MerkleHash) -> (r: MerkleHash)
    ensures
        r@ == v@,
{
    let r = v.clone();
    proof {
        assert forall|j: int| 0 <= j < r@.len() implies r@[j] == v@[j] by {}
        assert(r@ =~= v@);
    }
    r
}

/// Folds `item_hash` upward through `path` in order: a left-tagged step
/// combines the sibling before the accumulator, a right-tagged step
/// combines it after; the final accumulator is the candidate root.
pub fn compute_root_from_path(path: &MerklePath, item_hash: &MerkleHash) -> (r: MerkleHash)
    requires
        path_wf(path@),
        item_hash@.len() == 32,
    ensures
        r@ == spec_root_from_path(path@, item_hash@),
        r@.len() == 32,
{
    let mut res = clone_hash(item_hash);
    let n = path.len();
    let mut i: usize = 0;
    proof {
        assert(path@.skip(0) =~= path@);
    }
    while i < n
        invariant
            n == path@.len(),
            0 <= i <= n,
            path_wf(path@),
            res@.len() == 32,
            spec_root_from_path(path@, item_hash@) == spec_root_from_path(
                path@.skip(i as int),
                res@,
            ),
        decreases n - i,
    {
        let next = match path[i].direction {
            Direction::Left => combine_hash(&path[i].hash, &res),
            Direction::Right => combine_hash(&res, &path[i].hash),
        };
        proof {
            assert(path@.skip(i as int).drop_first() =~= path@.skip(i + 1));
            assert(path@.skip(i as int)[0] == path@[i as int]);
            assert(next@ == spec_step(path@[i as int], res@));
        }
        res = next;
        i += 1;
    }
    proof {
        assert(path@.skip(n as int) =~= Seq::<MerklePathItem>::empty());
    }
    res
}

/// Equality of the recomputed root against the claimed one.
pub fn verify_hash(root: &MerkleHash, path: &MerklePath, item_hash: &MerkleHash) -> (r: bool)
    requires
        path_wf(path@),
        item_hash@.len() == 32,
    ensures
        r == spec_verify_hash(root@, path@, item_hash@),
{
    let computed = compute_root_from_path(path, item_hash);
    hash_eq(&computed, root)
}

/// Verifies the merkle path for a leaf value, supplied as its canonical
/// (Borsh) serialization: the leaf bytes are hashed, then the path is
/// checked against the trusted root.
pub fn verify_path(root: &MerkleHash, path: &MerklePath, item: &Vec<u8>) -> (r: bool)
    requires
        path_wf(path@),
    ensures
        r == spec_verify_hash(root@, path@, hash_of(item@)),
{
    let item_hash = hash_borsh(item);
    verify_hash(root, path, &item_hash)
}

/// Proof round-trip: the root recomputed from a path and a leaf hash
/// verifies against that same path and leaf hash.
pub proof fn lemma_verify_roundtrip(path: Seq<MerklePathItem>, leaf_hash: Seq<u8>)
    ensures
        spec_verify_hash(spec_root_from_path(path, leaf_hash), path, leaf_hash),
{
}

} // verus!
