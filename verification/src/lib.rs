//! Consistency-tracking core for a blockchain indexing pipeline.
//!
//! For each logical indexer the library records how far processing has
//! progressed, what hash was last observed at each processed height, which
//! spans of heights are suspected inconsistent and must be re-processed, and
//! which already-processed heights are due for a rate-limited finality
//! recheck. A companion module verifies that a leaf value is included under
//! a trusted root via a merkle inclusion proof.

use vstd::prelude::*;

pub mod hashing;
pub mod ledger;
pub mod merkle;
pub mod monitor;
pub mod store;
pub mod tracker;
pub mod worklist;

verus! {

/// Largest height the storage schema can persist: its height columns are
/// signed 64-bit, so a larger height must fail the operation loudly
/// rather than truncate or wrap.
pub const MAX_HEIGHT: u64 = 0x7fff_ffff_ffff_ffff;

/// Structured failure of a store operation.
#[derive(Clone, Copy, Debug, PartialEq, Eq, Structural)]
pub enum StoreError {
    /// A height did not fit the storage schema's signed 64-bit columns.
    HeightOutOfRange,
}

/// Identifier of one logical indexing pipeline.
pub type IndexerId = u64;

/// The chain's monotonic progress counter.
pub type BlockHeight = u64;

/// Opaque content identifier of a block.
pub type BlockHash = Vec<u8>;

/// Half-open interval `[start_inclusive, end_exclusive)` over block heights.
#[derive(Clone, Copy, Debug, PartialEq, Eq, Structural)]
pub struct BlockRange {
    pub start_inclusive: BlockHeight,
    pub end_exclusive: BlockHeight,
}

impl BlockRange {
    /// A range is well formed when its start does not exceed its end;
    /// width zero means empty/consumed.
    pub open spec fn wf(self) -> bool {
        self.start_inclusive <= self.end_exclusive
    }
}

} // verus!
