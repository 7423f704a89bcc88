//! The persisted state of the consistency-tracking core.
//!
//! A [`Store`] is the explicit transaction/session value that every
//! operation takes by reference: it models the three tables of the logical
//! schema (indexer status, block status, block fix). The external driver
//! owns atomicity: it applies a sequence of operations to one `Store`
//! value as one atomic unit of work.

use vstd::prelude::*;
use crate::{BlockHeight, IndexerId, MAX_HEIGHT};

verus! {

/// Last confirmed processed height of one indexer; last-write-wins.
#[derive(Clone, Copy, Debug, PartialEq, Eq, Structural)]
pub struct IndexerStatusRecord {
    pub indexer_id: IndexerId,
    pub height: BlockHeight,
    pub timestamp: i64,
}

/// The indexer's current belief about one height's content.
#[derive(Clone, Debug)]
pub struct BlockStatusRecord {
    pub indexer_id: IndexerId,
    pub height: BlockHeight,
    pub hash: Vec<u8>,
    pub timestamp: i64,
}

/// A pending reconciliation range, suspected inconsistent.
/// Several registrations may coexist, even with equal start heights;
/// reads coalesce them by taking the widest end at the smallest start.
#[derive(Clone, Copy, Debug, PartialEq, Eq, Structural)]
pub struct BlockFixRecord {
    pub indexer_id: IndexerId,
    pub start_height: BlockHeight,
    pub end_height: BlockHeight,
}

/// The three tables of the logical schema.
pub struct Store {
    pub indexer_status: Vec<IndexerStatusRecord>,
    pub block_status: Vec<BlockStatusRecord>,
    pub block_fix: Vec<BlockFixRecord>,
}

/// Index `i` holds the status row of indexer `id`.
pub open spec fn is_status_at(s: Seq<IndexerStatusRecord>, i: int, id: IndexerId) -> bool {
    0 <= i < s.len() && s[i].indexer_id == id
}

/// Index `i` holds the block-status row of indexer `id` at height `h`.
pub open spec fn is_block_at(s: Seq<BlockStatusRecord>, i: int, id: IndexerId, h: BlockHeight) -> bool {
    0 <= i < s.len() && s[i].indexer_id == id && s[i].height == h
}

/// The unique index of indexer `id`'s status row, when one exists.
pub open spec fn status_idx(s: Seq<IndexerStatusRecord>, id: IndexerId) -> int {
    choose|i: int| is_status_at(s, i, id)
}

/// The unique index of the block-status row `(id, h)`, when one exists.
pub open spec fn block_idx(s: Seq<BlockStatusRecord>, id: IndexerId, h: BlockHeight) -> int {
    choose|i: int| is_block_at(s, i, id, h)
}

impl Store {
    /// Key uniqueness: at most one status row per indexer, at most one
    /// block-status row per indexer and height.
    pub open spec fn keys_unique(self) -> bool {
        &&& forall|i: int, j: int|
            0 <= i < j < self.indexer_status@.len() ==> (#[trigger] self.indexer_status@[i].indexer_id)
                != (#[trigger] self.indexer_status@[j].indexer_id)
        &&& forall|i: int, j: int|
            0 <= i < j < self.block_status@.len() ==> !((#[trigger] self.block_status@[i]).indexer_id
                == (#[trigger] self.block_status@[j]).indexer_id && self.block_status@[i].height
                == self.block_status@[j].height)
    }

    /// Every persisted height fits the storage schema's signed 64-bit
    /// height columns, and every fix range is well formed.
    pub open spec fn heights_bounded(self) -> bool {
        &&& forall|i: int|
            0 <= i < self.indexer_status@.len() ==> (#[trigger] self.indexer_status@[i]).height
                <= MAX_HEIGHT
        &&& forall|i: int|
            0 <= i < self.block_status@.len() ==> (#[trigger] self.block_status@[i]).height
                <= MAX_HEIGHT
        &&& forall|i: int|
            0 <= i < self.block_fix@.len() ==> (#[trigger] self.block_fix@[i]).start_height
                <= self.block_fix@[i].end_height && self.block_fix@[i].end_height <= MAX_HEIGHT
    }

    /// Well-formedness: established by [`Store::new`] and preserved by
    /// every operation of the library.
    pub open spec fn wf(self) -> bool {
        self.keys_unique() && self.heights_bounded()
    }

    /// Abstract view of the indexer-status table: indexer id to
    /// `(height, timestamp)`.
    pub open spec fn height_map(self) -> Map<IndexerId, (BlockHeight, i64)> {
        Map::new(
            |id: IndexerId| exists|i: int| is_status_at(self.indexer_status@, i, id),
            |id: IndexerId|
                (
                    self.indexer_status@[status_idx(self.indexer_status@, id)].height,
                    self.indexer_status@[status_idx(self.indexer_status@, id)].timestamp,
                ),
        )
    }

    /// Abstract view of the block-status table: `(indexer id, height)` to
    /// `(hash, timestamp)`.
    pub open spec fn status_map(self) -> Map<(IndexerId, BlockHeight), (Seq<u8>, i64)> {
        Map::new(
            |k: (IndexerId, BlockHeight)|
                exists|i: int| is_block_at(self.block_status@, i, k.0, k.1),
            |k: (IndexerId, BlockHeight)|
                (
                    self.block_status@[block_idx(self.block_status@, k.0, k.1)].hash@,
                    self.block_status@[block_idx(self.block_status@, k.0, k.1)].timestamp,
                ),
        )
    }

    /// Abstract view of the block-fix table: the registered entries, in
    /// registration order.
    pub open spec fn fix_entries(self) -> Seq<BlockFixRecord> {
        self.block_fix@
    }

    /// An empty store: no indexer ever ran, no height recorded, nothing
    /// pending reconciliation.
    pub fn new() -> (s: Store)
        ensures
            s.wf(),
            s.height_map() == Map::<IndexerId, (BlockHeight, i64)>::empty(),
            s.status_map() == Map::<(IndexerId, BlockHeight), (Seq<u8>, i64)>::empty(),
            s.fix_entries() == Seq::<BlockFixRecord>::empty(),
    {
        let s = Store { indexer_status: Vec::new(), block_status: Vec::new(), block_fix: Vec::new() };
        proof {
            assert(s.height_map() =~= Map::<IndexerId, (BlockHeight, i64)>::empty());
            assert(s.status_map() =~= Map::<(IndexerId, BlockHeight), (Seq<u8>, i64)>::empty());
            assert(s.fix_entries() =~= Seq::<BlockFixRecord>::empty());
        }
        s
    }
}

/// Linear scan for the status row of indexer `id`.
pub(crate) fn find_status_idx(v: &Vec<IndexerStatusRecord>, id: IndexerId) -> (r: Option<usize>)
    ensures
        match r {
            Some(i) => is_status_at(v@, i as int, id),
            None => forall|j: int| 0 <= j < v@.len() ==> (#[trigger] v@[j]).indexer_id != id,
        },
{
    let n = v.len();
    let mut i: usize = 0;
    while i < n
        invariant
            n == v@.len(),
            0 <= i <= n,
            forall|j: int| 0 <= j < i ==> (#[trigger] v@[j]).indexer_id != id,
        decreases n - i,
    {
        if v[i].indexer_id == id {
            return Some(i);
        }
        i += 1;
    }
    None
}

/// Linear scan for the block-status row with key `(id, h)`.
pub(crate) fn find_block_idx(v: &Vec<BlockStatusRecord>, id: IndexerId, h: BlockHeight) -> (r:
    Option<usize>)
    ensures
        match r {
            Some(i) => is_block_at(v@, i as int, id, h),
            None => forall|j: int|
                0 <= j < v@.len() ==> !((#[trigger] v@[j]).indexer_id == id && v@[j].height == h),
        },
{
    let n = v.len();
    let mut i: usize = 0;
    while i < n
        invariant
            n == v@.len(),
            0 <= i <= n,
            forall|j: int|
                0 <= j < i ==> !((#[trigger] v@[j]).indexer_id == id && v@[j].height == h),
        decreases n - i,
    {
        if v[i].indexer_id == id && v[i].height == h {
            return Some(i);
        }
        i += 1;
    }
    None
}

/// In a table with unique indexer ids, any row of indexer `id` stands at
/// `status_idx(s, id)`.
pub proof fn lemma_status_idx_is(s: Seq<IndexerStatusRecord>, id: IndexerId, i: int)
    requires
        forall|p: int, q: int|
            0 <= p < q < s.len() ==> (#[trigger] s[p].indexer_id) != (#[trigger] s[q].indexer_id),
        is_status_at(s, i, id),
    ensures
        status_idx(s, id) == i,
{
    let j = status_idx(s, id);
    assert(is_status_at(s, j, id));
    if i < j {
        assert(s[i].indexer_id != s[j].indexer_id);
    } else if j < i {
        assert(s[j].indexer_id != s[i].indexer_id);
    }
}

/// In a table with unique `(indexer id, height)` keys, any row with key
/// `(id, h)` stands at `block_idx(s, id, h)`.
pub proof fn lemma_block_idx_is(s: Seq<BlockStatusRecord>, id: IndexerId, h: BlockHeight, i: int)
    requires
        forall|p: int, q: int|
            0 <= p < q < s.len() ==> !((#[trigger] s[p]).indexer_id == (#[trigger] s[q]).indexer_id
                && s[p].height == s[q].height),
        is_block_at(s, i, id, h),
    ensures
        block_idx(s, id, h) == i,
{
    let j = block_idx(s, id, h);
    assert(is_block_at(s, j, id, h));
    if i < j {
        assert(!(s[i].indexer_id == s[j].indexer_id && s[i].height == s[j].height));
    } else if j < i {
        assert(!(s[j].indexer_id == s[i].indexer_id && s[j].height == s[i].height));
    }
}

/// Bridges a row of the block-status table to its map view: the row's
/// key is in the view, mapped to the row's hash and timestamp.
pub proof fn lemma_status_map_at(s: Store, id: IndexerId, h: BlockHeight, i: int)
    requires
        s.keys_unique(),
        is_block_at(s.block_status@, i, id, h),
    ensures
        s.status_map().contains_key((id, h)),
        s.status_map().index((id, h)) == (s.block_status@[i].hash@, s.block_status@[i].timestamp),
{
    let k = (id, h);
    assert(is_block_at(s.block_status@, i, k.0, k.1));
    assert(exists|j: int| is_block_at(s.block_status@, j, k.0, k.1));
    lemma_block_idx_is(s.block_status@, id, h, i);
    assert(s.status_map().contains_key(k));
    assert(s.status_map().index(k) == (s.block_status@[i].hash@, s.block_status@[i].timestamp));
}

/// A key absent from the block-status table is absent from its map view.
pub proof fn lemma_status_map_absent(s: Store, id: IndexerId, h: BlockHeight)
    requires
        forall|j: int|
            0 <= j < s.block_status@.len() ==> !((#[trigger] s.block_status@[j]).indexer_id == id
                && s.block_status@[j].height == h),
    ensures
        !s.status_map().contains_key((id, h)),
{
    let k = (id, h);
    if s.status_map().contains_key(k) {
        let j = choose|j: int| is_block_at(s.block_status@, j, k.0, k.1);
        assert(is_block_at(s.block_status@, j, k.0, k.1));
    }
}

/// A key present in the block-status map view has a row in the table.
pub proof fn lemma_status_map_witness(s: Store, id: IndexerId, h: BlockHeight) -> (i: int)
    requires
        s.status_map().contains_key((id, h)),
    ensures
        is_block_at(s.block_status@, i, id, h),
{
    let k = (id, h);
    assert(s.status_map().contains_key(k));
    let j = choose|j: int| is_block_at(s.block_status@, j, k.0, k.1);
    assert(is_block_at(s.block_status@, j, k.0, k.1));
    j
}

} // verus!
