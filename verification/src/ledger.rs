//! Block status ledger: per-height hash records of each indexer.

use vstd::prelude::*;
use crate::store::{
    find_block_idx, is_block_at, lemma_block_idx_is, lemma_status_map_absent, lemma_status_map_at,
    lemma_status_map_witness, BlockStatusRecord, Store,
};
use crate::{BlockHash, BlockHeight, BlockRange, IndexerId, StoreError, MAX_HEIGHT};

verus! {

/// Abstract effect of [`update_block_status`] on the block-status view:
/// an upsert keyed by `(indexer id, height)`, last-write-wins.
pub open spec fn upsert_status(
    m: Map<(IndexerId, BlockHeight), (Seq<u8>, i64)>,
    id: IndexerId,
    height: BlockHeight,
    hash: Seq<u8>,
    ts: i64,
) -> Map<(IndexerId, BlockHeight), (Seq<u8>, i64)> {
    m.insert((id, height), (hash, ts))
}

/// Abstract effect of [`delete_block_status`] on the block-status view.
pub open spec fn remove_status(
    m: Map<(IndexerId, BlockHeight), (Seq<u8>, i64)>,
    id: IndexerId,
    height: BlockHeight,
) -> Map<(IndexerId, BlockHeight), (Seq<u8>, i64)> {
    m.remove((id, height))
}

/// The hash last recorded for this indexer at this height, if any.
pub fn get_block_status_hash(store: &Store, indexer_id: IndexerId, height: BlockHeight) -> (r:
    Option<BlockHash>)
    requires
        store.wf(),
    ensures
        match r {
            Some(h) => store.status_map().contains_key((indexer_id, height)) && h@
                == store.status_map().index((indexer_id, height)).0,
            None => !store.status_map().contains_key((indexer_id, height)),
        },
{
    match find_block_idx(&store.block_status, indexer_id, height) {
        Some(i) => {
            proof {
                lemma_status_map_at(*store, indexer_id, height, i as int);
            }
            let h = store.block_status[i].hash.clone();
            proof {
                assert forall|j: int| 0 <= j < h@.len() implies h@[j] == store.block_status@[
                    i as int
                ].hash@[j] by {}
                assert(h@ =~= store.block_status@[i as int].hash@);
            }
            Some(h)
        },
        None => {
            proof {
                lemma_status_map_absent(*store, indexer_id, height);
            }
            None
        },
    }
}

/// Upsert of the indexer's belief about one height's content: on conflict
/// the hash and timestamp are overwritten, last-write-wins. Used both for
/// first-time recording and for post-reconciliation correction. A height
/// beyond the storage schema's bound fails the operation and leaves the
/// store unchanged.
pub fn update_block_status(
    store: &mut Store,
    indexer_id: IndexerId,
    height: BlockHeight,
    hash: BlockHash,
    timestamp: i64,
) -> (r: Result<(), StoreError>)
    requires
        old(store).wf(),
    ensures
        final(store).wf(),
        height <= MAX_HEIGHT ==> r == Ok::<(), StoreError>(()) && final(store).status_map()
            == upsert_status(old(store).status_map(), indexer_id, height, hash@, timestamp),
        height > MAX_HEIGHT ==> r == Err::<(), StoreError>(StoreError::HeightOutOfRange)
            && final(store).status_map() == old(store).status_map(),
        final(store).height_map() == old(store).height_map(),
        final(store).fix_entries() == old(store).fix_entries(),
{
    if height > MAX_HEIGHT {
        return Err(StoreError::HeightOutOfRange);
    }
    let ghost hash_view = hash@;
    let rec = BlockStatusRecord { indexer_id, height, hash, timestamp };
    match find_block_idx(&store.block_status, indexer_id, height) {
        Some(i) => {
            store.block_status[i] = rec;
        },
        None => {
            store.block_status.push(rec);
        },
    }
    proof {
        let olds = old(store).block_status@;
        let news = store.block_status@;
        assert forall|p: int| 0 <= p < news.len() && p < olds.len() implies (
        #[trigger] news[p]).indexer_id == olds[p].indexer_id && news[p].height
            == olds[p].height by {}
        assert(store.keys_unique());
        assert(store.heights_bounded());
        let m1 = store.status_map();
        let m2 = upsert_status(old(store).status_map(), indexer_id, height, hash_view, timestamp);
        assert forall|k: (IndexerId, BlockHeight)| m1.contains_key(k) implies m2.contains_key(
            k,
        ) by {
            let j = choose|j: int| is_block_at(news, j, k.0, k.1);
            if k != (indexer_id, height) {
                assert(is_block_at(olds, j, k.0, k.1));
            }
        }
        assert forall|k: (IndexerId, BlockHeight)| m2.contains_key(k) implies m1.contains_key(
            k,
        ) by {
            if k == (indexer_id, height) {
                assert(exists|j: int| is_block_at(news, j, k.0, k.1)) by {
                    if olds.len() == news.len() {
                        let i = choose|i: int| is_block_at(olds, i, indexer_id, height);
                        assert(is_block_at(news, i, k.0, k.1));
                    } else {
                        assert(is_block_at(news, news.len() - 1, k.0, k.1));
                    }
                }
            } else {
                let j = choose|j: int| is_block_at(olds, j, k.0, k.1);
                assert(is_block_at(news, j, k.0, k.1));
            }
        }
        assert forall|k: (IndexerId, BlockHeight)| m1.contains_key(k) implies m1.index(k)
            == m2.index(k) by {
            if k == (indexer_id, height) {
                if olds.len() == news.len() {
                    let i = choose|i: int| is_block_at(olds, i, indexer_id, height);
                    assert(is_block_at(news, i, k.0, k.1));
                    lemma_block_idx_is(news, k.0, k.1, i);
                } else {
                    lemma_block_idx_is(news, k.0, k.1, news.len() - 1);
                }
            } else {
                let j = choose|j: int| is_block_at(news, j, k.0, k.1);
                lemma_block_idx_is(news, k.0, k.1, j);
                assert(is_block_at(olds, j, k.0, k.1));
                lemma_block_idx_is(olds, k.0, k.1, j);
            }
        }
        assert(m1 =~= m2);
        assert(store.height_map() =~= old(store).height_map());
    }
    Ok(())
}

/// Removes the record of this indexer at this height and returns the
/// prior hash, enabling an audit of what changed; deleting a non-existent
/// record is a no-op returning none.
pub fn delete_block_status(store: &mut Store, indexer_id: IndexerId, height: BlockHeight) -> (r:
    Option<BlockHash>)
    requires
        old(store).wf(),
    ensures
        final(store).wf(),
        final(store).status_map() == remove_status(old(store).status_map(), indexer_id, height),
        match r {
            Some(h) => old(store).status_map().contains_key((indexer_id, height)) && h@ == old(
                store,
            ).status_map().index((indexer_id, height)).0,
            None => !old(store).status_map().contains_key((indexer_id, height)),
        },
        final(store).height_map() == old(store).height_map(),
        final(store).fix_entries() == old(store).fix_entries(),
{
    match find_block_idx(&store.block_status, indexer_id, height) {
        Some(i) => {
            proof {
                lemma_block_idx_is(store.block_status@, indexer_id, height, i as int);
            }
            let rec = store.block_status.remove(i);
            proof {
                let olds = old(store).block_status@;
                let news = store.block_status@;
                let iw: int = i as int;
                assert forall|p: int| 0 <= p < news.len() implies (#[trigger] news[p]) == (
                if p < iw {
                    olds[p]
                } else {
                    olds[p + 1]
                }) by {}
                assert(store.keys_unique());
                assert(store.heights_bounded());
                let m1 = store.status_map();
                let m2 = remove_status(old(store).status_map(), indexer_id, height);
                assert forall|k: (IndexerId, BlockHeight)| m1.contains_key(k) implies
                    m2.contains_key(k) by {
                    let j = choose|j: int| is_block_at(news, j, k.0, k.1);
                    let jo: int = if j < iw {
                        j
                    } else {
                        j + 1
                    };
                    assert(is_block_at(olds, jo, k.0, k.1));
                    if k == (indexer_id, height) {
                        lemma_block_idx_is(olds, indexer_id, height, jo);
                        assert(jo == iw);
                        assert(false);
                    }
                }
                assert forall|k: (IndexerId, BlockHeight)| m2.contains_key(k) implies
                    m1.contains_key(k) by {
                    let j = choose|j: int| is_block_at(olds, j, k.0, k.1);
                    if j == iw {
                        lemma_block_idx_is(olds, k.0, k.1, j);
                        lemma_block_idx_is(olds, indexer_id, height, iw);
                        assert(k == (indexer_id, height));
                        assert(false);
                    } else if j < iw {
                        assert(is_block_at(news, j, k.0, k.1));
                    } else {
                        assert(is_block_at(news, j - 1, k.0, k.1));
                    }
                }
                assert forall|k: (IndexerId, BlockHeight)| m1.contains_key(k) implies m1.index(k)
                    == m2.index(k) by {
                    let j = choose|j: int| is_block_at(news, j, k.0, k.1);
                    lemma_block_idx_is(news, k.0, k.1, j);
                    let jo: int = if j < iw {
                        j
                    } else {
                        j + 1
                    };
                    assert(is_block_at(olds, jo, k.0, k.1));
                    lemma_block_idx_is(olds, k.0, k.1, jo);
                }
                assert(m1 =~= m2);
                assert(store.height_map() =~= old(store).height_map());
                lemma_status_map_at(*old(store), indexer_id, height, iw);
            }
            Some(rec.hash)
        },
        None => {
            proof {
                lemma_status_map_absent(*old(store), indexer_id, height);
                assert(store.status_map() =~= remove_status(
                    old(store).status_map(),
                    indexer_id,
                    height,
                ));
            }
            None
        },
    }
}

/// The finalization envelope `[min(height), max(height) + 1)` over the
/// indexer's currently recorded statuses, or none iff no record exists.
/// This is a bounding envelope, not proof of full height coverage.
pub fn get_block_range_to_finalize(store: &Store, indexer_id: IndexerId) -> (r: Option<BlockRange>)
    requires
        store.wf(),
    ensures
        match r {
            Some(range) => range.wf() && 1 <= range.end_exclusive
                && store.status_map().contains_key((indexer_id, range.start_inclusive))
                && store.status_map().contains_key(
                (indexer_id, (range.end_exclusive - 1) as BlockHeight),
            ) && forall|h: BlockHeight| #[trigger]
                store.status_map().contains_key((indexer_id, h)) ==> range.start_inclusive <= h
                    < range.end_exclusive,
            None => forall|h: BlockHeight| !store.status_map().contains_key((indexer_id, h)),
        },
{
    let n = store.block_status.len();
    let mut i: usize = 0;
    let mut bounds: Option<(BlockHeight, BlockHeight)> = None;
    while i < n
        invariant
            n == store.block_status@.len(),
            0 <= i <= n,
            store.wf(),
            match bounds {
                Some((mn, mx)) => mn <= mx && mx <= MAX_HEIGHT && (exists|j: int|
                    is_block_at(store.block_status@, j, indexer_id, mn)) && (exists|j: int|
                    is_block_at(store.block_status@, j, indexer_id, mx)) && forall|j: int|
                    0 <= j < i && (#[trigger] store.block_status@[j]).indexer_id == indexer_id
                        ==> mn <= store.block_status@[j].height <= mx,
                None => forall|j: int|
                    0 <= j < i ==> (#[trigger] store.block_status@[j]).indexer_id != indexer_id,
            },
        decreases n - i,
    {
        if store.block_status[i].indexer_id == indexer_id {
            let h = store.block_status[i].height;
            proof {
                assert(is_block_at(store.block_status@, i as int, indexer_id, h));
            }
            match bounds {
                None => {
                    bounds = Some((h, h));
                },
                Some((mn, mx)) => {
                    let nmn = if h < mn {
                        h
                    } else {
                        mn
                    };
                    let nmx = if h > mx {
                        h
                    } else {
                        mx
                    };
                    bounds = Some((nmn, nmx));
                },
            }
        }
        proof {
            match bounds {
                Some((mn2, mx2)) => {
                    assert(mn2 <= mx2);
                    assert(mx2 <= MAX_HEIGHT);
                    assert(exists|j: int| is_block_at(store.block_status@, j, indexer_id, mn2));
                    assert(exists|j: int| is_block_at(store.block_status@, j, indexer_id, mx2));
                    assert(forall|j: int|
                        0 <= j < i + 1 && (#[trigger] store.block_status@[j]).indexer_id
                            == indexer_id ==> mn2 <= store.block_status@[j].height <= mx2);
                },
                None => {
                },
            }
        }
        i += 1;
    }
    match bounds {
        Some((mn, mx)) => {
            proof {
                let jm = choose|j: int| is_block_at(store.block_status@, j, indexer_id, mn);
                lemma_status_map_at(*store, indexer_id, mn, jm);
                let jx = choose|j: int| is_block_at(store.block_status@, j, indexer_id, mx);
                lemma_status_map_at(*store, indexer_id, mx, jx);
                assert forall|h: BlockHeight| #[trigger]
                    store.status_map().contains_key((indexer_id, h)) implies mn <= h <= mx by {
                    let j = lemma_status_map_witness(*store, indexer_id, h);
                    assert(store.block_status@[j].indexer_id == indexer_id);
                }
            }
            Some(BlockRange { start_inclusive: mn, end_exclusive: mx + 1 })
        },
        None => {
            proof {
                assert forall|h: BlockHeight| !store.status_map().contains_key(
                    (indexer_id, h),
                ) by {
                    lemma_status_map_absent(*store, indexer_id, h);
                }
            }
            None
        },
    }
}

/// Deletion semantics: after recording a hash at a height, one delete
/// returns exactly that hash; afterwards the record is gone, so a second
/// delete finds nothing and changes nothing.
pub proof fn lemma_delete_after_update(
    m: Map<(IndexerId, BlockHeight), (Seq<u8>, i64)>,
    id: IndexerId,
    height: BlockHeight,
    hash: Seq<u8>,
    ts: i64,
)
    ensures
        upsert_status(m, id, height, hash, ts).contains_key((id, height)),
        upsert_status(m, id, height, hash, ts).index((id, height)).0 == hash,
        !remove_status(upsert_status(m, id, height, hash, ts), id, height).contains_key(
            (id, height),
        ),
        remove_status(remove_status(upsert_status(m, id, height, hash, ts), id, height), id, height)
            == remove_status(upsert_status(m, id, height, hash, ts), id, height),
{
    let once = remove_status(upsert_status(m, id, height, hash, ts), id, height);
    assert(remove_status(once, id, height) =~= once);
}

} // verus!
