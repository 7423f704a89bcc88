//! Height tracker: the top-level progress cursor of each indexer.

use vstd::prelude::*;
use crate::store::{find_status_idx, is_status_at, lemma_status_idx_is, IndexerStatusRecord, Store};
use crate::{BlockHeight, IndexerId, StoreError, MAX_HEIGHT};

verus! {

/// Abstract effect of [`update_current_height`] on the indexer-status
/// view: an upsert keyed by indexer id, last-write-wins.
pub open spec fn upsert_height(
    m: Map<IndexerId, (BlockHeight, i64)>,
    id: IndexerId,
    height: BlockHeight,
    ts: i64,
) -> Map<IndexerId, (BlockHeight, i64)> {
    m.insert(id, (height, ts))
}

/// Last confirmed height of the indexer, or none if it never ran.
pub fn get_current_height(store: &Store, indexer_id: IndexerId) -> (r: Option<BlockHeight>)
    requires
        store.wf(),
    ensures
        match r {
            Some(h) => store.height_map().contains_key(indexer_id) && h == store.height_map().index(
                indexer_id,
            ).0,
            None => !store.height_map().contains_key(indexer_id),
        },
{
    match find_status_idx(&store.indexer_status, indexer_id) {
        Some(i) => {
            proof {
                lemma_status_idx_is(store.indexer_status@, indexer_id, i as int);
            }
            Some(store.indexer_status[i].height)
        },
        None => {
            proof {
                if store.height_map().contains_key(indexer_id) {
                    let j = choose|j: int| is_status_at(store.indexer_status@, j, indexer_id);
                    assert(store.indexer_status@[j].indexer_id != indexer_id);
                }
            }
            None
        },
    }
}

/// Idempotent upsert of the indexer's confirmed height, keyed by indexer
/// id, last-write-wins. A height beyond the storage schema's bound fails
/// the operation and leaves the store unchanged.
pub fn update_current_height(
    store: &mut Store,
    indexer_id: IndexerId,
    height: BlockHeight,
    timestamp: i64,
) -> (r: Result<(), StoreError>)
    requires
        old(store).wf(),
    ensures
        final(store).wf(),
        height <= MAX_HEIGHT ==> r == Ok::<(), StoreError>(()) && final(store).height_map()
            == upsert_height(old(store).height_map(), indexer_id, height, timestamp),
        height > MAX_HEIGHT ==> r == Err::<(), StoreError>(StoreError::HeightOutOfRange)
            && final(store).height_map() == old(store).height_map(),
        final(store).status_map() == old(store).status_map(),
        final(store).fix_entries() == old(store).fix_entries(),
{
    if height > MAX_HEIGHT {
        return Err(StoreError::HeightOutOfRange);
    }
    let rec = IndexerStatusRecord { indexer_id, height, timestamp };
    match find_status_idx(&store.indexer_status, indexer_id) {
        Some(i) => {
            store.indexer_status[i] = rec;
        },
        None => {
            store.indexer_status.push(rec);
        },
    }
    proof {
        let olds = old(store).indexer_status@;
        let news = store.indexer_status@;
        assert forall|p: int| 0 <= p < news.len() && p < olds.len() implies (
        #[trigger] news[p]).indexer_id == olds[p].indexer_id by {}
        assert(store.keys_unique());
        assert(store.heights_bounded());
        let m1 = store.height_map();
        let m2 = upsert_height(old(store).height_map(), indexer_id, height, timestamp);
        assert forall|id2: IndexerId| m1.contains_key(id2) implies m2.contains_key(id2) by {
            let j = choose|j: int| is_status_at(news, j, id2);
            if id2 != indexer_id {
                assert(is_status_at(olds, j, id2));
            }
        }
        assert forall|id2: IndexerId| m2.contains_key(id2) implies m1.contains_key(id2) by {
            if id2 == indexer_id {
                assert(exists|j: int| is_status_at(news, j, id2)) by {
                    if olds.len() == news.len() {
                        let i = choose|i: int| is_status_at(olds, i, indexer_id);
                        assert(is_status_at(news, i, id2));
                    } else {
                        assert(is_status_at(news, news.len() - 1, id2));
                    }
                }
            } else {
                let j = choose|j: int| is_status_at(olds, j, id2);
                assert(is_status_at(news, j, id2));
            }
        }
        assert forall|id2: IndexerId| m1.contains_key(id2) implies m1[id2] == m2[id2] by {
            if id2 == indexer_id {
                if olds.len() == news.len() {
                    let i = choose|i: int| is_status_at(olds, i, indexer_id);
                    assert(is_status_at(news, i, id2));
                    lemma_status_idx_is(news, id2, i);
                } else {
                    lemma_status_idx_is(news, id2, news.len() - 1);
                }
            } else {
                let j = choose|j: int| is_status_at(news, j, id2);
                lemma_status_idx_is(news, id2, j);
                assert(is_status_at(olds, j, id2));
                lemma_status_idx_is(olds, id2, j);
            }
        }
        assert(m1 =~= m2);
        assert(store.status_map() =~= old(store).status_map());
    }
    Ok(())
}

/// `update_current_height` is idempotent: applying the same
/// `(indexer, height, timestamp)` twice yields the same state as
/// applying it once.
pub proof fn lemma_update_current_height_idempotent(
    m: Map<IndexerId, (BlockHeight, i64)>,
    id: IndexerId,
    height: BlockHeight,
    ts: i64,
)
    ensures
        upsert_height(upsert_height(m, id, height, ts), id, height, ts) == upsert_height(
            m,
            id,
            height,
            ts,
        ),
{
    assert(upsert_height(upsert_height(m, id, height, ts), id, height, ts) =~= upsert_height(
        m,
        id,
        height,
        ts,
    ));
}

} // verus!
