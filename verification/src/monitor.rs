//! Finality monitor scheduler: rate-limited selection of the next
//! already-processed height to recheck.

use vstd::prelude::*;
use crate::store::{is_block_at, lemma_status_map_at, lemma_status_map_witness, Store};
use crate::{BlockHeight, IndexerId};

verus! {

/// Height `h` qualifies for a monitor recheck: it is recorded for the
/// indexer, lies strictly above the consensus height, and its
/// last-update timestamp is older than the cutoff.
pub open spec fn eligible_for_monitor(
    store: Store,
    id: IndexerId,
    consensus_height: BlockHeight,
    cutoff: int,
    h: BlockHeight,
) -> bool {
    store.status_map().contains_key((id, h)) && h > consensus_height && store.status_map().index(
        (id, h),
    ).1 < cutoff
}

/// Among the indexer's recorded heights strictly above `consensus_height`
/// whose last update is older than `now - min_interval`, returns the one
/// with the oldest timestamp, ties broken by ascending height; none if
/// every qualifying height was checked too recently or none qualifies.
/// This is backoff/admission control: a polling driver cannot recheck
/// the same not-yet-finalized height faster than `min_interval`.
pub fn get_next_block_to_monitor(
    store: &Store,
    indexer_id: IndexerId,
    consensus_height: BlockHeight,
    min_interval: i64,
    now: i64,
) -> (r: Option<BlockHeight>)
    requires
        store.wf(),
        0 <= min_interval,
        i64::MIN + min_interval <= now,
    ensures
        match r {
            Some(h) => eligible_for_monitor(
                *store,
                indexer_id,
                consensus_height,
                now - min_interval,
                h,
            ) && forall|h2: BlockHeight|
                #[trigger] eligible_for_monitor(
                    *store,
                    indexer_id,
                    consensus_height,
                    now - min_interval,
                    h2,
                ) ==> store.status_map().index((indexer_id, h)).1 < store.status_map().index(
                    (indexer_id, h2),
                ).1 || (store.status_map().index((indexer_id, h)).1 == store.status_map().index(
                    (indexer_id, h2),
                ).1 && h <= h2),
            None => forall|h2: BlockHeight|
                !(#[trigger] eligible_for_monitor(
                    *store,
                    indexer_id,
                    consensus_height,
                    now - min_interval,
                    h2,
                )),
        },
{
    let cutoff = now - min_interval;
    let n = store.block_status.len();
    let mut i: usize = 0;
    let mut best: Option<(i64, BlockHeight)> = None;
    while i < n
        invariant
            n == store.block_status@.len(),
            0 <= i <= n,
            store.wf(),
            cutoff == now - min_interval,
            match best {
                Some((bt, bh)) => (exists|j: int|
                    is_block_at(store.block_status@, j, indexer_id, bh)
                        && store.block_status@[j].timestamp == bt) && bh > consensus_height && bt
                    < cutoff && forall|j: int|
                    0 <= j < i && (#[trigger] store.block_status@[j]).indexer_id == indexer_id
                        && store.block_status@[j].height > consensus_height
                        && store.block_status@[j].timestamp < cutoff ==> bt
                        < store.block_status@[j].timestamp || (bt == store.block_status@[j].timestamp
                        && bh <= store.block_status@[j].height),
                None => forall|j: int|
                    0 <= j < i ==> !((#[trigger] store.block_status@[j]).indexer_id == indexer_id
                        && store.block_status@[j].height > consensus_height
                        && store.block_status@[j].timestamp < cutoff),
            },
        decreases n - i,
    {
        let rec_id = store.block_status[i].indexer_id;
        let rec_h = store.block_status[i].height;
        let rec_ts = store.block_status[i].timestamp;
        if rec_id == indexer_id && rec_h > consensus_height && rec_ts < cutoff {
            proof {
                assert(is_block_at(store.block_status@, i as int, indexer_id, rec_h));
            }
            match best {
                None => {
                    best = Some((rec_ts, rec_h));
                },
                Some((bt, bh)) => {
                    if rec_ts < bt || (rec_ts == bt && rec_h < bh) {
                        best = Some((rec_ts, rec_h));
                    }
                },
            }
        }
        proof {
            match best {
                Some((bt2, bh2)) => {
                    assert(exists|j: int|
                        is_block_at(store.block_status@, j, indexer_id, bh2)
                            && store.block_status@[j].timestamp == bt2);
                },
                None => {
                },
            }
        }
        i += 1;
    }
    match best {
        Some((bt, bh)) => {
            proof {
                let jw = choose|j: int|
                    is_block_at(store.block_status@, j, indexer_id, bh)
                        && store.block_status@[j].timestamp == bt;
                lemma_status_map_at(*store, indexer_id, bh, jw);
                assert(eligible_for_monitor(*store, indexer_id, consensus_height, cutoff as int, bh));
                assert forall|h2: BlockHeight|
                    #[trigger] eligible_for_monitor(
                        *store,
                        indexer_id,
                        consensus_height,
                        cutoff as int,
                        h2,
                    ) implies bt < store.status_map().index((indexer_id, h2)).1 || (bt
                    == store.status_map().index((indexer_id, h2)).1 && bh <= h2) by {
                    let j2 = lemma_status_map_witness(*store, indexer_id, h2);
                    lemma_status_map_at(*store, indexer_id, h2, j2);
                    assert(store.block_status@[j2].indexer_id == indexer_id);
                    assert(store.block_status@[j2].height == h2);
                }
            }
            Some(bh)
        },
        None => {
            proof {
                assert forall|h2: BlockHeight|
                    !eligible_for_monitor(
                        *store,
                        indexer_id,
                        consensus_height,
                        cutoff as int,
                        h2,
                    ) by {
                    if eligible_for_monitor(*store, indexer_id, consensus_height, cutoff as int, h2) {
                        let j2 = lemma_status_map_witness(*store, indexer_id, h2);
                        lemma_status_map_at(*store, indexer_id, h2, j2);
                        assert(store.block_status@[j2].indexer_id == indexer_id);
                    }
                }
            }
            None
        },
    }
}

} // verus!
