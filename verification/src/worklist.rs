//! Block-fix worklist: ranges suspected inconsistent and pending
//! re-processing.
//!
//! Reads always select the entry with the smallest start, widened to the
//! largest end registered at that start, so a consumer attacks the
//! earliest pending range first and sees the union of duplicate
//! registrations. Writes retire a just-repaired sub-range incrementally:
//! the front of a pending entry shrinks by exactly the repaired width,
//! and an entry reduced to zero-or-negative width disappears.

use vstd::prelude::*;
use crate::store::{BlockFixRecord, Store};
use crate::{BlockHeight, BlockRange, IndexerId, StoreError, MAX_HEIGHT};

verus! {

/// One advance step of [`update_block_range_to_fix`] on one entry: an
/// entry of this indexer whose start equals the repaired range's start
/// has its start rewritten to the repaired range's end.
pub open spec fn advance_fix(
    r: BlockFixRecord,
    id: IndexerId,
    start: BlockHeight,
    end: BlockHeight,
) -> BlockFixRecord {
    if r.indexer_id == id && r.start_height == start {
        BlockFixRecord { indexer_id: r.indexer_id, start_height: end, end_height: r.end_height }
    } else {
        r
    }
}

/// The prune step of [`update_block_range_to_fix`] deletes an entry of
/// this indexer whose start equals the repaired range's end and whose
/// width is zero or negative.
pub open spec fn prune_fix(r: BlockFixRecord, id: IndexerId, end: BlockHeight) -> bool {
    r.indexer_id == id && r.start_height == end && r.end_height <= end
}

/// Abstract effect of [`update_block_range_to_fix`] on the fix table:
/// every entry is advanced, then every pruned entry is dropped; the
/// order of the surviving entries is kept.
pub open spec fn fix_step(
    s: Seq<BlockFixRecord>,
    id: IndexerId,
    start: BlockHeight,
    end: BlockHeight,
) -> Seq<BlockFixRecord>
    decreases s.len(),
{
    if s.len() == 0 {
        Seq::empty()
    } else {
        let rest = fix_step(s.drop_last(), id, start, end);
        let r = advance_fix(s.last(), id, start, end);
        if prune_fix(r, id, end) {
            rest
        } else {
            rest.push(r)
        }
    }
}

/// The earliest pending range: the entry with the smallest start among
/// this indexer's entries, widened to the largest end registered at that
/// start; none iff the indexer has no pending entry.
pub fn get_block_range_to_fix(store: &Store, indexer_id: IndexerId) -> (r: Option<BlockRange>)
    requires
        store.wf(),
    ensures
        match r {
            Some(range) => range.wf() && (exists|i: int|
                0 <= i < store.fix_entries().len() && (#[trigger] store.fix_entries()[i]).indexer_id
                    == indexer_id && store.fix_entries()[i].start_height == range.start_inclusive
                    && store.fix_entries()[i].end_height == range.end_exclusive) && (forall|i: int|
                0 <= i < store.fix_entries().len() && (#[trigger] store.fix_entries()[i]).indexer_id
                    == indexer_id ==> range.start_inclusive <= store.fix_entries()[i].start_height)
                && (forall|i: int|
                0 <= i < store.fix_entries().len() && (#[trigger] store.fix_entries()[i]).indexer_id
                    == indexer_id && store.fix_entries()[i].start_height == range.start_inclusive
                    ==> store.fix_entries()[i].end_height <= range.end_exclusive),
            None => forall|i: int|
                0 <= i < store.fix_entries().len() ==> (#[trigger] store.fix_entries()[i]).indexer_id
                    != indexer_id,
        },
{
    let n = store.block_fix.len();
    let mut i: usize = 0;
    let mut best: Option<(BlockHeight, BlockHeight)> = None;
    while i < n
        invariant
            n == store.block_fix@.len(),
            0 <= i <= n,
            store.wf(),
            match best {
                Some((bs, be)) => bs <= be && (exists|j: int|
                    0 <= j < i && (#[trigger] store.block_fix@[j]).indexer_id == indexer_id
                        && store.block_fix@[j].start_height == bs && store.block_fix@[j].end_height
                        == be) && (forall|j: int|
                    0 <= j < i && (#[trigger] store.block_fix@[j]).indexer_id == indexer_id ==> bs
                        <= store.block_fix@[j].start_height) && (forall|j: int|
                    0 <= j < i && (#[trigger] store.block_fix@[j]).indexer_id == indexer_id
                        && store.block_fix@[j].start_height == bs ==> store.block_fix@[j].end_height
                        <= be),
                None => forall|j: int|
                    0 <= j < i ==> (#[trigger] store.block_fix@[j]).indexer_id != indexer_id,
            },
        decreases n - i,
    {
        if store.block_fix[i].indexer_id == indexer_id {
            let s = store.block_fix[i].start_height;
            let e = store.block_fix[i].end_height;
            match best {
                None => {
                    best = Some((s, e));
                },
                Some((bs, be)) => {
                    if s < bs {
                        best = Some((s, e));
                    } else if s == bs && e > be {
                        best = Some((s, e));
                    }
                },
            }
        }
        i += 1;
    }
    match best {
        Some((bs, be)) => {
            proof {
                let jw = choose|j: int|
                    0 <= j < i && store.block_fix@[j].indexer_id == indexer_id
                        && store.block_fix@[j].start_height == bs && store.block_fix@[j].end_height
                        == be;
                assert(0 <= jw < store.fix_entries().len());
                assert(store.fix_entries()[jw].indexer_id == indexer_id);
                assert(store.fix_entries()[jw].start_height == bs);
                assert(store.fix_entries()[jw].end_height == be);
            }
            Some(BlockRange { start_inclusive: bs, end_exclusive: be })
        },
        None => None,
    }
}

/// Registers a range of this indexer as pending reconciliation. The
/// driver calls this when it detects a suspected inconsistency. A bound
/// beyond the storage schema's limit fails the operation and leaves the
/// store unchanged.
pub fn insert_block_range_to_fix(store: &mut Store, indexer_id: IndexerId, range: BlockRange) -> (r:
    Result<(), StoreError>)
    requires
        old(store).wf(),
        range.wf(),
    ensures
        final(store).wf(),
        range.end_exclusive <= MAX_HEIGHT ==> r == Ok::<(), StoreError>(())
            && final(store).fix_entries() == old(store).fix_entries().push(
            BlockFixRecord {
                indexer_id,
                start_height: range.start_inclusive,
                end_height: range.end_exclusive,
            },
        ),
        range.end_exclusive > MAX_HEIGHT ==> r == Err::<(), StoreError>(StoreError::HeightOutOfRange)
            && final(store).fix_entries() == old(store).fix_entries(),
        final(store).height_map() == old(store).height_map(),
        final(store).status_map() == old(store).status_map(),
{
    if range.end_exclusive > MAX_HEIGHT {
        return Err(StoreError::HeightOutOfRange);
    }
    store.block_fix.push(
        BlockFixRecord {
            indexer_id,
            start_height: range.start_inclusive,
            end_height: range.end_exclusive,
        },
    );
    proof {
        assert(store.height_map() =~= old(store).height_map());
        assert(store.status_map() =~= old(store).status_map());
    }
    Ok(())
}

/// Incremental retirement of a just-repaired sub-range: first every
/// entry of this indexer whose start equals the sub-range's start is
/// advanced so its start becomes the sub-range's end; then every entry
/// of this indexer left with zero-or-negative width at that end is
/// deleted. Re-issuing a call for an already-retired sub-range matches
/// nothing and is a safe no-op; a sub-range that is not exactly aligned
/// with a stored entry's current start mutates that entry in no way.
/// A bound beyond the storage schema's limit fails the operation and
/// leaves the store unchanged.
pub fn update_block_range_to_fix(store: &mut Store, indexer_id: IndexerId, range: BlockRange) -> (r:
    Result<(), StoreError>)
    requires
        old(store).wf(),
        range.wf(),
    ensures
        final(store).wf(),
        range.end_exclusive <= MAX_HEIGHT ==> r == Ok::<(), StoreError>(())
            && final(store).fix_entries() == fix_step(
            old(store).fix_entries(),
            indexer_id,
            range.start_inclusive,
            range.end_exclusive,
        ),
        range.end_exclusive > MAX_HEIGHT ==> r == Err::<(), StoreError>(StoreError::HeightOutOfRange)
            && final(store).fix_entries() == old(store).fix_entries(),
        final(store).height_map() == old(store).height_map(),
        final(store).status_map() == old(store).status_map(),
{
    if range.end_exclusive > MAX_HEIGHT {
        return Err(StoreError::HeightOutOfRange);
    }
    let start = range.start_inclusive;
    let end = range.end_exclusive;
    let n = store.block_fix.len();
    let mut out: Vec<BlockFixRecord> = Vec::new();
    let mut i: usize = 0;
    while i < n
        invariant
            n == store.block_fix@.len(),
            0 <= i <= n,
            store.wf(),
            end <= MAX_HEIGHT,
            out@ == fix_step(store.block_fix@.take(i as int), indexer_id, start, end),
            forall|j: int|
                0 <= j < out@.len() ==> (#[trigger] out@[j]).start_height <= out@[j].end_height
                    && out@[j].end_height <= MAX_HEIGHT,
        decreases n - i,
    {
        let rec = store.block_fix[i];
        let adv = if rec.indexer_id == indexer_id && rec.start_height == start {
            BlockFixRecord {
                indexer_id: rec.indexer_id,
                start_height: end,
                end_height: rec.end_height,
            }
        } else {
            rec
        };
        proof {
            assert(adv == advance_fix(store.block_fix@[i as int], indexer_id, start, end));
            assert(store.block_fix@.take(i + 1).drop_last() =~= store.block_fix@.take(i as int));
            assert(store.block_fix@.take(i + 1).last() == store.block_fix@[i as int]);
        }
        if !(adv.indexer_id == indexer_id && adv.start_height == end && adv.end_height <= end) {
            out.push(adv);
        }
        i += 1;
    }
    proof {
        assert(store.block_fix@.take(n as int) =~= store.block_fix@);
    }
    store.block_fix = out;
    proof {
        assert(store.height_map() =~= old(store).height_map());
        assert(store.status_map() =~= old(store).status_map());
    }
    Ok(())
}

/// After retiring a non-empty sub-range `[start, end)`, no entry of the
/// indexer still starts at `start`: every aligned entry was advanced to
/// `end`, and dropped if that left it with no width. Repeated calls with
/// successive repaired sub-ranges therefore walk an entry's start
/// forward until the entry vanishes.
pub proof fn lemma_fix_step_retires_start(
    s: Seq<BlockFixRecord>,
    id: IndexerId,
    start: BlockHeight,
    end: BlockHeight,
)
    requires
        start != end,
    ensures
        forall|i: int|
            0 <= i < fix_step(s, id, start, end).len() ==> !((#[trigger] fix_step(s, id, start, end)[i]).indexer_id
                == id && fix_step(s, id, start, end)[i].start_height == start),
    decreases s.len(),
{
    if s.len() != 0 {
        lemma_fix_step_retires_start(s.drop_last(), id, start, end);
        let rest = fix_step(s.drop_last(), id, start, end);
        let r = advance_fix(s.last(), id, start, end);
        let out = fix_step(s, id, start, end);
        assert forall|i: int| 0 <= i < out.len() implies !((#[trigger] out[i]).indexer_id == id
            && out[i].start_height == start) by {
            if prune_fix(r, id, end) {
                assert(out[i] == rest[i]);
            } else {
                assert(out == rest.push(r));
                if i < rest.len() {
                    assert(out[i] == rest[i]);
                } else {
                    assert(out[i] == r);
                }
            }
        }
    }
}

/// A sub-range that matches no stored entry changes nothing: when no
/// entry of the indexer starts at the sub-range's start, and none is
/// already pending deletion at its end, the worklist is left exactly as
/// it was.
pub proof fn lemma_fix_step_noop(
    s: Seq<BlockFixRecord>,
    id: IndexerId,
    start: BlockHeight,
    end: BlockHeight,
)
    requires
        forall|i: int|
            0 <= i < s.len() ==> !((#[trigger] s[i]).indexer_id == id && s[i].start_height
                == start),
        forall|i: int| 0 <= i < s.len() ==> !prune_fix(#[trigger] s[i], id, end),
    ensures
        fix_step(s, id, start, end) == s,
    decreases s.len(),
{
    if s.len() == 0 {
        assert(fix_step(s, id, start, end) =~= s);
    } else {
        lemma_fix_step_noop(s.drop_last(), id, start, end);
        assert(s[s.len() - 1] == s.last());
        assert(advance_fix(s.last(), id, start, end) == s.last());
        assert(fix_step(s, id, start, end) =~= s);
    }
}

} // verus!
