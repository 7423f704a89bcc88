use indexer_core::store::Store;
use indexer_core::worklist::{
    get_block_range_to_fix, insert_block_range_to_fix, update_block_range_to_fix,
};
use indexer_core::{BlockRange, StoreError, MAX_HEIGHT};

fn range(start: u64, end: u64) -> BlockRange {
    BlockRange { start_inclusive: start, end_exclusive: end }
}

#[test]
fn empty_worklist_has_nothing_to_fix() {
    let store = Store::new();
    assert_eq!(get_block_range_to_fix(&store, 1), None);
}

#[test]
fn worklist_converges_under_incremental_retirement() {
    let mut store = Store::new();
    insert_block_range_to_fix(&mut store, 1, range(10, 20)).unwrap();
    update_block_range_to_fix(&mut store, 1, range(10, 12)).unwrap();
    assert_eq!(get_block_range_to_fix(&store, 1), Some(range(12, 20)));
    update_block_range_to_fix(&mut store, 1, range(12, 15)).unwrap();
    assert_eq!(get_block_range_to_fix(&store, 1), Some(range(15, 20)));
    update_block_range_to_fix(&mut store, 1, range(15, 20)).unwrap();
    assert_eq!(get_block_range_to_fix(&store, 1), None);
}

#[test]
fn misaligned_subrange_changes_nothing() {
    let mut store = Store::new();
    insert_block_range_to_fix(&mut store, 1, range(10, 20)).unwrap();
    update_block_range_to_fix(&mut store, 1, range(11, 13)).unwrap();
    assert_eq!(get_block_range_to_fix(&store, 1), Some(range(10, 20)));
}

#[test]
fn retired_subrange_retry_is_a_noop() {
    let mut store = Store::new();
    insert_block_range_to_fix(&mut store, 1, range(10, 20)).unwrap();
    update_block_range_to_fix(&mut store, 1, range(10, 12)).unwrap();
    update_block_range_to_fix(&mut store, 1, range(10, 12)).unwrap();
    assert_eq!(get_block_range_to_fix(&store, 1), Some(range(12, 20)));
}

#[test]
fn duplicate_registrations_coalesce_to_widest_end() {
    let mut store = Store::new();
    insert_block_range_to_fix(&mut store, 1, range(10, 20)).unwrap();
    insert_block_range_to_fix(&mut store, 1, range(10, 25)).unwrap();
    assert_eq!(get_block_range_to_fix(&store, 1), Some(range(10, 25)));
}

#[test]
fn read_selects_smallest_start_first() {
    let mut store = Store::new();
    insert_block_range_to_fix(&mut store, 1, range(30, 40)).unwrap();
    insert_block_range_to_fix(&mut store, 1, range(10, 20)).unwrap();
    assert_eq!(get_block_range_to_fix(&store, 1), Some(range(10, 20)));
}

#[test]
fn worklists_of_different_indexers_are_independent() {
    let mut store = Store::new();
    insert_block_range_to_fix(&mut store, 1, range(10, 20)).unwrap();
    insert_block_range_to_fix(&mut store, 2, range(5, 8)).unwrap();
    update_block_range_to_fix(&mut store, 2, range(5, 8)).unwrap();
    assert_eq!(get_block_range_to_fix(&store, 1), Some(range(10, 20)));
    assert_eq!(get_block_range_to_fix(&store, 2), None);
}

#[test]
fn insert_rejects_end_beyond_schema_bound() {
    let mut store = Store::new();
    let r = insert_block_range_to_fix(&mut store, 1, range(0, MAX_HEIGHT + 1));
    assert_eq!(r, Err(StoreError::HeightOutOfRange));
    assert_eq!(get_block_range_to_fix(&store, 1), None);
}

#[test]
fn update_rejects_end_beyond_schema_bound() {
    let mut store = Store::new();
    insert_block_range_to_fix(&mut store, 1, range(10, 20)).unwrap();
    let r = update_block_range_to_fix(&mut store, 1, range(10, MAX_HEIGHT + 1));
    assert_eq!(r, Err(StoreError::HeightOutOfRange));
    assert_eq!(get_block_range_to_fix(&store, 1), Some(range(10, 20)));
}
