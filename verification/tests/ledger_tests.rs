use indexer_core::ledger::{
    delete_block_status, get_block_range_to_finalize, get_block_status_hash, update_block_status,
};
use indexer_core::store::Store;
use indexer_core::{BlockRange, StoreError, MAX_HEIGHT};

#[test]
fn hash_of_unrecorded_height_is_none() {
    let store = Store::new();
    assert_eq!(get_block_status_hash(&store, 1, 5), None);
}

#[test]
fn update_then_get_returns_hash() {
    let mut store = Store::new();
    update_block_status(&mut store, 1, 5, vec![0xaa; 32], 1_000).unwrap();
    assert_eq!(get_block_status_hash(&store, 1, 5), Some(vec![0xaa; 32]));
    assert_eq!(get_block_status_hash(&store, 1, 6), None);
    assert_eq!(get_block_status_hash(&store, 2, 5), None);
}

#[test]
fn update_block_status_overwrites_on_conflict() {
    let mut store = Store::new();
    update_block_status(&mut store, 1, 5, vec![0xaa; 32], 1_000).unwrap();
    update_block_status(&mut store, 1, 5, vec![0xbb; 32], 2_000).unwrap();
    assert_eq!(get_block_status_hash(&store, 1, 5), Some(vec![0xbb; 32]));
}

#[test]
fn delete_returns_prior_hash_then_none() {
    let mut store = Store::new();
    update_block_status(&mut store, 1, 5, vec![0xaa; 32], 1_000).unwrap();
    assert_eq!(delete_block_status(&mut store, 1, 5), Some(vec![0xaa; 32]));
    assert_eq!(delete_block_status(&mut store, 1, 5), None);
    assert_eq!(get_block_status_hash(&store, 1, 5), None);
}

#[test]
fn delete_of_absent_record_is_noop_returning_none() {
    let mut store = Store::new();
    assert_eq!(delete_block_status(&mut store, 1, 5), None);
}

#[test]
fn update_block_status_rejects_height_beyond_schema_bound() {
    let mut store = Store::new();
    let r = update_block_status(&mut store, 1, MAX_HEIGHT + 1, vec![0xaa; 32], 1_000);
    assert_eq!(r, Err(StoreError::HeightOutOfRange));
}

#[test]
fn finalize_envelope_of_empty_ledger_is_none() {
    let store = Store::new();
    assert_eq!(get_block_range_to_finalize(&store, 1), None);
}

#[test]
fn finalize_envelope_is_min_to_max_plus_one() {
    let mut store = Store::new();
    update_block_status(&mut store, 1, 7, vec![1; 32], 1_000).unwrap();
    update_block_status(&mut store, 1, 3, vec![2; 32], 1_000).unwrap();
    update_block_status(&mut store, 1, 5, vec![3; 32], 1_000).unwrap();
    assert_eq!(
        get_block_range_to_finalize(&store, 1),
        Some(BlockRange { start_inclusive: 3, end_exclusive: 8 })
    );
    assert_eq!(get_block_range_to_finalize(&store, 2), None);
}

#[test]
fn finalize_envelope_of_single_record_is_width_one() {
    let mut store = Store::new();
    update_block_status(&mut store, 1, 4, vec![1; 32], 1_000).unwrap();
    assert_eq!(
        get_block_range_to_finalize(&store, 1),
        Some(BlockRange { start_inclusive: 4, end_exclusive: 5 })
    );
}

#[test]
fn finalize_envelope_shrinks_after_delete() {
    let mut store = Store::new();
    update_block_status(&mut store, 1, 3, vec![1; 32], 1_000).unwrap();
    update_block_status(&mut store, 1, 9, vec![2; 32], 1_000).unwrap();
    delete_block_status(&mut store, 1, 9);
    assert_eq!(
        get_block_range_to_finalize(&store, 1),
        Some(BlockRange { start_inclusive: 3, end_exclusive: 4 })
    );
}
