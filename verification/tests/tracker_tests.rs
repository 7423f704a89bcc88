use indexer_core::store::Store;
use indexer_core::tracker::{get_current_height, update_current_height};
use indexer_core::{StoreError, MAX_HEIGHT};

#[test]
fn height_of_indexer_that_never_ran_is_none() {
    let store = Store::new();
    assert_eq!(get_current_height(&store, 1), None);
}

#[test]
fn update_then_get_returns_height() {
    let mut store = Store::new();
    update_current_height(&mut store, 1, 100, 1_000).unwrap();
    assert_eq!(get_current_height(&store, 1), Some(100));
    assert_eq!(get_current_height(&store, 2), None);
}

#[test]
fn update_current_height_is_idempotent() {
    let mut once = Store::new();
    update_current_height(&mut once, 7, 42, 9_000).unwrap();
    let mut twice = Store::new();
    update_current_height(&mut twice, 7, 42, 9_000).unwrap();
    update_current_height(&mut twice, 7, 42, 9_000).unwrap();
    assert_eq!(get_current_height(&once, 7), get_current_height(&twice, 7));
    assert_eq!(get_current_height(&twice, 7), Some(42));
}

#[test]
fn update_current_height_is_last_write_wins() {
    let mut store = Store::new();
    update_current_height(&mut store, 1, 100, 1_000).unwrap();
    update_current_height(&mut store, 1, 90, 2_000).unwrap();
    assert_eq!(get_current_height(&store, 1), Some(90));
}

#[test]
fn update_current_height_rejects_height_beyond_schema_bound() {
    let mut store = Store::new();
    let r = update_current_height(&mut store, 1, MAX_HEIGHT + 1, 1_000);
    assert_eq!(r, Err(StoreError::HeightOutOfRange));
    assert_eq!(get_current_height(&store, 1), None);
}

#[test]
fn indexers_are_tracked_independently() {
    let mut store = Store::new();
    update_current_height(&mut store, 1, 10, 1_000).unwrap();
    update_current_height(&mut store, 2, 20, 1_000).unwrap();
    assert_eq!(get_current_height(&store, 1), Some(10));
    assert_eq!(get_current_height(&store, 2), Some(20));
}
