use indexer_core::ledger::update_block_status;
use indexer_core::monitor::get_next_block_to_monitor;
use indexer_core::store::Store;

const T: i64 = 1_000;

fn store_with_heights_five_and_seven() -> Store {
    let mut store = Store::new();
    update_block_status(&mut store, 1, 5, vec![5; 32], T).unwrap();
    update_block_status(&mut store, 1, 7, vec![7; 32], T).unwrap();
    store
}

#[test]
fn recent_heights_are_rate_limited() {
    let store = store_with_heights_five_and_seven();
    assert_eq!(get_next_block_to_monitor(&store, 1, 4, 60, T + 30), None);
}

#[test]
fn stale_heights_are_offered_lowest_first_on_timestamp_tie() {
    let store = store_with_heights_five_and_seven();
    assert_eq!(get_next_block_to_monitor(&store, 1, 4, 60, T + 90), Some(5));
}

#[test]
fn heights_at_or_below_consensus_are_not_monitored() {
    let store = store_with_heights_five_and_seven();
    assert_eq!(get_next_block_to_monitor(&store, 1, 7, 60, T + 90), None);
    assert_eq!(get_next_block_to_monitor(&store, 1, 5, 60, T + 90), Some(7));
}

#[test]
fn oldest_timestamp_wins_over_lower_height() {
    let mut store = Store::new();
    update_block_status(&mut store, 1, 5, vec![5; 32], 200).unwrap();
    update_block_status(&mut store, 1, 7, vec![7; 32], 100).unwrap();
    assert_eq!(get_next_block_to_monitor(&store, 1, 0, 10, 1_000), Some(7));
}

#[test]
fn empty_ledger_offers_nothing_to_monitor() {
    let store = Store::new();
    assert_eq!(get_next_block_to_monitor(&store, 1, 0, 60, 1_000), None);
}

#[test]
fn other_indexers_rows_are_ignored() {
    let mut store = Store::new();
    update_block_status(&mut store, 2, 9, vec![9; 32], 100).unwrap();
    assert_eq!(get_next_block_to_monitor(&store, 1, 0, 10, 1_000), None);
}
