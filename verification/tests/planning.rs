use stress::nonce::NonceTracker;
use stress::plan::{batch_ranges, build_plan, num_batches, TxPlan, BATCH_SIZE};
use stress::wallets::{LoadError, Wallet, WalletStore};

#[test]
fn batch_size_is_one_thousand() {
    assert_eq!(BATCH_SIZE, 1000);
}

#[test]
fn twenty_five_hundred_transactions_make_three_batches() {
    assert_eq!(num_batches(2500, 1000), 3);
    let ranges = batch_ranges(2500, 1000);
    assert_eq!(ranges, vec![(0, 1000), (1000, 2000), (2000, 2500)]);
    assert_eq!(ranges[0].1 - ranges[0].0, 1000);
    assert_eq!(ranges[1].1 - ranges[1].0, 1000);
    assert_eq!(ranges[2].1 - ranges[2].0, 500);
}

#[test]
fn batch_counts_at_the_boundaries() {
    assert_eq!(num_batches(0, 1000), 0);
    assert_eq!(batch_ranges(0, 1000), vec![]);
    assert_eq!(num_batches(1, 1000), 1);
    assert_eq!(num_batches(1000, 1000), 1);
    assert_eq!(batch_ranges(1000, 1000), vec![(0, 1000)]);
    assert_eq!(num_batches(1001, 1000), 2);
    assert_eq!(batch_ranges(1001, 1000), vec![(0, 1000), (1000, 1001)]);
}

#[test]
fn seven_transactions_over_three_wallets() {
    let mut tracker = NonceTracker::seed(vec![100, 200, 300]);
    let plan = build_plan(7, &mut tracker);
    let expected = vec![
        TxPlan { from_index: 0, to_index: 1, nonce: 100 },
        TxPlan { from_index: 1, to_index: 2, nonce: 200 },
        TxPlan { from_index: 2, to_index: 0, nonce: 300 },
        TxPlan { from_index: 0, to_index: 1, nonce: 101 },
        TxPlan { from_index: 1, to_index: 2, nonce: 201 },
        TxPlan { from_index: 2, to_index: 0, nonce: 301 },
        TxPlan { from_index: 0, to_index: 1, nonce: 102 },
    ];
    assert_eq!(plan, expected);
    assert_eq!(tracker.current(0), 103);
    assert_eq!(tracker.current(1), 202);
    assert_eq!(tracker.current(2), 302);
}

#[test]
fn nonces_per_wallet_are_consecutive_without_gaps() {
    let mut tracker = NonceTracker::seed(vec![7, 9]);
    let plan = build_plan(6, &mut tracker);
    let wallet0: Vec<u64> = plan.iter().filter(|p| p.from_index == 0).map(|p| p.nonce).collect();
    let wallet1: Vec<u64> = plan.iter().filter(|p| p.from_index == 1).map(|p| p.nonce).collect();
    assert_eq!(wallet0, vec![7, 8, 9]);
    assert_eq!(wallet1, vec![9, 10, 11]);
}

#[test]
fn next_nonce_returns_then_advances() {
    let mut tracker = NonceTracker::seed(vec![5]);
    assert_eq!(tracker.current(0), 5);
    assert_eq!(tracker.next_nonce(0), 5);
    assert_eq!(tracker.next_nonce(0), 6);
    assert_eq!(tracker.next_nonce(0), 7);
    assert_eq!(tracker.current(0), 8);
}

#[test]
fn empty_wallet_collection_is_a_load_error() {
    let r = WalletStore::new(vec![]);
    assert!(matches!(r, Err(LoadError::Empty)));
}

#[test]
fn loaded_wallets_keep_their_order() {
    let store = WalletStore::new(vec![
        Wallet { address: String::from("0xaa") },
        Wallet { address: String::from("0xbb") },
    ])
    .unwrap();
    assert_eq!(store.count(), 2);
    assert_eq!(store.wallet_at(0).as_str(), "0xaa");
    assert_eq!(store.wallet_at(1).as_str(), "0xbb");
}
