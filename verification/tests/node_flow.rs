use oxion::blockchain::Blockchain;
use oxion::transaction::{Mempool, Transaction};

#[test]
fn mining_window_batches_the_highest_fee_transaction() {
    let start: u128 = 1_000;
    let mut pool = Mempool::new();
    assert!(pool.add_transaction(Transaction::new("a".to_string(), "x".to_string(), 1, 10, start)));
    assert!(pool.add_transaction(Transaction::new(
        "b".to_string(),
        "y".to_string(),
        2,
        20,
        start + 1
    )));
    assert!(pool.add_transaction(Transaction::new(
        "c".to_string(),
        "z".to_string(),
        3,
        5,
        start + 2
    )));

    let mut ledger = Blockchain::new(start);

    // One production tick: pull the best pending transaction into staging.
    assert!(ledger.stage_from_mempool(&mut pool));

    // Within the window nothing is mined yet.
    assert!(!ledger.should_mine(start + 20_000, start));

    // Once the window has elapsed, mine with the selected validator.
    let now = start + 21_000;
    assert!(ledger.should_mine(now, start));
    ledger.mine_pending_transactions("validator".to_string(), now);

    let mined = ledger.get_block(1).unwrap();
    assert_eq!(mined.transactions.len(), 2);
    assert_eq!(mined.transactions[0].fee, 20);
    assert_eq!(mined.transactions[0].addr, "b");
    let reward = &mined.transactions[1];
    assert_eq!(reward.addr, "network");
    assert_eq!(reward.to, "validator");
    assert_eq!(reward.amount, 50);

    let remaining = pool.get_all_transactions();
    assert_eq!(remaining.len(), 2);
    let mut fees: Vec<u64> = remaining.iter().map(|t| t.fee).collect();
    fees.sort();
    assert_eq!(fees, vec![5, 10]);

    // The staging list was cleared and nothing mines until new work arrives.
    assert!(!ledger.should_mine(now + 40_000, now));
    assert!(ledger.is_valid());
}

#[test]
fn empty_mempool_stages_nothing() {
    let mut pool = Mempool::new();
    let mut ledger = Blockchain::new(0);
    assert!(!ledger.stage_from_mempool(&mut pool));
    assert!(!ledger.should_mine(100_000, 0));
}
