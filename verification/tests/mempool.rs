use oxion::transaction::{Mempool, Transaction};

#[test]
fn mempool_serves_by_fee_then_age() {
    let mut pool = Mempool::new();
    assert!(pool.add_transaction(Transaction::new("a".to_string(), "x".to_string(), 1, 5, 1)));
    assert!(pool.add_transaction(Transaction::new("b".to_string(), "x".to_string(), 1, 5, 2)));
    assert!(pool.add_transaction(Transaction::new("c".to_string(), "x".to_string(), 1, 10, 3)));
    assert!(pool.add_transaction(Transaction::new("d".to_string(), "x".to_string(), 1, 3, 4)));

    let first = pool.get_highest_fee_transaction().unwrap();
    assert_eq!((first.fee, first.timestamp), (10, 3));
    let second = pool.get_highest_fee_transaction().unwrap();
    assert_eq!((second.fee, second.timestamp), (5, 1));
    let third = pool.get_highest_fee_transaction().unwrap();
    assert_eq!((third.fee, third.timestamp), (5, 2));
    let fourth = pool.get_highest_fee_transaction().unwrap();
    assert_eq!((fourth.fee, fourth.timestamp), (3, 4));
    assert!(pool.get_highest_fee_transaction().is_none());
}

#[test]
fn mempool_rejects_identical_content() {
    let mut pool = Mempool::new();
    let first = Transaction::new("alice".to_string(), "bob".to_string(), 40, 2, 123);
    let again = Transaction::new("alice".to_string(), "bob".to_string(), 40, 2, 123);
    assert_eq!(first.hash, again.hash);
    assert!(pool.add_transaction(first));
    assert!(!pool.add_transaction(again));
    assert_eq!(pool.get_all_transactions().len(), 1);
}

#[test]
fn mempool_snapshot_leaves_pool_untouched() {
    let mut pool = Mempool::new();
    pool.add_transaction(Transaction::new("a".to_string(), "x".to_string(), 1, 4, 1));
    pool.add_transaction(Transaction::new("b".to_string(), "x".to_string(), 2, 6, 2));
    let snapshot = pool.get_all_transactions();
    assert_eq!(snapshot.len(), 2);
    assert_eq!(snapshot[0].addr, "a");
    assert_eq!(snapshot[1].addr, "b");
    assert_eq!(pool.get_all_transactions().len(), 2);
}

#[test]
fn removing_by_hash_takes_out_one_transaction() {
    let mut pool = Mempool::new();
    let a = Transaction::new("a".to_string(), "x".to_string(), 1, 4, 1);
    let b = Transaction::new("b".to_string(), "y".to_string(), 2, 6, 2);
    assert!(pool.add_transaction(a.clone()));
    assert!(pool.add_transaction(b.clone()));
    let removed = pool.remove_transaction(&a.hash).unwrap();
    assert_eq!(removed.hash, a.hash);
    assert!(pool.remove_transaction(&a.hash).is_none());
    let rest = pool.get_all_transactions();
    assert_eq!(rest.len(), 1);
    assert_eq!(rest[0].hash, b.hash);
}

#[test]
fn popping_a_hash_allows_resubmission() {
    let mut pool = Mempool::new();
    let tx = Transaction::new("alice".to_string(), "bob".to_string(), 1, 1, 1);
    assert!(pool.add_transaction(tx.clone()));
    let served = pool.get_highest_fee_transaction().unwrap();
    assert_eq!(served.hash, tx.hash);
    assert!(pool.add_transaction(tx));
}
