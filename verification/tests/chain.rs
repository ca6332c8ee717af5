use oxion::block::Block;
use oxion::blockchain::Blockchain;
use oxion::transaction::Transaction;

#[test]
fn genesis_block_shape() {
    let genesis = Blockchain::create_genesis_block(1000);
    assert_eq!(genesis.index, 0);
    assert_eq!(genesis.previous_hash, "0");
    assert_eq!(genesis.nonce, 0);
    assert!(genesis.transactions.is_empty());
    assert_eq!(genesis.hash.len(), 64);
}

#[test]
fn genesis_only_chain_is_valid() {
    let ledger = Blockchain::new(1000);
    assert!(ledger.is_valid());
    let wrapped = Blockchain::from_blocks(vec![Blockchain::create_genesis_block(7)]);
    assert!(wrapped.is_valid());
}

#[test]
fn recomputing_after_any_field_change_changes_the_hash() {
    let tx = Transaction::new("alice".to_string(), "bob".to_string(), 5, 3, 7);
    let txs = vec![tx];
    let base = Block::calculate_hash(1, 100, "prev", 0, &txs);
    assert_ne!(base, Block::calculate_hash(2, 100, "prev", 0, &txs));
    assert_ne!(base, Block::calculate_hash(1, 101, "prev", 0, &txs));
    assert_ne!(base, Block::calculate_hash(1, 100, "prev2", 0, &txs));
    assert_ne!(base, Block::calculate_hash(1, 100, "prev", 1, &txs));
    assert_ne!(base, Block::calculate_hash(1, 100, "prev", 0, &Vec::new()));
}

#[test]
fn transaction_hash_tracks_every_field() {
    let base = Transaction::calculate_hash("alice", "bob", 5, 7, 3);
    assert_ne!(base, Transaction::calculate_hash("alicf", "bob", 5, 7, 3));
    assert_ne!(base, Transaction::calculate_hash("alice", "boc", 5, 7, 3));
    assert_ne!(base, Transaction::calculate_hash("alice", "bob", 6, 7, 3));
    assert_ne!(base, Transaction::calculate_hash("alice", "bob", 5, 8, 3));
    assert_ne!(base, Transaction::calculate_hash("alice", "bob", 5, 7, 4));
}

#[test]
fn tampered_link_fails_the_audit() {
    let genesis = Blockchain::create_genesis_block(10);
    let block_one = Block::new(1, genesis.hash.clone(), Vec::new(), 20);
    let good = Blockchain::from_blocks(vec![genesis.clone(), block_one.clone()]);
    assert!(good.is_valid());

    let unlinked = Block::new(1, "0".repeat(64), Vec::new(), 20);
    let broken_link = Blockchain::from_blocks(vec![genesis.clone(), unlinked]);
    assert!(!broken_link.is_valid());

    let mut forged = block_one.clone();
    forged.hash = format!("0{}", &forged.hash[1..]);
    let forged_hash = if forged.hash == block_one.hash {
        let mut other = block_one.clone();
        other.hash = format!("1{}", &other.hash[1..]);
        other
    } else {
        forged
    };
    let broken_hash = Blockchain::from_blocks(vec![genesis, forged_hash]);
    assert!(!broken_hash.is_valid());
}

#[test]
fn mining_links_and_clears() {
    let mut ledger = Blockchain::new(100);
    let genesis_hash = {
        let genesis = ledger.get_block(0).unwrap();
        genesis.hash.clone()
    };
    ledger.add_transaction(Transaction::new("alice".to_string(), "bob".to_string(), 9, 4, 150));
    ledger.mine_pending_transactions("validator".to_string(), 30000);
    assert!(ledger.is_valid());
    let mined = ledger.get_block(1).unwrap();
    assert_eq!(mined.index, 1);
    assert_eq!(mined.previous_hash, genesis_hash);
    assert_eq!(mined.transactions.len(), 2);
    assert_eq!(mined.transactions[0].addr, "alice");
    let reward = &mined.transactions[1];
    assert_eq!(reward.addr, "network");
    assert_eq!(reward.to, "validator");
    assert_eq!(reward.amount, 50);
    assert_eq!(reward.fee, 0);
    assert_eq!(reward.timestamp, 30000);
    assert!(ledger.get_block(2).is_none());
}
