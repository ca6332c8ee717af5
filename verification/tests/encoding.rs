use oxion::block::Block;
use oxion::message::{Message, MessageType};
use oxion::json::transactions_to_json;
use oxion::text::u128_to_dec;
use oxion::transaction::Transaction;
use sha2::{Digest, Sha256};

fn sha_hex(s: &str) -> String {
    let mut hasher = Sha256::new();
    hasher.update(s.as_bytes());
    format!("{:x}", hasher.finalize())
}

#[test]
fn decimal_rendering() {
    assert_eq!(u128_to_dec(0), "0");
    assert_eq!(u128_to_dec(7), "7");
    assert_eq!(u128_to_dec(10), "10");
    assert_eq!(u128_to_dec(20000), "20000");
    assert_eq!(
        u128_to_dec(340282366920938463463374607431768211455),
        "340282366920938463463374607431768211455"
    );
}

#[test]
fn transaction_hash_matches_direct_digest() {
    let h = Transaction::calculate_hash("alice", "bob", 5, 7, 3);
    assert_eq!(h, sha_hex("alicebob573"));
    let tx = Transaction::new("alice".to_string(), "bob".to_string(), 5, 3, 7);
    assert_eq!(tx.hash, sha_hex("alicebob573"));
}

#[test]
fn message_hash_matches_direct_digest() {
    let h = Message::calculate_hash(MessageType::Status, "x", 42);
    assert_eq!(h, sha_hex("Statusx42"));
    let m = Message::new(MessageType::Block, "payload".to_string(), 9);
    assert_eq!(m.hash, sha_hex("Blockpayload9"));
}

#[test]
fn empty_transaction_list_renders_as_empty_array() {
    let txs: Vec<Transaction> = Vec::new();
    assert_eq!(transactions_to_json(&txs), "[]");
}

#[test]
fn transaction_list_renders_as_json_objects() {
    let a = Transaction::new("alice".to_string(), "bob".to_string(), 5, 3, 7);
    let b = Transaction::new("carol".to_string(), "dave".to_string(), 11, 2, 8);
    let txs = vec![a.clone(), b.clone()];
    let expected = format!(
        "[{{\"addr\":\"alice\",\"to\":\"bob\",\"amount\":5,\"timestamp\":7,\"fee\":3,\"hash\":\"{}\"}},{{\"addr\":\"carol\",\"to\":\"dave\",\"amount\":11,\"timestamp\":8,\"fee\":2,\"hash\":\"{}\"}}]",
        a.hash, b.hash
    );
    assert_eq!(transactions_to_json(&txs), expected);
}

#[test]
fn json_strings_are_escaped() {
    let odd = "q\"w\\e\nr\tz\u{1}";
    let tx = Transaction::new(odd.to_string(), "to".to_string(), 1, 1, 1);
    let rendered = transactions_to_json(&vec![tx.clone()]);
    let expected = format!(
        "[{{\"addr\":\"q\\\"w\\\\e\\nr\\tz\\u0001\",\"to\":\"to\",\"amount\":1,\"timestamp\":1,\"fee\":1,\"hash\":\"{}\"}}]",
        tx.hash
    );
    assert_eq!(rendered, expected);
}

#[test]
fn block_hash_matches_direct_digest() {
    let txs: Vec<Transaction> = Vec::new();
    let h = Block::calculate_hash(0, 9, "0", 0, &txs);
    assert_eq!(h, sha_hex("0900[]"));

    let tx = Transaction::new("alice".to_string(), "bob".to_string(), 5, 3, 7);
    let txs = vec![tx.clone()];
    let preimage = format!(
        "1120xyz0[{{\"addr\":\"alice\",\"to\":\"bob\",\"amount\":5,\"timestamp\":7,\"fee\":3,\"hash\":\"{}\"}}]",
        tx.hash
    );
    assert_eq!(Block::calculate_hash(1, 120, "xyz", 0, &txs), sha_hex(&preimage));
}
