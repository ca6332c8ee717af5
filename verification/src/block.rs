//! Blocks of the ledger. A block's hash is SHA-256 of its index, timestamp,
//! previous hash and nonce, followed by its transactions as a JSON array,
//! the numbers rendered in decimal.

use crate::hashing::{sha256_hex, sha256_hex_of};
use crate::json::{json_of_txs, transactions_to_json};
use crate::text::{dec_of, u128_to_dec};
use crate::transaction::Transaction;
use vstd::prelude::*;

verus! {

#[derive(Debug, Clone)]
pub struct Block {
    pub index: u64,
    pub timestamp: u128,
    pub previous_hash: String,
    pub hash: String,
    pub nonce: u64,
    pub transactions: Vec<Transaction>,
}

/// The hash preimage of a block.
pub open spec fn block_preimage(
    index: int,
    timestamp: int,
    previous_hash: Seq<char>,
    nonce: int,
    txs: Seq<Transaction>,
) -> Seq<char> {
    dec_of(index) + dec_of(timestamp) + previous_hash + dec_of(nonce) + json_of_txs(txs)
}

/// The content hash of a block with the given fields.
pub open spec fn block_hash_chars(
    index: int,
    timestamp: int,
    previous_hash: Seq<char>,
    nonce: int,
    txs: Seq<Transaction>,
) -> Seq<char> {
    sha256_hex_of(block_preimage(index, timestamp, previous_hash, nonce, txs))
}

impl Block {
    /// The hash its content determines.
    pub open spec fn content_hash(self) -> Seq<char> {
        block_hash_chars(
            self.index as int,
            self.timestamp as int,
            self.previous_hash@,
            self.nonce as int,
            self.transactions@,
        )
    }

    /// The stored hash is the one the content determines.
    pub open spec fn well_formed(self) -> bool {
        self.hash@ == self.content_hash()
    }

    pub fn calculate_hash(
        index: u64,
        timestamp: u128,
        previous_hash: &str,
        nonce: u64,
        transactions: &Vec<Transaction>,
    ) -> (r: String)
        ensures
            r@ == block_hash_chars(
                index as int,
                timestamp as int,
                previous_hash@,
                nonce as int,
                transactions@,
            ),
            r@.len() == 64,
    {
        let mut input = u128_to_dec(index as u128);
        let timestamp_dec = u128_to_dec(timestamp);
        input.append(timestamp_dec.as_str());
        input.append(previous_hash);
        let nonce_dec = u128_to_dec(nonce as u128);
        input.append(nonce_dec.as_str());
        let txs_json = transactions_to_json(transactions);
        input.append(txs_json.as_str());
        proof {
            assert(input@ =~= block_preimage(
                index as int,
                timestamp as int,
                previous_hash@,
                nonce as int,
                transactions@,
            ));
        }
        sha256_hex(input.as_str())
    }

    /// Builds a block at the given moment; the nonce is reserved for future
    /// proof-of-work and fixed at zero.
    pub fn new(index: u64, previous_hash: String, transactions: Vec<Transaction>, timestamp: u128) -> (b: Block)
        ensures
            b.index == index,
            b.timestamp == timestamp,
            b.previous_hash == previous_hash,
            b.nonce == 0,
            b.transactions == transactions,
            b.well_formed(),
    {
        let nonce: u64 = 0;
        let hash = Self::calculate_hash(index, timestamp, previous_hash.as_str(), nonce, &transactions);
        Block { index, timestamp, previous_hash, hash, nonce, transactions }
    }
}

} // verus!
