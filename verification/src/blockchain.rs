//! The ledger: an in-memory, hash-linked chain of blocks plus the staging
//! list of transactions for the next block. Mining appends a reward
//! transaction for the validator, snapshots the staged list into a new block
//! linked to the last one, and clears the staging list.

use crate::block::Block;
use crate::transaction::{first_best_index, Mempool, Transaction};
use vstd::prelude::*;

verus! {

/// The reward credited to the validator of each mined block.
pub const BLOCK_REWARD: u128 = 50;

/// A block is mined only when at least this much time has passed since the
/// previous one.
pub const MINING_INTERVAL_MILLIS: u128 = 20000;

/// Every non-genesis block both links to the hash of its predecessor and
/// stores the hash its own content determines.
pub open spec fn chain_valid(chain: Seq<Block>) -> bool {
    forall|i: int|
        1 <= i < chain.len() ==> {
            &&& (#[trigger] chain[i]).previous_hash@ == chain[i - 1].hash@
            &&& chain[i].well_formed()
        }
}

/// Law: a chain holding one block alone is valid; in particular a fresh
/// chain holding only its genesis block passes the audit.
pub proof fn lemma_singleton_chain_valid(b: Block)
    ensures
        chain_valid(seq![b]),
{
}

/// Law: tampering with the previous-hash link of any non-genesis block of a
/// valid chain makes the whole chain invalid, whatever else the forged block
/// holds.
pub proof fn lemma_tampered_link_invalidates(chain: Seq<Block>, k: int, forged: Block)
    requires
        chain_valid(chain),
        1 <= k < chain.len(),
        forged.previous_hash@ != chain[k].previous_hash@,
    ensures
        !chain_valid(chain.update(k, forged)),
{
    let tampered = chain.update(k, forged);
    assert(chain[k].previous_hash@ == chain[k - 1].hash@);
    assert(tampered[k].previous_hash@ != tampered[k - 1].hash@);
}

pub struct Blockchain {
    chain: Vec<Block>,
    pending_transactions: Vec<Transaction>,
}

impl Blockchain {
    /// The blocks mined so far, oldest first.
    pub closed spec fn blocks(self) -> Seq<Block> {
        self.chain@
    }

    /// The transactions staged for the next block.
    pub closed spec fn staged(self) -> Seq<Transaction> {
        self.pending_transactions@
    }

    /// The genesis block: index zero, previous hash `"0"`, no transactions.
    pub fn create_genesis_block(timestamp: u128) -> (b: Block)
        ensures
            b.index == 0,
            b.previous_hash@ == "0"@,
            b.timestamp == timestamp,
            b.nonce == 0,
            b.transactions@ == Seq::<Transaction>::empty(),
            b.well_formed(),
    {
        Block::new(0, String::from_str("0"), Vec::new(), timestamp)
    }

    /// A fresh ledger holding only the genesis block.
    pub fn new(timestamp: u128) -> (chain: Blockchain)
        ensures
            chain.blocks().len() == 1,
            chain.blocks()[0].index == 0,
            chain.blocks()[0].previous_hash@ == "0"@,
            chain.blocks()[0].timestamp == timestamp,
            chain.blocks()[0].transactions@ == Seq::<Transaction>::empty(),
            chain.blocks()[0].well_formed(),
            chain.staged() == Seq::<Transaction>::empty(),
            chain_valid(chain.blocks()),
    {
        let genesis = Self::create_genesis_block(timestamp);
        let mut chain: Vec<Block> = Vec::new();
        chain.push(genesis);
        Blockchain { chain, pending_transactions: Vec::new() }
    }

    /// Wraps an existing block sequence, staged list empty; `is_valid` says
    /// whether what was handed in actually chains.
    pub fn from_blocks(chain: Vec<Block>) -> (ledger: Blockchain)
        ensures
            ledger.blocks() == chain@,
            ledger.staged() == Seq::<Transaction>::empty(),
    {
        Blockchain { chain, pending_transactions: Vec::new() }
    }

    /// Stages a transaction for the next block; validation is the caller's.
    pub fn add_transaction(&mut self, transaction: Transaction)
        ensures
            final(self).blocks() == old(self).blocks(),
            final(self).staged() == old(self).staged().push(transaction),
    {
        self.pending_transactions.push(transaction);
    }

    /// Pulls the highest-priority pending transaction out of the mempool, if
    /// any, into the staging list.
    pub fn stage_from_mempool(&mut self, mempool: &mut Mempool) -> (pulled: bool)
        requires
            old(mempool).inv(),
        ensures
            final(mempool).inv(),
            final(self).blocks() == old(self).blocks(),
            pulled == (old(mempool)@.len() > 0),
            !pulled ==> final(self).staged() == old(self).staged() && final(mempool)@ == old(
                mempool,
            )@,
            pulled ==> exists|k: int|
                {
                    &&& #[trigger] first_best_index(old(mempool)@, k)
                    &&& final(self).staged() == old(self).staged().push(old(mempool)@[k])
                    &&& final(mempool)@ == old(mempool)@.remove(k)
                },
    {
        match mempool.get_highest_fee_transaction() {
            Some(tx) => {
                self.pending_transactions.push(tx);
                true
            },
            None => false,
        }
    }

    /// The time-boxed batching policy: mine once something is staged and the
    /// mining interval has elapsed since the last block.
    pub fn should_mine(&self, now: u128, last_block_time: u128) -> (r: bool)
        ensures
            r == (self.staged().len() > 0 && now - last_block_time > MINING_INTERVAL_MILLIS),
    {
        self.pending_transactions.len() > 0 && now > last_block_time && now - last_block_time
            > MINING_INTERVAL_MILLIS
    }

    /// Appends the validator's reward to the staged transactions, mines them
    /// into a block linked to the last one, and clears the staging list.
    /// Mining a valid chain leaves it valid.
    pub fn mine_pending_transactions(&mut self, validator_address: String, now: u128)
        requires
            old(self).blocks().len() >= 1,
            old(self).blocks().last().index < u64::MAX,
        ensures
            final(self).staged() == Seq::<Transaction>::empty(),
            final(self).blocks() == old(self).blocks().push(final(self).blocks().last()),
            ({
                let mined = final(self).blocks().last();
                let prev = old(self).blocks().last();
                let reward = mined.transactions@.last();
                &&& mined.index == prev.index + 1
                &&& mined.previous_hash@ == prev.hash@
                &&& mined.timestamp == now
                &&& mined.nonce == 0
                &&& mined.well_formed()
                &&& mined.transactions@ == old(self).staged().push(reward)
                &&& reward.addr@ == "network"@
                &&& reward.to == validator_address
                &&& reward.amount == BLOCK_REWARD
                &&& reward.fee == 0
                &&& reward.timestamp == now
                &&& reward.well_formed()
            }),
            chain_valid(old(self).blocks()) ==> chain_valid(final(self).blocks()),
    {
        let reward = Transaction::new(
            String::from_str("network"),
            validator_address,
            BLOCK_REWARD,
            0,
            now,
        );
        self.pending_transactions.push(reward);

        let last = self.chain.len() - 1;
        let previous_index = self.chain[last].index;
        let previous_hash = self.chain[last].hash.clone();
        let transactions = self.pending_transactions.split_off(0);
        let mined = Block::new(previous_index + 1, previous_hash, transactions, now);
        self.chain.push(mined);

        proof {
            let c = old(self).blocks();
            let c2 = self.chain@;
            assert(c2.drop_last() =~= c);
            assert(self.pending_transactions@ =~= Seq::<Transaction>::empty());
            if chain_valid(c) {
                assert forall|i: int|
                    1 <= i < c2.len() implies {
                    &&& (#[trigger] c2[i]).previous_hash@ == c2[i - 1].hash@
                    &&& c2[i].well_formed()
                } by {
                    if i < c.len() {
                        assert(c2[i] == c[i]);
                        assert(c2[i - 1] == c[i - 1]);
                    } else {
                        assert(c2[i] == c2.last());
                        assert(c2[i - 1] == c.last());
                    }
                }
            }
        }
    }

    /// The full-chain audit: true exactly when every non-genesis block links
    /// to its predecessor's hash and stores the hash its content determines.
    pub fn is_valid(&self) -> (r: bool)
        ensures
            r == chain_valid(self.blocks()),
    {
        let n = self.chain.len();
        if n <= 1 {
            return true;
        }
        let mut i: usize = 1;
        while i < n
            invariant
                n == self.chain.len(),
                1 <= i <= n,
                forall|j: int|
                    1 <= j < i ==> {
                        &&& (#[trigger] self.chain@[j]).previous_hash@ == self.chain@[j
                            - 1].hash@
                        &&& self.chain@[j].well_formed()
                    },
            decreases n - i,
        {
            let current = &self.chain[i];
            let previous = &self.chain[i - 1];
            if !(current.previous_hash == previous.hash) {
                return false;
            }
            let computed = Block::calculate_hash(
                current.index,
                current.timestamp,
                current.previous_hash.as_str(),
                current.nonce,
                &current.transactions,
            );
            if !(computed == current.hash) {
                return false;
            }
            i += 1;
        }
        true
    }

    /// How many blocks the chain holds.
    pub fn height(&self) -> (n: usize)
        ensures
            n == self.blocks().len(),
    {
        self.chain.len()
    }

    /// The block at the given height, if the chain is that tall.
    pub fn get_block(&self, index: usize) -> (r: Option<&Block>)
        ensures
            index < self.blocks().len() ==> (r matches Some(b) && *b == self.blocks()[
                index as int
            ]),
            index >= self.blocks().len() ==> r is None,
    {
        if index < self.chain.len() {
            Some(&self.chain[index])
        } else {
            None
        }
    }
}

} // verus!
