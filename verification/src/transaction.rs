//! Transactions and the mempool. A transaction is content-addressed: its
//! hash is SHA-256 of the other five fields rendered in decimal and
//! concatenated. The mempool holds pending transactions with no two equal
//! hashes and serves them highest fee first, oldest first among equal fees.

use crate::hashing::{sha256_hex, sha256_hex_of};
use crate::text::{dec_of, u128_to_dec};
use vstd::prelude::*;

verus! {

#[derive(Debug, Clone, PartialEq, Eq)]
pub struct Transaction {
    pub addr: String,
    pub to: String,
    pub amount: u128,
    pub timestamp: u128,
    pub fee: u64,
    pub hash: String,
}

/// The hash preimage of a transaction: sender, recipient, amount, timestamp
/// and fee, concatenated with the numbers in decimal.
pub open spec fn tx_preimage(
    addr: Seq<char>,
    to: Seq<char>,
    amount: int,
    timestamp: int,
    fee: int,
) -> Seq<char> {
    addr + to + dec_of(amount) + dec_of(timestamp) + dec_of(fee)
}

/// The content hash of a transaction with the given fields.
pub open spec fn tx_hash_chars(
    addr: Seq<char>,
    to: Seq<char>,
    amount: int,
    timestamp: int,
    fee: int,
) -> Seq<char> {
    sha256_hex_of(tx_preimage(addr, to, amount, timestamp, fee))
}

impl Transaction {
    /// The hash its content determines.
    pub open spec fn content_hash(self) -> Seq<char> {
        tx_hash_chars(
            self.addr@,
            self.to@,
            self.amount as int,
            self.timestamp as int,
            self.fee as int,
        )
    }

    /// The stored hash is the one the content determines.
    pub open spec fn well_formed(self) -> bool {
        self.hash@ == self.content_hash()
    }

    pub fn calculate_hash(addr: &str, to: &str, amount: u128, timestamp: u128, fee: u64) -> (r:
        String)
        ensures
            r@ == tx_hash_chars(addr@, to@, amount as int, timestamp as int, fee as int),
            r@.len() == 64,
    {
        let mut input = addr.to_owned();
        input.append(to);
        let amount_dec = u128_to_dec(amount);
        input.append(amount_dec.as_str());
        let timestamp_dec = u128_to_dec(timestamp);
        input.append(timestamp_dec.as_str());
        let fee_dec = u128_to_dec(fee as u128);
        input.append(fee_dec.as_str());
        proof {
            assert(input@ =~= tx_preimage(
                addr@,
                to@,
                amount as int,
                timestamp as int,
                fee as int,
            ));
        }
        sha256_hex(input.as_str())
    }

    pub fn new(addr: String, to: String, amount: u128, fee: u64, timestamp: u128) -> (t:
        Transaction)
        ensures
            t.addr == addr,
            t.to == to,
            t.amount == amount,
            t.timestamp == timestamp,
            t.fee == fee,
            t.well_formed(),
    {
        let hash = Self::calculate_hash(addr.as_str(), to.as_str(), amount, timestamp, fee);
        Transaction { addr, to, amount, timestamp, fee, hash }
    }

    /// A copy equal to the original, usable where contracts must track it.
    pub fn duplicate(&self) -> (t: Transaction)
        ensures
            t == *self,
    {
        Transaction {
            addr: self.addr.clone(),
            to: self.to.clone(),
            amount: self.amount,
            timestamp: self.timestamp,
            fee: self.fee,
            hash: self.hash.clone(),
        }
    }
}

/// Some transaction in the pool carries this hash.
pub open spec fn contains_hash(pool: Seq<Transaction>, h: Seq<char>) -> bool {
    exists|i: int| 0 <= i < pool.len() && pool[i].hash@ == h
}

/// No two transactions in the pool carry the same hash.
pub open spec fn distinct_hashes(pool: Seq<Transaction>) -> bool {
    forall|i: int, j: int|
        0 <= i < j < pool.len() ==> pool[i].hash@ != pool[j].hash@
}

/// The serving order of the mempool: a strictly higher fee wins; among equal
/// fees the older timestamp wins.
pub open spec fn higher_priority(a: Transaction, b: Transaction) -> bool {
    a.fee > b.fee || (a.fee == b.fee && a.timestamp < b.timestamp)
}

/// `k` is the index the mempool serves next: no entry outranks it, and it
/// strictly outranks every earlier entry (so among entries of equal rank the
/// first submitted is served).
pub open spec fn first_best_index(pool: Seq<Transaction>, k: int) -> bool {
    &&& 0 <= k < pool.len()
    &&& forall|j: int| 0 <= j < pool.len() ==> !higher_priority(pool[j], pool[k])
    &&& forall|j: int| 0 <= j < k ==> higher_priority(pool[k], pool[j])
}

proof fn lemma_remove_keeps_distinct(pool: Seq<Transaction>, k: int)
    requires
        distinct_hashes(pool),
        0 <= k < pool.len(),
    ensures
        distinct_hashes(pool.remove(k)),
{
    let q = pool.remove(k);
    assert forall|i: int, j: int| 0 <= i < j < q.len() implies q[i].hash@ != q[j].hash@ by {
        let i0: int = if i < k {
            i
        } else {
            i + 1
        };
        let j0: int = if j < k {
            j
        } else {
            j + 1
        };
        assert(q[i] == pool[i0]);
        assert(q[j] == pool[j0]);
    }
}

/// Law: resubmitting content already accepted is rejected. Two well-formed
/// transactions with the same sender, recipient, amount, timestamp and fee
/// carry the same hash, so once one of them has entered a pool, the pool
/// contains the hash of the other and `add_transaction` must turn it away.
pub proof fn lemma_duplicate_content_is_rejected(
    pool: Seq<Transaction>,
    accepted: Transaction,
    resubmitted: Transaction,
)
    requires
        accepted.well_formed(),
        resubmitted.well_formed(),
        accepted.addr@ == resubmitted.addr@,
        accepted.to@ == resubmitted.to@,
        accepted.amount == resubmitted.amount,
        accepted.timestamp == resubmitted.timestamp,
        accepted.fee == resubmitted.fee,
    ensures
        contains_hash(pool.push(accepted), resubmitted.hash@),
{
    assert(pool.push(accepted)[pool.len() as int].hash@ == resubmitted.hash@);
}

fn outranks(a: &Transaction, b: &Transaction) -> (r: bool)
    ensures
        r == higher_priority(*a, *b),
{
    a.fee > b.fee || (a.fee == b.fee && a.timestamp < b.timestamp)
}

/// The holding area for transactions not yet mined into a block.
pub struct Mempool {
    transactions: Vec<Transaction>,
}

impl View for Mempool {
    type V = Seq<Transaction>;

    closed spec fn view(&self) -> Seq<Transaction> {
        self.transactions@
    }
}

impl Mempool {
    /// No two pending transactions carry the same hash.
    pub open spec fn inv(self) -> bool {
        distinct_hashes(self@)
    }

    pub fn new() -> (m: Mempool)
        ensures
            m@ == Seq::<Transaction>::empty(),
            m.inv(),
    {
        Mempool { transactions: Vec::new() }
    }

    /// Admits the transaction unless its hash is already pending; a
    /// duplicate is a no-op reported as `false`, never an error.
    pub fn add_transaction(&mut self, tx: Transaction) -> (accepted: bool)
        requires
            old(self).inv(),
        ensures
            final(self).inv(),
            accepted == !contains_hash(old(self)@, tx.hash@),
            accepted ==> final(self)@ == old(self)@.push(tx),
            !accepted ==> final(self)@ == old(self)@,
    {
        let n = self.transactions.len();
        let mut i: usize = 0;
        while i < n
            invariant
                self.transactions@ == old(self)@,
                distinct_hashes(self.transactions@),
                n == self.transactions.len(),
                i <= n,
                forall|j: int| 0 <= j < i ==> self.transactions@[j].hash@ != tx.hash@,
            decreases n - i,
        {
            if self.transactions[i].hash == tx.hash {
                return false;
            }
            i += 1;
        }
        self.transactions.push(tx);
        true
    }

    /// Removes and returns the pending transaction carrying the given
    /// hash, if one does.
    pub fn remove_transaction(&mut self, tx_id: &String) -> (removed: Option<Transaction>)
        requires
            old(self).inv(),
        ensures
            final(self).inv(),
            !contains_hash(old(self)@, tx_id@) ==> removed is None && final(self)@ == old(
                self,
            )@,
            contains_hash(old(self)@, tx_id@) ==> exists|k: int|
                {
                    &&& 0 <= k < old(self)@.len()
                    &&& old(self)@[k].hash@ == tx_id@
                    &&& removed == Some(old(self)@[k])
                    &&& final(self)@ == old(self)@.remove(k)
                },
    {
        let ghost pool = self.transactions@;
        let n = self.transactions.len();
        let mut i: usize = 0;
        while i < n
            invariant
                pool == self.transactions@,
                pool == old(self)@,
                distinct_hashes(pool),
                n == pool.len(),
                i <= n,
                forall|j: int| 0 <= j < i ==> pool[j].hash@ != tx_id@,
            decreases n - i,
        {
            if self.transactions[i].hash == *tx_id {
                proof {
                    lemma_remove_keeps_distinct(pool, i as int);
                }
                let removed = self.transactions.remove(i);
                return Some(removed);
            }
            i += 1;
        }
        None
    }

    /// A read-only snapshot of everything pending.
    pub fn get_all_transactions(&self) -> (r: Vec<Transaction>)
        ensures
            r@ == self@,
    {
        let mut r: Vec<Transaction> = Vec::new();
        let n = self.transactions.len();
        let mut i: usize = 0;
        while i < n
            invariant
                n == self.transactions.len(),
                i <= n,
                r@ == self.transactions@.take(i as int),
            decreases n - i,
        {
            r.push(self.transactions[i].duplicate());
            proof {
                assert(r@ =~= self.transactions@.take(i + 1));
            }
            i += 1;
        }
        proof {
            assert(self.transactions@.take(n as int) =~= self.transactions@);
        }
        r
    }

    /// Removes and returns the next transaction under the serving order:
    /// highest fee first, oldest first among equal fees, the earliest
    /// submitted among entries of wholly equal rank.
    pub fn get_highest_fee_transaction(&mut self) -> (r: Option<Transaction>)
        requires
            old(self).inv(),
        ensures
            final(self).inv(),
            old(self)@.len() == 0 ==> r is None && final(self)@ == old(self)@,
            old(self)@.len() > 0 ==> exists|k: int|
                {
                    &&& #[trigger] first_best_index(old(self)@, k)
                    &&& r == Some(old(self)@[k])
                    &&& final(self)@ == old(self)@.remove(k)
                },
    {
        if self.transactions.len() == 0 {
            return None;
        }
        let ghost pool = self.transactions@;
        let mut best: usize = 0;
        let mut i: usize = 1;
        while i < self.transactions.len()
            invariant
                self.transactions@ == pool,
                0 < i <= pool.len(),
                best < i,
                forall|j: int| 0 <= j < i ==> !higher_priority(pool[j], pool[best as int]),
                forall|j: int| 0 <= j < best ==> higher_priority(pool[best as int], pool[j]),
            decreases pool.len() - i,
        {
            if outranks(&self.transactions[i], &self.transactions[best]) {
                best = i;
            }
            i += 1;
        }
        proof {
            assert(first_best_index(pool, best as int));
            lemma_remove_keeps_distinct(pool, best as int);
        }
        let t = self.transactions.remove(best);
        Some(t)
    }
}

} // verus!
