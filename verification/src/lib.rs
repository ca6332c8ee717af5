//! Core of a minimal proof-of-stake blockchain node: a hash-linked ledger of
//! blocks, a fee-prioritized mempool, a stake-weighted validator selector, a
//! time-bounded dedup buffer for gossip fingerprints, and the dispatch rules
//! of the gossip transport. Networking, clocks and randomness live outside;
//! the functions here take timestamps and random draws as plain arguments.

pub mod block;
pub mod blockchain;
pub mod buffer;
pub mod gossip;
pub mod hashing;
pub mod json;
pub mod message;
pub mod pos;
pub mod text;
pub mod transaction;
