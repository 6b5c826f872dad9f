//! A verified core for a proof-of-history validator clock: a one-way hash
//! chain that produces ordered entries, a recorder that serializes concurrent
//! record/tick mutation, bounded per-validator vote storage, and the
//! stake-weighted supermajority ("finality") computation over vote snapshots.

pub mod entry;
pub mod finality;
pub mod hashing;
pub mod ledger;
pub mod poh_service;
pub mod recorder;
pub mod vote_state;
