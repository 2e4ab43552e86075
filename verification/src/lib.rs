//! A minimal single-process ledger: signed value transfers batched into
//! proof-of-work blocks that are linked into a chain.
//!
//! The layers build on one another. [`wallet`] makes identities that sign
//! and verify; [`transaction`] makes signed entries; [`block`] batches
//! entries under a Merkle root ([`merkle`]) and mines them; [`blockchain`]
//! chains blocks, validates the chain ([`validity`]) and derives balances
//! ([`balance`]). [`hashing`], [`codec`] and [`text`] hold the text forms
//! that the layers share, and [`error`] the failures that they report.

mod ambient;
pub mod balance;
pub mod block;
pub mod blockchain;
pub mod codec;
pub mod error;
pub mod hashing;
pub mod merkle;
pub mod text;
pub mod transaction;
pub mod validity;
pub mod wallet;
