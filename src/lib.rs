//! A small proof-of-work ledger: a fork-tolerant block tree, a UTXO index
//! derived from its main chain, transaction validation, a preemptible nonce
//! search and the message handlers that keep peers in agreement.

pub mod block;
pub mod blockchain;
pub mod consts;
pub mod crypto;
pub mod encoding;
pub mod laws;
pub mod ledger_model;
pub mod message;
pub mod middlewares;
pub mod miner;
pub mod transaction;
pub mod util;
pub mod utxo;
pub mod validation;
pub mod wallet;
