//! Core of a proof-of-stake blockchain node: the transaction-verification
//! pipeline, the UTXO state machine with hierarchical caching and undo, the
//! composable accounting delta engine, and the mempool admission engine.

pub mod block;
pub mod chainstate;
pub mod consensus;
pub mod config;
pub mod delta;
pub mod encode;
pub mod feerate;
pub mod mempool;
pub mod mempool_store;
pub mod memusage;
pub mod mocks;
pub mod p2ptypes;
pub mod primitives;
pub mod storage;
pub mod transaction;
pub mod utxo;
pub mod tx_verifier;
pub mod vecmap;
