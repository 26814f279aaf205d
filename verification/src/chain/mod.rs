//! Blocks, classic transactions, the chain itself, the default mining pool
//! and chain snapshots.

pub mod block;
pub mod transaction;
pub mod blockchain;
pub mod store;
pub mod pool;
