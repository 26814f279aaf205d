pub mod consensus_data;
pub mod coinbase;
pub mod stubs;
pub mod mempool;
pub mod block_store;
pub mod scheduler;
pub mod announce;
pub mod recorder;
pub mod engine;
pub mod services;
pub mod producer;
pub mod replay;
pub mod rpc;
pub mod banking;
