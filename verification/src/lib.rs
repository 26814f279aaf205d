//! A hybrid SHA256d proof-of-work / coin-age proof-of-stake chain with
//! compact note bundles, an epoch-bounded note forest and a first-seen
//! ticker book, together with the node-side bookkeeping (block store,
//! mempool, block recorder, peer tips) that drives it.

pub mod params;
pub mod bytes;
pub mod hash;
pub mod encode;
pub mod crypto;
pub mod consensus;
pub mod order;
pub mod notes;
pub mod node;
pub mod chain;
pub mod wallet;
