pub mod tree;
pub mod keys;
pub mod membership;
pub mod tags;
pub mod epoch;
pub mod ticker;
pub mod market;
pub mod asset;
pub mod pred;
pub mod launch;
pub mod commitment;
pub mod spend_proof;
pub mod action;
pub mod relay;
pub mod payout;
pub mod spend;
pub mod stake;
pub mod scan;
