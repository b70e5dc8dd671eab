//! A peer-to-peer ledger node's core: the block and chain data model with its
//! proof-of-work digest, the chain's binary persistence format, the peer
//! message protocol with its dispatch rules, the synchronisation schedule,
//! and the wallet that keeps a signing key under a password.

pub mod blockchain;
pub mod bytes;
pub mod config;
pub mod hash;
pub mod json;
pub mod network;
pub mod node;
pub mod protocol;
pub mod scheduler;
pub mod text;
pub mod wallet;
