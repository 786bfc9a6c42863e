//! The decision core of a vault node: one signer of a t-of-n federation that
//! guards a Bitcoin vault.

pub mod acceptance;
pub mod broadcast;
pub mod carrier;
pub mod checks;
pub mod codec;
pub mod commitment;
pub mod config;
pub mod coord;
pub mod crypto;
pub mod descriptor;
pub mod fire;
pub mod firing;
pub mod freshness;
pub mod ingress;
pub mod ladder;
pub mod lifecycle;
pub mod measures;
pub mod memory;
pub mod node;
pub mod order;
pub mod passage;
pub mod pin;
pub mod policy;
pub mod prevouts;
pub mod proto;
pub mod questions;
pub mod refresh;
pub mod registry;
pub mod replay;
pub mod resting;
pub mod rungs;
pub mod seal;
pub mod signatures;
pub mod silence;
pub mod spend;
pub mod steps;
pub mod success;
pub mod sweep;
pub mod table;
pub mod text;
pub mod tx;
pub mod verdict;
pub mod windows;
