//! Relay of validator-staking changes and checkpoints between a parent chain
//! and a child subnet, with a registry of per-subnet connections.

pub mod address;
pub mod address_text;
pub mod subnet;
pub mod subnet_text;
pub mod staking;
pub mod facade;
pub mod pool;
pub mod checkpoint;
pub mod change_log;
