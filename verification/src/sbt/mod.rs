//! Reputation tokens: bound to their owner, never transferred, minted by the
//! administrator or the escrow, and revocable by the administrator.

pub mod contract;
pub mod model;
pub mod types;
