//! The escrow: campaigns funded by backers and paid out milestone by
//! milestone, each release conditional on an attestation verdict and a vote
//! weighted by the square root of what a backer gave.

pub mod campaign;
pub mod contract;
pub mod laws;
pub mod machine;
pub mod model;
pub mod types;
