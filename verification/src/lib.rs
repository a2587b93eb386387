//! Crowdfunding escrow paid out by milestones, with quadratic voting, and the
//! contracts that surround it, as a verified state machine over plain values.

pub mod address;
pub mod bridge;
pub mod escrow;
pub mod funding;
pub mod math;
pub mod platform;
pub mod reward;
pub mod sbt;
