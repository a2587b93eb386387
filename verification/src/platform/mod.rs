//! The plain campaign platform: campaigns that backers back until an end
//! date, milestones decided one vote per backer, and skill tokens.

pub mod contract;
pub mod model;
pub mod types;
