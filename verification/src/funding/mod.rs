//! Project funding: projects funded up to a target, with milestones that the
//! backers decide by vote.

pub mod contract;
pub mod model;
pub mod types;
