//! A guardian-voting contract: guardians lock tokens to earn a vote, vote on
//! contribution tasks until they reach consensus, and verified tasks can have
//! a reward stream started for their contributor.

pub mod types;
pub mod rules;
pub mod contract;
pub mod laws;
