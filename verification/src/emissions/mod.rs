//! Distribution of BLND emissions over pools, tiers and users.

pub mod claim;
pub mod claim_laws;
pub mod distribution_laws;
pub mod distributor;
pub mod manager;
pub mod ongoing;
pub mod policy;
pub mod reward_zone;
pub mod schedule_laws;
pub mod stream_laws;
pub mod tier_accounting;
pub mod zone_laws;
