//! The warm pool: when a workspace may be returned, and the upkeep of slots and records.

pub mod assessment;
pub mod broker;
pub mod maintenance;
pub mod process;
