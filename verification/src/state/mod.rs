//! What Acre persists under its root: repository state, configuration, sessions, and pending
//! operations, with the rules that keep them consistent.

pub mod config;
pub mod index;
pub mod leases;
pub mod operations;
pub mod paths;
pub mod repository;
pub mod settings;
pub mod shell;
