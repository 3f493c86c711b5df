//! Dependency environments: which ignored directories are approved caches, what state a
//! workspace's environment is in, and which local files are seeded into it.

pub mod clone;
pub mod definitions;
pub mod fingerprint;
pub mod inspect;
pub mod roots;
pub mod seed;
