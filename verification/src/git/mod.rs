//! Reading Git: porcelain parsers, repository facts, and the commands Acre asks Git to run.

pub mod commands;
pub mod content;
pub mod operations;
pub mod refs;
pub mod repository;
pub mod runner;
pub mod status;
pub mod worktrees;
