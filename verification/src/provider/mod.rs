//! Hosted remotes and pull requests.

pub mod github;
pub mod remote;
