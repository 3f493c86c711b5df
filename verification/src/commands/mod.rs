//! What the commands decide: the shell-integration block `setup` installs, completion values,
//! and which workspace a command is about.

pub mod common;
pub mod done;
pub mod open;
pub mod opened;
pub mod internal;
pub mod machine;
pub mod setup;
pub mod system;
