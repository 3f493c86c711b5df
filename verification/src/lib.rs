pub mod bytes;
pub mod commands;
pub mod cli;
pub mod environment;
pub mod error;
pub mod number;
pub mod order;
pub mod pool;
pub mod provider;
pub mod shell;
pub mod state;
pub mod target;
pub mod text;
pub mod util;
pub mod ui;
pub mod git;
pub mod model;
