//! The per-invocation context handed to every command: global options, where the command was
//! aimed, and what the wrapping shell function told Acre about itself.

use vstd::prelude::*;

verus! {

#[derive(Debug, Clone)]
pub struct GlobalOptions {
    pub directory: Option<String>,
    pub json: bool,
    pub no_color: bool,
    pub plain: bool,
    pub verbose: bool,
}

/// What the shell integration passed in: whether it is active, where to write the directive,
/// the shell session, and the shell's pid.
#[derive(Debug, Clone)]
pub struct ShellBridge {
    pub active: bool,
    pub directive_file: Option<String>,
    pub session_id: Option<String>,
    pub pid: Option<u32>,
}

#[derive(Debug, Clone)]
pub struct CommandContext {
    pub cwd: String,
    pub interactive: bool,
    pub global: GlobalOptions,
    pub shell: ShellBridge,
}

} // verus!
