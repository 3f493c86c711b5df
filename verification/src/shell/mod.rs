//! The bridge between Acre and the parent shell: directive files, generated integrations, and
//! navigation.

pub mod directive;
pub mod generator;
pub mod navigation;

use vstd::prelude::*;

verus! {

#[derive(Debug, Clone, Copy, PartialEq, Eq, Structural)]
pub enum SupportedShell {
    Bash,
    Zsh,
    Fish,
    Powershell,
}

impl SupportedShell {
    /// The lower-case name of the shell.
    pub fn label(&self) -> (s: &'static str)
        ensures
            s@ == match *self {
                SupportedShell::Bash => "bash"@,
                SupportedShell::Zsh => "zsh"@,
                SupportedShell::Fish => "fish"@,
                SupportedShell::Powershell => "powershell"@,
            },
    {
        match self {
            SupportedShell::Bash => "bash",
            SupportedShell::Zsh => "zsh",
            SupportedShell::Fish => "fish",
            SupportedShell::Powershell => "powershell",
        }
    }
}

} // verus!
