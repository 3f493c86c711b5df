//! `acre setup`: the marked block it installs into a shell startup file.

use vstd::prelude::*;

use crate::shell::SupportedShell;
use crate::text::{chars_of, ends_with, find_chars_from, find_seq, first_occurrence_from, push_chars, push_str, slice_chars, string_from_chars};

verus! {

/// Marks the start of Acre's block in a startup file.
pub const START: &'static str = "# >>> acre >>>";
/// Marks the end of Acre's block.
pub const END: &'static str = "# <<< acre <<<";

/// The startup file's text with `desired` installed: an existing marked block is replaced in
/// place; otherwise `desired` is appended on a line of its own, after a newline when the file
/// does not end with one.
pub open spec fn install_block_spec(current: Seq<char>, desired: Seq<char>) -> Seq<char> {
    let appended = current + (if current.len() == 0 || ends_with(current, seq!['\n']) {
        Seq::<char>::empty()
    } else {
        seq!['\n']
    }) + desired + seq!['\n'];
    match find_seq(current, START@) {
        Some(start) => match first_occurrence_from(current, END@, start + START@.len()) {
            Some(end) => current.take(start) + desired + current.skip(end + END@.len()),
            None => appended,
        },
        None => appended,
    }
}

/// Installs `desired` (a block between the markers) into the startup file text `current`.
/// Markers let a later run replace the block in place instead of appending a second copy.
pub fn install_block(current: &str, desired: &str) -> (next: String)
    ensures
        next@ == install_block_spec(current@, desired@),
{
    let text = chars_of(current);
    let n = text.len();
    let start_marker = chars_of(START);
    let end_marker = chars_of(END);
    match find_chars_from(&text, &start_marker, 0) {
        Some(start) => {
            proof {
                crate::text::lemma_first_occurrence_from(text@, START@, 0);
                assert(crate::text::occurs_at(text@, start_marker@, start as int));
            }
            assert(start + start_marker@.len() <= n);
            let from = start + start_marker.len();
            match find_chars_from(&text, &end_marker, from) {
                Some(end) => {
                    proof {
                        crate::text::lemma_first_occurrence_from(text@, END@, from as int);
                        assert(crate::text::occurs_at(text@, end_marker@, end as int));
                    }
                    assert(end + end_marker@.len() <= n);
                    let mut out = slice_chars(&text, 0, start);
                    push_str(&mut out, desired);
                    let tail = slice_chars(&text, end + end_marker.len(), text.len());
                    push_chars(&mut out, &tail);
                    assert(out@ =~= current@.take(start as int) + desired@ + current@.skip(end + END@.len()));
                    return string_from_chars(&out);
                },
                None => {},
            }
        },
        None => {},
    }
    let mut out = text;
    let newline = vec!['\n'];
    let ends_in_newline = crate::text::chars_end_with(&out, &newline);
    assert(newline@ =~= seq!['\n']);
    if !(out.len() == 0 || ends_in_newline) {
        out.push('\n');
    }
    push_str(&mut out, desired);
    out.push('\n');
    string_from_chars(&out)
}


/// The line a shell's startup file runs to load the integration.
pub open spec fn shell_snippet_spec(shell: SupportedShell) -> Seq<char> {
    match shell {
        SupportedShell::Fish => "acre shell init fish | source"@,
        SupportedShell::Powershell => "Invoke-Expression (& acre shell init powershell | Out-String)"@,
        SupportedShell::Bash => "eval \"$(acre shell init bash)\""@,
        SupportedShell::Zsh => "eval \"$(acre shell init zsh)\""@,
    }
}

pub fn shell_snippet(shell: SupportedShell) -> (snippet: &'static str)
    ensures
        snippet@ == shell_snippet_spec(shell),
{
    match shell {
        SupportedShell::Fish => "acre shell init fish | source",
        SupportedShell::Powershell => "Invoke-Expression (& acre shell init powershell | Out-String)",
        SupportedShell::Bash => "eval \"$(acre shell init bash)\"",
        SupportedShell::Zsh => "eval \"$(acre shell init zsh)\"",
    }
}

/// What a login bash runs: the integration, in interactive non-POSIX bash only.
pub const BASH_LOGIN_SNIPPET: &'static str = "if [ -n \"${BASH_VERSION:-}\" ] && ! shopt -oq posix; then eval \"$(acre shell init bash)\"; fi";

/// The shell to set up when none is named: PowerShell where its module path is set, else the
/// login shell's name (`fish` or `bash`), else zsh.
pub open spec fn detected_shell(powershell: bool, login_shell: Option<Seq<char>>) -> SupportedShell {
    if powershell {
        SupportedShell::Powershell
    } else if login_shell == Some("fish"@) {
        SupportedShell::Fish
    } else if login_shell == Some("bash"@) {
        SupportedShell::Bash
    } else {
        SupportedShell::Zsh
    }
}

pub fn detect_shell(powershell: bool, login_shell: Option<&str>) -> (shell: SupportedShell)
    ensures
        shell == detected_shell(powershell, match login_shell {
            Some(s) => Some(s@),
            None => None,
        }),
{
    if powershell {
        return SupportedShell::Powershell;
    }
    match login_shell {
        Some(name) => {
            if crate::text::str_equal(name, "fish") {
                SupportedShell::Fish
            } else if crate::text::str_equal(name, "bash") {
                SupportedShell::Bash
            } else {
                SupportedShell::Zsh
            }
        },
        None => SupportedShell::Zsh,
    }
}

/// The block installed for `shell`: the markers around its snippet.
pub fn shell_block(snippet: &str) -> (block: String)
    ensures
        block@ == START@ + seq!['\n'] + snippet@ + seq!['\n'] + END@,
{
    let mut text = chars_of(START);
    text.push('\n');
    push_str(&mut text, snippet);
    text.push('\n');
    push_str(&mut text, END);
    string_from_chars(&text)
}

} // verus!
