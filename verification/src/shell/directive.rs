//! The directive file: how Acre tells the wrapping shell function to change directory or to
//! resume a command. Fields are NUL-terminated, so a path with a newline or a space survives.

use vstd::prelude::*;

use crate::cli::CommandContext;
use crate::error::{AcreError, EXIT_ENVIRONMENT};
use crate::text::push_bytes;

verus! {

/// Checked by the generated shell functions; a change makes them refuse rather than misread.
pub const DIRECTIVE_VERSION: &'static str = "acre-directive-v1";

/// The directive's bytes: version, action, target and token, each followed by a NUL.
pub open spec fn directive_spec(action: Seq<char>, target: Seq<char>, token: Seq<char>) -> Seq<u8> {
    vstd::utf8::encode_utf8("acre-directive-v1"@) + seq![0u8] + vstd::utf8::encode_utf8(action)
        + seq![0u8] + vstd::utf8::encode_utf8(target) + seq![0u8] + vstd::utf8::encode_utf8(token)
        + seq![0u8]
}

/// A directive to write: the file the shell integration named, and its contents.
#[derive(Debug)]
pub struct Directive {
    pub path: String,
    pub bytes: Vec<u8>,
}

fn field(out: &mut Vec<u8>, value: &str)
    ensures
        final(out)@ == old(out)@ + vstd::utf8::encode_utf8(value@) + seq![0u8],
{
    push_bytes(out, value.as_bytes());
    out.push(0u8);
}

/// The directive for `action`, or the error when the shell integration is not active.
pub open spec fn directive_result(
    context: CommandContext,
    action: Seq<char>,
    target: Seq<char>,
    token: Seq<char>,
    r: Result<Directive, AcreError>,
) -> bool {
    match context.shell.directive_file {
        Some(path) => r matches Ok(d) && d.path@ == path@ && d.bytes@ == directive_spec(action, target, token),
        None => r matches Err(e) && e.code == "ACRE_SHELL_INTEGRATION_REQUIRED" && e.exit_code
            == EXIT_ENVIRONMENT,
    }
}

fn write_directive(context: &CommandContext, action: &str, target: &str, token: &str) -> (r: Result<
    Directive,
    AcreError,
>)
    ensures
        directive_result(*context, action@, target@, token@, r),
{
    match &context.shell.directive_file {
        None => Err(
            AcreError::new(
                "ACRE_SHELL_INTEGRATION_REQUIRED",
                "Acre shell integration is not active.",
                EXIT_ENVIRONMENT,
            ),
        ),
        Some(path) => {
            let mut bytes: Vec<u8> = Vec::new();
            field(&mut bytes, DIRECTIVE_VERSION);
            field(&mut bytes, action);
            field(&mut bytes, target);
            field(&mut bytes, token);
            Ok(Directive { path: path.clone(), bytes })
        },
    }
}

/// Tells the shell to change directory to `target`.
pub fn write_cd_directive(context: &CommandContext, target: &str) -> (r: Result<Directive, AcreError>)
    ensures
        directive_result(*context, "cd"@, target@, ""@, r),
{
    write_directive(context, "cd", target, "")
}

/// Tells the shell to change directory to `destination` and then resume with `token`.
pub fn write_resume_directive(context: &CommandContext, destination: &str, token: &str) -> (r: Result<
    Directive,
    AcreError,
>)
    ensures
        directive_result(*context, "resume-after-cd"@, destination@, token@, r),
{
    write_directive(context, "resume-after-cd", destination, token)
}

} // verus!
