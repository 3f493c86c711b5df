//! How Git is run: the argv Acre hands to a process, what a finished process reports, and how a
//! failure is put into words. Starting the process and collecting its output happen around it.

use vstd::prelude::*;

use crate::error::{AcreError, EXIT_ENVIRONMENT, EXIT_GIT};
use crate::order::views;
use crate::provider::remote::{trim_whitespace, trim_whitespace_exec};
use crate::text::{chars_of, lossy_string, push_chars, push_str, string_from_chars, utf8_lossy};

verus! {

/// Everything captured from a finished process.
#[derive(Debug, Clone)]
pub struct ProcessResult {
    pub argv: Vec<String>,
    pub cwd: Option<String>,
    pub status: i32,
    pub stdout: Vec<u8>,
    pub stderr: Vec<u8>,
    pub duration_ms: u128,
}

/// How to run a process: where, with what input, for how long at most, and which exit statuses
/// count as success (any other becomes an error).
#[derive(Debug, Clone)]
pub struct RunOptions {
    pub cwd: Option<String>,
    pub stdin: Option<Vec<u8>>,
    pub timeout_ms: Option<u64>,
    pub accepted_statuses: Vec<i32>,
}

impl RunOptions {
    /// No working directory, no input, no time limit, and only status 0 accepted.
    pub fn default_options() -> (o: RunOptions)
        ensures
            o.cwd is None,
            o.stdin is None,
            o.timeout_ms is None,
            o.accepted_statuses@ == seq![0i32],
    {
        RunOptions { cwd: None, stdin: None, timeout_ms: None, accepted_statuses: vec![0i32] }
    }
}

/// A process to start: the executable, its arguments, and how to run it.
#[derive(Debug, Clone)]
pub struct Invocation {
    pub executable: String,
    pub args: Vec<String>,
    pub options: RunOptions,
}

/// Every Git run disables repository hooks and the filesystem monitor: Acre never executes
/// repository-controlled code.
pub open spec fn git_prefix() -> Seq<Seq<char>> {
    seq!["-c"@, "core.hooksPath=/dev/null"@, "-c"@, "core.fsmonitor=false"@]
}

pub open spec fn str_views(args: Seq<&str>) -> Seq<Seq<char>> {
    args.map_values(|a: &str| a@)
}

/// The Git invocation for `args` in `cwd` with `options`.
pub open spec fn is_git_invocation(inv: Invocation, cwd: Seq<char>, args: Seq<Seq<char>>, options: RunOptions) -> bool {
    &&& inv.executable@ == "git"@
    &&& views(inv.args@) == git_prefix() + args
    &&& inv.options.cwd matches Some(c) && c@ == cwd
    &&& inv.options.stdin == options.stdin
    &&& inv.options.timeout_ms == options.timeout_ms
    &&& inv.options.accepted_statuses == options.accepted_statuses
}

fn owned_args(args: &[&str]) -> (r: Vec<String>)
    ensures
        views(r@) == str_views(args@),
{
    let mut r: Vec<String> = Vec::new();
    let mut i: usize = 0;
    while i < args.len()
        invariant
            i <= args@.len(),
            views(r@) == str_views(args@.take(i as int)),
        decreases args.len() - i,
    {
        let ghost before = views(r@);
        r.push(args[i].to_owned());
        assert(views(r@) =~= before.push(args@[i as int]@));
        assert(str_views(args@.take(i + 1)) =~= str_views(args@.take(i as int)).push(args@[i as int]@));
        i = i + 1;
    }
    assert(args@.take(args@.len() as int) =~= args@);
    r
}

/// The process `run_git_with` starts: Git in `cwd` with hooks and the filesystem monitor off,
/// then `args`.
pub fn run_git_with(cwd: &str, args: &[&str], options: RunOptions) -> (inv: Invocation)
    ensures
        is_git_invocation(inv, cwd@, str_views(args@), options),
{
    let prefix = ["-c", "core.hooksPath=/dev/null", "-c", "core.fsmonitor=false"];
    let mut all = owned_args(&prefix);
    assert(str_views(prefix@) =~= git_prefix());
    let rest = owned_args(args);
    let ghost before = views(all@);
    let mut i: usize = 0;
    while i < rest.len()
        invariant
            i <= rest@.len(),
            views(all@) == before + views(rest@).take(i as int),
        decreases rest.len() - i,
    {
        let ghost b = views(all@);
        all.push(rest[i].clone());
        assert(views(all@) =~= b.push(rest@[i as int]@));
        assert(views(rest@).take(i + 1) =~= views(rest@).take(i as int).push(rest@[i as int]@));
        i = i + 1;
    }
    assert(views(rest@).take(rest@.len() as int) =~= views(rest@));
    Invocation {
        executable: "git".to_owned(),
        args: all,
        options: RunOptions {
            cwd: Some(cwd.to_owned()),
            stdin: options.stdin,
            timeout_ms: options.timeout_ms,
            accepted_statuses: options.accepted_statuses,
        },
    }
}

/// The process `run_git` starts: Git with the default options.
pub fn run_git(cwd: &str, args: &[&str]) -> (inv: Invocation)
    ensures
        inv.executable@ == "git"@,
        views(inv.args@) == git_prefix() + str_views(args@),
        inv.options.cwd matches Some(c) && c@ == cwd@,
        inv.options.stdin is None,
        inv.options.timeout_ms is None,
        inv.options.accepted_statuses@ == seq![0i32],
{
    run_git_with(cwd, args, RunOptions::default_options())
}

/// A process's standard output as text, without surrounding whitespace.
pub fn decode_stdout(result: &ProcessResult) -> (text: String)
    ensures
        text@ == trim_whitespace(utf8_lossy(result.stdout@)),
{
    let text = lossy_string(&result.stdout);
    let chars = chars_of(text.as_str());
    let trimmed = trim_whitespace_exec(&chars);
    string_from_chars(&trimmed)
}


/// `n` in decimal, with a minus sign when it is negative.
pub open spec fn signed_decimal(n: int) -> Seq<char> {
    if n < 0 {
        seq!['-'] + crate::number::decimal_spec((-n) as nat)
    } else {
        crate::number::decimal_spec(n as nat)
    }
}

/// The program a result came from: the first word of its argv, `process` when it has none.
pub open spec fn result_executable(result: ProcessResult) -> Seq<char> {
    if result.argv@.len() > 0 {
        result.argv@[0]@
    } else {
        "process"@
    }
}

/// What a failed process says: its trimmed standard error, or, when that is empty, which
/// program exited with which status.
pub open spec fn failure_message(result: ProcessResult) -> Seq<char> {
    let stderr = trim_whitespace(utf8_lossy(result.stderr@));
    if stderr.len() > 0 {
        stderr
    } else {
        result_executable(result) + " exited with status "@ + signed_decimal(result.status as int) + "."@
    }
}

fn signed_text(n: i32) -> (r: Vec<char>)
    ensures
        r@ == signed_decimal(n as int),
{
    if n < 0 {
        let magnitude: i64 = -(n as i64);
        let mut r = vec!['-'];
        let digits = crate::number::decimal(magnitude as u64);
        push_chars(&mut r, &digits);
        r
    } else {
        crate::number::decimal(n as u64)
    }
}

/// The error for a process that exited with a status its caller did not accept: Git's failures
/// are `ACRE_GIT_FAILED` with the Git exit class, any other program's `ACRE_PROCESS_FAILED`
/// with the environment class; the message is `failure_message`.
pub fn process_failure(result: &ProcessResult) -> (e: AcreError)
    ensures
        e.message@ == failure_message(*result),
        result_executable(*result) == "git"@ ==> e.code == "ACRE_GIT_FAILED" && e.exit_code == EXIT_GIT,
        result_executable(*result) != "git"@ ==> e.code == "ACRE_PROCESS_FAILED" && e.exit_code == EXIT_ENVIRONMENT,
{
    let text = lossy_string(&result.stderr);
    let chars = chars_of(text.as_str());
    let stderr = trim_whitespace_exec(&chars);
    let executable: Vec<char> = if result.argv.len() > 0 {
        chars_of(result.argv[0].as_str())
    } else {
        chars_of("process")
    };
    let message: Vec<char> = if stderr.len() > 0 {
        stderr
    } else {
        let mut m = executable.clone();
        push_str(&mut m, " exited with status ");
        let digits = signed_text(result.status);
        push_chars(&mut m, &digits);
        push_str(&mut m, ".");
        m
    };
    let message = string_from_chars(&message);
    let git = chars_of("git");
    if crate::text::chars_equal(&executable, &git) {
        AcreError::new("ACRE_GIT_FAILED", message.as_str(), EXIT_GIT)
    } else {
        AcreError::new("ACRE_PROCESS_FAILED", message.as_str(), EXIT_ENVIRONMENT)
    }
}

/// What a finished process means to its caller: the result itself when its status is one the
/// caller accepts, the failure otherwise.
pub fn process_outcome(accepted: &Vec<i32>, result: ProcessResult) -> (r: Result<ProcessResult, AcreError>)
    ensures
        accepted@.contains(result.status) ==> r == Ok::<ProcessResult, AcreError>(result),
        !accepted@.contains(result.status) ==> (r matches Err(e) && e.message@ == failure_message(result)
            && (result_executable(result) == "git"@ ==> e.code == "ACRE_GIT_FAILED" && e.exit_code == EXIT_GIT)
            && (result_executable(result) != "git"@ ==> e.code == "ACRE_PROCESS_FAILED" && e.exit_code == EXIT_ENVIRONMENT)),
{
    let mut i: usize = 0;
    while i < accepted.len()
        invariant
            i <= accepted@.len(),
            forall|j: int| 0 <= j < i ==> accepted@[j] != result.status,
        decreases accepted.len() - i,
    {
        if accepted[i] == result.status {
            return Ok(result);
        }
        i = i + 1;
    }
    Err(process_failure(&result))
}


/// A process that could not be started: `Could not start <executable>: <reason>`.
pub fn process_start_failed(executable: &str, reason: &str) -> (e: AcreError)
    ensures
        e.code == "ACRE_PROCESS_START_FAILED",
        e.exit_code == EXIT_ENVIRONMENT,
        e.message@ == "Could not start "@ + executable@ + ": "@ + reason@,
{
    let mut text = chars_of("Could not start ");
    push_str(&mut text, executable);
    push_str(&mut text, ": ");
    push_str(&mut text, reason);
    AcreError::new("ACRE_PROCESS_START_FAILED", string_from_chars(&text).as_str(), EXIT_ENVIRONMENT)
}

/// A process that ran past its time limit and was stopped.
pub fn process_timed_out(executable: &str) -> (e: AcreError)
    ensures
        e.code == "ACRE_PROCESS_TIMEOUT",
        e.exit_code == EXIT_ENVIRONMENT,
        e.message@ == executable@ + " exceeded its process timeout."@,
{
    let mut text = chars_of(executable);
    push_str(&mut text, " exceeded its process timeout.");
    AcreError::new("ACRE_PROCESS_TIMEOUT", string_from_chars(&text).as_str(), EXIT_ENVIRONMENT)
}

} // verus!
