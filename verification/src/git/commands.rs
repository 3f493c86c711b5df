//! The read-only Git queries Acre makes, as the processes to run, and how their answers are
//! read. Running them happens around this.

use vstd::prelude::*;

use crate::git::runner::{decode_stdout, git_prefix, run_git, run_git_with, str_views, Invocation, ProcessResult, RunOptions};
use crate::order::views;
use crate::provider::remote::trim_whitespace;
use crate::text::utf8_lossy;

verus! {

/// `git` in `cwd` with `args`, no input, no time limit, accepting `accepted`.
pub open spec fn is_query(inv: Invocation, cwd: Seq<char>, args: Seq<Seq<char>>, accepted: Seq<i32>) -> bool {
    &&& inv.executable@ == "git"@
    &&& views(inv.args@) == git_prefix() + args
    &&& inv.options.cwd matches Some(c) && c@ == cwd
    &&& inv.options.stdin is None
    &&& inv.options.timeout_ms is None
    &&& inv.options.accepted_statuses@ == accepted
}

fn query(cwd: &str, args: &[&str], accepted: Vec<i32>) -> (inv: Invocation)
    ensures
        is_query(inv, cwd@, str_views(args@), accepted@),
{
    run_git_with(cwd, args, RunOptions { cwd: None, stdin: None, timeout_ms: None, accepted_statuses: accepted })
}

/// Lists local and remote-tracking branches, NUL-separated so branch names with odd characters
/// survive; `parse_refs` reads the output.
pub fn list_refs(cwd: &str) -> (inv: Invocation)
    ensures
        is_query(inv, cwd@, seq![
            "for-each-ref"@,
            "--format=%(refname)%00%(objectname)%00%(upstream)%00"@,
            "refs/heads"@,
            "refs/remotes"@,
        ], seq![0i32]),
{
    let args = ["for-each-ref", "--format=%(refname)%00%(objectname)%00%(upstream)%00", "refs/heads", "refs/remotes"];
    let accepted = vec![0i32];
    assert(accepted@ =~= seq![0i32]);
    assert(str_views(args@) =~= seq![
        "for-each-ref"@,
        "--format=%(refname)%00%(objectname)%00%(upstream)%00"@,
        "refs/heads"@,
        "refs/remotes"@,
    ]);
    query(cwd, &args, accepted)
}

/// Asks Git whether `branch` is a valid branch name: status 0 means yes; 1 (invalid) and 128
/// (Git itself objected) both mean no.
pub fn validate_branch_name(cwd: &str, branch: &str) -> (inv: Invocation)
    ensures
        is_query(inv, cwd@, seq!["check-ref-format"@, "--branch"@, branch@], seq![0i32, 1i32, 128i32]),
{
    let args = ["check-ref-format", "--branch", branch];
    let accepted = vec![0i32, 1i32, 128i32];
    assert(accepted@ =~= seq![0i32, 1i32, 128i32]);
    assert(str_views(args@) =~= seq!["check-ref-format"@, "--branch"@, branch@]);
    query(cwd, &args, accepted)
}

/// Resolves `reference` to a commit; `^{commit}` peels tags, so a tag resolves to something
/// that can be checked out detached. Status 128 means it resolves to nothing.
pub fn resolve_oid(cwd: &str, reference: &str) -> (inv: Invocation)
    ensures
        is_query(inv, cwd@, seq!["rev-parse"@, "--verify"@, reference@ + "^{commit}"@], seq![0i32, 128i32]),
{
    let mut peeled = crate::text::chars_of(reference);
    crate::text::push_str(&mut peeled, "^{commit}");
    let peeled = crate::text::string_from_chars(&peeled);
    let args = ["rev-parse", "--verify", peeled.as_str()];
    let accepted = vec![0i32, 128i32];
    assert(accepted@ =~= seq![0i32, 128i32]);
    assert(str_views(args@) =~= seq!["rev-parse"@, "--verify"@, reference@ + "^{commit}"@]);
    query(cwd, &args, accepted)
}

/// What `resolve_oid` found: the commit it printed when it succeeded, nothing otherwise.
pub fn resolved_oid(result: &ProcessResult) -> (oid: Option<String>)
    ensures
        result.status == 0 ==> (oid matches Some(o) && o@ == trim_whitespace(utf8_lossy(result.stdout@))),
        result.status != 0 ==> oid is None,
{
    if result.status == 0 {
        Some(decode_stdout(result))
    } else {
        None
    }
}

/// The working tree's status, in porcelain v2 with NUL separators and every untracked file;
/// `parse_status` reads the output.
pub fn read_status(cwd: &str) -> (inv: Invocation)
    ensures
        is_query(inv, cwd@, seq!["status"@, "--porcelain=v2"@, "-z"@, "--untracked-files=all"@], seq![0i32]),
{
    let args = ["status", "--porcelain=v2", "-z", "--untracked-files=all"];
    let accepted = vec![0i32];
    assert(accepted@ =~= seq![0i32]);
    assert(str_views(args@) =~= seq!["status"@, "--porcelain=v2"@, "-z"@, "--untracked-files=all"@]);
    query(cwd, &args, accepted)
}

/// Where Git keeps the markers of an operation in progress, one path per line, in the order
/// `in_progress_operation` reads them.
pub fn operation_markers(cwd: &str) -> (inv: Invocation)
    ensures
        is_query(inv, cwd@, seq![
            "rev-parse"@,
            "--git-path"@,
            "MERGE_HEAD"@,
            "--git-path"@,
            "rebase-merge"@,
            "--git-path"@,
            "rebase-apply"@,
            "--git-path"@,
            "CHERRY_PICK_HEAD"@,
            "--git-path"@,
            "REVERT_HEAD"@,
        ], seq![0i32]),
{
    let args = [
        "rev-parse",
        "--git-path",
        "MERGE_HEAD",
        "--git-path",
        "rebase-merge",
        "--git-path",
        "rebase-apply",
        "--git-path",
        "CHERRY_PICK_HEAD",
        "--git-path",
        "REVERT_HEAD",
    ];
    let accepted = vec![0i32];
    assert(accepted@ =~= seq![0i32]);
    assert(str_views(args@) =~= seq![
        "rev-parse"@,
        "--git-path"@,
        "MERGE_HEAD"@,
        "--git-path"@,
        "rebase-merge"@,
        "--git-path"@,
        "rebase-apply"@,
        "--git-path"@,
        "CHERRY_PICK_HEAD"@,
        "--git-path"@,
        "REVERT_HEAD"@,
    ]);
    query(cwd, &args, accepted)
}

/// The operation each marker stands for; a rebase has two marker directories.
pub open spec fn operation_names() -> Seq<Seq<char>> {
    seq!["merge"@, "rebase"@, "rebase"@, "cherry-pick"@, "revert"@]
}

/// The first marker present among those Git printed (`present[i]` says whether the `i`-th path
/// exists; Git prints them whether or not they do).
pub open spec fn first_present(present: Seq<bool>, i: int) -> Option<int>
    decreases 5 - i,
{
    if i < 0 || i >= 5 || i >= present.len() {
        None
    } else if present[i] {
        Some(i)
    } else {
        first_present(present, i + 1)
    }
}

/// The lines of `text` as `str::lines` gives them: split at each newline, without the empty
/// piece a final newline leaves.
pub open spec fn text_lines(text: Seq<char>) -> Seq<Seq<char>> {
    let parts = crate::bytes::split_bytes(text, '\n');
    if parts.len() > 0 && parts.last().len() == 0 {
        parts.drop_last()
    } else {
        parts
    }
}

/// Where each marker `operation_markers` printed lies: a relative path is taken from the
/// workspace at `workspace_path`, an absolute one as it is.
pub fn marker_paths(workspace_path: &str, result: &ProcessResult) -> (paths: Vec<String>)
    ensures
        views(paths@) == text_lines(utf8_lossy(result.stdout@)).map_values(
            |line: Seq<char>| crate::util::path_join(workspace_path@, trim_whitespace(line)),
        ),
{
    let text = crate::text::lossy_string(&result.stdout);
    let chars = crate::text::chars_of(text.as_str());
    let parts = crate::bytes::split_chars_on(&chars, '\n');
    let ghost lines = text_lines(chars@);
    let count: usize = if parts.len() > 0 && parts[parts.len() - 1].len() == 0 {
        parts.len() - 1
    } else {
        parts.len()
    };
    assert(lines.len() == count);
    let mut paths: Vec<String> = Vec::new();
    let mut i: usize = 0;
    while i < count
        invariant
            i <= count,
            count <= parts@.len(),
            lines == text_lines(chars@),
            lines.len() == count,
            parts@.len() == crate::bytes::split_bytes(chars@, '\n').len(),
            forall|k: int| 0 <= k < parts@.len() ==> (#[trigger] parts@[k])@ == crate::bytes::split_bytes(chars@, '\n')[k],
            views(paths@) == lines.take(i as int).map_values(
                |line: Seq<char>| crate::util::path_join(workspace_path@, trim_whitespace(line)),
            ),
        decreases count - i,
    {
        let trimmed = crate::provider::remote::trim_whitespace_exec(&parts[i]);
        let trimmed = crate::text::string_from_chars(&trimmed);
        let joined = crate::util::join_path(workspace_path, trimmed.as_str());
        let ghost before = views(paths@);
        paths.push(joined);
        assert(lines[i as int] == parts@[i as int]@);
        assert(views(paths@) =~= before.push(crate::util::path_join(workspace_path@, trim_whitespace(lines[i as int]))));
        assert(lines.take(i + 1).map_values(|line: Seq<char>| crate::util::path_join(workspace_path@, trim_whitespace(line)))
            =~= lines.take(i as int).map_values(|line: Seq<char>| crate::util::path_join(workspace_path@, trim_whitespace(line))).push(
            crate::util::path_join(workspace_path@, trim_whitespace(lines[i as int])),
        ));
        i = i + 1;
    }
    assert(lines.take(count as int) =~= lines);
    paths
}

/// The operation in progress in a worktree, if any: a merge, rebase, cherry-pick or revert.
pub fn in_progress_operation(present: &Vec<bool>) -> (r: Option<String>)
    ensures
        match first_present(present@, 0) {
            Some(k) => r matches Some(name) && name@ == operation_names()[k],
            None => r is None,
        },
{
    let names = ["merge", "rebase", "rebase", "cherry-pick", "revert"];
    assert(names@.map_values(|s: &str| s@) =~= operation_names());
    let mut i: usize = 0;
    while i < 5 && i < present.len()
        invariant
            i <= 5,
            names@.len() == 5,
            names@.map_values(|s: &str| s@) == operation_names(),
            first_present(present@, 0) == first_present(present@, i as int),
        decreases 5 - i,
    {
        if present[i] {
            assert(names@[i as int]@ == operation_names()[i as int]);
            return Some(names[i].to_owned());
        }
        i = i + 1;
    }
    None
}

/// Asks Git whether `relative` is ignored in `cwd`: status 0 means it is, 1 that it is not.
pub fn is_ignored_path(cwd: &str, relative: &str) -> (inv: Invocation)
    ensures
        inv.executable@ == "git"@,
        views(inv.args@) == git_prefix() + seq!["check-ignore"@, "--quiet"@, "--"@, relative@],
        inv.options.cwd matches Some(c) && c@ == cwd@,
        inv.options.stdin is None,
        inv.options.timeout_ms == Some(10000u64),
        inv.options.accepted_statuses@ == seq![0i32, 1i32],
{
    let args = ["check-ignore", "--quiet", "--", relative];
    let accepted = vec![0i32, 1i32];
    assert(accepted@ =~= seq![0i32, 1i32]);
    assert(str_views(args@) =~= seq!["check-ignore"@, "--quiet"@, "--"@, relative@]);
    run_git_with(cwd, &args, RunOptions { cwd: None, stdin: None, timeout_ms: Some(10000), accepted_statuses: accepted })
}

/// Lists the repository's worktrees, NUL-separated; `parse_worktree_porcelain` reads the
/// output.
pub fn list_worktrees(cwd: &str) -> (inv: Invocation)
    ensures
        is_query(inv, cwd@, seq!["worktree"@, "list"@, "--porcelain"@, "-z"@], seq![0i32]),
{
    let args = ["worktree", "list", "--porcelain", "-z"];
    let accepted = vec![0i32];
    assert(accepted@ =~= seq![0i32]);
    assert(str_views(args@) =~= seq!["worktree"@, "list"@, "--porcelain"@, "-z"@]);
    query(cwd, &args, accepted)
}

} // verus!
