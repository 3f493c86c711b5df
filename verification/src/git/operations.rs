//! The Git mutations Acre performs, as the processes to run: worktree lifecycle, branch
//! binding, fetches. Running them happens around it.

use vstd::prelude::*;

use crate::error::{detail_text, has_key, lemma_detail_added, AcreError, EXIT_CONFLICT, EXIT_INTERNAL};
use crate::git::refs::opt_view;
use crate::git::repository::Repository;
use crate::git::runner::{decode_stdout, git_prefix, run_git_with, Invocation, ProcessResult, RunOptions};
use crate::provider::remote::trim_whitespace;
use crate::text::utf8_lossy;
use crate::model::{StoredTarget, TargetKind};
use crate::order::views;
use crate::target::ResolvedTarget;

verus! {

/// Generous: `worktree add` on a big repository rewrites the index.
pub const GIT_TIMEOUT_MS: u64 = 120000;

/// Fetches get a longer limit.
pub const FETCH_TIMEOUT_MS: u64 = 180000;

/// `inv` runs Git in `cwd` with `args`, no input, the given time limit and accepted statuses.
pub open spec fn is_git_step(inv: Invocation, cwd: Seq<char>, args: Seq<Seq<char>>, timeout_ms: u64, accepted: Seq<i32>) -> bool {
    &&& inv.executable@ == "git"@
    &&& views(inv.args@) == git_prefix() + args
    &&& inv.options.cwd matches Some(c) && c@ == cwd
    &&& inv.options.stdin is None
    &&& inv.options.timeout_ms == Some(timeout_ms)
    &&& inv.options.accepted_statuses@ == accepted
}

fn git_with(cwd: &str, args: &[&str], timeout_ms: u64, accepted: Vec<i32>) -> (inv: Invocation)
    ensures
        is_git_step(inv, cwd@, crate::git::runner::str_views(args@), timeout_ms, accepted@),
{
    run_git_with(cwd, args, RunOptions { cwd: None, stdin: None, timeout_ms: Some(timeout_ms), accepted_statuses: accepted })
}

fn git(cwd: &str, args: &[&str]) -> (inv: Invocation)
    ensures
        is_git_step(inv, cwd@, crate::git::runner::str_views(args@), GIT_TIMEOUT_MS, seq![0i32]),
{
    let accepted = vec![0i32];
    assert(accepted@ =~= seq![0i32]);
    git_with(cwd, args, GIT_TIMEOUT_MS, accepted)
}

/// Adds a detached worktree at `target_path` checked out at `reference`; refused when
/// something already exists there (`target_exists`).
pub fn create_detached_worktree(repository: &Repository, target_path: &str, reference: &str, target_exists: bool) -> (r: Result<Invocation, AcreError>)
    ensures
        target_exists ==> (r matches Err(e) && e.code == "ACRE_PATH_EXISTS" && e.exit_code == EXIT_CONFLICT
            && e.message@ == "The workspace path already exists: "@ + target_path@),
        !target_exists ==> (r matches Ok(inv) && is_git_step(
            inv,
            repository.top_level@,
            seq!["worktree"@, "add"@, "--detach"@, target_path@, reference@],
            GIT_TIMEOUT_MS,
            seq![0i32],
        )),
{
    if target_exists {
        return Err(path_exists(target_path));
    }
    let args = [ "worktree", "add", "--detach", target_path, reference];
    let inv = git(repository.top_level.as_str(), &args);
    assert(crate::git::runner::str_views(args@) =~= seq!["worktree"@, "add"@, "--detach"@, target_path@, reference@]);
    Ok(inv)
}

fn path_exists(path: &str) -> (e: AcreError)
    ensures
        e.code == "ACRE_PATH_EXISTS",
        e.exit_code == EXIT_CONFLICT,
        e.message@ == "The workspace path already exists: "@ + path@,
{
    let mut text = crate::text::chars_of("The workspace path already exists: ");
    crate::text::push_str(&mut text, path);
    let message = crate::text::string_from_chars(&text);
    AcreError::new("ACRE_PATH_EXISTS", message.as_str(), EXIT_CONFLICT)
}

fn incomplete(kind: &str) -> (e: AcreError)
    ensures
        e.code == "ACRE_TARGET_INVALID",
        e.exit_code == EXIT_INTERNAL,
        e.message@ == kind@ + " target is incomplete."@,
{
    let mut text = crate::text::chars_of(kind);
    crate::text::push_str(&mut text, " target is incomplete.");
    let message = crate::text::string_from_chars(&text);
    AcreError::new("ACRE_TARGET_INVALID", message.as_str(), EXIT_INTERNAL)
}

/// The steps that bind a workspace to `target`, as [`bind_target`] runs them.
pub open spec fn bind_steps_ok(steps: Seq<Invocation>, path: Seq<char>, target: ResolvedTarget) -> bool {
    match target.kind {
        TargetKind::NewBranch => target.local_branch matches Some(b) && steps.len() == 1 && is_git_step(
            steps[0],
            path,
            seq!["switch"@, "--create"@, b@, target.oid@],
            GIT_TIMEOUT_MS,
            seq![0i32],
        ),
        TargetKind::LocalBranch => target.local_branch matches Some(b) && steps.len() == 1 && is_git_step(
            steps[0],
            path,
            seq!["switch"@, b@],
            GIT_TIMEOUT_MS,
            seq![0i32],
        ),
        TargetKind::RemoteBranch => target.local_branch matches Some(b) && target.remote_branch matches Some(rb)
            && steps.len() == 2 && is_git_step(steps[0], path, seq!["switch"@, "--create"@, b@, target.oid@], GIT_TIMEOUT_MS, seq![0i32])
            && is_git_step(steps[1], path, seq!["branch"@, "--set-upstream-to"@, rb@, b@], GIT_TIMEOUT_MS, seq![0i32]),
        TargetKind::PullRequest => steps.len() == 1 && is_git_step(
            steps[0],
            path,
            seq!["switch"@, "--detach"@, target.oid@],
            GIT_TIMEOUT_MS,
            seq![0i32],
        ),
        TargetKind::Worktree => false,
    }
}

/// The Git steps that bind the workspace at `workspace_path` to `target`: a new branch is
/// created at the target commit; a local branch is switched to; a remote branch gets a local
/// branch at its commit that tracks it; a pull request head is checked out detached, so no
/// branch is created. An existing worktree needs no binding, and a target without the branch
/// it needs is incomplete.
pub fn bind_target(workspace_path: &str, target: &ResolvedTarget) -> (r: Result<Vec<Invocation>, AcreError>)
    ensures
        match r {
            Ok(steps) => bind_steps_ok(steps@, workspace_path@, *target),
            Err(e) => e.code == "ACRE_TARGET_INVALID" && e.exit_code == EXIT_INTERNAL && (target.kind == TargetKind::Worktree
                || (target.kind != TargetKind::PullRequest && target.local_branch is None)
                || (target.kind == TargetKind::RemoteBranch && target.remote_branch is None)),
        },
        r is Err ==> !(exists|s: Seq<Invocation>| bind_steps_ok(s, workspace_path@, *target)),
{
    match target.kind {
        TargetKind::NewBranch => {
            let branch = match &target.local_branch {
                Some(b) => b,
                None => {
                    return Err(incomplete("New branch"));
                },
            };
            let args = ["switch", "--create", branch.as_str(), target.oid.as_str()];
            let step = git(workspace_path, &args);
            assert(crate::git::runner::str_views(args@) =~= seq!["switch"@, "--create"@, branch@, target.oid@]);
            let steps = vec![step];
            Ok(steps)
        },
        TargetKind::LocalBranch => {
            let branch = match &target.local_branch {
                Some(b) => b,
                None => {
                    return Err(incomplete("Local branch"));
                },
            };
            let args = ["switch", branch.as_str()];
            let step = git(workspace_path, &args);
            assert(crate::git::runner::str_views(args@) =~= seq!["switch"@, branch@]);
            let steps = vec![step];
            Ok(steps)
        },
        TargetKind::RemoteBranch => {
            let branch = match &target.local_branch {
                Some(b) => b,
                None => {
                    return Err(incomplete("Remote branch"));
                },
            };
            let remote_branch = match &target.remote_branch {
                Some(b) => b,
                None => {
                    return Err(incomplete("Remote branch"));
                },
            };
            let create = ["switch", "--create", branch.as_str(), target.oid.as_str()];
            let track = ["branch", "--set-upstream-to", remote_branch.as_str(), branch.as_str()];
            let first = git(workspace_path, &create);
            let second = git(workspace_path, &track);
            assert(crate::git::runner::str_views(create@) =~= seq!["switch"@, "--create"@, branch@, target.oid@]);
            assert(crate::git::runner::str_views(track@) =~= seq!["branch"@, "--set-upstream-to"@, remote_branch@, branch@]);
            let steps = vec![first, second];
            Ok(steps)
        },
        TargetKind::PullRequest => {
            let args = ["switch", "--detach", target.oid.as_str()];
            let step = git(workspace_path, &args);
            assert(crate::git::runner::str_views(args@) =~= seq!["switch"@, "--detach"@, target.oid@]);
            let steps = vec![step];
            Ok(steps)
        },
        TargetKind::Worktree => Err(
            AcreError::new(
                "ACRE_TARGET_INVALID",
                "An existing worktree does not need to be bound.",
                EXIT_INTERNAL,
            ),
        ),
    }
}

/// After binding, the workspace's head must be the commit that was resolved; the ref may have
/// moved in between, and then Acre refuses rather than open the wrong commit.
pub fn verify_bound_head(target: &ResolvedTarget, actual: &str) -> (r: Result<(), AcreError>)
    ensures
        r is Ok <==> actual@ == target.oid@,
        r matches Err(e) ==> e.code == "ACRE_TARGET_MOVED" && e.exit_code == EXIT_CONFLICT
            && e.message@ == target.display_name@ + " changed while Acre was opening it. Acre left the target untouched; run the command again."@
            && detail_text(e.details@, "target"@) == Some(target.display_name@)
            && detail_text(e.details@, "expectedOid"@) == Some(target.oid@)
            && detail_text(e.details@, "actualOid"@) == Some(actual@),
{
    if crate::text::str_equal(actual, target.oid.as_str()) {
        return Ok(());
    }
    let mut text = crate::text::chars_of(target.display_name.as_str());
    crate::text::push_str(&mut text, " changed while Acre was opening it. Acre left the target untouched; run the command again.");
    let message = crate::text::string_from_chars(&text);
    let e0 = AcreError::new("ACRE_TARGET_MOVED", message.as_str(), EXIT_CONFLICT);
    let e1 = e0.with_text("target", target.display_name.as_str());
    let ghost d1 = e1.details@;
    let e2 = e1.with_text("expectedOid", target.oid.as_str());
    let ghost d2 = e2.details@;
    let e3 = e2.with_text("actualOid", actual);
    proof {
        reveal_strlit("target");
        reveal_strlit("expectedOid");
        reveal_strlit("actualOid");
        let keys = seq!["target"@, "expectedOid"@, "actualOid"@];
        assert(keys[0].len() != keys[1].len() && keys[0].len() != keys[2].len() && keys[1].len() != keys[2].len());
        assert(d1.len() == 1 && d2.len() == 2);
        assert(d1[0].key@ == keys[0] && d2[1].key@ == keys[1]);
        assert(d2[0] == d1[0]);
        assert(!has_key(e0.details@, keys[0]) && !has_key(e0.details@, keys[1]) && !has_key(e0.details@, keys[2]));
        assert(has_key(d1, keys[0]));
        assert(!has_key(d1, keys[1]));
        assert(!has_key(d1, keys[2]));
        assert(has_key(d2, keys[0]));
        assert(has_key(d2, keys[1]));
        assert(!has_key(d2, keys[2])) by {
            assert forall|i: int| 0 <= i < d2.len() implies (#[trigger] d2[i]).key@ != keys[2] by {
                if i == 0 {
                    assert(d2[0].key@ == keys[0]);
                }
            }
        }
        lemma_detail_added(e0.details@, d1, keys[0]);
        lemma_detail_added(e0.details@, d1, keys[1]);
        lemma_detail_added(e0.details@, d1, keys[2]);
        lemma_detail_added(d1, d2, keys[0]);
        lemma_detail_added(d1, d2, keys[1]);
        lemma_detail_added(d1, d2, keys[2]);
        lemma_detail_added(d2, e3.details@, keys[0]);
        lemma_detail_added(d2, e3.details@, keys[1]);
        lemma_detail_added(d2, e3.details@, keys[2]);
    }
    Err(e3)
}

/// Reading a bound workspace's head takes thirty seconds at most.
pub const HEAD_TIMEOUT_MS: u64 = 30000;

/// Asks Git which commit the workspace at `workspace_path` is on once it is bound.
pub fn bound_head_query(workspace_path: &str) -> (inv: Invocation)
    ensures
        is_git_step(inv, workspace_path@, seq!["rev-parse"@, "HEAD"@], HEAD_TIMEOUT_MS, seq![0i32]),
{
    let args = ["rev-parse", "HEAD"];
    let accepted = vec![0i32];
    assert(accepted@ =~= seq![0i32]);
    assert(crate::git::runner::str_views(args@) =~= seq!["rev-parse"@, "HEAD"@]);
    git_with(workspace_path, &args, HEAD_TIMEOUT_MS, accepted)
}

/// Reads `bound_head_query`'s answer and holds it against the target, as `verify_bound_head`
/// does: the binding stands only when the head is the commit that was resolved.
pub fn bound_head_check(target: &ResolvedTarget, head: &ProcessResult) -> (r: Result<(), AcreError>)
    ensures
        r is Ok <==> trim_whitespace(utf8_lossy(head.stdout@)) == target.oid@,
        r matches Err(e) ==> e.code == "ACRE_TARGET_MOVED" && e.exit_code == EXIT_CONFLICT
            && e.message@ == target.display_name@ + " changed while Acre was opening it. Acre left the target untouched; run the command again."@
            && detail_text(e.details@, "expectedOid"@) == Some(target.oid@)
            && detail_text(e.details@, "actualOid"@) == Some(trim_whitespace(utf8_lossy(head.stdout@))),
{
    let actual = decode_stdout(head);
    verify_bound_head(target, actual.as_str())
}

/// Puts a workspace back on its stored branch, or on its stored commit, detached.
pub fn restore_stored_target(workspace_path: &str, target: &StoredTarget) -> (inv: Invocation)
    ensures
        match target.local_branch {
            Some(b) => is_git_step(inv, workspace_path@, seq!["switch"@, b@], GIT_TIMEOUT_MS, seq![0i32]),
            None => is_git_step(inv, workspace_path@, seq!["switch"@, "--detach"@, target.oid@], GIT_TIMEOUT_MS, seq![0i32]),
        },
{
    match &target.local_branch {
        Some(branch) => {
            let args = ["switch", branch.as_str()];
            assert(crate::git::runner::str_views(args@) =~= seq!["switch"@, branch@]);
            git(workspace_path, &args)
        },
        None => {
            let args = ["switch", "--detach", target.oid.as_str()];
            assert(crate::git::runner::str_views(args@) =~= seq!["switch"@, "--detach"@, target.oid@]);
            git(workspace_path, &args)
        },
    }
}

/// Detaches the workspace from its branch, keeping the branch and its commits.
pub fn detach_workspace(workspace_path: &str) -> (inv: Invocation)
    ensures
        is_git_step(inv, workspace_path@, seq!["switch"@, "--detach"@], GIT_TIMEOUT_MS, seq![0i32]),
{
    let args = ["switch", "--detach"];
    assert(crate::git::runner::str_views(args@) =~= seq!["switch"@, "--detach"@]);
    git(workspace_path, &args)
}

/// Resets tracked files to `oid` and detaches there; ignored caches are cleared separately.
pub fn reset_workspace(workspace_path: &str, oid: &str) -> (steps: Vec<Invocation>)
    ensures
        steps@.len() == 2,
        is_git_step(steps@[0], workspace_path@, seq!["reset"@, "--hard"@, oid@], GIT_TIMEOUT_MS, seq![0i32]),
        is_git_step(steps@[1], workspace_path@, seq!["switch"@, "--detach"@, oid@], GIT_TIMEOUT_MS, seq![0i32]),
{
    let reset = ["reset", "--hard", oid];
    let switch = ["switch", "--detach", oid];
    assert(crate::git::runner::str_views(reset@) =~= seq!["reset"@, "--hard"@, oid@]);
    assert(crate::git::runner::str_views(switch@) =~= seq!["switch"@, "--detach"@, oid@]);
    let first = git(workspace_path, &reset);
    let second = git(workspace_path, &switch);
    vec![first, second]
}

/// Removes the worktree at `target_path`, forcibly when asked.
pub fn remove_worktree(repository: &Repository, target_path: &str, force: bool) -> (inv: Invocation)
    ensures
        is_git_step(
            inv,
            repository.top_level@,
            if force {
                seq!["worktree"@, "remove"@, "--force"@, target_path@]
            } else {
                seq!["worktree"@, "remove"@, target_path@]
            },
            GIT_TIMEOUT_MS,
            seq![0i32],
        ),
{
    if force {
        let args = ["worktree", "remove", "--force", target_path];
        assert(crate::git::runner::str_views(args@) =~= seq!["worktree"@, "remove"@, "--force"@, target_path@]);
        git(repository.top_level.as_str(), &args)
    } else {
        let args = ["worktree", "remove", target_path];
        assert(crate::git::runner::str_views(args@) =~= seq!["worktree"@, "remove"@, target_path@]);
        git(repository.top_level.as_str(), &args)
    }
}

/// Prunes worktree records whose directories are gone.
pub fn prune_worktrees(repository: &Repository) -> (inv: Invocation)
    ensures
        is_git_step(inv, repository.top_level@, seq!["worktree"@, "prune"@], GIT_TIMEOUT_MS, seq![0i32]),
{
    let args = ["worktree", "prune"];
    assert(crate::git::runner::str_views(args@) =~= seq!["worktree"@, "prune"@]);
    git(repository.top_level.as_str(), &args)
}

/// Repairs the links between the repository and its worktrees.
pub fn repair_worktrees(repository: &Repository) -> (inv: Invocation)
    ensures
        is_git_step(inv, repository.top_level@, seq!["worktree"@, "repair"@], GIT_TIMEOUT_MS, seq![0i32]),
{
    let args = ["worktree", "repair"];
    assert(crate::git::runner::str_views(args@) =~= seq!["worktree"@, "repair"@]);
    git(repository.top_level.as_str(), &args)
}

/// The refspec of a fetch: forced into `destination` when there is one, since a pull request
/// head or default branch may have been rewritten since the last fetch.
pub open spec fn refspec(source: Seq<char>, destination: Option<Seq<char>>) -> Seq<char> {
    match destination {
        Some(d) => seq!['+'] + source + seq![':'] + d,
        None => source,
    }
}

/// Fetches `source` from `remote`, without tags.
pub fn fetch_ref(repository: &Repository, remote: &str, source: &str, destination: Option<&str>) -> (inv: Invocation)
    ensures
        inv.executable@ == "git"@,
        views(inv.args@) == git_prefix() + seq!["fetch"@, "--no-tags"@, remote@, refspec(source@, match destination {
            Some(d) => Some(d@),
            None => None,
        })],
        inv.options.cwd matches Some(c) && c@ == repository.top_level@,
        inv.options.stdin is None,
        inv.options.timeout_ms == Some(FETCH_TIMEOUT_MS),
        inv.options.accepted_statuses@ == seq![0i32],
{
    let spec_text = match destination {
        Some(d) => {
            let mut text = vec!['+'];
            crate::text::push_str(&mut text, source);
            text.push(':');
            crate::text::push_str(&mut text, d);
            assert(text@ =~= seq!['+'] + source@ + seq![':'] + d@);
            crate::text::string_from_chars(&text)
        },
        None => source.to_owned(),
    };
    let args = ["fetch", "--no-tags", remote, spec_text.as_str()];
    assert(crate::git::runner::str_views(args@) =~= seq!["fetch"@, "--no-tags"@, remote@, spec_text@]);
    let accepted = vec![0i32];
    assert(accepted@ =~= seq![0i32]);
    git_with(repository.top_level.as_str(), &args, FETCH_TIMEOUT_MS, accepted)
}

/// Deletes `refs/heads/<branch>` only while it still points at `expected_oid`: `update-ref` with
/// the old value refuses if anyone moved the branch meanwhile. Status 0 means it was deleted.
pub fn delete_branch_if_expected(repository: &Repository, branch: &str, expected_oid: &str) -> (inv: Invocation)
    ensures
        is_git_step(
            inv,
            repository.top_level@,
            seq!["update-ref"@, "-d"@, "refs/heads/"@ + branch@, expected_oid@],
            GIT_TIMEOUT_MS,
            seq![0i32, 1i32, 128i32],
        ),
{
    let mut name = crate::text::chars_of("refs/heads/");
    crate::text::push_str(&mut name, branch);
    let reference = crate::text::string_from_chars(&name);
    let args = ["update-ref", "-d", reference.as_str(), expected_oid];
    assert(crate::git::runner::str_views(args@) =~= seq!["update-ref"@, "-d"@, "refs/heads/"@ + branch@, expected_oid@]);
    let accepted = vec![0i32, 1i32, 128i32];
    assert(accepted@ =~= seq![0i32, 1i32, 128i32]);
    git_with(repository.top_level.as_str(), &args, GIT_TIMEOUT_MS, accepted)
}

/// Whether `delete_branch_if_expected` deleted the branch: status 0; 1 or 128 mean the branch
/// did not point at the expected commit any more and was left as it is.
pub fn branch_deleted(result: &ProcessResult) -> (deleted: bool)
    ensures
        deleted == (result.status == 0),
{
    result.status == 0
}

} // verus!
