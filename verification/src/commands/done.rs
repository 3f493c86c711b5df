//! `done`: which workspace is meant, whether it may leave now or only after the shell has
//! moved, where the shell goes, and what is said about it.

use vstd::prelude::*;

use crate::cli::ShellBridge;
use crate::error::{detail_text, AcreError, DetailValue, ErrorDetail, EXIT_CONFLICT, EXIT_ENVIRONMENT, EXIT_NOT_FOUND, EXIT_REFUSED, EXIT_SUCCESS};
use crate::git::refs::opt_view;
use crate::git::repository::Repository;
use crate::git::worktrees::GitWorktree;
use crate::model::{PendingDoneOperation, RepositoryState, WorkspaceOwnership, WorkspaceRecord};
use crate::number::{decimal, decimal_spec};
use crate::pool::assessment::DoneAssessment;
use crate::target::ResolvedTarget;
use crate::text::{chars_of, push_chars, push_str, starts_with, string_from_chars};
use crate::ui::markup::escape_spec;
use crate::ui::output::Renderer;
use crate::util::{join_path, path_join, path_within};

verus! {

/// The first workspace whose branch is `branch` (both possibly absent).
pub open spec fn first_with_branch(ws: Seq<WorkspaceRecord>, branch: Option<Seq<char>>, i: int) -> Option<int>
    decreases ws.len() - i,
{
    if i < 0 || i >= ws.len() {
        None
    } else if opt_view(ws[i].target.local_branch) == branch {
        Some(i)
    } else {
        first_with_branch(ws, branch, i + 1)
    }
}

/// The directory `done` is about. With a selector it is the worktree the selector resolved
/// to, else the first workspace on the same branch; without one, the current worktree.
pub fn done_target_path(
    selected: Option<(&str, &ResolvedTarget)>,
    state: &RepositoryState,
    current_path: &Option<String>,
) -> (r: Result<String, AcreError>)
    ensures
        match selected {
            Some((selector, target)) => match target.existing_worktree {
                Some(w) => r matches Ok(p) && p@ == w.path@,
                None => match first_with_branch(state.workspaces@, opt_view(target.local_branch), 0) {
                    Some(k) => r matches Ok(p) && p@ == state.workspaces@[k].path@,
                    None => r matches Err(e) && e.code == "ACRE_WORKSPACE_NOT_ACTIVE" && e.exit_code == EXIT_NOT_FOUND
                        && e.message@ == selector@ + " does not currently have a workspace."@,
                },
            },
            None => match current_path {
                Some(p) => r matches Ok(q) && q@ == p@,
                None => r matches Err(e) && e.code == "ACRE_WORKSPACE_NOT_FOUND" && e.exit_code == EXIT_NOT_FOUND,
            },
        },
{
    match selected {
        Some((selector, target)) => {
            if let Some(w) = &target.existing_worktree {
                return Ok(w.path.clone());
            }
            let mut i: usize = 0;
            while i < state.workspaces.len()
                invariant
                    i <= state.workspaces@.len(),
                    target.existing_worktree is None,
                    selected == Some((selector, target)),
                    first_with_branch(state.workspaces@, opt_view(target.local_branch), 0)
                        == first_with_branch(state.workspaces@, opt_view(target.local_branch), i as int),
                decreases state.workspaces.len() - i,
            {
                let same = match (&state.workspaces[i].target.local_branch, &target.local_branch) {
                    (Some(a), Some(b)) => crate::text::str_equal(a.as_str(), b.as_str()),
                    (None, None) => true,
                    _ => false,
                };
                if same {
                    assert(first_with_branch(state.workspaces@, opt_view(target.local_branch), i as int) == Some(i as int));
                    return Ok(state.workspaces[i].path.clone());
                }
                i = i + 1;
            }
            let mut text = chars_of(selector);
            push_str(&mut text, " does not currently have a workspace.");
            Err(AcreError::new("ACRE_WORKSPACE_NOT_ACTIVE", string_from_chars(&text).as_str(), EXIT_NOT_FOUND))
        },
        None => match current_path {
            Some(p) => Ok(p.clone()),
            None => Err(AcreError::new(
                "ACRE_WORKSPACE_NOT_FOUND",
                "Acre could not identify the current worktree.",
                EXIT_NOT_FOUND,
            )),
        },
    }
}

/// The first registered worktree at canonical path `p` (`canonical[i]` is worktree `i`'s).
pub open spec fn first_worktree_at(canonical: Seq<String>, p: Seq<char>, i: int) -> Option<int>
    decreases canonical.len() - i,
{
    if i < 0 || i >= canonical.len() {
        None
    } else if canonical[i]@ == p {
        Some(i)
    } else {
        first_worktree_at(canonical, p, i + 1)
    }
}

/// The repository's primary worktree is permanent: `done` refuses it.
/// The refusal names the path asked for (`target_path`) as its `path` detail.
pub fn refuse_primary(repository: &Repository, worktree_paths: &Vec<String>, target_canonical: &str, target_path: &str) -> (r: Result<(), AcreError>)
    requires
        worktree_paths@.len() == repository.worktrees@.len(),
    ensures
        match first_worktree_at(worktree_paths@, target_canonical@, 0) {
            Some(k) if repository.worktrees@[k].is_main => r matches Err(e) && e.code == "ACRE_PRIMARY_WORKTREE"
                && e.exit_code == EXIT_REFUSED && detail_text(e.details@, "path"@) == Some(target_path@),
            _ => r is Ok,
        },
{
    let mut i: usize = 0;
    while i < worktree_paths.len()
        invariant
            i <= worktree_paths@.len(),
            worktree_paths@.len() == repository.worktrees@.len(),
            first_worktree_at(worktree_paths@, target_canonical@, 0) == first_worktree_at(worktree_paths@, target_canonical@, i as int),
        decreases worktree_paths.len() - i,
    {
        if crate::text::str_equal(worktree_paths[i].as_str(), target_canonical) {
            if repository.worktrees[i].is_main {
                let e = AcreError::new(
                    "ACRE_PRIMARY_WORKTREE",
                    "The repository primary worktree is permanent; Acre only returns workspaces that it created.",
                    EXIT_REFUSED,
                ).with_text("path", target_path);
                assert(e.details@.drop_first().len() == 0);
                return Err(e);
            }
            return Ok(());
        }
        i = i + 1;
    }
    Ok(())
}

/// What `done` does with an Acre workspace once it has been assessed.
#[derive(Debug, Clone, Copy, PartialEq, Eq, Structural)]
pub enum DoneAction {
    /// Something still uses it: leave it as it is.
    Refuse,
    /// The shell is elsewhere: return it now.
    ReturnNow,
    /// The shell stands in it: move the shell first, then come back to finish.
    MoveShellFirst,
}

/// Decides `done` for an assessed Acre workspace. The workspace containing this shell can only
/// leave through the shell integration, which moves the shell out first; without it the
/// refusal points to `acre setup` (its `hint`) and names the `workspace`.
pub fn done_action(safe: bool, is_current: bool, shell: &ShellBridge, workspace_path: &str) -> (r: Result<DoneAction, AcreError>)
    ensures
        !safe ==> r == Ok::<DoneAction, AcreError>(DoneAction::Refuse),
        safe && !is_current ==> r == Ok::<DoneAction, AcreError>(DoneAction::ReturnNow),
        safe && is_current && shell.active && shell.session_id is Some ==> r == Ok::<DoneAction, AcreError>(
            DoneAction::MoveShellFirst,
        ),
        safe && is_current && !(shell.active && shell.session_id is Some) ==> (r matches Err(e) && e.code
            == "ACRE_SHELL_INTEGRATION_REQUIRED" && e.exit_code == EXIT_ENVIRONMENT
            && detail_text(e.details@, "hint"@) == Some("acre setup"@)
            && detail_text(e.details@, "workspace"@) == Some(workspace_path@)),
{
    if !safe {
        return Ok(DoneAction::Refuse);
    }
    if !is_current {
        return Ok(DoneAction::ReturnNow);
    }
    if !shell.active || shell.session_id.is_none() {
        let e = AcreError::new(
            "ACRE_SHELL_INTEGRATION_REQUIRED",
            "Acre cannot safely return the workspace containing this shell until shell integration is installed.",
            EXIT_ENVIRONMENT,
        );
        let details = vec![
            ErrorDetail { key: "hint", value: DetailValue::Text(String::from_str("acre setup")) },
            ErrorDetail { key: "workspace", value: DetailValue::Text(String::from_str(workspace_path)) },
        ];
        proof {
            reveal_strlit("hint");
            reveal_strlit("workspace");
            reveal_with_fuel(detail_text, 3);
            assert(details@.drop_first().drop_first().len() == 0);
            reveal_strlit("acre setup");
            assert(detail_text(details@, "hint"@) == Some("acre setup"@));
            assert("hint"@.len() != "workspace"@.len());
            assert(detail_text(details@, "workspace"@) == Some(workspace_path@));
        }
        return Err(AcreError { details, ..e });
    }
    Ok(DoneAction::MoveShellFirst)
}

/// `done` leaves external worktrees, and worktrees Acre has no record of, untouched.
pub fn leaves_untouched(workspace: Option<&WorkspaceRecord>) -> (r: bool)
    ensures
        r == match workspace {
            Some(w) => w.ownership == WorkspaceOwnership::External,
            None => true,
        },
{
    match workspace {
        Some(w) => w.ownership == WorkspaceOwnership::External,
        None => true,
    }
}

/// The exit status of a `done` that ran the return: success when the workspace left or was
/// external, refused otherwise.
pub fn done_exit_code(returned: bool, external: bool) -> (code: i32)
    ensures
        code == if returned || external { EXIT_SUCCESS } else { EXIT_REFUSED },
{
    if returned || external {
        EXIT_SUCCESS
    } else {
        EXIT_REFUSED
    }
}

/// The resumed `done` goes ahead only if the workspace is exactly as assessed: still
/// registered at the same commit, with the same working tree status. A refusal names the
/// `workspace`.
pub fn check_resume(
    operation: &PendingDoneOperation,
    registered_head: Option<&String>,
    status_fingerprint: &str,
    workspace_path: &str,
) -> (r: Result<(), AcreError>)
    ensures
        r is Ok <==> (registered_head matches Some(h) && h@ == operation.expected_head@)
            && status_fingerprint@ == operation.expected_status_fingerprint@,
        r matches Err(e) ==> e.code == "ACRE_WORKSPACE_CHANGED" && e.exit_code == EXIT_CONFLICT
            && detail_text(e.details@, "workspace"@) == Some(workspace_path@),
{
    let same_head = match registered_head {
        Some(h) => crate::text::str_equal(h.as_str(), operation.expected_head.as_str()),
        None => false,
    };
    if !same_head || !crate::text::str_equal(status_fingerprint, operation.expected_status_fingerprint.as_str()) {
        let e = AcreError::new(
            "ACRE_WORKSPACE_CHANGED",
            "The workspace changed while Acre was moving the shell. Acre left it active.",
            EXIT_CONFLICT,
        ).with_text("workspace", workspace_path);
        assert(e.details@.drop_first().len() == 0);
        return Err(e);
    }
    Ok(())
}

/// The worktree a shell leaving a workspace falls back to: the main worktree, else the first.
pub fn primary_worktree(repository: &Repository) -> (r: Option<&GitWorktree>)
    ensures
        match r {
            Some(w) => exists|k: int| 0 <= k < repository.worktrees@.len() && *w == repository.worktrees@[k]
                && (w.is_main || (k == 0 && forall|j: int| 0 <= j < repository.worktrees@.len() ==> !(#[trigger] repository.worktrees@[j]).is_main))
                && forall|j: int| 0 <= j < k ==> !(#[trigger] repository.worktrees@[j]).is_main,
            None => repository.worktrees@.len() == 0,
        },
{
    let mut i: usize = 0;
    while i < repository.worktrees.len()
        invariant
            i <= repository.worktrees@.len(),
            forall|j: int| 0 <= j < i ==> !(#[trigger] repository.worktrees@[j]).is_main,
        decreases repository.worktrees.len() - i,
    {
        if repository.worktrees[i].is_main {
            return Some(&repository.worktrees[i]);
        }
        i = i + 1;
    }
    if repository.worktrees.len() > 0 {
        Some(&repository.worktrees[0])
    } else {
        None
    }
}

/// Where a shell leaving a workspace goes.
#[derive(Debug)]
pub enum Destination {
    /// The directory the shell came from.
    Previous(String),
    /// The primary worktree, or the same relative spot inside it (`nested`) when that is a
    /// directory there.
    Primary { path: String, nested: Option<String> },
}

/// The spot inside `primary` at the shell's position below `leaving`, if the shell is below
/// it.
pub open spec fn nested_spec(cwd: Seq<char>, leaving: Seq<char>, primary: Seq<char>) -> Option<Seq<char>> {
    if starts_with(cwd, leaving + seq!['/']) && cwd.len() > leaving.len() + 1 {
        Some(path_join(primary, cwd.skip(leaving.len() as int + 1)))
    } else {
        None
    }
}

/// A safe place for a shell leaving `leaving`: the directory it came from (`previous`, when it
/// is a directory outside the workspace), else the primary worktree, which must be another
/// worktree that still exists. `primary_canonical` and `leaving_canonical` are canonical forms.
pub fn safe_destination(
    previous: Option<&str>,
    previous_is_dir: bool,
    leaving: &str,
    primary: Option<&GitWorktree>,
    primary_canonical: &str,
    leaving_canonical: &str,
    primary_exists: bool,
    cwd: &str,
) -> (r: Result<Destination, AcreError>)
    ensures
        match previous {
            Some(p) if !path_within(leaving@, p@) && previous_is_dir => r matches Ok(Destination::Previous(d)) && d@ == p@,
            _ => match primary {
                Some(w) if primary_canonical@ != leaving_canonical@ && primary_exists => r matches Ok(
                    Destination::Primary { path, nested },
                ) && path@ == w.path@ && match (nested, nested_spec(cwd@, leaving@, w.path@)) {
                    (Some(a), Some(b)) => a@ == b,
                    (None, None) => true,
                    _ => false,
                },
                _ => r matches Err(e) && e.code == "ACRE_NO_SAFE_DESTINATION" && e.exit_code == EXIT_REFUSED,
            },
        },
{
    if let Some(p) = previous {
        if !crate::util::is_inside(leaving, p) && previous_is_dir {
            return Ok(Destination::Previous(p.to_owned()));
        }
    }
    let w = match primary {
        Some(w) => w,
        None => {
            return Err(AcreError::new(
                "ACRE_NO_SAFE_DESTINATION",
                "Acre could not find another worktree to move this shell into.",
                EXIT_REFUSED,
            ));
        },
    };
    if crate::text::str_equal(primary_canonical, leaving_canonical) || !primary_exists {
        return Err(AcreError::new(
            "ACRE_NO_SAFE_DESTINATION",
            "Acre could not find another worktree to move this shell into.",
            EXIT_REFUSED,
        ));
    }
    let c = chars_of(cwd);
    let mut prefix = chars_of(leaving);
    prefix.push('/');
    assert(prefix@ =~= leaving@ + seq!['/']);
    let nested = if crate::text::chars_start_with(&c, &prefix) && c.len() > prefix.len() {
        let rest = crate::text::slice_chars(&c, prefix.len(), c.len());
        assert(rest@ =~= cwd@.skip(leaving@.len() as int + 1));
        let rest_text = string_from_chars(&rest);
        Some(join_path(w.path.as_str(), rest_text.as_str()))
    } else {
        None
    };
    Ok(Destination::Primary { path: w.path.clone(), nested })
}

/// The record of a `done` waiting for the shell to move: what it must find unchanged when it
/// resumes.
pub fn pending_done(
    token: String,
    repository: &Repository,
    workspace: &WorkspaceRecord,
    expected_head: &String,
    expected_status_fingerprint: &String,
    safe_destination: String,
    current_session_id: &Option<String>,
    created_at: String,
) -> (op: PendingDoneOperation)
    ensures
        op.schema_version == 1,
        op.kind@ == "done"@,
        op.token == token,
        op.repository_common_dir@ == repository.common_dir@,
        op.workspace_id@ == workspace.id@,
        op.expected_head@ == expected_head@,
        op.expected_status_fingerprint@ == expected_status_fingerprint@,
        op.safe_destination == safe_destination,
        opt_view(op.current_session_id) == opt_view(*current_session_id),
        op.created_at == created_at,
{
    PendingDoneOperation {
        schema_version: 1,
        kind: "done".to_owned(),
        token,
        repository_common_dir: repository.common_dir.clone(),
        workspace_id: workspace.id.clone(),
        expected_head: expected_head.clone(),
        expected_status_fingerprint: expected_status_fingerprint.clone(),
        safe_destination,
        current_session_id: crate::text::clone_opt_text(current_session_id),
        created_at,
    }
}

/// `count` and a word, indented, when the count is not zero.
pub open spec fn count_line(count: usize, word: Seq<char>) -> Seq<Seq<char>> {
    if count > 0 {
        seq!["  "@ + decimal_spec(count as nat) + " "@ + word]
    } else {
        Seq::empty()
    }
}

/// Each of the first `limit` values, escaped, after `prefix`.
pub open spec fn prefixed_lines(prefix: Seq<char>, values: Seq<String>, limit: int) -> Seq<Seq<char>> {
    values.take(if values.len() < limit { values.len() as int } else { limit }).map_values(
        |v: String| prefix + escape_spec(v@),
    )
}

/// What `done` says when the workspace is still in use: the working tree counts, the
/// operation in progress, up to eight new ignored entries and changed seed files, the other
/// lease holders and the processes, then that nothing was touched.
pub open spec fn unsafe_lines_spec(a: DoneAssessment) -> Seq<Seq<char>> {
    seq![
        "<bold><yellow>"@ + escape_spec(a.workspace.target.display_name@) + " is still in use</yellow></bold>"@,
        Seq::empty(),
    ] + count_line(a.status.staged, "staged"@) + count_line(a.status.modified, "modified"@) + count_line(
        a.status.untracked,
        "untracked"@,
    ) + match a.operation {
        Some(op) => seq!["  "@ + escape_spec(op@) + " in progress"@],
        None => Seq::empty(),
    } + prefixed_lines("  ignored: "@, a.new_ignored@, 8) + prefixed_lines("  changed local file: "@, a.changed_seed_files@, 8)
        + a.leases@.map_values(|l: crate::model::WorkspaceLease| "  held by "@ + escape_spec(l.holder@))
        + a.processes@.map_values(
        |p: crate::pool::process::ProcessUse| "  "@ + escape_spec(p.command@) + " (pid "@ + decimal_spec(p.pid as nat) + ")"@,
    ) + seq![Seq::empty(), "<dim>Acre left the workspace exactly where it is.</dim>"@]
}

fn push_line(lines: &mut Vec<String>, chars: &Vec<char>)
    ensures
        final(lines)@.len() == old(lines)@.len() + 1,
        forall|i: int| 0 <= i < old(lines)@.len() ==> final(lines)@[i] == old(lines)@[i],
        final(lines)@.last()@ == chars@,
{
    lines.push(string_from_chars(chars));
}

fn push_count(lines: &mut Vec<String>, count: usize, word: &str)
    ensures
        crate::order::views(final(lines)@) == crate::order::views(old(lines)@) + count_line(count, word@),
{
    if count > 0 {
        let mut text = chars_of("  ");
        let digits = decimal(count as u64);
        push_chars(&mut text, &digits);
        push_str(&mut text, " ");
        push_str(&mut text, word);
        let ghost before = crate::order::views(lines@);
        push_line(lines, &text);
        assert(crate::order::views(lines@) =~= before + count_line(count, word@));
    } else {
        assert(count_line(count, word@) =~= Seq::<Seq<char>>::empty());
        assert(crate::order::views(lines@) =~= crate::order::views(lines@) + count_line(count, word@));
    }
}

fn push_prefixed(lines: &mut Vec<String>, renderer: &Renderer, prefix: &str, values: &Vec<String>, limit: usize)
    ensures
        crate::order::views(final(lines)@) == crate::order::views(old(lines)@) + prefixed_lines(prefix@, values@, limit as int),
{
    let ghost start = crate::order::views(lines@);
    let n = if values.len() < limit { values.len() } else { limit };
    let mut i: usize = 0;
    while i < n
        invariant
            i <= n,
            n <= values@.len(),
            n == if values@.len() < limit { values@.len() as int } else { limit as int },
            crate::order::views(lines@) == start + values@.take(i as int).map_values(|v: String| prefix@ + escape_spec(v@)),
        decreases n - i,
    {
        let mut text = chars_of(prefix);
        let escaped = renderer.value(values[i].as_str());
        push_str(&mut text, escaped.as_str());
        let ghost before = crate::order::views(lines@);
        push_line(lines, &text);
        assert(crate::order::views(lines@) =~= before.push(prefix@ + escape_spec(values@[i as int]@)));
        assert(values@.take(i + 1).map_values(|v: String| prefix@ + escape_spec(v@)) =~= values@.take(i as int).map_values(
            |v: String| prefix@ + escape_spec(v@),
        ).push(prefix@ + escape_spec(values@[i as int]@)));
        i = i + 1;
    }
}

/// The lines `done` prints, as markup, when the workspace is still in use.
pub fn unsafe_lines(renderer: &Renderer, a: &DoneAssessment) -> (lines: Vec<String>)
    ensures
        crate::order::views(lines@) == unsafe_lines_spec(*a),
{
    let mut lines: Vec<String> = Vec::new();
    let mut header = chars_of("<bold><yellow>");
    let name = renderer.value(a.workspace.target.display_name.as_str());
    push_str(&mut header, name.as_str());
    push_str(&mut header, " is still in use</yellow></bold>");
    push_line(&mut lines, &header);
    lines.push(String::new());
    assert(crate::order::views(lines@) =~= seq![
        "<bold><yellow>"@ + escape_spec(a.workspace.target.display_name@) + " is still in use</yellow></bold>"@,
        Seq::empty(),
    ]);
    push_count(&mut lines, a.status.staged, "staged");
    push_count(&mut lines, a.status.modified, "modified");
    push_count(&mut lines, a.status.untracked, "untracked");
    let ghost before_op = crate::order::views(lines@);
    match &a.operation {
        Some(op) => {
            let mut text = chars_of("  ");
            let escaped = renderer.value(op.as_str());
            push_str(&mut text, escaped.as_str());
            push_str(&mut text, " in progress");
            push_line(&mut lines, &text);
            assert(crate::order::views(lines@) =~= before_op + seq!["  "@ + escape_spec(op@) + " in progress"@]);
        },
        None => {
            assert(crate::order::views(lines@) =~= before_op + Seq::<Seq<char>>::empty());
        },
    }
    push_prefixed(&mut lines, renderer, "  ignored: ", &a.new_ignored, 8);
    push_prefixed(&mut lines, renderer, "  changed local file: ", &a.changed_seed_files, 8);
    let ghost before_leases = crate::order::views(lines@);
    let mut i: usize = 0;
    while i < a.leases.len()
        invariant
            i <= a.leases@.len(),
            crate::order::views(lines@) == before_leases + a.leases@.take(i as int).map_values(
                |l: crate::model::WorkspaceLease| "  held by "@ + escape_spec(l.holder@),
            ),
        decreases a.leases.len() - i,
    {
        let mut text = chars_of("  held by ");
        let escaped = renderer.value(a.leases[i].holder.as_str());
        push_str(&mut text, escaped.as_str());
        let ghost before = crate::order::views(lines@);
        push_line(&mut lines, &text);
        assert(crate::order::views(lines@) =~= before.push("  held by "@ + escape_spec(a.leases@[i as int].holder@)));
        assert(a.leases@.take(i + 1).map_values(|l: crate::model::WorkspaceLease| "  held by "@ + escape_spec(l.holder@))
            =~= a.leases@.take(i as int).map_values(|l: crate::model::WorkspaceLease| "  held by "@ + escape_spec(l.holder@)).push(
            "  held by "@ + escape_spec(a.leases@[i as int].holder@),
        ));
        i = i + 1;
    }
    assert(a.leases@.take(a.leases@.len() as int) =~= a.leases@);
    let ghost before_processes = crate::order::views(lines@);
    let mut i: usize = 0;
    while i < a.processes.len()
        invariant
            i <= a.processes@.len(),
            crate::order::views(lines@) == before_processes + a.processes@.take(i as int).map_values(
                |p: crate::pool::process::ProcessUse| "  "@ + escape_spec(p.command@) + " (pid "@ + decimal_spec(p.pid as nat) + ")"@,
            ),
        decreases a.processes.len() - i,
    {
        let p = &a.processes[i];
        let mut text = chars_of("  ");
        let escaped = renderer.value(p.command.as_str());
        push_str(&mut text, escaped.as_str());
        push_str(&mut text, " (pid ");
        let digits = decimal(p.pid as u64);
        push_chars(&mut text, &digits);
        push_str(&mut text, ")");
        let ghost before = crate::order::views(lines@);
        push_line(&mut lines, &text);
        assert(crate::order::views(lines@) =~= before.push(
            "  "@ + escape_spec(p.command@) + " (pid "@ + decimal_spec(p.pid as nat) + ")"@,
        ));
        assert(a.processes@.take(i + 1).map_values(
            |p: crate::pool::process::ProcessUse| "  "@ + escape_spec(p.command@) + " (pid "@ + decimal_spec(p.pid as nat) + ")"@,
        ) =~= a.processes@.take(i as int).map_values(
            |p: crate::pool::process::ProcessUse| "  "@ + escape_spec(p.command@) + " (pid "@ + decimal_spec(p.pid as nat) + ")"@,
        ).push("  "@ + escape_spec(p.command@) + " (pid "@ + decimal_spec(p.pid as nat) + ")"@));
        i = i + 1;
    }
    assert(a.processes@.take(a.processes@.len() as int) =~= a.processes@);
    let ghost before_end = crate::order::views(lines@);
    lines.push(String::new());
    lines.push("<dim>Acre left the workspace exactly where it is.</dim>".to_owned());
    assert(crate::order::views(lines@) =~= before_end + seq![Seq::empty(), "<dim>Acre left the workspace exactly where it is.</dim>"@]);
    lines
}

/// What `done` says once the workspace has left: its name, then that the branch and commits
/// stay and whether the slot went back to the pool (or that an external worktree was left
/// alone).
pub open spec fn done_lines_spec(display_name: Seq<char>, pooled: bool, external: bool) -> Seq<Seq<char>> {
    seq!["<bold><green>Finished with</green></bold> <blue>"@ + escape_spec(display_name) + "</blue>"@, Seq::empty()]
        + if external {
        seq!["<dim>External worktree left untouched</dim>"@]
    } else {
        seq![
            "<dim>Branch and commits preserved</dim>"@,
            if pooled {
                "<dim>Warm workspace returned to the pool</dim>"@
            } else {
                "<dim>Workspace directory removed</dim>"@
            },
        ]
    }
}

/// The lines `done` prints, as markup, once the workspace has left.
pub fn done_lines(renderer: &Renderer, workspace: &WorkspaceRecord, pooled: bool, external: bool) -> (lines: Vec<String>)
    ensures
        crate::order::views(lines@) == done_lines_spec(workspace.target.display_name@, pooled, external),
{
    let mut lines: Vec<String> = Vec::new();
    let mut header = chars_of("<bold><green>Finished with</green></bold> <blue>");
    let name = renderer.value(workspace.target.display_name.as_str());
    push_str(&mut header, name.as_str());
    push_str(&mut header, "</blue>");
    push_line(&mut lines, &header);
    lines.push(String::new());
    if external {
        lines.push("<dim>External worktree left untouched</dim>".to_owned());
    } else {
        lines.push("<dim>Branch and commits preserved</dim>".to_owned());
        if pooled {
            lines.push("<dim>Warm workspace returned to the pool</dim>".to_owned());
        } else {
            lines.push("<dim>Workspace directory removed</dim>".to_owned());
        }
    }
    assert(crate::order::views(lines@) =~= done_lines_spec(workspace.target.display_name@, pooled, external));
    lines
}

} // verus!
