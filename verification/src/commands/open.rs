//! `acre [target]`: the rows the picker offers, the lease an opened workspace is held by, and
//! the checks on returning to the previous location.

use vstd::prelude::*;

use crate::cli::ShellBridge;
use crate::error::{AcreError, EXIT_NOT_FOUND, EXIT_USAGE};
use crate::git::refs::{opt_view, GitRef, GitRefKind};
use crate::git::repository::Repository;
use crate::git::worktrees::GitWorktree;
use crate::model::{RepositoryState, WorkspaceRecord};
use crate::number::{decimal, decimal_spec};
use crate::pool::broker::LeaseRequest;
use crate::target::first_text_from;
use crate::text::{chars_of, push_chars, push_str, string_from_chars};
use crate::ui::picker::PickerRow;

verus! {

/// The lease a shell takes on what it opens: held by the shell session, when the shell
/// integration passed one.
pub fn lease_for_shell(shell: &ShellBridge) -> (r: Option<LeaseRequest>)
    ensures
        match shell.session_id {
            Some(s) => r matches Some(req) && req.holder@ == "shell:"@ + s@ && req.pid == shell.pid
                && opt_view(req.session_id) == Some(s@),
            None => r is None,
        },
{
    match &shell.session_id {
        Some(s) => {
            let mut holder = chars_of("shell:");
            push_str(&mut holder, s.as_str());
            Some(LeaseRequest { holder: string_from_chars(&holder), pid: shell.pid, session_id: Some(s.clone()) })
        },
        None => None,
    }
}

/// The lease a command run inside the workspace holds: named after this process (`pid`), with
/// no shell session.
pub fn lease_for_command(pid: u32) -> (r: LeaseRequest)
    ensures
        r.holder@ == "command:"@ + decimal_spec(pid as nat),
        r.pid == Some(pid),
        r.session_id is None,
{
    let mut holder = chars_of("command:");
    let digits = decimal(pid as u64);
    push_chars(&mut holder, &digits);
    LeaseRequest { holder: string_from_chars(&holder), pid: Some(pid), session_id: None }
}

/// Checks `acre -`, the way back to the previous location: it runs no command, and needs a
/// shell session with a previous directory that still exists (`previous_exists`). The result
/// is that directory.
pub fn previous_location(
    has_command: bool,
    shell: &ShellBridge,
    previous: Option<String>,
    previous_exists: bool,
) -> (r: Result<String, AcreError>)
    ensures
        has_command ==> (r matches Err(e) && e.code == "ACRE_INVALID_PREVIOUS_COMMAND" && e.exit_code == EXIT_USAGE),
        !has_command && shell.session_id is None ==> (r matches Err(e) && e.code == "ACRE_NO_SHELL_HISTORY"
            && e.exit_code == EXIT_NOT_FOUND),
        !has_command && shell.session_id is Some ==> match previous {
            Some(p) if previous_exists => r == Ok::<String, AcreError>(p),
            _ => r matches Err(e) && e.code == "ACRE_NO_PREVIOUS_LOCATION" && e.exit_code == EXIT_NOT_FOUND,
        },
{
    if has_command {
        return Err(AcreError::new(
            "ACRE_INVALID_PREVIOUS_COMMAND",
            "Acre cannot run a command through the previous-location shortcut.",
            EXIT_USAGE,
        ));
    }
    if shell.session_id.is_none() {
        return Err(AcreError::new("ACRE_NO_SHELL_HISTORY", "This shell has no Acre navigation history.", EXIT_NOT_FOUND));
    }
    match previous {
        Some(p) => {
            if previous_exists {
                return Ok(p);
            }
        },
        None => {},
    }
    Err(AcreError::new(
        "ACRE_NO_PREVIOUS_LOCATION",
        "The previous Acre location is no longer available.",
        EXIT_NOT_FOUND,
    ))
}

/// A picker row, as text.
pub struct RowView {
    pub label: Seq<char>,
    pub detail: Option<Seq<char>>,
    pub searchable: Seq<char>,
    pub value: Seq<char>,
}

pub open spec fn row_view(r: PickerRow<String>) -> RowView {
    RowView { label: r.label@, detail: opt_view(r.detail), searchable: r.searchable@, value: r.value@ }
}

pub open spec fn rows_view(rows: Seq<PickerRow<String>>) -> Seq<RowView> {
    rows.map_values(|r: PickerRow<String>| row_view(r))
}

/// The row for worktree `w`: named by its branch, else by what Acre recorded there
/// (`stored`), else `detached` and the first eight characters of its commit; marked when the
/// shell is in it (`here`), and chosen by branch or path.
pub open spec fn worktree_row(w: GitWorktree, stored: Option<WorkspaceRecord>, here: bool) -> RowView {
    let label = match w.branch {
        Some(b) => b@,
        None => match stored {
            Some(s) => s.target.display_name@,
            None => "detached "@ + w.head@.take(if w.head@.len() < 8 { w.head@.len() as int } else { 8 }),
        },
    };
    RowView {
        label,
        detail: Some(if here { "here · worktree"@ } else { "worktree"@ }),
        searchable: label + " "@ + w.path@,
        value: match w.branch {
            Some(b) => b@,
            None => w.path@,
        },
    }
}

/// The rows for the repository's worktrees. `worktree_paths` and `workspace_paths` are the
/// canonical paths of the worktrees and of the workspaces.
pub open spec fn worktree_rows(
    repository: Repository,
    worktree_paths: Seq<String>,
    state: RepositoryState,
    workspace_paths: Seq<String>,
) -> Seq<RowView> {
    Seq::new(
        repository.worktrees@.len(),
        |i: int| {
            let w = repository.worktrees@[i];
            let stored = match first_text_from(workspace_paths, worktree_paths[i]@, 0) {
                Some(k) => Some(state.workspaces@[k]),
                None => None,
            };
            let here = match repository.current_worktree {
                Some(c) => c.path@ == w.path@,
                None => false,
            };
            worktree_row(w, stored, here)
        },
    )
}

/// Some worktree has `branch` checked out.
pub open spec fn branch_in_worktree(worktrees: Seq<GitWorktree>, branch: Seq<char>) -> bool {
    exists|i: int| 0 <= i < worktrees.len() && opt_view(#[trigger] worktrees[i].branch) == Some(branch)
}

/// A local branch named `name` exists.
pub open spec fn local_exists(refs: Seq<GitRef>, name: Seq<char>) -> bool {
    exists|i: int| 0 <= i < refs.len() && (#[trigger] refs[i]).kind == GitRefKind::Local && refs[i].short_name@ == name
}

pub open spec fn ref_row(r: GitRef, label: Seq<char>, detail: Seq<char>, value: Option<Seq<char>>) -> RowView {
    RowView {
        label,
        detail: Some(detail),
        searchable: label + " "@ + r.full_name@,
        value: match value {
            Some(v) => v,
            None => label,
        },
    }
}

/// The rows for the first `n` refs that are local branches no worktree has checked out.
pub open spec fn local_rows(refs: Seq<GitRef>, worktrees: Seq<GitWorktree>, n: int) -> Seq<RowView>
    decreases n,
{
    if n <= 0 {
        Seq::empty()
    } else {
        let r = refs[n - 1];
        let prev = local_rows(refs, worktrees, n - 1);
        if r.kind == GitRefKind::Local && !branch_in_worktree(worktrees, r.short_name@) {
            prev.push(ref_row(r, r.short_name@, "local branch"@, None))
        } else {
            prev
        }
    }
}

/// The name of a remote-tracking ref's remote, `remote` when it has none.
pub open spec fn remote_name(r: GitRef) -> Seq<char> {
    match r.remote {
        Some(m) => m@,
        None => "remote"@,
    }
}

/// The rows for the first `n` refs that are remote branches with no local branch of the same
/// name.
pub open spec fn remote_rows(refs: Seq<GitRef>, n: int) -> Seq<RowView>
    decreases n,
{
    if n <= 0 {
        Seq::empty()
    } else {
        let r = refs[n - 1];
        let prev = remote_rows(refs, n - 1);
        if r.kind == GitRefKind::Remote && !local_exists(refs, r.short_name@) {
            prev.push(ref_row(
                r,
                r.short_name@,
                remote_name(r) + " · remote branch"@,
                Some(remote_name(r) + seq!['/'] + r.short_name@),
            ))
        } else {
            prev
        }
    }
}

/// At most this many remote branches are offered.
pub const REMOTE_ROW_LIMIT: usize = 1000;

/// Everything the picker offers: the worktrees, then local branches not checked out anywhere,
/// then up to a thousand remote branches without a local namesake.
pub open spec fn picker_rows_spec(
    repository: Repository,
    worktree_paths: Seq<String>,
    state: RepositoryState,
    workspace_paths: Seq<String>,
    refs: Seq<GitRef>,
) -> Seq<RowView> {
    let remote = remote_rows(refs, refs.len() as int);
    worktree_rows(repository, worktree_paths, state, workspace_paths) + local_rows(refs, repository.worktrees@, refs.len() as int)
        + remote.take(if remote.len() < REMOTE_ROW_LIMIT { remote.len() as int } else { REMOTE_ROW_LIMIT as int })
}

fn has_branch(worktrees: &Vec<GitWorktree>, name: &str) -> (r: bool)
    ensures
        r == branch_in_worktree(worktrees@, name@),
{
    let mut i: usize = 0;
    while i < worktrees.len()
        invariant
            i <= worktrees@.len(),
            forall|j: int| 0 <= j < i ==> opt_view(#[trigger] worktrees@[j].branch) != Some(name@),
        decreases worktrees.len() - i,
    {
        match &worktrees[i].branch {
            Some(b) => {
                if crate::text::str_equal(b.as_str(), name) {
                    return true;
                }
            },
            None => {},
        }
        i = i + 1;
    }
    false
}

fn has_local(refs: &Vec<GitRef>, name: &str) -> (r: bool)
    ensures
        r == local_exists(refs@, name@),
{
    let mut i: usize = 0;
    while i < refs.len()
        invariant
            i <= refs@.len(),
            forall|j: int| 0 <= j < i ==> !((#[trigger] refs@[j]).kind == GitRefKind::Local && refs@[j].short_name@ == name@),
        decreases refs.len() - i,
    {
        if refs[i].kind == GitRefKind::Local && crate::text::str_equal(refs[i].short_name.as_str(), name) {
            return true;
        }
        i = i + 1;
    }
    false
}

fn make_ref_row(r: &GitRef, label: &str, detail: &str, value: Option<String>) -> (row: PickerRow<String>)
    ensures
        row_view(row) == ref_row(*r, label@, detail@, opt_view(value)),
{
    let mut searchable = chars_of(label);
    push_str(&mut searchable, " ");
    push_str(&mut searchable, r.full_name.as_str());
    PickerRow {
        label: label.to_owned(),
        detail: Some(detail.to_owned()),
        searchable: string_from_chars(&searchable),
        value: match value {
            Some(v) => v,
            None => label.to_owned(),
        },
    }
}

fn find_workspace(workspace_paths: &Vec<String>, p: &str) -> (r: Option<usize>)
    ensures
        match r {
            Some(k) => first_text_from(workspace_paths@, p@, 0) == Some(k as int) && k < workspace_paths@.len(),
            None => first_text_from(workspace_paths@, p@, 0) is None,
        },
{
    let mut k: usize = 0;
    while k < workspace_paths.len()
        invariant
            k <= workspace_paths@.len(),
            first_text_from(workspace_paths@, p@, 0) == first_text_from(workspace_paths@, p@, k as int),
        decreases workspace_paths.len() - k,
    {
        if crate::text::str_equal(workspace_paths[k].as_str(), p) {
            return Some(k);
        }
        k = k + 1;
    }
    None
}

fn worktree_picker_row(w: &GitWorktree, stored: Option<&WorkspaceRecord>, here: bool) -> (row: PickerRow<String>)
    ensures
        row_view(row) == worktree_row(*w, match stored {
            Some(s) => Some(*s),
            None => None,
        }, here),
{
    let label: String = match &w.branch {
        Some(b) => b.clone(),
        None => match stored {
            Some(s) => s.target.display_name.clone(),
            None => {
                let head = chars_of(w.head.as_str());
                let n = if head.len() < 8 { head.len() } else { 8 };
                let short = crate::text::slice_chars(&head, 0, n);
                let mut text = chars_of("detached ");
                push_chars(&mut text, &short);
                assert(short@ =~= w.head@.take(n as int));
                string_from_chars(&text)
            },
        },
    };
    let detail = if here {
        "here · worktree".to_owned()
    } else {
        "worktree".to_owned()
    };
    let mut searchable = chars_of(label.as_str());
    push_str(&mut searchable, " ");
    push_str(&mut searchable, w.path.as_str());
    let value = match &w.branch {
        Some(b) => b.clone(),
        None => w.path.clone(),
    };
    PickerRow { label, detail: Some(detail), searchable: string_from_chars(&searchable), value }
}

/// The rows the picker offers when `acre` runs without a target. `worktree_paths` and
/// `workspace_paths` are the canonical paths of the worktrees and of the workspaces, and
/// `refs` the repository's refs.
pub fn picker_rows(
    repository: &Repository,
    worktree_paths: &Vec<String>,
    state: &RepositoryState,
    workspace_paths: &Vec<String>,
    refs: &Vec<GitRef>,
) -> (rows: Vec<PickerRow<String>>)
    requires
        worktree_paths@.len() == repository.worktrees@.len(),
        workspace_paths@.len() == state.workspaces@.len(),
    ensures
        rows_view(rows@) == picker_rows_spec(*repository, worktree_paths@, *state, workspace_paths@, refs@),
{
    let ghost wt_rows = worktree_rows(*repository, worktree_paths@, *state, workspace_paths@);
    let mut rows: Vec<PickerRow<String>> = Vec::new();
    let mut i: usize = 0;
    while i < repository.worktrees.len()
        invariant
            i <= repository.worktrees@.len(),
            worktree_paths@.len() == repository.worktrees@.len(),
            workspace_paths@.len() == state.workspaces@.len(),
            wt_rows == worktree_rows(*repository, worktree_paths@, *state, workspace_paths@),
            rows_view(rows@) == wt_rows.take(i as int),
        decreases repository.worktrees.len() - i,
    {
        let w = &repository.worktrees[i];
        let stored = match find_workspace(workspace_paths, worktree_paths[i].as_str()) {
            Some(k) => Some(&state.workspaces[k]),
            None => None,
        };
        let here = match &repository.current_worktree {
            Some(c) => crate::text::str_equal(c.path.as_str(), w.path.as_str()),
            None => false,
        };
        let row = worktree_picker_row(w, stored, here);
        let ghost before = rows_view(rows@);
        rows.push(row);
        assert(rows_view(rows@) =~= before.push(row_view(row)));
        assert(wt_rows.take(i + 1) =~= wt_rows.take(i as int).push(wt_rows[i as int]));
        i = i + 1;
    }
    assert(wt_rows.take(repository.worktrees@.len() as int) =~= wt_rows);
    let ghost base = rows_view(rows@);
    let mut j: usize = 0;
    while j < refs.len()
        invariant
            j <= refs@.len(),
            rows_view(rows@) == base + local_rows(refs@, repository.worktrees@, j as int),
        decreases refs.len() - j,
    {
        let r = &refs[j];
        if r.kind == GitRefKind::Local && !has_branch(&repository.worktrees, r.short_name.as_str()) {
            let row = make_ref_row(r, r.short_name.as_str(), "local branch", None);
            let ghost before = rows_view(rows@);
            rows.push(row);
            assert(rows_view(rows@) =~= before.push(row_view(row)));
        }
        j = j + 1;
    }
    let ghost with_locals = rows_view(rows@);
    let ghost remote = remote_rows(refs@, refs@.len() as int);
    let mut taken: usize = 0;
    let mut j: usize = 0;
    while j < refs.len() && taken < REMOTE_ROW_LIMIT
        invariant
            j <= refs@.len(),
            taken <= REMOTE_ROW_LIMIT,
            taken == remote_rows(refs@, j as int).len(),
            remote == remote_rows(refs@, refs@.len() as int),
            rows_view(rows@) == with_locals + remote_rows(refs@, j as int),
        decreases refs.len() - j,
    {
        let r = &refs[j];
        if r.kind == GitRefKind::Remote && !has_local(refs, r.short_name.as_str()) {
            let name: String = match &r.remote {
                Some(m) => m.clone(),
                None => "remote".to_owned(),
            };
            let mut detail = chars_of(name.as_str());
            push_str(&mut detail, " · remote branch");
            let mut value = chars_of(name.as_str());
            value.push('/');
            push_str(&mut value, r.short_name.as_str());
            assert(value@ =~= remote_name(*r) + seq!['/'] + r.short_name@);
            let detail_text = string_from_chars(&detail);
            let row = make_ref_row(r, r.short_name.as_str(), detail_text.as_str(), Some(string_from_chars(&value)));
            let ghost before = rows_view(rows@);
            rows.push(row);
            assert(rows_view(rows@) =~= before.push(row_view(row)));
            taken = taken + 1;
        }
        j = j + 1;
    }
    proof {
        lemma_remote_rows_prefix(refs@, j as int, refs@.len() as int);
        if taken < REMOTE_ROW_LIMIT {
            assert(j == refs@.len());
            assert(remote.take(remote.len() as int) =~= remote);
        } else {
            assert(remote.take(REMOTE_ROW_LIMIT as int) =~= remote_rows(refs@, j as int));
        }
    }
    rows
}

proof fn lemma_remote_rows_prefix(refs: Seq<GitRef>, m: int, n: int)
    requires
        0 <= m <= n <= refs.len(),
    ensures
        remote_rows(refs, m).len() <= remote_rows(refs, n).len(),
        forall|t: int| 0 <= t < remote_rows(refs, m).len() ==> #[trigger] remote_rows(refs, n)[t] == remote_rows(refs, m)[t],
    decreases n - m,
{
    if m < n {
        lemma_remote_rows_prefix(refs, m, n - 1);
    }
}

} // verus!
