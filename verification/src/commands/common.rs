//! Which workspace a command is about.

use vstd::prelude::*;

use crate::error::{AcreError, EXIT_NOT_FOUND, EXIT_REFUSED};
use crate::git::repository::Repository;
use crate::model::{RepositoryState, WorkspaceRecord};

verus! {

/// The workspace the shell stands in: the first whose canonical path is the canonical path of
/// the current worktree (`current_canonical`). `workspace_paths[i]` is the canonical path of
/// workspace `i`. Outside any worktree there is none.
pub fn current_workspace<'a>(
    repository: &Repository,
    state: &'a RepositoryState,
    workspace_paths: &Vec<String>,
    current_canonical: &str,
) -> (r: Option<&'a WorkspaceRecord>)
    requires
        workspace_paths@.len() == state.workspaces@.len(),
    ensures
        repository.current_worktree is None ==> r is None,
        repository.current_worktree is Some ==> (r is None <==> forall|j: int|
            0 <= j < workspace_paths@.len() ==> (#[trigger] workspace_paths@[j])@ != current_canonical@),
        r matches Some(w) ==> exists|k: int|
            0 <= k < workspace_paths@.len() && workspace_paths@[k]@ == current_canonical@ && *w == state.workspaces@[k]
                && forall|j: int| 0 <= j < k ==> (#[trigger] workspace_paths@[j])@ != current_canonical@,
{
    if repository.current_worktree.is_none() {
        return None;
    }
    state.workspace_at(workspace_paths, current_canonical)
}

/// The current workspace (the first record at the current path), or why there is none: the repository's primary worktree is never
/// returned to Acre, and any other unmanaged worktree is not Acre's.
pub fn require_current_workspace<'a>(
    repository: &Repository,
    state: &'a RepositoryState,
    workspace_paths: &Vec<String>,
    current_canonical: &str,
) -> (r: Result<&'a WorkspaceRecord, AcreError>)
    requires
        workspace_paths@.len() == state.workspaces@.len(),
    ensures
        match r {
            Ok(w) => repository.current_worktree is Some && exists|k: int|
                0 <= k < workspace_paths@.len() && workspace_paths@[k]@ == current_canonical@ && *w == state.workspaces@[k]
                    && forall|j: int| 0 <= j < k ==> (#[trigger] workspace_paths@[j])@ != current_canonical@,
            Err(e) => (repository.current_worktree is None || forall|j: int|
                0 <= j < workspace_paths@.len() ==> (#[trigger] workspace_paths@[j])@ != current_canonical@) && if (
            repository.current_worktree matches Some(w) && w.is_main) {
                e.code == "ACRE_PRIMARY_WORKTREE" && e.exit_code == EXIT_REFUSED
            } else {
                e.code == "ACRE_WORKSPACE_NOT_MANAGED" && e.exit_code == EXIT_NOT_FOUND
            },
        },
{
    match current_workspace(repository, state, workspace_paths, current_canonical) {
        Some(w) => Ok(w),
        None => {
            let is_main = match &repository.current_worktree {
                Some(w) => w.is_main,
                None => false,
            };
            if is_main {
                Err(AcreError::new(
                    "ACRE_PRIMARY_WORKTREE",
                    "The repository's primary worktree cannot be returned to Acre.",
                    EXIT_REFUSED,
                ))
            } else {
                Err(AcreError::new(
                    "ACRE_WORKSPACE_NOT_MANAGED",
                    "The current worktree is not managed by Acre.",
                    EXIT_NOT_FOUND,
                ))
            }
        },
    }
}

} // verus!
