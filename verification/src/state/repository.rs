//! Per-repository state: what is accepted from disk, how it is reconciled against Git, and
//! the lookups the broker makes in it.

use vstd::prelude::*;

use crate::git::repository::Repository;
use crate::git::worktrees::GitWorktree;
use crate::model::{
    RepositoryState, StoredTarget, TargetKind, WorkspaceLease, WorkspaceRecord, WorkspaceSlot,
    WorkspaceStatus,
};
use crate::order::views;
use crate::util::{is_inside, now_iso, path_within, short_hash, short_hash_spec};
use crate::bytes::{nonempty_fields, split_bytes};
use crate::model::{StoredTarget as Target, TrustLevel, WorkspaceOwnership};

verus! {

/// The stored state is used only when it has the current schema and belongs to this
/// repository; anything else reads as no state, and recovery rebuilds what it can from Git.
pub fn stored_repository_state(stored: Option<RepositoryState>, repository: &Repository) -> (r:
    Option<RepositoryState>)
    ensures
        r == match stored {
            Some(s) => if s.schema_version == 1 && s.repository_id@ == repository.id@ {
                Some(s)
            } else {
                None
            },
            None => None,
        },
{
    match stored {
        Some(s) => {
            if s.schema_version == 1 && crate::text::str_equal(
                s.repository_id.as_str(),
                repository.id.as_str(),
            ) {
                Some(s)
            } else {
                None
            }
        },
        None => None,
    }
}

/// A fresh state for `repository`, stamped `now`: no slots, workspaces or leases.
pub fn empty_state_at(repository: &Repository, now: String) -> (state: RepositoryState)
    ensures
        state.schema_version == 1,
        state.repository_id@ == repository.id@,
        state.repository_common_dir@ == repository.common_dir@,
        state.repository_name@ == repository.name@,
        state.updated_at@ == now@,
        state.slots@.len() == 0,
        state.workspaces@.len() == 0,
        state.leases@.len() == 0,
{
    RepositoryState {
        schema_version: 1,
        repository_id: repository.id.clone(),
        repository_common_dir: repository.common_dir.clone(),
        repository_name: repository.name.clone(),
        updated_at: now,
        slots: Vec::new(),
        workspaces: Vec::new(),
        leases: Vec::new(),
    }
}

/// A fresh state for `repository`, stamped with the current time.
pub fn empty_state(repository: &Repository) -> (state: RepositoryState)
    ensures
        state.schema_version == 1,
        state.repository_id@ == repository.id@,
        state.repository_common_dir@ == repository.common_dir@,
        state.repository_name@ == repository.name@,
        state.slots@.len() == 0,
        state.workspaces@.len() == 0,
        state.leases@.len() == 0,
        crate::util::is_millis_stamp(state.updated_at@),
{
    empty_state_at(repository, now_iso())
}

fn find_path(paths: &Vec<String>, path: &str) -> (r: Option<usize>)
    ensures
        r is None <==> forall|j: int| 0 <= j < paths@.len() ==> (#[trigger] paths@[j])@ != path@,
        r matches Some(k) ==> k < paths@.len() && paths@[k as int]@ == path@ && forall|j: int|
            0 <= j < k ==> (#[trigger] paths@[j])@ != path@,
{
    let mut i: usize = 0;
    while i < paths.len()
        invariant
            i <= paths@.len(),
            forall|j: int| 0 <= j < i ==> (#[trigger] paths@[j])@ != path@,
        decreases paths.len() - i,
    {
        if crate::text::str_equal(paths[i].as_str(), path) {
            return Some(i);
        }
        i = i + 1;
    }
    None
}

impl RepositoryState {
    /// The first workspace whose canonical path is `path`. `canonical[i]` is the canonical
    /// form of workspace `i`'s path, and `path` is canonical too.
    pub fn workspace_at(&self, canonical: &Vec<String>, path: &str) -> (r: Option<&WorkspaceRecord>)
        requires
            canonical@.len() == self.workspaces@.len(),
        ensures
            r is None <==> forall|j: int|
                0 <= j < canonical@.len() ==> (#[trigger] canonical@[j])@ != path@,
            r matches Some(w) ==> exists|k: int|
                0 <= k < canonical@.len() && canonical@[k]@ == path@ && *w == self.workspaces@[k]
                    && forall|j: int| 0 <= j < k ==> (#[trigger] canonical@[j])@ != path@,
    {
        match find_path(canonical, path) {
            Some(k) => Some(&self.workspaces[k]),
            None => None,
        }
    }

    /// The first usable workspace already bound to `target`: the same pull request (number and
    /// repository, since the head moves with every push), else the same local branch, else
    /// the same kind at the same commit. Broken workspaces never match.
    pub fn workspace_for_target(&self, target: &StoredTarget) -> (r: Option<&WorkspaceRecord>)
        ensures
            r is None <==> forall|j: int|
                0 <= j < self.workspaces@.len() ==> !bound_to(#[trigger] self.workspaces@[j], *target),
            r matches Some(w) ==> exists|k: int|
                0 <= k < self.workspaces@.len() && *w == self.workspaces@[k] && bound_to(*w, *target)
                    && forall|j: int| 0 <= j < k ==> !bound_to(#[trigger] self.workspaces@[j], *target),
    {
        let mut i: usize = 0;
        while i < self.workspaces.len()
            invariant
                i <= self.workspaces@.len(),
                forall|j: int| 0 <= j < i ==> !bound_to(#[trigger] self.workspaces@[j], *target),
            decreases self.workspaces.len() - i,
        {
            if is_bound_to(&self.workspaces[i], target) {
                return Some(&self.workspaces[i]);
            }
            i = i + 1;
        }
        None
    }
}

/// Workspace `w` is usable for `target`.
pub open spec fn bound_to(w: WorkspaceRecord, target: StoredTarget) -> bool {
    &&& w.status != WorkspaceStatus::Broken
    &&& match target.pull_request {
        Some(pr) => match w.target.pull_request {
            Some(candidate) => candidate.number == pr.number && candidate.repository@
                == pr.repository@,
            None => false,
        },
        None => match target.local_branch {
            Some(branch) => match w.target.local_branch {
                Some(candidate) => candidate@ == branch@,
                None => false,
            },
            None => w.target.kind == target.kind && w.target.oid@ == target.oid@,
        },
    }
}

fn is_bound_to(w: &WorkspaceRecord, target: &StoredTarget) -> (r: bool)
    ensures
        r == bound_to(*w, *target),
{
    if w.status == WorkspaceStatus::Broken {
        return false;
    }
    match &target.pull_request {
        Some(pr) => match &w.target.pull_request {
            Some(candidate) => candidate.number == pr.number && crate::text::str_equal(
                candidate.repository.as_str(),
                pr.repository.as_str(),
            ),
            None => false,
        },
        None => match &target.local_branch {
            Some(branch) => match &w.target.local_branch {
                Some(candidate) => crate::text::str_equal(candidate.as_str(), branch.as_str()),
                None => false,
            },
            None => w.target.kind == target.kind && crate::text::str_equal(
                w.target.oid.as_str(),
                target.oid.as_str(),
            ),
        },
    }
}

/// The worktree Git registers at canonical path `p`: the last one listed there, as a map
/// keyed by path keeps it.
pub open spec fn registered_at(paths: Seq<Seq<char>>, p: Seq<char>, n: int) -> Option<int>
    decreases n,
{
    if n <= 0 || n > paths.len() {
        None
    } else if paths[n - 1] == p {
        Some(n - 1)
    } else {
        registered_at(paths, p, n - 1)
    }
}

/// Git still has a usable worktree at canonical path `p`: registered, present on disk, and not
/// prunable.
pub open spec fn healthy_at(worktrees: Seq<GitWorktree>, paths: Seq<Seq<char>>, p: Seq<char>) -> bool {
    match registered_at(paths, p, paths.len() as int) {
        Some(k) => worktrees[k].exists && !worktrees[k].prunable,
        None => false,
    }
}

/// A workspace record after reconciliation: broken unless Git still has it.
pub open spec fn reconciled_workspace(w: WorkspaceRecord, healthy: bool) -> WorkspaceRecord {
    if healthy {
        w
    } else {
        WorkspaceRecord { status: WorkspaceStatus::Broken, ..w }
    }
}

pub open spec fn reconciled_slot(s: WorkspaceSlot, healthy: bool) -> WorkspaceSlot {
    if healthy {
        s
    } else {
        WorkspaceSlot { status: WorkspaceStatus::Broken, ..s }
    }
}

/// Some workspace in `ws` that is not broken has id `id`.
pub open spec fn usable_workspace_id(ws: Seq<WorkspaceRecord>, id: Seq<char>) -> bool {
    exists|j: int| 0 <= j < ws.len() && (#[trigger] ws[j]).status != WorkspaceStatus::Broken && ws[j].id@ == id
}

/// A lease survives reconciliation when its workspace is usable and its process, if it names
/// one, is alive. A lease without a pid (a shell session) cannot be probed, so it stays.
pub open spec fn lease_survives(ws: Seq<WorkspaceRecord>, l: WorkspaceLease, alive: bool) -> bool {
    usable_workspace_id(ws, l.workspace_id@) && (l.pid is None || alive)
}

pub open spec fn surviving_leases(ws: Seq<WorkspaceRecord>, ls: Seq<WorkspaceLease>, alive: Seq<bool>, n: int) -> Seq<WorkspaceLease>
    decreases n,
{
    if n <= 0 || n > ls.len() {
        Seq::empty()
    } else if lease_survives(ws, ls[n - 1], alive[n - 1]) {
        surviving_leases(ws, ls, alive, n - 1).push(ls[n - 1])
    } else {
        surviving_leases(ws, ls, alive, n - 1)
    }
}

fn registered_healthy(worktrees: &Vec<GitWorktree>, paths: &Vec<String>, p: &str) -> (r: bool)
    requires
        paths@.len() == worktrees@.len(),
    ensures
        r == healthy_at(worktrees@, views(paths@), p@),
{
    let ghost ps = views(paths@);
    let mut n: usize = paths.len();
    while n > 0
        invariant
            n <= paths@.len(),
            paths@.len() == worktrees@.len(),
            ps == views(paths@),
            registered_at(ps, p@, ps.len() as int) == registered_at(ps, p@, n as int),
        decreases n,
    {
        if crate::text::str_equal(paths[n - 1].as_str(), p) {
            return worktrees[n - 1].exists && !worktrees[n - 1].prunable;
        }
        n = n - 1;
    }
    false
}

fn has_usable_workspace(ws: &Vec<WorkspaceRecord>, id: &str) -> (r: bool)
    ensures
        r == usable_workspace_id(ws@, id@),
{
    let mut i: usize = 0;
    while i < ws.len()
        invariant
            i <= ws@.len(),
            forall|j: int| 0 <= j < i ==> !((#[trigger] ws@[j]).status != WorkspaceStatus::Broken && ws@[j].id@ == id@),
        decreases ws.len() - i,
    {
        if ws[i].status != WorkspaceStatus::Broken && crate::text::str_equal(ws[i].id.as_str(), id) {
            return true;
        }
        i = i + 1;
    }
    false
}

/// Reconciles stored state against Git, which is the authority: a workspace or slot whose
/// worktree is gone or prunable becomes broken, never silently kept, and leases on broken
/// workspaces or dead processes are dropped (they would block a repair forever). Paths are
/// compared in canonical form: `worktree_paths`, `workspace_paths` and `slot_paths` hold the
/// canonical paths of the worktrees, workspaces and slots, and `lease_alive[i]` says whether
/// lease `i`'s process is running.
pub fn reconcile_state(
    state: RepositoryState,
    worktrees: &Vec<GitWorktree>,
    worktree_paths: &Vec<String>,
    workspace_paths: &Vec<String>,
    slot_paths: &Vec<String>,
    lease_alive: &Vec<bool>,
    now: String,
) -> (r: RepositoryState)
    requires
        worktree_paths@.len() == worktrees@.len(),
        workspace_paths@.len() == state.workspaces@.len(),
        slot_paths@.len() == state.slots@.len(),
        lease_alive@.len() == state.leases@.len(),
    ensures
        r.workspaces@.len() == state.workspaces@.len(),
        forall|i: int| 0 <= i < state.workspaces@.len() ==> #[trigger] r.workspaces@[i] == reconciled_workspace(
            state.workspaces@[i],
            healthy_at(worktrees@, views(worktree_paths@), workspace_paths@[i]@),
        ),
        r.slots@.len() == state.slots@.len(),
        forall|i: int| 0 <= i < state.slots@.len() ==> #[trigger] r.slots@[i] == reconciled_slot(
            state.slots@[i],
            healthy_at(worktrees@, views(worktree_paths@), slot_paths@[i]@),
        ),
        r.leases@ == surviving_leases(r.workspaces@, state.leases@, lease_alive@, state.leases@.len() as int),
        r.updated_at == now,
        r.schema_version == state.schema_version,
        r.repository_id == state.repository_id,
        r.repository_common_dir == state.repository_common_dir,
        r.repository_name == state.repository_name,
{
    let RepositoryState {
        schema_version,
        repository_id,
        repository_common_dir,
        repository_name,
        updated_at: _,
        slots,
        workspaces,
        leases,
    } = state;
    let ghost ws0 = workspaces@;
    let ghost ss0 = slots@;
    let mut workspaces = workspaces;
    let mut i: usize = 0;
    while i < workspaces.len()
        invariant
            i <= workspaces@.len(),
            workspaces@.len() == ws0.len(),
            workspace_paths@.len() == ws0.len(),
            worktree_paths@.len() == worktrees@.len(),
            forall|j: int| 0 <= j < i ==> #[trigger] workspaces@[j] == reconciled_workspace(
                ws0[j],
                healthy_at(worktrees@, views(worktree_paths@), workspace_paths@[j]@),
            ),
            forall|j: int| i <= j < ws0.len() ==> #[trigger] workspaces@[j] == ws0[j],
        decreases ws0.len() - i,
    {
        if !registered_healthy(worktrees, worktree_paths, workspace_paths[i].as_str()) {
            workspaces[i].status = WorkspaceStatus::Broken;
        }
        i = i + 1;
    }
    let mut slots = slots;
    let mut i: usize = 0;
    while i < slots.len()
        invariant
            i <= slots@.len(),
            slots@.len() == ss0.len(),
            slot_paths@.len() == ss0.len(),
            worktree_paths@.len() == worktrees@.len(),
            forall|j: int| 0 <= j < i ==> #[trigger] slots@[j] == reconciled_slot(
                ss0[j],
                healthy_at(worktrees@, views(worktree_paths@), slot_paths@[j]@),
            ),
            forall|j: int| i <= j < ss0.len() ==> #[trigger] slots@[j] == ss0[j],
        decreases ss0.len() - i,
    {
        if !registered_healthy(worktrees, worktree_paths, slot_paths[i].as_str()) {
            slots[i].status = WorkspaceStatus::Broken;
        }
        i = i + 1;
    }
    let mut kept: Vec<WorkspaceLease> = Vec::new();
    let mut leases = leases;
    let ghost ls0 = leases@;
    let mut n: usize = 0;
    while n < leases.len()
        invariant
            n <= leases@.len(),
            leases@ == ls0,
            lease_alive@.len() == ls0.len(),
            kept@ == surviving_leases(workspaces@, ls0, lease_alive@, n as int),
        decreases ls0.len() - n,
    {
        let l = &leases[n];
        let keep = has_usable_workspace(&workspaces, l.workspace_id.as_str()) && (l.pid.is_none()
            || lease_alive[n]);
        if keep {
            kept.push(crate::state::leases::clone_lease(l));
        }
        n = n + 1;
    }
    RepositoryState {
        schema_version,
        repository_id,
        repository_common_dir,
        repository_name,
        updated_at: now,
        slots,
        workspaces,
        leases: kept,
    }
}

/// Reconciled state never keeps a lease on a broken or unknown workspace.
pub proof fn law_reconciled_leases_are_usable(
    ws: Seq<WorkspaceRecord>,
    ls: Seq<WorkspaceLease>,
    alive: Seq<bool>,
)
    requires
        alive.len() == ls.len(),
    ensures
        forall|i: int|
            0 <= i < surviving_leases(ws, ls, alive, ls.len() as int).len() ==> usable_workspace_id(
                ws,
                (#[trigger] surviving_leases(ws, ls, alive, ls.len() as int)[i]).workspace_id@,
            ),
{
    lemma_surviving_usable(ws, ls, alive, ls.len() as int);
}

proof fn lemma_surviving_usable(ws: Seq<WorkspaceRecord>, ls: Seq<WorkspaceLease>, alive: Seq<bool>, n: int)
    requires
        alive.len() == ls.len(),
        0 <= n <= ls.len(),
    ensures
        forall|i: int|
            0 <= i < surviving_leases(ws, ls, alive, n).len() ==> usable_workspace_id(
                ws,
                (#[trigger] surviving_leases(ws, ls, alive, n)[i]).workspace_id@,
            ),
    decreases n,
{
    if n > 0 {
        lemma_surviving_usable(ws, ls, alive, n - 1);
    }
}

/// The components of a normalized path: its non-empty `/`-separated pieces other than `.`.
pub open spec fn path_components(p: Seq<char>) -> Seq<Seq<char>> {
    drop_dots(nonempty_fields(split_bytes(p, '/')))
}

pub open spec fn drop_dots(parts: Seq<Seq<char>>) -> Seq<Seq<char>>
    decreases parts.len(),
{
    if parts.len() == 0 {
        parts
    } else if parts.last() == seq!['.'] {
        drop_dots(parts.drop_last())
    } else {
        drop_dots(parts.drop_last()).push(parts.last())
    }
}

/// `Path::file_name`: the last component, unless there is none or it is `..`.
pub open spec fn file_name(p: Seq<char>) -> Option<Seq<char>> {
    let parts = path_components(p);
    if parts.len() == 0 || parts.last() == seq!['.', '.'] {
        None
    } else {
        Some(parts.last())
    }
}

pub(crate) fn file_name_exec(p: &str) -> (r: Option<String>)
    ensures
        opt_text(r) == file_name(p@),
{
    let chars = crate::text::chars_of(p);
    let pieces = crate::bytes::split_chars_on(&chars, '/');
    let parts = crate::bytes::nonempty_char_fields(&pieces);
    let ghost all = parts@.map_values(|f: Vec<char>| f@);
    assert(pieces@.map_values(|f: Vec<char>| f@) =~= split_bytes(p@, '/'));
    assert(all =~= nonempty_fields(split_bytes(p@, '/')));
    let mut kept: Vec<usize> = Vec::new();
    let mut i: usize = 0;
    while i < parts.len()
        invariant
            i <= parts@.len(),
            all == parts@.map_values(|f: Vec<char>| f@),
            kept@.len() == drop_dots(all.take(i as int)).len(),
            forall|t: int| 0 <= t < kept@.len() ==> #[trigger] kept@[t] < i && all[kept@[t] as int]
                == drop_dots(all.take(i as int))[t],
        decreases parts.len() - i,
    {
        proof {
            assert(all.take(i + 1).drop_last() =~= all.take(i as int));
        }
        let dot = parts[i].len() == 1 && parts[i][0] == '.';
        assert(dot == (all[i as int] == seq!['.'])) by {
            if all[i as int] == seq!['.'] {
                assert(all[i as int][0] == '.');
            }
            if dot {
                assert(all[i as int] =~= seq!['.']);
            }
        }
        if !dot {
            kept.push(i);
        }
        i = i + 1;
    }
    assert(all.take(parts@.len() as int) =~= all);
    if kept.len() == 0 {
        return None;
    }
    let last = &parts[kept[kept.len() - 1]];
    if last.len() == 2 && last[0] == '.' && last[1] == '.' {
        assert(last@ =~= seq!['.', '.']);
        return None;
    }
    assert(last@ != seq!['.', '.']) by {
        if last@ == seq!['.', '.'] {
            assert(last@.len() == 2 && last@[0] == '.' && last@[1] == '.');
        }
    }
    Some(crate::text::string_from_chars(last))
}

pub open spec fn opt_text(value: Option<String>) -> Option<Seq<char>> {
    crate::git::refs::opt_view(value)
}

/// Some path in `paths` is `p`.
pub open spec fn listed(paths: Seq<String>, p: Seq<char>) -> bool {
    exists|j: int| 0 <= j < paths.len() && (#[trigger] paths[j])@ == p
}

/// Worktree `i` lies under the slots root and no slot records it: it is recovered as a slot.
pub open spec fn recovers_slot(canonical: Seq<String>, slot_paths: Seq<String>, slots_root: Seq<char>, i: int) -> bool {
    path_within(slots_root, canonical[i]@) && !listed(slot_paths, canonical[i]@)
}

/// Worktree `i` lies under the workspaces root, is not recovered as a slot, and no workspace
/// records it: it is recovered as a workspace.
pub open spec fn recovers_workspace(
    canonical: Seq<String>,
    slot_paths: Seq<String>,
    workspace_paths: Seq<String>,
    slots_root: Seq<char>,
    active_root: Seq<char>,
    i: int,
) -> bool {
    &&& !recovers_slot(canonical, slot_paths, slots_root, i)
    &&& path_within(active_root, canonical[i]@)
    &&& !listed(workspace_paths, canonical[i]@)
}

/// The worktrees among the first `n` that become slots, in order.
pub open spec fn slot_indices(canonical: Seq<String>, slot_paths: Seq<String>, slots_root: Seq<char>, n: int) -> Seq<int>
    decreases n,
{
    if n <= 0 {
        Seq::empty()
    } else if recovers_slot(canonical, slot_paths, slots_root, n - 1) {
        slot_indices(canonical, slot_paths, slots_root, n - 1).push(n - 1)
    } else {
        slot_indices(canonical, slot_paths, slots_root, n - 1)
    }
}

/// The worktrees among the first `n` that become workspaces, in order.
pub open spec fn workspace_indices(
    canonical: Seq<String>,
    slot_paths: Seq<String>,
    workspace_paths: Seq<String>,
    slots_root: Seq<char>,
    active_root: Seq<char>,
    n: int,
) -> Seq<int>
    decreases n,
{
    if n <= 0 {
        Seq::empty()
    } else if recovers_workspace(canonical, slot_paths, workspace_paths, slots_root, active_root, n - 1) {
        workspace_indices(canonical, slot_paths, workspace_paths, slots_root, active_root, n - 1).push(n - 1)
    } else {
        workspace_indices(canonical, slot_paths, workspace_paths, slots_root, active_root, n - 1)
    }
}

/// A slot recovered from worktree `w` at canonical path `path`: named by the path's last
/// component (`fallback` when it has none), idle only when it is detached and healthy, since a
/// slot with a branch checked out was bound by someone whose record was lost.
pub open spec fn is_recovered_slot(s: WorkspaceSlot, w: GitWorktree, path: Seq<char>, now: Seq<char>, fallback: Seq<char>) -> bool {
    &&& s.id@ == match file_name(path) {
        Some(name) => name,
        None => fallback,
    }
    &&& s.path@ == path
    &&& s.head is None
    &&& s.status == if w.detached && w.exists && !w.prunable {
        WorkspaceStatus::Idle
    } else {
        WorkspaceStatus::Broken
    }
    &&& s.environment is None
    &&& s.created_at@ == now
    &&& s.last_used_at@ == now
}

pub open spec fn detached_prefix() -> Seq<char> {
    seq!['d', 'e', 't', 'a', 'c', 'h', 'e', 'd', '-']
}

pub open spec fn recovered_prefix() -> Seq<char> {
    seq!['r', 'e', 'c', 'o', 'v', 'e', 'r', 'e', 'd', '-']
}

/// How many bytes of a commit id name a recovered detached workspace.
pub open spec fn head_name_bytes(head: Seq<char>) -> int {
    let n = vstd::utf8::encode_utf8(head).len();
    if n < 8 { n as int } else { 8 }
}

/// A workspace recovered from worktree `w` at canonical path `path`. Its id derives from the
/// path, so every load agrees on the identity of a workspace that was never stored; it is
/// retained (never pooled) when healthy, and named by its branch, or by `detached-` and the
/// start of its commit id.
pub open spec fn is_recovered_workspace(r: WorkspaceRecord, w: GitWorktree, path: Seq<char>, repository_id: Seq<char>, now: Seq<char>) -> bool {
    &&& r.id@ == recovered_prefix() + short_hash_spec(vstd::utf8::encode_utf8(path), 10)
    &&& r.repository_id@ == repository_id
    &&& r.path@ == path
    &&& r.ownership == WorkspaceOwnership::Acre
    &&& r.status == if w.exists && !w.prunable {
        WorkspaceStatus::Retained
    } else {
        WorkspaceStatus::Broken
    }
    &&& r.slot_id is None
    &&& r.target.kind == if w.branch is Some {
        TargetKind::LocalBranch
    } else {
        TargetKind::Worktree
    }
    &&& match w.branch {
        Some(b) => r.target.display_name@ == b@,
        None => exists|p: Seq<char>|
            vstd::utf8::encode_utf8(p) == vstd::utf8::encode_utf8(w.head@).take(head_name_bytes(w.head@))
                && r.target.display_name@ == detached_prefix() + p,
    }
    &&& r.target.oid@ == w.head@
    &&& opt_text(r.target.local_branch) == opt_text(w.branch)
    &&& r.target.remote_branch is None
    &&& r.target.pull_request is None
    &&& r.trust == TrustLevel::Trusted
    &&& r.environment is None
    &&& r.baseline_ignored@.len() == 0
    &&& r.seeded_paths@.len() == 0
    &&& r.baseline_seed_files@.len() == 0
    &&& r.activated_at@ == now
    &&& r.last_used_at@ == now
}

fn is_listed(paths: &Vec<String>, p: &str) -> (r: bool)
    ensures
        r == listed(paths@, p@),
{
    match find_path(paths, p) {
        Some(k) => true,
        None => false,
    }
}

fn recovered_slot(w: &GitWorktree, path: &String, now: &String, fallback: &str) -> (s: WorkspaceSlot)
    ensures
        is_recovered_slot(s, *w, path@, now@, fallback@),
{
    let id = match file_name_exec(path.as_str()) {
        Some(name) => name,
        None => fallback.to_owned(),
    };
    WorkspaceSlot {
        id,
        path: path.clone(),
        head: None,
        status: if w.detached && w.exists && !w.prunable {
            WorkspaceStatus::Idle
        } else {
            WorkspaceStatus::Broken
        },
        environment: None,
        created_at: now.clone(),
        last_used_at: now.clone(),
    }
}

fn recovered_workspace(w: &GitWorktree, path: &String, repository_id: &String, now: &String) -> (r: WorkspaceRecord)
    requires
        w.branch is None ==> vstd::utf8::is_char_boundary(
            vstd::utf8::encode_utf8(w.head@),
            head_name_bytes(w.head@),
        ),
    ensures
        is_recovered_workspace(r, *w, path@, repository_id@, now@),
{
    let mut id = crate::text::chars_of("recovered-");
    let hash = short_hash(path.as_str().as_bytes(), 10);
    crate::text::push_str(&mut id, hash.as_str());
    proof {
        reveal_strlit("recovered-");
    }
    assert(id@ =~= recovered_prefix() + short_hash_spec(vstd::utf8::encode_utf8(path@), 10));
    let display_name = match &w.branch {
        Some(b) => b.clone(),
        None => {
            let bytes = w.head.as_str().as_bytes().len();
            let n: usize = if bytes < 8 {
                bytes
            } else {
                8
            };
            let (start, _) = w.head.as_str().split_at(n);
            let mut name = crate::text::chars_of("detached-");
            crate::text::push_str(&mut name, start);
            proof {
                reveal_strlit("detached-");
                assert(name@ =~= detached_prefix() + start@);
            }
            crate::text::string_from_chars(&name)
        },
    };
    let local_branch = match &w.branch {
        Some(b) => Some(b.clone()),
        None => None,
    };
    WorkspaceRecord {
        id: crate::text::string_from_chars(&id),
        repository_id: repository_id.clone(),
        path: path.clone(),
        ownership: WorkspaceOwnership::Acre,
        status: if w.exists && !w.prunable {
            WorkspaceStatus::Retained
        } else {
            WorkspaceStatus::Broken
        },
        slot_id: None,
        target: Target {
            kind: if w.branch.is_some() {
                TargetKind::LocalBranch
            } else {
                TargetKind::Worktree
            },
            display_name,
            oid: w.head.clone(),
            local_branch,
            remote_branch: None,
            pull_request: None,
        },
        trust: TrustLevel::Trusted,
        environment: None,
        baseline_ignored: Vec::new(),
        seeded_paths: Vec::new(),
        baseline_seed_files: Vec::new(),
        activated_at: now.clone(),
        last_used_at: now.clone(),
    }
}

/// Recovers worktrees under Acre's own roots that the state has lost track of: one under the
/// slots root that no slot records becomes a slot, and one under the workspaces root that no
/// workspace records becomes a retained workspace with no slot to return to. Anything elsewhere
/// is external and left alone. `worktree_paths`, `slot_paths` and `workspace_paths` are the
/// canonical paths of the repository's worktrees and of the state's slots and workspaces.
pub fn recover_owned_worktrees(
    state: RepositoryState,
    repository: &Repository,
    worktree_paths: &Vec<String>,
    slot_paths: &Vec<String>,
    workspace_paths: &Vec<String>,
    slots_root: &str,
    active_root: &str,
    now: String,
    fallback_id: &str,
) -> (r: RepositoryState)
    requires
        worktree_paths@.len() == repository.worktrees@.len(),
        forall|i: int|
            0 <= i < repository.worktrees@.len() && recovers_workspace(
                worktree_paths@,
                slot_paths@,
                workspace_paths@,
                slots_root@,
                active_root@,
                i,
            ) && (#[trigger] repository.worktrees@[i]).branch is None
                ==> vstd::utf8::is_char_boundary(
                vstd::utf8::encode_utf8(repository.worktrees@[i].head@),
                head_name_bytes(repository.worktrees@[i].head@),
            ),
    ensures
        ({
            let si = slot_indices(worktree_paths@, slot_paths@, slots_root@, worktree_paths@.len() as int);
            &&& r.slots@.len() == state.slots@.len() + si.len()
            &&& forall|j: int| 0 <= j < state.slots@.len() ==> #[trigger] r.slots@[j] == state.slots@[j]
            &&& forall|t: int| 0 <= t < si.len() ==> is_recovered_slot(
                #[trigger] r.slots@[state.slots@.len() + t],
                repository.worktrees@[si[t]],
                worktree_paths@[si[t]]@,
                now@,
                fallback_id@,
            )
        }),
        ({
            let wi = workspace_indices(
                worktree_paths@,
                slot_paths@,
                workspace_paths@,
                slots_root@,
                active_root@,
                worktree_paths@.len() as int,
            );
            &&& r.workspaces@.len() == state.workspaces@.len() + wi.len()
            &&& forall|j: int| 0 <= j < state.workspaces@.len() ==> #[trigger] r.workspaces@[j] == state.workspaces@[j]
            &&& forall|t: int| 0 <= t < wi.len() ==> is_recovered_workspace(
                #[trigger] r.workspaces@[state.workspaces@.len() + t],
                repository.worktrees@[wi[t]],
                worktree_paths@[wi[t]]@,
                repository.id@,
                now@,
            )
        }),
        r.leases@ == state.leases@,
        r.updated_at@ == now@,
        r.schema_version == state.schema_version,
        r.repository_id == state.repository_id,
        r.repository_common_dir == state.repository_common_dir,
        r.repository_name == state.repository_name,
{
    let mut state = state;
    let ghost slots0 = state.slots@;
    let ghost workspaces0 = state.workspaces@;
    let ghost wts = repository.worktrees@;
    let ghost canon = worktree_paths@;
    let ghost first = state;
    let mut i: usize = 0;
    while i < repository.worktrees.len()
        invariant
            i <= wts.len(),
            wts == repository.worktrees@,
            canon == worktree_paths@,
            canon.len() == wts.len(),
            forall|k: int|
                0 <= k < wts.len() && recovers_workspace(canon, slot_paths@, workspace_paths@, slots_root@, active_root@, k)
                    && (#[trigger] wts[k]).branch is None ==> vstd::utf8::is_char_boundary(
                    vstd::utf8::encode_utf8(wts[k].head@),
                    head_name_bytes(wts[k].head@),
                ),
            state.slots@.len() == slots0.len() + slot_indices(canon, slot_paths@, slots_root@, i as int).len(),
            forall|j: int| 0 <= j < slots0.len() ==> #[trigger] state.slots@[j] == slots0[j],
            forall|t: int|
                0 <= t < slot_indices(canon, slot_paths@, slots_root@, i as int).len() ==> is_recovered_slot(
                    #[trigger] state.slots@[slots0.len() + t],
                    wts[slot_indices(canon, slot_paths@, slots_root@, i as int)[t]],
                    canon[slot_indices(canon, slot_paths@, slots_root@, i as int)[t]]@,
                    now@,
                    fallback_id@,
                ),
            forall|t: int|
                0 <= t < slot_indices(canon, slot_paths@, slots_root@, i as int).len() ==> 0
                    <= #[trigger] slot_indices(canon, slot_paths@, slots_root@, i as int)[t] < i,
            state.workspaces@.len() == workspaces0.len() + workspace_indices(canon, slot_paths@, workspace_paths@, slots_root@, active_root@, i as int).len(),
            forall|j: int| 0 <= j < workspaces0.len() ==> #[trigger] state.workspaces@[j] == workspaces0[j],
            forall|t: int|
                0 <= t < workspace_indices(canon, slot_paths@, workspace_paths@, slots_root@, active_root@, i as int).len() ==> is_recovered_workspace(
                    #[trigger] state.workspaces@[workspaces0.len() + t],
                    wts[workspace_indices(canon, slot_paths@, workspace_paths@, slots_root@, active_root@, i as int)[t]],
                    canon[workspace_indices(canon, slot_paths@, workspace_paths@, slots_root@, active_root@, i as int)[t]]@,
                    repository.id@,
                    now@,
                ),
            forall|t: int|
                0 <= t < workspace_indices(canon, slot_paths@, workspace_paths@, slots_root@, active_root@, i as int).len() ==> 0
                    <= #[trigger] workspace_indices(canon, slot_paths@, workspace_paths@, slots_root@, active_root@, i as int)[t] < i,
            state.leases@ == first.leases@,
            state.schema_version == first.schema_version,
            state.repository_id == first.repository_id,
            state.repository_common_dir == first.repository_common_dir,
            state.repository_name == first.repository_name,
            slots0 == first.slots@,
            workspaces0 == first.workspaces@,
        decreases wts.len() - i,
    {
        let path = &worktree_paths[i];
        let w = &repository.worktrees[i];
        let ghost si = slot_indices(canon, slot_paths@, slots_root@, i as int);
        let ghost wi = workspace_indices(canon, slot_paths@, workspace_paths@, slots_root@, active_root@, i as int);
        let ghost slots_before = state.slots@;
        let ghost workspaces_before = state.workspaces@;
        let to_slot = is_inside(slots_root, path.as_str()) && !is_listed(slot_paths, path.as_str());
        assert(to_slot == recovers_slot(canon, slot_paths@, slots_root@, i as int));
        if to_slot {
            let slot = recovered_slot(w, path, &now, fallback_id);
            state.slots.push(slot);
            proof {
                let si2 = slot_indices(canon, slot_paths@, slots_root@, i + 1);
                assert(si2 == si.push(i as int));
                assert(workspace_indices(canon, slot_paths@, workspace_paths@, slots_root@, active_root@, i + 1) == wi);
                assert forall|t: int| 0 <= t < si2.len() implies 0 <= si2[t] < i + 1 && is_recovered_slot(
                    #[trigger] state.slots@[slots0.len() + t],
                    wts[si2[t]],
                    canon[si2[t]]@,
                    now@,
                    fallback_id@,
                ) by {
                    if t < si.len() {
                        assert(state.slots@[slots0.len() + t] == slots_before[slots0.len() + t]);
                    }
                }
            }
        } else {
            let to_workspace = is_inside(active_root, path.as_str()) && !is_listed(workspace_paths, path.as_str());
            assert(to_workspace == recovers_workspace(canon, slot_paths@, workspace_paths@, slots_root@, active_root@, i as int));
            if to_workspace {
                let record = recovered_workspace(w, path, &repository.id, &now);
                state.workspaces.push(record);
                proof {
                    let wi2 = workspace_indices(canon, slot_paths@, workspace_paths@, slots_root@, active_root@, i + 1);
                    assert(wi2 == wi.push(i as int));
                    assert(slot_indices(canon, slot_paths@, slots_root@, i + 1) == si);
                    assert forall|t: int| 0 <= t < wi2.len() implies 0 <= wi2[t] < i + 1 && is_recovered_workspace(
                        #[trigger] state.workspaces@[workspaces0.len() + t],
                        wts[wi2[t]],
                        canon[wi2[t]]@,
                        repository.id@,
                        now@,
                    ) by {
                        if t < wi.len() {
                            assert(state.workspaces@[workspaces0.len() + t] == workspaces_before[workspaces0.len() + t]);
                        }
                    }
                }
            } else {
                assert(slot_indices(canon, slot_paths@, slots_root@, i + 1) == si);
                assert(workspace_indices(canon, slot_paths@, workspace_paths@, slots_root@, active_root@, i + 1) == wi);
            }
        }
        proof {
            if !to_slot {
                let si2 = slot_indices(canon, slot_paths@, slots_root@, i + 1);
                assert(state.slots@ == slots_before);
                assert forall|t: int| 0 <= t < si2.len() implies 0 <= si2[t] < i + 1 && is_recovered_slot(
                    #[trigger] state.slots@[slots0.len() + t],
                    wts[si2[t]],
                    canon[si2[t]]@,
                    now@,
                    fallback_id@,
                ) by {
                    assert(si2[t] == si[t]);
                    assert(state.slots@[slots0.len() + t] == slots_before[slots0.len() + t]);
                }
            }
        }
        i = i + 1;
    }
    state.updated_at = now;
    state
}

} // verus!
