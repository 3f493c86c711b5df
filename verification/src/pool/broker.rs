//! The broker's decisions: which slot a target gets, where it is activated, what the state
//! records once it is, whether a returned workspace goes back to the pool, and the leases
//! handed out along the way. Moving worktrees and reading the disk happen around them.

use vstd::prelude::*;

use crate::environment::fingerprint::EnvironmentPlan;
use crate::error::{detail_text, AcreError, DetailValue, ErrorDetail, EXIT_CONFLICT};
use crate::git::operations::{
    bound_head_query, delete_branch_if_expected, is_git_step, reset_workspace, GIT_TIMEOUT_MS, HEAD_TIMEOUT_MS,
};
use crate::git::runner::Invocation;
use crate::git::refs::opt_view;
use crate::git::repository::Repository;
use crate::git::worktrees::GitWorktree;
use crate::model::{
    AcreConfig, EnvironmentSnapshot, EnvironmentState, RepositoryState, StoredTarget, TargetKind,
    TrustLevel, WorkspaceLease, WorkspaceOwnership, WorkspaceRecord, WorkspaceSlot, WorkspaceStatus,
};
use crate::order::{lemma_less_asymmetric, lemma_less_irreflexive, lemma_less_total, lemma_less_transitive, seq_less, str_less};
use crate::pool::assessment::{AssessOptions, DoneAssessment};
use crate::state::leases::{
    acquire_lease, acquire_spec, kept_leases, law_session_release_is_complete, lease_view, leases_view,
    lemma_reusable_from_finds, release_session_lease, reusable_from, same_but_leases, survives_session_release,
    AcquireLease, LeaseView, RequestView,
};
use crate::number::{decimal, decimal_spec};
use crate::order::{strictly_sorted, views, sort_unique_strings};
use crate::target::{store_target, ResolvedTarget};
use crate::util::{branch_slug, branch_slug_spec, join_path, now_iso, path_join, random_short, short_hash, short_hash_spec};
use crate::text::{chars_of, push_chars, push_str, string_from_chars};

verus! {

/// Who asks for a lease along with a workspace.
#[derive(Debug, Clone)]
pub struct LeaseRequest {
    pub holder: String,
    pub pid: Option<u32>,
    pub session_id: Option<String>,
}

#[derive(Debug, Clone)]
pub struct MaterializeOptions {
    pub lease: Option<LeaseRequest>,
    pub no_replenish: bool,
}

#[derive(Debug, Clone)]
pub struct ReturnOptions {
    pub assessment: AssessOptions,
    pub remove_lease_id: Option<String>,
}

/// How `done` ended: whether the workspace left, whether its slot went back to the pool, and
/// where the slot now lies.
#[derive(Debug)]
pub struct ReturnResult {
    pub assessment: DoneAssessment,
    pub returned: bool,
    pub pooled: bool,
    pub external: bool,
    pub path: Option<String>,
}

/// A workspace ready for use: where it is, what it holds, and whether it was made now or
/// found.
#[derive(Debug)]
pub struct MaterializedWorkspace {
    pub repository: Repository,
    pub target: ResolvedTarget,
    pub path: String,
    pub workspace: WorkspaceRecord,
    pub created: bool,
    pub reused: bool,
    pub elapsed_ms: u64,
    pub lease: Option<WorkspaceLease>,
}

/// The lease request for `workspace_id`, as text.
pub open spec fn lease_request_view(workspace_id: Seq<char>, request: LeaseRequest) -> RequestView {
    RequestView {
        workspace_id,
        holder: request.holder@,
        pid: request.pid,
        session_id: opt_view(request.session_id),
    }
}

/// The leases left when a request's session first gives up all it holds.
pub open spec fn released_for(ls: Seq<LeaseView>, request: LeaseRequest) -> Seq<LeaseView> {
    match request.session_id {
        Some(s) => kept_leases(ls, s@, None),
        None => ls,
    }
}

/// Leases `workspace_id` to `request`, if there is one: a session first gives up whatever it
/// held, so it ends with this one lease. Without a request nothing changes.
pub fn attach_lease(state: &mut RepositoryState, workspace_id: &str, request: Option<&LeaseRequest>) -> (lease: Option<WorkspaceLease>)
    ensures
        request is None ==> lease is None && *final(state) == *old(state),
        request matches Some(req) ==> (lease matches Some(l) && exists|now: Seq<char>, new_id: Seq<char>|
            (leases_view(final(state).leases@), lease_view(l)) == #[trigger] acquire_spec(
                released_for(leases_view(old(state).leases@), *req),
                lease_request_view(workspace_id@, *req),
                now,
                new_id,
            )),
        same_but_leases(*final(state), *old(state)),
{
    let request = match request {
        Some(r) => r,
        None => {
            return None;
        },
    };
    match &request.session_id {
        Some(session_id) => {
            release_session_lease(state, session_id.as_str(), None);
        },
        None => {},
    }
    let ghost released = leases_view(state.leases@);
    assert(released == released_for(leases_view(old(state).leases@), *request));
    let input = AcquireLease {
        workspace_id: workspace_id.to_owned(),
        holder: request.holder.clone(),
        pid: request.pid,
        session_id: crate::text::clone_opt_text(&request.session_id),
    };
    let lease = acquire_lease(state, input);
    Some(lease)
}

/// A lease attached for a session is the only lease that session holds afterwards, and every
/// lease of another session is still there.
pub proof fn law_attached_session_holds_one_lease(
    ls: Seq<LeaseView>,
    workspace_id: Seq<char>,
    request: LeaseRequest,
    now: Seq<char>,
    new_id: Seq<char>,
)
    requires
        request.session_id is Some,
    ensures
        ({
            let s = request.session_id.unwrap()@;
            let (after, granted) = acquire_spec(
                released_for(ls, request),
                lease_request_view(workspace_id, request),
                now,
                new_id,
            );
            &&& granted.session_id == Some(s)
            &&& after.len() > 0 && after.last() == granted
            &&& forall|i: int| 0 <= i < after.len() - 1 ==> (#[trigger] after[i]).session_id != Some(s)
            &&& forall|i: int| 0 <= i < ls.len() && (#[trigger] ls[i]).session_id != Some(s) ==> after.contains(ls[i])
        }),
{
    let s = request.session_id.unwrap()@;
    let r = lease_request_view(workspace_id, request);
    let kept = kept_leases(ls, s, None);
    law_session_release_is_complete(ls, s, None);
    lemma_reusable_from_finds(kept, r, 0);
    if reusable_from(kept, r, 0) is Some {
        let k = reusable_from(kept, r, 0).unwrap();
        assert(survives_session_release(kept[k], s, None));
        assert(false);
    }
    let (after, granted) = acquire_spec(kept, r, now, new_id);
    assert(after == kept.push(granted));
    assert forall|i: int| 0 <= i < ls.len() && (#[trigger] ls[i]).session_id != Some(s) implies after.contains(ls[i]) by {
        assert(survives_session_release(ls[i], s, None));
        assert(kept.contains(ls[i]));
        let j = choose|j: int| 0 <= j < kept.len() && kept[j] == ls[i];
        assert(after[j] == ls[i]);
    }
    assert forall|i: int| 0 <= i < after.len() - 1 implies (#[trigger] after[i]).session_id != Some(s) by {
        assert(after[i] == kept[i]);
        assert(survives_session_release(kept[i], s, None));
    }
}

/// Slot `i` can be handed out: it is idle and Git still has an existing worktree at its
/// canonical path.
pub open spec fn healthy_slot(
    slots: Seq<WorkspaceSlot>,
    slot_paths: Seq<String>,
    worktrees: Seq<GitWorktree>,
    worktree_paths: Seq<String>,
    i: int,
) -> bool {
    &&& slots[i].status == WorkspaceStatus::Idle
    &&& exists|j: int| 0 <= j < worktrees.len() && worktree_paths[j]@ == slot_paths[i]@ && (#[trigger] worktrees[j]).exists
}

/// Slot `i` is healthy and already holds the environment with `fingerprint`.
pub open spec fn matching_slot(
    slots: Seq<WorkspaceSlot>,
    slot_paths: Seq<String>,
    worktrees: Seq<GitWorktree>,
    worktree_paths: Seq<String>,
    fingerprint: Seq<char>,
    i: int,
) -> bool {
    &&& healthy_slot(slots, slot_paths, worktrees, worktree_paths, i)
    &&& slots[i].environment matches Some(e) && e.fingerprint@ == fingerprint
}

/// Slot `i` is healthy and holds no environment worth keeping.
pub open spec fn cold_slot(
    slots: Seq<WorkspaceSlot>,
    slot_paths: Seq<String>,
    worktrees: Seq<GitWorktree>,
    worktree_paths: Seq<String>,
    i: int,
) -> bool {
    &&& healthy_slot(slots, slot_paths, worktrees, worktree_paths, i)
    &&& match slots[i].environment {
        Some(e) => e.state == EnvironmentState::Cold,
        None => true,
    }
}

/// Among the first `n` slots, `k` is a matching slot used most recently, and the last of
/// those used then.
pub open spec fn latest_matching(
    slots: Seq<WorkspaceSlot>,
    slot_paths: Seq<String>,
    worktrees: Seq<GitWorktree>,
    worktree_paths: Seq<String>,
    fingerprint: Seq<char>,
    k: int,
    n: int,
) -> bool {
    &&& 0 <= k < n && matching_slot(slots, slot_paths, worktrees, worktree_paths, fingerprint, k)
    &&& forall|j: int| 0 <= j < n && matching_slot(slots, slot_paths, worktrees, worktree_paths, fingerprint, j)
        ==> !seq_less(slots[k].last_used_at@, #[trigger] slots[j].last_used_at@)
    &&& forall|j: int| k < j < n && matching_slot(slots, slot_paths, worktrees, worktree_paths, fingerprint, j)
        ==> seq_less(#[trigger] slots[j].last_used_at@, slots[k].last_used_at@)
}

/// Among the first `n` slots, `k` is a healthy slot unused the longest, and the first of
/// those used then.
pub open spec fn oldest_healthy(
    slots: Seq<WorkspaceSlot>,
    slot_paths: Seq<String>,
    worktrees: Seq<GitWorktree>,
    worktree_paths: Seq<String>,
    k: int,
    n: int,
) -> bool {
    &&& 0 <= k < n && healthy_slot(slots, slot_paths, worktrees, worktree_paths, k)
    &&& forall|j: int| 0 <= j < n && healthy_slot(slots, slot_paths, worktrees, worktree_paths, j)
        ==> !seq_less(#[trigger] slots[j].last_used_at@, slots[k].last_used_at@)
    &&& forall|j: int| 0 <= j < k && healthy_slot(slots, slot_paths, worktrees, worktree_paths, j)
        ==> seq_less(slots[k].last_used_at@, #[trigger] slots[j].last_used_at@)
}

/// Picks the slot a new activation takes. `slot_paths` and `worktree_paths` are the canonical
/// paths of the slots and of the registered worktrees. A healthy slot with the same
/// environment wins (the one used last); then the first healthy cold slot; then the healthy
/// slot unused the longest. `None` means there is no healthy slot and one must be made.
pub fn select_slot(
    slots: &Vec<WorkspaceSlot>,
    slot_paths: &Vec<String>,
    worktrees: &Vec<GitWorktree>,
    worktree_paths: &Vec<String>,
    fingerprint: &str,
) -> (r: Option<usize>)
    requires
        slot_paths@.len() == slots@.len(),
        worktree_paths@.len() == worktrees@.len(),
    ensures
        r is None <==> forall|i: int|
            0 <= i < slots@.len() ==> !#[trigger] healthy_slot(slots@, slot_paths@, worktrees@, worktree_paths@, i),
        (exists|i: int| 0 <= i < slots@.len() && #[trigger] matching_slot(slots@, slot_paths@, worktrees@, worktree_paths@, fingerprint@, i))
            ==> (r matches Some(k) && latest_matching(slots@, slot_paths@, worktrees@, worktree_paths@, fingerprint@, k as int, slots@.len() as int)),
        (forall|i: int| 0 <= i < slots@.len() ==> !#[trigger] matching_slot(slots@, slot_paths@, worktrees@, worktree_paths@, fingerprint@, i))
            && (exists|i: int| 0 <= i < slots@.len() && #[trigger] cold_slot(slots@, slot_paths@, worktrees@, worktree_paths@, i))
            ==> (r matches Some(k) && cold_slot(slots@, slot_paths@, worktrees@, worktree_paths@, k as int)
                && forall|j: int| 0 <= j < k ==> !#[trigger] cold_slot(slots@, slot_paths@, worktrees@, worktree_paths@, j)),
        (forall|i: int| 0 <= i < slots@.len() ==> !#[trigger] matching_slot(slots@, slot_paths@, worktrees@, worktree_paths@, fingerprint@, i)
            && !cold_slot(slots@, slot_paths@, worktrees@, worktree_paths@, i))
            ==> (r is None || (r matches Some(k) && oldest_healthy(slots@, slot_paths@, worktrees@, worktree_paths@, k as int, slots@.len() as int))),
{
    let ghost (s, sp, w, wp) = (slots@, slot_paths@, worktrees@, worktree_paths@);
    let mut flags: Vec<bool> = Vec::new();
    let mut i: usize = 0;
    while i < slots.len()
        invariant
            i <= slots@.len(),
            slot_paths@.len() == slots@.len(),
            worktree_paths@.len() == worktrees@.len(),
            s == slots@ && sp == slot_paths@ && w == worktrees@ && wp == worktree_paths@,
            flags@.len() == i,
            forall|t: int| 0 <= t < i ==> flags@[t] == healthy_slot(s, sp, w, wp, t),
        decreases slots.len() - i,
    {
        let mut ok = false;
        if slots[i].status == WorkspaceStatus::Idle {
            let mut j: usize = 0;
            while j < worktrees.len()
                invariant
                    j <= worktrees@.len(),
                    i < slots@.len(),
                    slot_paths@.len() == slots@.len(),
                    worktree_paths@.len() == worktrees@.len(),
                    !ok ==> forall|t: int| 0 <= t < j ==> !(worktree_paths@[t]@ == slot_paths@[i as int]@ && (#[trigger] worktrees@[t]).exists),
                    ok ==> exists|t: int| 0 <= t < worktrees@.len() && worktree_paths@[t]@ == slot_paths@[i as int]@ && (#[trigger] worktrees@[t]).exists,
                decreases worktrees.len() - j,
            {
                if !ok && worktrees[j].exists && crate::text::str_equal(worktree_paths[j].as_str(), slot_paths[i].as_str()) {
                    ok = true;
                }
                j = j + 1;
            }
        }
        flags.push(ok);
        i = i + 1;
    }
    let mut best: Option<usize> = None;
    let mut i: usize = 0;
    while i < slots.len()
        invariant
            i <= slots@.len(),
            s == slots@ && sp == slot_paths@ && w == worktrees@ && wp == worktree_paths@,
            flags@.len() == slots@.len(),
            forall|t: int| 0 <= t < slots@.len() ==> flags@[t] == healthy_slot(s, sp, w, wp, t),
            match best {
                None => forall|t: int| 0 <= t < i ==> !#[trigger] matching_slot(s, sp, w, wp, fingerprint@, t),
                Some(k) => latest_matching(s, sp, w, wp, fingerprint@, k as int, i as int),
            },
        decreases slots.len() - i,
    {
        let is_match = flags[i] && match &slots[i].environment {
            Some(e) => crate::text::str_equal(e.fingerprint.as_str(), fingerprint),
            None => false,
        };
        assert(is_match == matching_slot(s, sp, w, wp, fingerprint@, i as int));
        let ghost before = best;
        if is_match {
            match best {
                None => {
                    best = Some(i);
                },
                Some(k) => {
                    if !str_less(slots[i].last_used_at.as_str(), slots[k].last_used_at.as_str()) {
                        best = Some(i);
                    }
                },
            }
        }
        proof {
            let a = s[i as int].last_used_at@;
            lemma_less_irreflexive(a);
            match (before, best) {
                (Some(k0), Some(k)) => {
                    let b = s[k0 as int].last_used_at@;
                    lemma_less_total(a, b);
                    lemma_less_asymmetric(a, b);
                    if k == i {
                        assert forall|j: int| 0 <= j < i + 1 && matching_slot(s, sp, w, wp, fingerprint@, j)
                            implies !seq_less(a, #[trigger] s[j].last_used_at@) by {
                            if j < i {
                                let c = s[j].last_used_at@;
                                lemma_less_transitive(a, c, b);
                                lemma_less_total(b, c);
                                if seq_less(a, c) && c != b {
                                    lemma_less_transitive(a, b, c);
                                }
                            }
                        }
                    } else {
                        assert forall|j: int| 0 <= j < i + 1 && matching_slot(s, sp, w, wp, fingerprint@, j)
                            implies !seq_less(b, #[trigger] s[j].last_used_at@) by {
                        }
                    }
                },
                _ => {},
            }
        }
        i = i + 1;
    }
    if best.is_some() {
        return best;
    }
    let mut i: usize = 0;
    while i < slots.len()
        invariant
            i <= slots@.len(),
            s == slots@ && sp == slot_paths@ && w == worktrees@ && wp == worktree_paths@,
            flags@.len() == slots@.len(),
            forall|t: int| 0 <= t < slots@.len() ==> flags@[t] == healthy_slot(s, sp, w, wp, t),
            forall|t: int| 0 <= t < i ==> !#[trigger] cold_slot(s, sp, w, wp, t),
            forall|t: int| 0 <= t < slots@.len() ==> !#[trigger] matching_slot(s, sp, w, wp, fingerprint@, t),
        decreases slots.len() - i,
    {
        let is_cold = flags[i] && match &slots[i].environment {
            Some(e) => e.state == EnvironmentState::Cold,
            None => true,
        };
        assert(is_cold == cold_slot(s, sp, w, wp, i as int));
        if is_cold {
            assert(!matching_slot(s, sp, w, wp, fingerprint@, i as int));
            return Some(i);
        }
        i = i + 1;
    }
    let mut oldest: Option<usize> = None;
    let mut i: usize = 0;
    while i < slots.len()
        invariant
            i <= slots@.len(),
            s == slots@ && sp == slot_paths@ && w == worktrees@ && wp == worktree_paths@,
            flags@.len() == slots@.len(),
            forall|t: int| 0 <= t < slots@.len() ==> flags@[t] == healthy_slot(s, sp, w, wp, t),
            match oldest {
                None => forall|t: int| 0 <= t < i ==> !#[trigger] healthy_slot(s, sp, w, wp, t),
                Some(k) => oldest_healthy(s, sp, w, wp, k as int, i as int),
            },
        decreases slots.len() - i,
    {
        let ghost before = oldest;
        if flags[i] {
            match oldest {
                None => {
                    oldest = Some(i);
                },
                Some(k) => {
                    if str_less(slots[i].last_used_at.as_str(), slots[k].last_used_at.as_str()) {
                        oldest = Some(i);
                    }
                },
            }
        }
        proof {
            let a = s[i as int].last_used_at@;
            lemma_less_irreflexive(a);
            match (before, oldest) {
                (Some(k0), Some(k)) => {
                    let b = s[k0 as int].last_used_at@;
                    lemma_less_total(a, b);
                    lemma_less_asymmetric(a, b);
                    if k == i {
                        assert forall|j: int| 0 <= j < i + 1 && healthy_slot(s, sp, w, wp, j)
                            implies !seq_less(#[trigger] s[j].last_used_at@, a) by {
                            if j < i {
                                let c = s[j].last_used_at@;
                                lemma_less_transitive(c, a, b);
                            }
                        }
                        assert forall|j: int| 0 <= j < i && healthy_slot(s, sp, w, wp, j)
                            implies seq_less(a, #[trigger] s[j].last_used_at@) by {
                            let c = s[j].last_used_at@;
                            lemma_less_total(c, b);
                            if c != b {
                                lemma_less_transitive(a, b, c);
                            }
                        }
                    }
                },
                _ => {},
            }
        }
        i = i + 1;
    }
    oldest
}


/// The cache roots to clear before a slot takes another environment: those of its old
/// environment and those of the plan, sorted, each once.
pub fn roots_to_clear(environment: &Option<EnvironmentSnapshot>, plan_roots: &Vec<String>) -> (roots: Vec<String>)
    ensures
        strictly_sorted(views(roots@)),
        views(roots@).to_set() == match environment {
            Some(e) => views(e.cache_roots@).to_set(),
            None => Set::empty(),
        }.union(views(plan_roots@).to_set()),
{
    let mut all: Vec<String> = match environment {
        Some(e) => crate::text::clone_strings(&e.cache_roots),
        None => Vec::new(),
    };
    let ghost first = views(all@);
    let mut i: usize = 0;
    while i < plan_roots.len()
        invariant
            i <= plan_roots@.len(),
            views(all@) == first + views(plan_roots@).take(i as int),
        decreases plan_roots.len() - i,
    {
        let ghost before = views(all@);
        all.push(plan_roots[i].clone());
        assert(views(all@) =~= before.push(plan_roots@[i as int]@));
        assert(views(plan_roots@).take(i + 1) =~= views(plan_roots@).take(i as int).push(plan_roots@[i as int]@));
        i = i + 1;
    }
    assert(views(plan_roots@).take(plan_roots@.len() as int) =~= views(plan_roots@));
    proof {
        lemma_concat_to_set(first, views(plan_roots@));
        assert(first.to_set() =~= match environment {
            Some(e) => views(e.cache_roots@).to_set(),
            None => Set::empty(),
        });
    }
    sort_unique_strings(&all)
}

proof fn lemma_concat_to_set(a: Seq<Seq<char>>, b: Seq<Seq<char>>)
    ensures
        (a + b).to_set() == a.to_set().union(b.to_set()),
{
    let c = a + b;
    assert forall|x: Seq<char>| c.to_set().contains(x) <==> a.to_set().union(b.to_set()).contains(x) by {
        if c.contains(x) {
            let i = choose|i: int| 0 <= i < c.len() && c[i] == x;
            if i < a.len() {
                assert(a[i] == x);
            } else {
                assert(b[i - a.len()] == x);
            }
        }
        if a.contains(x) {
            let i = choose|i: int| 0 <= i < a.len() && a[i] == x;
            assert(c[i] == x);
        }
        if b.contains(x) {
            let i = choose|i: int| 0 <= i < b.len() && b[i] == x;
            assert(c[a.len() + i] == x);
        }
    }
    assert(c.to_set() =~= a.to_set().union(b.to_set()));
}

/// The key a target's active path is remembered by: its branch, else its pull request, else
/// its commit.
pub open spec fn target_path_key_spec(target: ResolvedTarget) -> Seq<char> {
    match target.local_branch {
        Some(b) => "branch:"@ + b@,
        None => match target.pull_request {
            Some(pr) => "pr:"@ + pr.repository@ + ":"@ + decimal_spec(pr.number as nat),
            None => "oid:"@ + target.oid@,
        },
    }
}

pub fn target_path_key(target: &ResolvedTarget) -> (key: String)
    ensures
        key@ == target_path_key_spec(*target),
{
    match &target.local_branch {
        Some(b) => {
            let mut text = chars_of("branch:");
            push_str(&mut text, b.as_str());
            string_from_chars(&text)
        },
        None => match &target.pull_request {
            Some(pr) => {
                let mut text = chars_of("pr:");
                push_str(&mut text, pr.repository.as_str());
                push_str(&mut text, ":");
                let number = decimal(pr.number);
                push_chars(&mut text, &number);
                string_from_chars(&text)
            },
            None => {
                let mut text = chars_of("oid:");
                push_str(&mut text, target.oid.as_str());
                string_from_chars(&text)
            },
        },
    }
}

/// The name an active workspace's directory is derived from: the branch, else `pr-<number>`,
/// else the display name.
pub open spec fn active_name(target: ResolvedTarget) -> Seq<char> {
    match target.local_branch {
        Some(b) => b@,
        None => match target.pull_request {
            Some(pr) => "pr-"@ + decimal_spec(pr.number as nat),
            None => target.display_name@,
        },
    }
}

/// Where `target` is activated under `active_root`: a directory named by the slug of its
/// name, or, when that is already taken (`base_exists`), the same with `--` and six hex digits
/// of its path key appended.
pub open spec fn active_path_spec(active_root: Seq<char>, target: ResolvedTarget, base_exists: bool) -> Seq<char> {
    let base = path_join(active_root, branch_slug_spec(active_name(target)));
    if !base_exists {
        base
    } else {
        base + "--"@ + short_hash_spec(vstd::utf8::encode_utf8(target_path_key_spec(target)), 6)
    }
}

pub fn choose_active_path(active_root: &str, target: &ResolvedTarget, base_exists: bool) -> (path: String)
    ensures
        path@ == active_path_spec(active_root@, *target, base_exists),
{
    let name: String = match &target.local_branch {
        Some(b) => b.clone(),
        None => match &target.pull_request {
            Some(pr) => {
                let mut text = chars_of("pr-");
                let number = decimal(pr.number);
                push_chars(&mut text, &number);
                string_from_chars(&text)
            },
            None => target.display_name.clone(),
        },
    };
    let slug = branch_slug(name.as_str());
    let base = join_path(active_root, slug.as_str());
    if !base_exists {
        return base;
    }
    let key = target_path_key(target);
    let hash = short_hash(key.as_str().as_bytes(), 6);
    let mut text = chars_of(base.as_str());
    push_str(&mut text, "--");
    push_str(&mut text, hash.as_str());
    string_from_chars(&text)
}

/// Whether a workspace already bound to the target is reused. `found` is the first usable
/// workspace bound to it and `found_exists` whether its directory is still there. A new
/// branch whose name already has a live workspace is refused.
pub fn reuse_for_target(target: &ResolvedTarget, found: Option<&WorkspaceRecord>, found_exists: bool) -> (r: Result<bool, AcreError>)
    ensures
        found is None || !found_exists ==> r == Ok::<bool, AcreError>(false),
        found is Some && found_exists && target.kind == TargetKind::NewBranch ==> (r matches Err(e)
            && e.code == "ACRE_BRANCH_EXISTS" && e.exit_code == EXIT_CONFLICT
            && e.message@ == target.display_name@ + " already exists."@
            && detail_text(e.details@, "branch"@) == Some(target.display_name@)
            && detail_text(e.details@, "path"@) == Some(found.unwrap().path@)),
        found is Some && found_exists && target.kind != TargetKind::NewBranch ==> r == Ok::<bool, AcreError>(true),
{
    if found.is_none() || !found_exists {
        return Ok(false);
    }
    if target.kind == TargetKind::NewBranch {
        let mut text = chars_of(target.display_name.as_str());
        push_str(&mut text, " already exists.");
        let path = match found {
            Some(w) => w.path.as_str(),
            None => "",
        };
        let e = AcreError::new("ACRE_BRANCH_EXISTS", string_from_chars(&text).as_str(), EXIT_CONFLICT);
        let details = vec![
            ErrorDetail { key: "branch", value: DetailValue::Text(target.display_name.clone()) },
            ErrorDetail { key: "path", value: DetailValue::Text(String::from_str(path)) },
        ];
        proof {
            reveal_strlit("branch");
            reveal_strlit("path");
            reveal_with_fuel(detail_text, 3);
            assert(details@.drop_first().drop_first().len() == 0);
            assert(detail_text(details@, "branch"@) == Some(target.display_name@));
            assert("branch"@.len() != "path"@.len());
            assert(detail_text(details@, "path"@) == Some(found.unwrap().path@));
        }
        return Err(AcreError { details, ..e });
    }
    Ok(true)
}

/// The record of a worktree Acre did not create: external, never pooled, with no slot, no
/// environment and nothing seeded, stamped `now`.
pub open spec fn is_external_record(r: WorkspaceRecord, repository_id: Seq<char>, target: ResolvedTarget, path: Seq<char>, now: Seq<char>) -> bool {
    &&& crate::text::starts_with(r.id@, "external-"@)
    &&& r.repository_id@ == repository_id
    &&& r.path@ == path
    &&& r.ownership == WorkspaceOwnership::External
    &&& r.status == WorkspaceStatus::Active
    &&& r.slot_id is None
    &&& r.target.kind == target.kind
    &&& r.target.display_name@ == target.display_name@
    &&& r.target.oid@ == target.oid@
    &&& opt_view(r.target.local_branch) == opt_view(target.local_branch)
    &&& opt_view(r.target.remote_branch) == opt_view(target.remote_branch)
    &&& r.target.pull_request == target.pull_request
    &&& r.trust == target.trust
    &&& r.environment is None
    &&& r.baseline_ignored@.len() == 0
    &&& r.seeded_paths@.len() == 0
    &&& r.baseline_seed_files@.len() == 0
    &&& r.activated_at@ == now
    &&& r.last_used_at@ == now
}

/// Records the external worktree at `path` that `target` names; its id is `external-` and
/// sixteen random hex digits, and it is stamped with the current time.
pub fn external_workspace(repository: &Repository, target: &ResolvedTarget, path: &str) -> (r: WorkspaceRecord)
    ensures
        exists|now: Seq<char>| crate::util::is_millis_stamp(now) && #[trigger] is_external_record(r, repository.id@, *target, path@, now),
{
    let timestamp = now_iso();
    let mut id = chars_of("external-");
    let random = random_short(16);
    push_str(&mut id, random.as_str());
    proof {
        reveal_strlit("external-");
    }
    assert(id@.take(9) =~= "external-"@);
    let id = string_from_chars(&id);
    let r = WorkspaceRecord {
        id,
        repository_id: repository.id.clone(),
        path: path.to_owned(),
        ownership: WorkspaceOwnership::External,
        status: WorkspaceStatus::Active,
        slot_id: None,
        target: store_target(target),
        trust: target.trust,
        environment: None,
        baseline_ignored: Vec::new(),
        seeded_paths: Vec::new(),
        baseline_seed_files: Vec::new(),
        activated_at: timestamp.clone(),
        last_used_at: timestamp,
    };
    assert(is_external_record(r, repository.id@, *target, path@, r.activated_at@));
    r
}


/// Two environment snapshots say the same.
pub open spec fn same_environment(a: EnvironmentSnapshot, b: EnvironmentSnapshot) -> bool {
    &&& a.fingerprint == b.fingerprint
    &&& a.state == b.state
    &&& a.cache_roots@ == b.cache_roots@
    &&& a.required_roots@ == b.required_roots@
    &&& a.present_roots@ == b.present_roots@
    &&& a.source == b.source
    &&& a.cloned_files == b.cloned_files
    &&& a.cloned_bytes == b.cloned_bytes
    &&& a.clone_mode == b.clone_mode
}

/// Two slots say the same.
pub open spec fn same_slot(a: WorkspaceSlot, b: WorkspaceSlot) -> bool {
    &&& a.id == b.id
    &&& a.path == b.path
    &&& a.head == b.head
    &&& a.status == b.status
    &&& match (a.environment, b.environment) {
        (Some(x), Some(y)) => same_environment(x, y),
        (None, None) => true,
        _ => false,
    }
    &&& a.created_at == b.created_at
    &&& a.last_used_at == b.last_used_at
}

fn clone_environment(e: &EnvironmentSnapshot) -> (r: EnvironmentSnapshot)
    ensures
        same_environment(r, *e),
{
    EnvironmentSnapshot {
        fingerprint: e.fingerprint.clone(),
        state: e.state,
        cache_roots: crate::text::clone_strings(&e.cache_roots),
        required_roots: crate::text::clone_strings(&e.required_roots),
        present_roots: crate::text::clone_strings(&e.present_roots),
        source: crate::text::clone_opt_text(&e.source),
        cloned_files: e.cloned_files,
        cloned_bytes: e.cloned_bytes,
        clone_mode: e.clone_mode,
    }
}

/// A copy of `s`.
pub fn clone_slot(s: &WorkspaceSlot) -> (r: WorkspaceSlot)
    ensures
        same_slot(r, *s),
{
    WorkspaceSlot {
        id: s.id.clone(),
        path: s.path.clone(),
        head: crate::text::clone_opt_text(&s.head),
        status: s.status,
        environment: match &s.environment {
            Some(e) => Some(clone_environment(e)),
            None => None,
        },
        created_at: s.created_at.clone(),
        last_used_at: s.last_used_at.clone(),
    }
}

/// `after` is `before` with every slot that has `slot`'s id replaced by a copy of `slot`.
pub open spec fn replaced_slots(before: Seq<WorkspaceSlot>, after: Seq<WorkspaceSlot>, slot: WorkspaceSlot) -> bool {
    &&& after.len() == before.len()
    &&& forall|i: int| 0 <= i < before.len() ==> if (#[trigger] before[i]).id@ == slot.id@ {
        same_slot(after[i], slot)
    } else {
        after[i] == before[i]
    }
}

fn replace_slot(slots: &mut Vec<WorkspaceSlot>, slot: &WorkspaceSlot)
    ensures
        replaced_slots(old(slots)@, final(slots)@, *slot),
{
    let ghost original = slots@;
    let mut i: usize = 0;
    while i < slots.len()
        invariant
            i <= slots@.len(),
            slots@.len() == original.len(),
            forall|t: int| 0 <= t < i ==> if (#[trigger] original[t]).id@ == slot.id@ {
                same_slot(slots@[t], *slot)
            } else {
                slots@[t] == original[t]
            },
            forall|t: int| i <= t < slots@.len() ==> slots@[t] == original[t],
        decreases slots.len() - i,
    {
        if crate::text::str_equal(slots[i].id.as_str(), slot.id.as_str()) {
            slots.set(i, clone_slot(slot));
        }
        i = i + 1;
    }
}

/// The first `n` records that neither have id `id` nor lie at canonical path `active`
/// (`canonical[i]` is record `i`'s canonical path).
pub open spec fn kept_records(
    ws: Seq<WorkspaceRecord>,
    canonical: Seq<String>,
    id: Seq<char>,
    active: Seq<char>,
    n: int,
) -> Seq<WorkspaceRecord>
    decreases n,
{
    if n <= 0 {
        Seq::empty()
    } else if ws[n - 1].id@ != id && canonical[n - 1]@ != active {
        kept_records(ws, canonical, id, active, n - 1).push(ws[n - 1])
    } else {
        kept_records(ws, canonical, id, active, n - 1)
    }
}

/// Everything in the state but its slots and workspaces is unchanged.
pub open spec fn same_but_pool(a: RepositoryState, b: RepositoryState) -> bool {
    &&& a.schema_version == b.schema_version
    &&& a.repository_id == b.repository_id
    &&& a.repository_common_dir == b.repository_common_dir
    &&& a.repository_name == b.repository_name
    &&& a.updated_at == b.updated_at
    &&& a.leases@ == b.leases@
}

/// Records an activation: the slot's new form replaces it, any record with the workspace's id
/// or at its canonical path `active_path` is dropped, and the workspace is recorded last.
/// `workspace_paths[i]` is the canonical path of workspace `i`.
pub fn activate(
    state: &mut RepositoryState,
    slot: &WorkspaceSlot,
    workspace: WorkspaceRecord,
    workspace_paths: &Vec<String>,
    active_path: &str,
)
    requires
        workspace_paths@.len() == old(state).workspaces@.len(),
    ensures
        replaced_slots(old(state).slots@, final(state).slots@, *slot),
        final(state).workspaces@ == kept_records(
            old(state).workspaces@,
            workspace_paths@,
            workspace.id@,
            active_path@,
            old(state).workspaces@.len() as int,
        ).push(workspace),
        same_but_pool(*final(state), *old(state)),
{
    replace_slot(&mut state.slots, slot);
    let ghost ws = state.workspaces@;
    let mut kept: Vec<WorkspaceRecord> = Vec::new();
    let mut rest: Vec<WorkspaceRecord> = Vec::new();
    assert(workspace_paths@.len() == workspace_paths.len());
    std::mem::swap(&mut rest, &mut state.workspaces);
    let mut i: usize = 0;
    while rest.len() > 0
        invariant
            i <= ws.len(),
            rest@ == ws.skip(i as int),
            rest@.len() == ws.len() - i,
            ws.len() == workspace_paths@.len(),
            workspace_paths@.len() <= usize::MAX,
            kept@ == kept_records(ws, workspace_paths@, workspace.id@, active_path@, i as int),
        decreases rest.len(),
    {
        let w = rest.remove(0);
        assert(w == ws[i as int]);
        assert(rest@ =~= ws.skip(i + 1));
        if !crate::text::str_equal(w.id.as_str(), workspace.id.as_str()) && !crate::text::str_equal(
            workspace_paths[i].as_str(),
            active_path,
        ) {
            kept.push(w);
        }
        i = i + 1;
    }
    kept.push(workspace);
    state.workspaces = kept;
}

/// After an activation exactly one record has the workspace's id, the last one, and no other
/// record lies at its path.
pub proof fn law_activation_leaves_one_record(
    ws: Seq<WorkspaceRecord>,
    canonical: Seq<String>,
    workspace: WorkspaceRecord,
    active: Seq<char>,
)
    requires
        canonical.len() == ws.len(),
    ensures
        ({
            let after = kept_records(ws, canonical, workspace.id@, active, ws.len() as int).push(workspace);
            &&& after.last() == workspace
            &&& forall|i: int| 0 <= i < after.len() - 1 ==> (#[trigger] after[i]).id@ != workspace.id@
            &&& forall|i: int| #![trigger after[i]] 0 <= i < after.len() - 1 ==> exists|j: int| 0 <= j < ws.len() && #[trigger] ws[j] == after[i] && canonical[j]@ != active
        }),
{
    lemma_kept_records(ws, canonical, workspace.id@, active, ws.len() as int);
}

proof fn lemma_kept_records(ws: Seq<WorkspaceRecord>, canonical: Seq<String>, id: Seq<char>, active: Seq<char>, n: int)
    requires
        0 <= n <= ws.len(),
        canonical.len() == ws.len(),
    ensures
        forall|i: int| 0 <= i < kept_records(ws, canonical, id, active, n).len() ==> (#[trigger] kept_records(ws, canonical, id, active, n)[i]).id@ != id
            && exists|j: int| 0 <= j < n && #[trigger] ws[j] == kept_records(ws, canonical, id, active, n)[i] && canonical[j]@ != active,
    decreases n,
{
    if n > 0 {
        lemma_kept_records(ws, canonical, id, active, n - 1);
        let prev = kept_records(ws, canonical, id, active, n - 1);
        let cur = kept_records(ws, canonical, id, active, n);
        assert forall|i: int| 0 <= i < cur.len() implies (#[trigger] cur[i]).id@ != id
            && exists|j: int| 0 <= j < n && #[trigger] ws[j] == cur[i] && canonical[j]@ != active by {
            if i < prev.len() {
                assert(cur[i] == prev[i]);
                let j = choose|j: int| 0 <= j < n - 1 && ws[j] == prev[i] && canonical[j]@ != active;
                assert(ws[j] == cur[i] && canonical[j]@ != active);
            } else {
                assert(cur[i] == ws[n - 1]);
            }
        }
    }
}

/// How many slots are idle.
pub open spec fn idle_count(slots: Seq<WorkspaceSlot>) -> nat
    decreases slots.len(),
{
    if slots.len() == 0 {
        0
    } else {
        idle_count(slots.drop_last()) + if slots.last().status == WorkspaceStatus::Idle { 1nat } else { 0nat }
    }
}

fn count_idle(slots: &Vec<WorkspaceSlot>) -> (n: usize)
    ensures
        n == idle_count(slots@),
{
    let mut n: usize = 0;
    let mut i: usize = 0;
    while i < slots.len()
        invariant
            i <= slots@.len(),
            n == idle_count(slots@.take(i as int)),
            n <= i,
        decreases slots.len() - i,
    {
        assert(slots@.take(i + 1).drop_last() =~= slots@.take(i as int));
        if slots[i].status == WorkspaceStatus::Idle {
            n = n + 1;
        }
        i = i + 1;
    }
    assert(slots@.take(slots@.len() as int) =~= slots@);
    n
}

/// Whether the pool is refilled in the background after an activation: when the
/// configuration asks for it, the caller did not opt out, and fewer slots are idle than the
/// pool's minimum.
pub fn needs_replenish(config: &AcreConfig, no_replenish: bool, slots: &Vec<WorkspaceSlot>) -> (r: bool)
    ensures
        r == (config.pool.replenish && !no_replenish && idle_count(slots@) < config.pool.min_slots),
{
    config.pool.replenish && !no_replenish && count_idle(slots) < config.pool.min_slots
}


/// Some idle slot already holds the environment with `fingerprint`.
pub open spec fn matching_idle(slots: Seq<WorkspaceSlot>, fingerprint: Seq<char>) -> bool {
    exists|i: int| 0 <= i < slots.len() && (#[trigger] slots[i]).status == WorkspaceStatus::Idle
        && (slots[i].environment matches Some(e) && e.fingerprint@ == fingerprint)
}

/// A returned workspace's slot goes back to the pool when the workspace is Acre's and
/// trusted, and the pool has room or would gain an environment it lacks that is not cold.
/// External worktrees and untrusted work are never pooled.
pub open spec fn keeps_slot(slots: Seq<WorkspaceSlot>, workspace: WorkspaceRecord, environment: EnvironmentSnapshot, max_slots: usize) -> bool {
    &&& workspace.ownership == WorkspaceOwnership::Acre
    &&& workspace.trust == TrustLevel::Trusted
    &&& (idle_count(slots) < max_slots || (!matching_idle(slots, environment.fingerprint@)
        && environment.state != EnvironmentState::Cold))
}

/// `k` is an idle slot unused the longest, and the first of those used then.
pub open spec fn oldest_idle(slots: Seq<WorkspaceSlot>, k: int) -> bool {
    &&& 0 <= k < slots.len() && slots[k].status == WorkspaceStatus::Idle
    &&& forall|j: int| 0 <= j < slots.len() && (#[trigger] slots[j]).status == WorkspaceStatus::Idle
        ==> !seq_less(slots[j].last_used_at@, slots[k].last_used_at@)
    &&& forall|j: int| 0 <= j < k && (#[trigger] slots[j]).status == WorkspaceStatus::Idle
        ==> seq_less(slots[k].last_used_at@, slots[j].last_used_at@)
}

/// Whether a returned workspace is pooled, and which idle slot gives way when the pool is
/// full.
#[derive(Debug, Clone, Copy)]
pub struct ReturnPlan {
    pub keep: bool,
    pub victim: Option<usize>,
}

/// Decides the return of `workspace`, whose environment now reads `environment`. A full pool
/// makes room by removing its idle slot unused the longest.
pub fn plan_return(slots: &Vec<WorkspaceSlot>, workspace: &WorkspaceRecord, environment: &EnvironmentSnapshot, max_slots: usize) -> (p: ReturnPlan)
    ensures
        p.keep == keeps_slot(slots@, *workspace, *environment, max_slots),
        p.victim is Some <==> p.keep && idle_count(slots@) >= max_slots && idle_count(slots@) > 0,
        p.victim matches Some(k) ==> oldest_idle(slots@, k as int),
{
    let idle = count_idle(slots);
    let mut matching = false;
    let mut i: usize = 0;
    while i < slots.len()
        invariant
            i <= slots@.len(),
            matching == exists|t: int| 0 <= t < i && (#[trigger] slots@[t]).status == WorkspaceStatus::Idle
                && (slots@[t].environment matches Some(e) && e.fingerprint@ == environment.fingerprint@),
        decreases slots.len() - i,
    {
        if slots[i].status == WorkspaceStatus::Idle {
            match &slots[i].environment {
                Some(e) => {
                    if crate::text::str_equal(e.fingerprint.as_str(), environment.fingerprint.as_str()) {
                        matching = true;
                    }
                },
                None => {},
            }
        }
        i = i + 1;
    }
    let keep = workspace.ownership == WorkspaceOwnership::Acre && workspace.trust == TrustLevel::Trusted
        && (idle < max_slots || (!matching && environment.state != EnvironmentState::Cold));
    if !keep || idle < max_slots {
        return ReturnPlan { keep, victim: None };
    }
    let mut victim: Option<usize> = None;
    let mut i: usize = 0;
    while i < slots.len()
        invariant
            i <= slots@.len(),
            match victim {
                None => forall|t: int| 0 <= t < i ==> (#[trigger] slots@[t]).status != WorkspaceStatus::Idle,
                Some(k) => oldest_idle(slots@.take(i as int), k as int),
            },
        decreases slots.len() - i,
    {
        let ghost before = victim;
        if slots[i].status == WorkspaceStatus::Idle {
            match victim {
                None => {
                    victim = Some(i);
                },
                Some(k) => {
                    if str_less(slots[i].last_used_at.as_str(), slots[k].last_used_at.as_str()) {
                        victim = Some(i);
                    }
                },
            }
        }
        proof {
            let s0 = slots@.take(i as int);
            let s1 = slots@.take(i + 1);
            let a = slots@[i as int].last_used_at@;
            lemma_less_irreflexive(a);
            assert forall|t: int| 0 <= t < i implies s1[t] == s0[t] by {}
            match (before, victim) {
                (Some(k0), Some(k)) => {
                    let b = slots@[k0 as int].last_used_at@;
                    lemma_less_total(a, b);
                    lemma_less_asymmetric(a, b);
                    if k == i {
                        assert forall|j: int| 0 <= j < s1.len() && (#[trigger] s1[j]).status == WorkspaceStatus::Idle
                            implies !seq_less(s1[j].last_used_at@, a) by {
                            if j < i {
                                assert(s1[j] == s0[j]);
                                lemma_less_transitive(s1[j].last_used_at@, a, b);
                            }
                        }
                        assert forall|j: int| 0 <= j < i && (#[trigger] s1[j]).status == WorkspaceStatus::Idle
                            implies seq_less(a, s1[j].last_used_at@) by {
                            assert(s1[j] == s0[j]);
                            let c = s1[j].last_used_at@;
                            lemma_less_total(c, b);
                            if c != b {
                                lemma_less_transitive(a, b, c);
                            }
                        }
                    } else {
                        assert forall|j: int| 0 <= j < s1.len() && (#[trigger] s1[j]).status == WorkspaceStatus::Idle
                            implies !seq_less(s1[j].last_used_at@, s1[k as int].last_used_at@) by {
                            if j < i {
                                assert(s1[j] == s0[j]);
                            }
                        }
                        assert forall|j: int| 0 <= j < k && (#[trigger] s1[j]).status == WorkspaceStatus::Idle
                            implies seq_less(s1[k as int].last_used_at@, s1[j].last_used_at@) by {
                            assert(s1[j] == s0[j]);
                        }
                    }
                },
                (None, Some(k)) => {
                    assert forall|j: int| 0 <= j < s1.len() && (#[trigger] s1[j]).status == WorkspaceStatus::Idle
                        implies !seq_less(s1[j].last_used_at@, s1[k as int].last_used_at@) by {
                        if j < i {
                            assert(s1[j] == s0[j]);
                        }
                    }
                    assert forall|j: int| 0 <= j < k && (#[trigger] s1[j]).status == WorkspaceStatus::Idle
                        implies seq_less(s1[k as int].last_used_at@, s1[j].last_used_at@) by {
                        assert(s1[j] == s0[j]);
                    }
                },
                _ => {},
            }
        }
        i = i + 1;
    }
    assert(slots@.take(slots@.len() as int) =~= slots@);
    proof {
        if victim is None && idle > 0 {
            lemma_idle_count_positive(slots@);
        }
        if let Some(k) = victim {
            lemma_idle_counted(slots@, k as int);
        }
    }
    ReturnPlan { keep, victim }
}

proof fn lemma_idle_counted(slots: Seq<WorkspaceSlot>, k: int)
    requires
        0 <= k < slots.len(),
        slots[k].status == WorkspaceStatus::Idle,
    ensures
        idle_count(slots) > 0,
    decreases slots.len(),
{
    if k < slots.len() - 1 {
        assert(slots.drop_last()[k] == slots[k]);
        lemma_idle_counted(slots.drop_last(), k);
    }
}

proof fn lemma_idle_count_positive(slots: Seq<WorkspaceSlot>)
    requires
        idle_count(slots) > 0,
    ensures
        exists|t: int| 0 <= t < slots.len() && (#[trigger] slots[t]).status == WorkspaceStatus::Idle,
    decreases slots.len(),
{
    if slots.last().status != WorkspaceStatus::Idle {
        lemma_idle_count_positive(slots.drop_last());
        let t = choose|t: int| 0 <= t < slots.drop_last().len() && (#[trigger] slots.drop_last()[t]).status == WorkspaceStatus::Idle;
        assert(slots[t] == slots.drop_last()[t]);
    } else {
        assert(slots[slots.len() - 1].status == WorkspaceStatus::Idle);
    }
}

/// External worktrees and untrusted work never go back to the pool.
pub proof fn law_only_trusted_acre_work_is_pooled(
    slots: Seq<WorkspaceSlot>,
    workspace: WorkspaceRecord,
    environment: EnvironmentSnapshot,
    max_slots: usize,
)
    ensures
        keeps_slot(slots, workspace, environment, max_slots) ==> workspace.ownership == WorkspaceOwnership::Acre
            && workspace.trust == TrustLevel::Trusted,
{
}

/// The first slot with id `slot_id`.
pub fn slot_of(slots: &Vec<WorkspaceSlot>, slot_id: &Option<String>) -> (r: Option<usize>)
    ensures
        match r {
            Some(k) => k < slots@.len() && (slot_id matches Some(id) && slots@[k as int].id@ == id@
                && forall|j: int| 0 <= j < k ==> (#[trigger] slots@[j]).id@ != id@),
            None => slot_id matches Some(id) ==> forall|j: int| 0 <= j < slots@.len() ==> (#[trigger] slots@[j]).id@ != id@,
        },
{
    let id = match slot_id {
        Some(id) => id,
        None => {
            return None;
        },
    };
    let mut i: usize = 0;
    while i < slots.len()
        invariant
            i <= slots@.len(),
            *slot_id == Some(*id),
            forall|j: int| 0 <= j < i ==> (#[trigger] slots@[j]).id@ != id@,
        decreases slots.len() - i,
    {
        if crate::text::str_equal(slots[i].id.as_str(), id.as_str()) {
            return Some(i);
        }
        i = i + 1;
    }
    None
}

/// The slots whose id is not `slot_id` (all of them when there is none), in order.
pub open spec fn slots_without(slots: Seq<WorkspaceSlot>, slot_id: Option<Seq<char>>) -> Seq<WorkspaceSlot>
    decreases slots.len(),
{
    if slots.len() == 0 {
        Seq::empty()
    } else if slot_id == Some(slots.last().id@) {
        slots_without(slots.drop_last(), slot_id)
    } else {
        slots_without(slots.drop_last(), slot_id).push(slots.last())
    }
}

fn remove_slots(slots: &mut Vec<WorkspaceSlot>, slot_id: &Option<String>)
    ensures
        final(slots)@ == slots_without(old(slots)@, opt_view(*slot_id)),
{
    let ghost all = slots@;
    let mut kept: Vec<WorkspaceSlot> = Vec::new();
    let mut rest: Vec<WorkspaceSlot> = Vec::new();
    assert(all.len() == slots.len());
    std::mem::swap(&mut rest, slots);
    let mut i: usize = 0;
    while rest.len() > 0
        invariant
            i <= all.len(),
            all.len() <= usize::MAX,
            rest@ == all.skip(i as int),
            rest@.len() == all.len() - i,
            kept@ == slots_without(all.take(i as int), opt_view(*slot_id)),
        decreases rest.len(),
    {
        let s = rest.remove(0);
        assert(s == all[i as int]);
        assert(rest@ =~= all.skip(i + 1));
        assert(all.take(i + 1).drop_last() =~= all.take(i as int));
        let same = match slot_id {
            Some(id) => crate::text::str_equal(s.id.as_str(), id.as_str()),
            None => false,
        };
        if !same {
            kept.push(s);
        }
        i = i + 1;
    }
    assert(all.take(all.len() as int) =~= all);
    *slots = kept;
}

/// Takes the slot with id `slot_id` out of the pool.
pub fn drop_slot(state: &mut RepositoryState, slot_id: &String)
    ensures
        final(state).slots@ == slots_without(old(state).slots@, Some(slot_id@)),
        final(state).workspaces@ == old(state).workspaces@,
        same_but_pool(*final(state), *old(state)),
{
    let id = Some(slot_id.clone());
    remove_slots(&mut state.slots, &id);
}

/// A slot going back to the pool: idle at `idle_path`, holding `environment` as reused in
/// place from there, last used `now`.
pub fn idle_slot(slot: &WorkspaceSlot, idle_path: String, environment: &EnvironmentSnapshot, now: String) -> (r: WorkspaceSlot)
    ensures
        r.id == slot.id,
        r.head == slot.head,
        r.created_at == slot.created_at,
        r.path == idle_path,
        r.status == WorkspaceStatus::Idle,
        r.environment matches Some(e) && e.source == Some(idle_path) && e.clone_mode == Some(crate::model::CloneMode::Reuse)
            && e.fingerprint == environment.fingerprint && e.state == environment.state
            && e.cache_roots@ == environment.cache_roots@ && e.required_roots@ == environment.required_roots@
            && e.present_roots@ == environment.present_roots@ && e.cloned_files == environment.cloned_files
            && e.cloned_bytes == environment.cloned_bytes,
        r.last_used_at == now,
{
    let mut e = clone_environment(environment);
    e.source = Some(idle_path.clone());
    e.clone_mode = Some(crate::model::CloneMode::Reuse);
    WorkspaceSlot {
        id: slot.id.clone(),
        path: idle_path,
        head: crate::text::clone_opt_text(&slot.head),
        status: WorkspaceStatus::Idle,
        environment: Some(e),
        created_at: slot.created_at.clone(),
        last_used_at: now,
    }
}

/// The records other than the one with id `id`, in order.
pub open spec fn records_without(ws: Seq<WorkspaceRecord>, id: Seq<char>) -> Seq<WorkspaceRecord>
    decreases ws.len(),
{
    if ws.len() == 0 {
        Seq::empty()
    } else if ws.last().id@ == id {
        records_without(ws.drop_last(), id)
    } else {
        records_without(ws.drop_last(), id).push(ws.last())
    }
}

/// The leases on workspaces other than `id`, in order.
pub open spec fn leases_without(ls: Seq<WorkspaceLease>, id: Seq<char>) -> Seq<WorkspaceLease>
    decreases ls.len(),
{
    if ls.len() == 0 {
        Seq::empty()
    } else if ls.last().workspace_id@ == id {
        leases_without(ls.drop_last(), id)
    } else {
        leases_without(ls.drop_last(), id).push(ls.last())
    }
}

/// Forgets the workspace with id `workspace_id` and every lease on it; nothing else changes.
pub fn forget_workspace(state: &mut RepositoryState, workspace_id: &str)
    ensures
        final(state).workspaces@ == records_without(old(state).workspaces@, workspace_id@),
        final(state).leases@ == leases_without(old(state).leases@, workspace_id@),
        final(state).slots@ == old(state).slots@,
        final(state).schema_version == old(state).schema_version,
        final(state).repository_id == old(state).repository_id,
        final(state).repository_common_dir == old(state).repository_common_dir,
        final(state).repository_name == old(state).repository_name,
        final(state).updated_at == old(state).updated_at,
{
    let ghost ws = state.workspaces@;
    let mut kept: Vec<WorkspaceRecord> = Vec::new();
    let mut rest: Vec<WorkspaceRecord> = Vec::new();
    assert(ws.len() == state.workspaces.len());
    std::mem::swap(&mut rest, &mut state.workspaces);
    let mut i: usize = 0;
    while rest.len() > 0
        invariant
            i <= ws.len(),
            ws.len() <= usize::MAX,
            rest@ == ws.skip(i as int),
            rest@.len() == ws.len() - i,
            kept@ == records_without(ws.take(i as int), workspace_id@),
        decreases rest.len(),
    {
        let w = rest.remove(0);
        assert(w == ws[i as int]);
        assert(rest@ =~= ws.skip(i + 1));
        assert(ws.take(i + 1).drop_last() =~= ws.take(i as int));
        if !crate::text::str_equal(w.id.as_str(), workspace_id) {
            kept.push(w);
        }
        i = i + 1;
    }
    assert(ws.take(ws.len() as int) =~= ws);
    state.workspaces = kept;
    let ghost ls = state.leases@;
    let mut kept_leases: Vec<WorkspaceLease> = Vec::new();
    let mut rest: Vec<WorkspaceLease> = Vec::new();
    assert(ls.len() == state.leases.len());
    std::mem::swap(&mut rest, &mut state.leases);
    let mut i: usize = 0;
    while rest.len() > 0
        invariant
            i <= ls.len(),
            ls.len() <= usize::MAX,
            rest@ == ls.skip(i as int),
            rest@.len() == ls.len() - i,
            kept_leases@ == leases_without(ls.take(i as int), workspace_id@),
        decreases rest.len(),
    {
        let l = rest.remove(0);
        assert(l == ls[i as int]);
        assert(rest@ =~= ls.skip(i + 1));
        assert(ls.take(i + 1).drop_last() =~= ls.take(i as int));
        if !crate::text::str_equal(l.workspace_id.as_str(), workspace_id) {
            kept_leases.push(l);
        }
        i = i + 1;
    }
    assert(ls.take(ls.len() as int) =~= ls);
    state.leases = kept_leases;
}

/// Records a finished return: the pooled slot (`Some`) replaces the workspace's slot, or else
/// the workspace's slot leaves the pool; then the workspace and its leases are forgotten.
pub fn finish_return(state: &mut RepositoryState, workspace: &WorkspaceRecord, pooled: Option<&WorkspaceSlot>)
    ensures
        match pooled {
            Some(slot) => replaced_slots(old(state).slots@, final(state).slots@, *slot),
            None => final(state).slots@ == slots_without(old(state).slots@, opt_view(workspace.slot_id)),
        },
        final(state).workspaces@ == records_without(old(state).workspaces@, workspace.id@),
        final(state).leases@ == leases_without(old(state).leases@, workspace.id@),
        final(state).schema_version == old(state).schema_version,
        final(state).repository_id == old(state).repository_id,
        final(state).repository_common_dir == old(state).repository_common_dir,
        final(state).repository_name == old(state).repository_name,
        final(state).updated_at == old(state).updated_at,
{
    match pooled {
        Some(slot) => replace_slot(&mut state.slots, slot),
        None => remove_slots(&mut state.slots, &workspace.slot_id),
    }
    forget_workspace(state, workspace.id.as_str());
}

/// Once a workspace is returned or forgotten, no record and no lease of it remains, and every
/// other record and every lease on another workspace is still there.
pub proof fn law_forgotten_workspace_is_gone(ws: Seq<WorkspaceRecord>, ls: Seq<WorkspaceLease>, id: Seq<char>)
    ensures
        forall|i: int| 0 <= i < records_without(ws, id).len() ==> (#[trigger] records_without(ws, id)[i]).id@ != id,
        forall|i: int| 0 <= i < leases_without(ls, id).len() ==> (#[trigger] leases_without(ls, id)[i]).workspace_id@ != id,
        forall|i: int| 0 <= i < ws.len() && (#[trigger] ws[i]).id@ != id ==> records_without(ws, id).contains(ws[i]),
        forall|i: int| 0 <= i < ls.len() && (#[trigger] ls[i]).workspace_id@ != id ==> leases_without(ls, id).contains(ls[i]),
    decreases ws.len() + ls.len(),
{
    if ws.len() > 0 {
        law_forgotten_workspace_is_gone(ws.drop_last(), ls, id);
        let prev = records_without(ws.drop_last(), id);
        let cur = records_without(ws, id);
        assert forall|i: int| 0 <= i < cur.len() implies (#[trigger] cur[i]).id@ != id by {
            if i < prev.len() {
                assert(cur[i] == prev[i]);
            }
        }
        assert forall|i: int| 0 <= i < ws.len() && (#[trigger] ws[i]).id@ != id implies cur.contains(ws[i]) by {
            if i < ws.len() - 1 {
                assert(ws.drop_last()[i] == ws[i]);
                let j = choose|j: int| 0 <= j < prev.len() && prev[j] == ws[i];
                assert(cur[j] == ws[i]);
            } else {
                assert(cur[cur.len() - 1] == ws[i]);
            }
        }
    }
    if ls.len() > 0 {
        law_forgotten_workspace_is_gone(ws, ls.drop_last(), id);
        let prev = leases_without(ls.drop_last(), id);
        let cur = leases_without(ls, id);
        assert forall|i: int| 0 <= i < cur.len() implies (#[trigger] cur[i]).workspace_id@ != id by {
            if i < prev.len() {
                assert(cur[i] == prev[i]);
            }
        }
        assert forall|i: int| 0 <= i < ls.len() && (#[trigger] ls[i]).workspace_id@ != id implies cur.contains(ls[i]) by {
            if i < ls.len() - 1 {
                assert(ls.drop_last()[i] == ls[i]);
                let j = choose|j: int| 0 <= j < prev.len() && prev[j] == ls[i];
                assert(cur[j] == ls[i]);
            } else {
                assert(cur[cur.len() - 1] == ls[i]);
            }
        }
    }
}


// Activation: how a slot is prepared for a target.

/// The slot's environment already is the plan's: it is reused as it is.
pub open spec fn environment_matches(environment: Option<EnvironmentSnapshot>, fingerprint: Seq<char>) -> bool {
    environment matches Some(e) && e.fingerprint@ == fingerprint
}

/// How a chosen slot becomes the workspace of a target: whether its environment is reused
/// as it is, else which cache roots are cleared and how its tracked files are reset; where it
/// is moved; and the query whose answer `bound_head_check` holds against the target once the
/// target is bound.
#[derive(Debug)]
pub struct ActivationPlan {
    pub reuse: bool,
    pub clear_roots: Vec<String>,
    pub reset: Vec<Invocation>,
    pub active_path: String,
    pub head_check: Invocation,
}

/// Plans the activation of `slot` for `target` under `active_root` (`base_exists`: the plain
/// path for the target is taken). A slot whose fingerprint is the plan's is reused, recorded
/// with clone mode `Reuse`; any other is never presented as compatible: the cache roots of its
/// old environment and of the plan are cleared and its tracked files reset to the target
/// commit.
pub fn activation_plan(
    slot: &WorkspaceSlot,
    plan: &EnvironmentPlan,
    target: &ResolvedTarget,
    active_root: &str,
    base_exists: bool,
) -> (p: ActivationPlan)
    ensures
        p.reuse == environment_matches(slot.environment, plan.fingerprint@),
        p.reuse ==> p.clear_roots@.len() == 0 && p.reset@.len() == 0,
        !p.reuse ==> strictly_sorted(views(p.clear_roots@)) && views(p.clear_roots@).to_set() == match slot.environment {
            Some(e) => views(e.cache_roots@).to_set(),
            None => Set::empty(),
        }.union(views(plan.cache_roots@).to_set()),
        !p.reuse ==> p.reset@.len() == 2
            && is_git_step(p.reset@[0], slot.path@, seq!["reset"@, "--hard"@, target.oid@], GIT_TIMEOUT_MS, seq![0i32])
            && is_git_step(p.reset@[1], slot.path@, seq!["switch"@, "--detach"@, target.oid@], GIT_TIMEOUT_MS, seq![0i32]),
        p.active_path@ == active_path_spec(active_root@, *target, base_exists),
        is_git_step(p.head_check, p.active_path@, seq!["rev-parse"@, "HEAD"@], HEAD_TIMEOUT_MS, seq![0i32]),
{
    let reuse = match &slot.environment {
        Some(e) => crate::text::str_equal(e.fingerprint.as_str(), plan.fingerprint.as_str()),
        None => false,
    };
    let (clear_roots, reset) = if reuse {
        (Vec::new(), Vec::new())
    } else {
        (roots_to_clear(&slot.environment, &plan.cache_roots), reset_workspace(slot.path.as_str(), target.oid.as_str()))
    };
    let active_path = choose_active_path(active_root, target, base_exists);
    let head_check = bound_head_query(active_path.as_str());
    ActivationPlan { reuse, clear_roots, reset, active_path, head_check }
}

/// What undoing a failed activation takes: a workspace that reached its active path is
/// detached and loses its seed copies, and goes back to its idle path unless something is
/// there now; a branch the activation created (new or from a remote) is deleted again, but
/// only while it still points at the target commit.
#[derive(Debug)]
pub struct ActivationRollback {
    pub detach: bool,
    pub move_back: bool,
    pub delete_branch: Option<Invocation>,
}

pub fn activation_rollback(repository: &Repository, target: &ResolvedTarget, active_exists: bool, idle_exists: bool) -> (r: ActivationRollback)
    ensures
        r.detach == active_exists,
        r.move_back == (active_exists && !idle_exists),
        ((target.kind == TargetKind::NewBranch || target.kind == TargetKind::RemoteBranch) && target.local_branch is Some)
            <==> r.delete_branch is Some,
        r.delete_branch matches Some(inv) ==> is_git_step(
            inv,
            repository.top_level@,
            seq!["update-ref"@, "-d"@, "refs/heads/"@ + target.local_branch.unwrap()@, target.oid@],
            GIT_TIMEOUT_MS,
            seq![0i32, 1i32, 128i32],
        ),
{
    let created = target.kind == TargetKind::NewBranch || target.kind == TargetKind::RemoteBranch;
    let delete_branch = match &target.local_branch {
        Some(branch) => if created {
            Some(delete_branch_if_expected(repository, branch.as_str(), target.oid.as_str()))
        } else {
            None
        },
        None => None,
    };
    ActivationRollback { detach: active_exists, move_back: active_exists && !idle_exists, delete_branch }
}

// Where an environment can be copied from.

/// The paths of trusted workspaces whose environment has `fingerprint`, in order.
pub open spec fn trusted_sources(ws: Seq<WorkspaceRecord>, fingerprint: Seq<char>) -> Seq<Seq<char>>
    decreases ws.len(),
{
    if ws.len() == 0 {
        Seq::empty()
    } else {
        let prev = trusted_sources(ws.drop_last(), fingerprint);
        if ws.last().trust == TrustLevel::Trusted && environment_matches(ws.last().environment, fingerprint) {
            prev.push(ws.last().path@)
        } else {
            prev
        }
    }
}

/// The paths of slots whose environment has `fingerprint`, in order.
pub open spec fn slot_sources(slots: Seq<WorkspaceSlot>, fingerprint: Seq<char>) -> Seq<Seq<char>>
    decreases slots.len(),
{
    if slots.len() == 0 {
        Seq::empty()
    } else {
        let prev = slot_sources(slots.drop_last(), fingerprint);
        if environment_matches(slots.last().environment, fingerprint) {
            prev.push(slots.last().path@)
        } else {
            prev
        }
    }
}

/// `paths` without `excluded`.
pub open spec fn without_path(paths: Seq<Seq<char>>, excluded: Seq<char>) -> Seq<Seq<char>> {
    paths.filter(|p: Seq<char>| p != excluded)
}

/// The places an environment with `fingerprint` can be copied from, best first: trusted
/// workspaces that hold it, then slots that hold it, never the destination itself. The first
/// of them that still exists is used; untrusted workspaces never lend theirs.
pub fn environment_candidates(state: &RepositoryState, fingerprint: &str, excluded: &str) -> (r: Vec<String>)
    ensures
        views(r@) == without_path(trusted_sources(state.workspaces@, fingerprint@) + slot_sources(state.slots@, fingerprint@), excluded@),
{
    let mut all: Vec<String> = Vec::new();
    let mut i: usize = 0;
    while i < state.workspaces.len()
        invariant
            i <= state.workspaces@.len(),
            views(all@) == trusted_sources(state.workspaces@.take(i as int), fingerprint@),
        decreases state.workspaces.len() - i,
    {
        assert(state.workspaces@.take(i + 1).drop_last() =~= state.workspaces@.take(i as int));
        let w = &state.workspaces[i];
        let matches = match &w.environment {
            Some(e) => crate::text::str_equal(e.fingerprint.as_str(), fingerprint),
            None => false,
        };
        if w.trust == TrustLevel::Trusted && matches {
            let ghost before = views(all@);
            all.push(w.path.clone());
            assert(views(all@) =~= before.push(w.path@));
        }
        i = i + 1;
    }
    assert(state.workspaces@.take(state.workspaces@.len() as int) =~= state.workspaces@);
    let ghost first = views(all@);
    let mut j: usize = 0;
    while j < state.slots.len()
        invariant
            j <= state.slots@.len(),
            first == trusted_sources(state.workspaces@, fingerprint@),
            views(all@) == first + slot_sources(state.slots@.take(j as int), fingerprint@),
        decreases state.slots.len() - j,
    {
        assert(state.slots@.take(j + 1).drop_last() =~= state.slots@.take(j as int));
        let s = &state.slots[j];
        let matches = match &s.environment {
            Some(e) => crate::text::str_equal(e.fingerprint.as_str(), fingerprint),
            None => false,
        };
        if matches {
            let ghost before = views(all@);
            all.push(s.path.clone());
            assert(views(all@) =~= before.push(s.path@));
            assert(first + slot_sources(state.slots@.take(j + 1), fingerprint@) =~= (first + slot_sources(state.slots@.take(j as int), fingerprint@)).push(s.path@));
        }
        j = j + 1;
    }
    assert(state.slots@.take(state.slots@.len() as int) =~= state.slots@);
    let ghost everything = views(all@);
    let mut r: Vec<String> = Vec::new();
    let mut k: usize = 0;
    while k < all.len()
        invariant
            k <= all@.len(),
            everything == views(all@),
            views(r@) == without_path(everything.take(k as int), excluded@),
        decreases all.len() - k,
    {
        assert(everything.take(k + 1).drop_last() =~= everything.take(k as int));
        reveal(Seq::filter);
        if !crate::text::str_equal(all[k].as_str(), excluded) {
            let ghost before = views(r@);
            r.push(all[k].clone());
            assert(views(r@) =~= before.push(all@[k as int]@));
        }
        k = k + 1;
    }
    assert(everything.take(everything.len() as int) =~= everything);
    r
}

/// The primary checkout lends its environment only when it is not the destination itself,
/// still exists, is planned with the same fingerprint, and has some cache root present.
pub fn primary_lends(
    primary: &str,
    excluded: &str,
    primary_exists: bool,
    primary_fingerprint: &str,
    fingerprint: &str,
    present_roots: &Vec<String>,
) -> (r: bool)
    ensures
        r == (primary@ != excluded@ && primary_exists && primary_fingerprint@ == fingerprint@ && present_roots@.len() > 0),
{
    !crate::text::str_equal(primary, excluded) && primary_exists && crate::text::str_equal(primary_fingerprint, fingerprint)
        && present_roots.len() > 0
}

/// Whether the primary checkout is worth planning as a source at all: it is not the
/// destination and it exists.
pub fn primary_may_lend(primary: &str, excluded: &str, primary_exists: bool) -> (r: bool)
    ensures
        r == (primary@ != excluded@ && primary_exists),
{
    !crate::text::str_equal(primary, excluded) && primary_exists
}

// Warming the pool.

/// The reference a pool is warmed at: `<remote>/<branch>` when the repository has a remote
/// and a default branch, the default branch alone without a remote, `HEAD` without a default
/// branch.
pub open spec fn warm_base_spec(remote: Option<Seq<char>>, branch: Option<Seq<char>>) -> Seq<char> {
    match branch {
        Some(b) => match remote {
            Some(r) => r + seq!['/'] + b,
            None => b,
        },
        None => seq!['H', 'E', 'A', 'D'],
    }
}

pub fn warm_base(repository: &Repository) -> (base: String)
    ensures
        base@ == warm_base_spec(opt_view(repository.remote), opt_view(repository.default_branch)),
{
    match &repository.default_branch {
        Some(branch) => match &repository.remote {
            Some(remote) => {
                let mut text = chars_of(remote.as_str());
                text.push('/');
                push_str(&mut text, branch.as_str());
                string_from_chars(&text)
            },
            None => branch.clone(),
        },
        None => {
            let text = vec!['H', 'E', 'A', 'D'];
            assert(text@ =~= seq!['H', 'E', 'A', 'D']);
            string_from_chars(&text)
        },
    }
}

/// The commit new slots are made at: what the base resolved to (`resolved`), else the current
/// worktree's head, else `HEAD` itself.
pub fn warm_oid(resolved: Option<String>, repository: &Repository) -> (oid: String)
    ensures
        oid@ == match resolved {
            Some(o) => o@,
            None => match repository.current_worktree {
                Some(w) => w.head@,
                None => seq!['H', 'E', 'A', 'D'],
            },
        },
{
    match resolved {
        Some(o) => o,
        None => match &repository.current_worktree {
            Some(w) => w.head.clone(),
            None => {
                let text = vec!['H', 'E', 'A', 'D'];
                assert(text@ =~= seq!['H', 'E', 'A', 'D']);
                string_from_chars(&text)
            },
        },
    }
}

/// How many idle slots warming aims for: the number asked for, else the pool's minimum, but
/// never more than its maximum.
pub fn warm_target(requested: Option<usize>, config: &AcreConfig) -> (n: usize)
    ensures
        n == {
            let wanted = match requested {
                Some(k) => k,
                None => config.pool.min_slots,
            };
            if wanted <= config.pool.max_slots { wanted } else { config.pool.max_slots }
        },
{
    let wanted = match requested {
        Some(k) => k,
        None => config.pool.min_slots,
    };
    if wanted <= config.pool.max_slots { wanted } else { config.pool.max_slots }
}

/// Warming adds another slot while fewer than `target` slots are idle.
pub fn warm_needs_slot(slots: &Vec<WorkspaceSlot>, target: usize) -> (r: bool)
    ensures
        r == (idle_count(slots@) < target),
{
    count_idle(slots) < target
}

// Returning a workspace.

/// External worktrees are only forgotten: Acre never moves, resets, removes or pools them.
pub fn only_forgotten(ownership: WorkspaceOwnership) -> (r: bool)
    ensures
        r == (ownership == WorkspaceOwnership::External),
{
    ownership == WorkspaceOwnership::External
}

/// What a return does.
#[derive(Debug, Clone, Copy, PartialEq, Eq)]
pub enum ReturnDecision {
    /// An external worktree: its record and leases are dropped, nothing on disk changes.
    ForgetOnly,
    /// Not safe: nothing happens.
    Refuse,
    /// The workspace is detached, its branch kept, and its slot either pooled or removed.
    Return { pool: bool },
}

/// An Acre workspace judged safe goes on to the pool plan; nothing else does.
pub fn return_needs_plan(ownership: WorkspaceOwnership, safe: bool) -> (r: bool)
    ensures
        r == (ownership != WorkspaceOwnership::External && safe),
{
    ownership != WorkspaceOwnership::External && safe
}

/// Decides a return: an external worktree is only forgotten; otherwise nothing happens unless
/// the assessment is safe; a safe return pools the slot only when the plan keeps it, the slot
/// that had to give way was really removed (`victim_removed`, `None` when none had to), and
/// the slot's record still exists.
pub fn return_decision(
    ownership: WorkspaceOwnership,
    safe: bool,
    plan: &ReturnPlan,
    victim_removed: Option<bool>,
    slot_present: bool,
) -> (d: ReturnDecision)
    ensures
        ownership == WorkspaceOwnership::External ==> d == ReturnDecision::ForgetOnly,
        ownership != WorkspaceOwnership::External && !safe ==> d == ReturnDecision::Refuse,
        ownership != WorkspaceOwnership::External && safe ==> d == (ReturnDecision::Return {
            pool: plan.keep && victim_removed != Some(false) && slot_present,
        }),
{
    if ownership == WorkspaceOwnership::External {
        ReturnDecision::ForgetOnly
    } else if !safe {
        ReturnDecision::Refuse
    } else {
        let removed_ok = match victim_removed {
            Some(false) => false,
            _ => true,
        };
        ReturnDecision::Return { pool: plan.keep && removed_ok && slot_present }
    }
}

/// Undoing a failed return: a workspace already moved to its idle path goes back when it is
/// still there and its own path is free; a workspace whose path is then empty is recreated at
/// its commit; in both cases its stored target is checked out again and its seeds restored.
pub fn return_rollback_moves_back(moved_exists: Option<bool>, workspace_exists: bool) -> (r: bool)
    ensures
        r == (moved_exists == Some(true) && !workspace_exists),
{
    match moved_exists {
        Some(true) => !workspace_exists,
        _ => false,
    }
}


/// External worktrees are never pooled: whatever the pool holds and whatever their
/// environment, the return plan never keeps their slot (and `return_decision` only forgets
/// them).
pub proof fn law_external_worktrees_are_never_pooled(
    slots: Seq<WorkspaceSlot>,
    workspace: WorkspaceRecord,
    environment: EnvironmentSnapshot,
    max_slots: usize,
)
    requires
        workspace.ownership == WorkspaceOwnership::External,
    ensures
        !keeps_slot(slots, workspace, environment, max_slots),
{
}

} // verus!
