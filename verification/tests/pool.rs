use acre::model::{
    EnvironmentSnapshot, EnvironmentState, RepositoryState, StoredTarget, TargetKind, TrustLevel,
    WorkspaceLease, WorkspaceOwnership, WorkspaceRecord, WorkspaceSlot, WorkspaceStatus,
};
use acre::pool::broker::{attach_lease, finish_return, needs_replenish, plan_return, select_slot, LeaseRequest};
use acre::pool::maintenance::{gc_candidates, repair_records};
use acre::state::config::default_config_at;
use acre::state::leases::{acquire_lease_at, release_lease, release_session_lease, AcquireLease};
use acre::git::worktrees::GitWorktree;

fn environment(fingerprint: &str, state: EnvironmentState) -> EnvironmentSnapshot {
    EnvironmentSnapshot {
        fingerprint: fingerprint.to_owned(),
        state,
        cache_roots: vec!["node_modules".to_owned()],
        required_roots: vec!["node_modules".to_owned()],
        present_roots: Vec::new(),
        source: None,
        cloned_files: None,
        cloned_bytes: None,
        clone_mode: None,
    }
}

fn slot(id: &str, status: WorkspaceStatus, fingerprint: Option<&str>, last_used_at: &str) -> WorkspaceSlot {
    WorkspaceSlot {
        id: id.to_owned(),
        path: format!("/pool/{id}"),
        head: None,
        status,
        environment: fingerprint.map(|f| environment(f, EnvironmentState::Ready)),
        created_at: "2024-01-01T00:00:00.000Z".to_owned(),
        last_used_at: last_used_at.to_owned(),
    }
}

fn target() -> StoredTarget {
    StoredTarget {
        kind: TargetKind::LocalBranch,
        display_name: "feature".to_owned(),
        oid: "abc".to_owned(),
        local_branch: Some("feature".to_owned()),
        remote_branch: None,
        pull_request: None,
    }
}

fn record(id: &str, slot_id: Option<&str>, ownership: WorkspaceOwnership, trust: TrustLevel) -> WorkspaceRecord {
    WorkspaceRecord {
        id: id.to_owned(),
        repository_id: "repo".to_owned(),
        path: format!("/active/{id}"),
        ownership,
        status: WorkspaceStatus::Active,
        slot_id: slot_id.map(ToOwned::to_owned),
        target: target(),
        trust,
        environment: None,
        baseline_ignored: Vec::new(),
        seeded_paths: Vec::new(),
        baseline_seed_files: Vec::new(),
        activated_at: "2024-01-01T00:00:00.000Z".to_owned(),
        last_used_at: "2024-01-01T00:00:00.000Z".to_owned(),
    }
}

fn lease(id: &str, workspace_id: &str, session: Option<&str>) -> WorkspaceLease {
    WorkspaceLease {
        id: id.to_owned(),
        workspace_id: workspace_id.to_owned(),
        holder: "shell".to_owned(),
        pid: None,
        session_id: session.map(ToOwned::to_owned),
        acquired_at: "t0".to_owned(),
        updated_at: "t0".to_owned(),
    }
}

fn state(slots: Vec<WorkspaceSlot>, workspaces: Vec<WorkspaceRecord>, leases: Vec<WorkspaceLease>) -> RepositoryState {
    RepositoryState {
        schema_version: 1,
        repository_id: "repo".to_owned(),
        repository_common_dir: "/repo/.git".to_owned(),
        repository_name: "repo".to_owned(),
        updated_at: "t0".to_owned(),
        slots,
        workspaces,
        leases,
    }
}

fn worktree(path: &str, exists: bool) -> GitWorktree {
    GitWorktree {
        path: path.to_owned(),
        head: "abc".to_owned(),
        branch: None,
        branch_ref: None,
        detached: true,
        bare: false,
        locked: false,
        lock_reason: None,
        prunable: false,
        prune_reason: None,
        is_main: false,
        exists,
    }
}

fn lease_ids(state: &RepositoryState) -> Vec<String> {
    state.leases.iter().map(|lease| lease.id.clone()).collect()
}

#[test]
fn a_session_refreshes_its_lease_instead_of_adding_one() {
    let mut s = state(Vec::new(), Vec::new(), vec![lease("l1", "w1", Some("s1"))]);
    let input = AcquireLease {
        workspace_id: "w1".to_owned(),
        holder: "shell".to_owned(),
        pid: Some(42),
        session_id: Some("s1".to_owned()),
    };
    let refreshed = acquire_lease_at(&mut s, input, "t1".to_owned(), "l2".to_owned());
    assert_eq!(refreshed.id, "l1");
    assert_eq!(refreshed.pid, Some(42));
    assert_eq!(refreshed.acquired_at, "t0");
    assert_eq!(refreshed.updated_at, "t1");
    assert_eq!(lease_ids(&s), vec!["l1"]);

    let other = AcquireLease {
        workspace_id: "w2".to_owned(),
        holder: "shell".to_owned(),
        pid: None,
        session_id: Some("s1".to_owned()),
    };
    let fresh = acquire_lease_at(&mut s, other, "t2".to_owned(), "l3".to_owned());
    assert_eq!(fresh.id, "l3");
    assert_eq!(fresh.acquired_at, "t2");
    assert_eq!(lease_ids(&s), vec!["l1", "l3"]);
}

#[test]
fn releasing_an_unknown_lease_is_an_error_that_changes_nothing() {
    let mut s = state(Vec::new(), Vec::new(), vec![lease("l1", "w1", None), lease("l2", "w2", None)]);
    let released = release_lease(&mut s, "l2").expect("known lease");
    assert_eq!(released.workspace_id, "w2");
    assert_eq!(lease_ids(&s), vec!["l1"]);
    let error = release_lease(&mut s, "missing").unwrap_err();
    assert_eq!(error.code, "ACRE_LEASE_NOT_FOUND");
    assert_eq!(lease_ids(&s), vec!["l1"]);
}

#[test]
fn session_release_keeps_other_sessions_and_order() {
    let mut s = state(
        Vec::new(),
        Vec::new(),
        vec![
            lease("a", "w1", Some("s1")),
            lease("b", "w2", Some("s2")),
            lease("c", "w2", Some("s1")),
            lease("d", "w3", None),
        ],
    );
    release_session_lease(&mut s, "s1", Some("w2"));
    assert_eq!(lease_ids(&s), vec!["a", "b", "d"]);
    release_session_lease(&mut s, "s1", None);
    assert_eq!(lease_ids(&s), vec!["b", "d"]);
}

#[test]
fn an_attached_session_holds_exactly_one_lease() {
    let mut s = state(
        Vec::new(),
        Vec::new(),
        vec![lease("a", "w1", Some("s1")), lease("b", "w2", Some("s2"))],
    );
    let request = LeaseRequest {
        holder: "shell:s1".to_owned(),
        pid: Some(7),
        session_id: Some("s1".to_owned()),
    };
    let granted = attach_lease(&mut s, "w3", Some(&request)).expect("lease");
    assert_eq!(granted.workspace_id, "w3");
    assert_eq!(granted.session_id.as_deref(), Some("s1"));
    let held: Vec<_> = s.leases.iter().filter(|l| l.session_id.as_deref() == Some("s1")).collect();
    assert_eq!(held.len(), 1);
    assert!(s.leases.iter().any(|l| l.id == "b"));

    let before = lease_ids(&s);
    assert!(attach_lease(&mut s, "w4", None).is_none());
    assert_eq!(lease_ids(&s), before);
}

#[test]
fn the_freshest_matching_slot_wins_and_else_the_oldest_cold_one() {
    let slots = vec![
        slot("a", WorkspaceStatus::Idle, Some("fp1"), "2024-01-02"),
        slot("b", WorkspaceStatus::Idle, Some("fp1"), "2024-01-05"),
        slot("c", WorkspaceStatus::Active, Some("fp1"), "2024-01-09"),
        slot("d", WorkspaceStatus::Idle, None, "2024-01-01"),
        slot("e", WorkspaceStatus::Idle, None, "2023-12-01"),
    ];
    let paths: Vec<String> = slots.iter().map(|s| s.path.clone()).collect();
    let worktrees = vec![
        worktree("/pool/a", true),
        worktree("/pool/b", true),
        worktree("/pool/c", true),
        worktree("/pool/d", true),
        worktree("/pool/e", false),
    ];
    let worktree_paths: Vec<String> = worktrees.iter().map(|w| w.path.clone()).collect();
    assert_eq!(select_slot(&slots, &paths, &worktrees, &worktree_paths, "fp1"), Some(1));
    // No slot holds `fp2`: the cold slot unused the longest whose worktree exists.
    assert_eq!(select_slot(&slots, &paths, &worktrees, &worktree_paths, "fp2"), Some(3));
    assert_eq!(select_slot(&Vec::new(), &Vec::new(), &worktrees, &worktree_paths, "fp1"), None);
}

#[test]
fn only_trusted_acre_work_returns_to_the_pool() {
    let slots = vec![
        slot("a", WorkspaceStatus::Idle, Some("fp1"), "2024-01-02"),
        slot("b", WorkspaceStatus::Idle, Some("fp1"), "2024-01-01"),
    ];
    let ready = environment("fp2", EnvironmentState::Ready);
    let trusted = record("w", Some("s"), WorkspaceOwnership::Acre, TrustLevel::Trusted);
    let roomy = plan_return(&slots, &trusted, &ready, 4);
    assert!(roomy.keep);
    assert_eq!(roomy.victim, None);
    // A full pool makes room for an environment it lacks by dropping its oldest idle slot.
    let full = plan_return(&slots, &trusted, &ready, 2);
    assert!(full.keep);
    assert_eq!(full.victim, Some(1));
    // A full pool that already holds the environment, or a cold one, keeps nothing.
    assert!(!plan_return(&slots, &trusted, &environment("fp1", EnvironmentState::Ready), 2).keep);
    assert!(!plan_return(&slots, &trusted, &environment("fp3", EnvironmentState::Cold), 2).keep);
    let untrusted = record("w", Some("s"), WorkspaceOwnership::Acre, TrustLevel::Untrusted);
    assert!(!plan_return(&slots, &untrusted, &ready, 4).keep);
    let external = record("w", None, WorkspaceOwnership::External, TrustLevel::Trusted);
    assert!(!plan_return(&slots, &external, &ready, 4).keep);
}

#[test]
fn a_returned_workspace_leaves_no_record_and_no_lease() {
    let workspace = record("w1", Some("s1"), WorkspaceOwnership::Acre, TrustLevel::Trusted);
    let mut s = state(
        vec![
            slot("s1", WorkspaceStatus::Active, None, "t"),
            slot("s2", WorkspaceStatus::Idle, None, "t"),
        ],
        vec![workspace.clone(), record("w2", Some("s2"), WorkspaceOwnership::Acre, TrustLevel::Trusted)],
        vec![lease("l1", "w1", None), lease("l2", "w2", None)],
    );
    finish_return(&mut s, &workspace, None);
    assert_eq!(s.slots.iter().map(|s| s.id.as_str()).collect::<Vec<_>>(), vec!["s2"]);
    assert_eq!(s.workspaces.iter().map(|w| w.id.as_str()).collect::<Vec<_>>(), vec!["w2"]);
    assert_eq!(lease_ids(&s), vec!["l2"]);
}

#[test]
fn a_pooled_return_replaces_the_slot_in_place() {
    let workspace = record("w1", Some("s1"), WorkspaceOwnership::Acre, TrustLevel::Trusted);
    let mut s = state(
        vec![
            slot("s0", WorkspaceStatus::Idle, None, "t"),
            slot("s1", WorkspaceStatus::Active, None, "t"),
        ],
        vec![workspace.clone()],
        Vec::new(),
    );
    let pooled = slot("s1", WorkspaceStatus::Idle, Some("fp"), "t9");
    finish_return(&mut s, &workspace, Some(&pooled));
    assert_eq!(s.slots.len(), 2);
    assert_eq!(s.slots[1].id, "s1");
    assert_eq!(s.slots[1].status, WorkspaceStatus::Idle);
    assert_eq!(s.slots[1].last_used_at, "t9");
    assert!(s.workspaces.is_empty());
}

#[test]
fn replenishing_waits_for_the_pool_to_run_low() {
    let config = default_config_at("/acre".to_owned());
    let one_idle = vec![slot("a", WorkspaceStatus::Idle, None, "t")];
    let none_idle = vec![slot("a", WorkspaceStatus::Active, None, "t")];
    assert!(!needs_replenish(&config, false, &one_idle));
    assert!(needs_replenish(&config, false, &none_idle));
    assert!(!needs_replenish(&config, true, &none_idle));
}

#[test]
fn garbage_collection_keeps_the_newest_idle_slots_within_retention() {
    let slots = vec![
        slot("a", WorkspaceStatus::Idle, None, "2024-01-03"),
        slot("b", WorkspaceStatus::Idle, None, "2024-01-01"),
        slot("c", WorkspaceStatus::Active, None, "2024-01-09"),
        slot("d", WorkspaceStatus::Idle, None, "2024-01-02"),
    ];
    let day: u128 = 86_400_000;
    let fresh = vec![day, day, day, day];
    assert_eq!(gc_candidates(&slots, 1, 30, &fresh), vec![3, 1]);
    assert!(gc_candidates(&slots, 4, 30, &fresh).is_empty());
    let stale = vec![31 * day, day, day, day];
    assert_eq!(gc_candidates(&slots, 1, 30, &stale), vec![0, 3, 1]);
}

#[test]
fn repair_drops_records_whose_worktree_is_gone() {
    let s = state(
        vec![
            slot("a", WorkspaceStatus::Idle, None, "t"),
            slot("b", WorkspaceStatus::Idle, None, "t"),
        ],
        vec![
            record("w1", None, WorkspaceOwnership::Acre, TrustLevel::Trusted),
            record("w2", None, WorkspaceOwnership::Acre, TrustLevel::Trusted),
            record("w3", None, WorkspaceOwnership::Acre, TrustLevel::Trusted),
        ],
        Vec::new(),
    );
    let slot_paths = vec!["/pool/a".to_owned(), "/pool/b".to_owned()];
    let workspace_paths = vec!["/active/w1".to_owned(), "/active/w2".to_owned(), "/active/w3".to_owned()];
    let registered = vec!["/pool/a".to_owned(), "/active/w1".to_owned(), "/active/w3".to_owned()];
    let report = repair_records(s, &slot_paths, &workspace_paths, &registered);
    assert_eq!(report.state.slots.iter().map(|s| s.id.as_str()).collect::<Vec<_>>(), vec!["a"]);
    assert_eq!(
        report.state.workspaces.iter().map(|w| w.id.as_str()).collect::<Vec<_>>(),
        vec!["w1", "w3"]
    );
    assert_eq!(report.removed_broken_records, 2);
    assert_eq!(report.added_slots, 1);
    assert_eq!(report.added_workspaces, 1);
}
