use acre::environment::clone::{cache_clone_allowed, overlaps_seed};
use acre::environment::fingerprint::{fingerprint_paths, tracked_files_query, EnvironmentPlan};
use acre::environment::seed::{changed_seed_files, first_unsafe_clear, seed_copy_allowed, snapshot_seed_files, unsafe_clear_error};
use acre::error::{EXIT_CONFLICT, EXIT_ENVIRONMENT, EXIT_GIT, EXIT_REFUSED};
use acre::git::commands::marker_paths;
use acre::git::operations::{bound_head_check, branch_deleted};
use acre::git::repository::Repository;
use acre::git::runner::{process_outcome, process_start_failed, process_timed_out, ProcessResult};
use acre::git::status::{list_ignored_entries, parse_status};
use acre::git::worktrees::GitWorktree;
use acre::model::{
    EnvironmentSnapshot, EnvironmentState, KnownRepository, PullRequestTarget, RepositoryState, ShellSessionState, StoredTarget, TargetKind,
    TrustLevel, WorkspaceLease, WorkspaceOwnership, WorkspaceRecord, WorkspaceSlot, WorkspaceStatus,
};
use acre::pool::assessment::{assess_workspace, AssessOptions};
use acre::pool::maintenance::gc_dirty_skip;
use acre::pool::process::{lsof_processes, lsof_query, pid_label};
use acre::shell::navigation::repositories_left;
use acre::state::leases::{acquire_lease, AcquireLease};
use acre::state::shell::{record_navigation_at, same_path_exec};
use acre::util::now_iso;
use acre::pool::broker::{
    activation_plan, activation_rollback, choose_active_path, environment_candidates, only_forgotten, primary_lends,
    return_decision, return_needs_plan, return_rollback_moves_back, warm_base, warm_needs_slot, warm_oid, warm_target,
    ReturnDecision, ReturnPlan,
};
use acre::provider::github::fetched_head;
use acre::state::config::default_config_at;
use acre::state::index::{index_for, load_repository_index};
use acre::git::refs::{GitRef, GitRefKind};
use acre::target::{target_candidates, ResolvedTarget};

fn snapshot(fingerprint: &str) -> EnvironmentSnapshot {
    EnvironmentSnapshot {
        fingerprint: fingerprint.to_owned(),
        state: EnvironmentState::Ready,
        cache_roots: vec!["node_modules".to_owned()],
        required_roots: Vec::new(),
        present_roots: Vec::new(),
        source: None,
        cloned_files: None,
        cloned_bytes: None,
        clone_mode: None,
    }
}

fn slot(id: &str, status: WorkspaceStatus, fingerprint: Option<&str>) -> WorkspaceSlot {
    WorkspaceSlot {
        id: id.to_owned(),
        path: format!("/pool/{id}"),
        head: None,
        status,
        environment: fingerprint.map(snapshot),
        created_at: "t0".to_owned(),
        last_used_at: "t0".to_owned(),
    }
}

fn record(id: &str, trust: TrustLevel, fingerprint: Option<&str>) -> WorkspaceRecord {
    WorkspaceRecord {
        id: id.to_owned(),
        repository_id: "repo".to_owned(),
        path: format!("/active/{id}"),
        ownership: WorkspaceOwnership::Acre,
        status: WorkspaceStatus::Active,
        slot_id: None,
        target: StoredTarget {
            kind: TargetKind::LocalBranch,
            display_name: "feature".to_owned(),
            oid: "abc".to_owned(),
            local_branch: Some("feature".to_owned()),
            remote_branch: None,
            pull_request: None,
        },
        trust,
        environment: fingerprint.map(snapshot),
        baseline_ignored: Vec::new(),
        seeded_paths: Vec::new(),
        baseline_seed_files: Vec::new(),
        activated_at: "t0".to_owned(),
        last_used_at: "t0".to_owned(),
    }
}

fn lease(id: &str, workspace_id: &str, session: Option<&str>) -> WorkspaceLease {
    WorkspaceLease {
        id: id.to_owned(),
        workspace_id: workspace_id.to_owned(),
        holder: "shell".to_owned(),
        pid: None,
        session_id: session.map(ToOwned::to_owned),
        acquired_at: "t0".to_owned(),
        updated_at: "t0".to_owned(),
    }
}

fn state(slots: Vec<WorkspaceSlot>, workspaces: Vec<WorkspaceRecord>, leases: Vec<WorkspaceLease>) -> RepositoryState {
    RepositoryState {
        schema_version: 1,
        repository_id: "repo".to_owned(),
        repository_common_dir: "/repo/.git".to_owned(),
        repository_name: "repo".to_owned(),
        updated_at: "t0".to_owned(),
        slots,
        workspaces,
        leases,
    }
}

fn repository(remote: Option<&str>, default_branch: Option<&str>, head: Option<&str>) -> Repository {
    Repository {
        id: "id".to_owned(),
        name: "repo".to_owned(),
        top_level: "/srv/repo".to_owned(),
        git_dir: "/srv/repo/.git".to_owned(),
        common_dir: "/srv/repo/.git".to_owned(),
        remote: remote.map(ToOwned::to_owned),
        remote_url: None,
        default_branch: default_branch.map(ToOwned::to_owned),
        current_worktree: head.map(|h| GitWorktree {
            path: "/srv/repo".to_owned(),
            head: h.to_owned(),
            branch: None,
            branch_ref: None,
            detached: true,
            bare: false,
            locked: false,
            lock_reason: None,
            prunable: false,
            prune_reason: None,
            is_main: true,
            exists: true,
        }),
        worktrees: Vec::new(),
    }
}

fn target(kind: TargetKind, branch: Option<&str>) -> ResolvedTarget {
    ResolvedTarget {
        kind,
        display_name: "feature".to_owned(),
        oid: "abc123".to_owned(),
        trust: TrustLevel::Trusted,
        existing_worktree: None,
        local_branch: branch.map(ToOwned::to_owned),
        remote_branch: None,
        remote: None,
        base_ref: None,
        pull_request: None,
    }
}

fn plan(fingerprint: &str) -> EnvironmentPlan {
    EnvironmentPlan {
        fingerprint: fingerprint.to_owned(),
        ecosystem_ids: Vec::new(),
        cache_roots: vec![".venv".to_owned(), "node_modules".to_owned()],
        required_roots: Vec::new(),
        seed_files: vec![".env".to_owned()],
        platform_key: "linux".to_owned(),
    }
}

fn result(argv: &[&str], status: i32, stdout: &str, stderr: &str) -> ProcessResult {
    ProcessResult {
        argv: argv.iter().map(|a| a.to_string()).collect(),
        cwd: None,
        status,
        stdout: stdout.as_bytes().to_vec(),
        stderr: stderr.as_bytes().to_vec(),
        duration_ms: 0,
    }
}

fn options(session: Option<&str>, lease: Option<&str>) -> AssessOptions {
    AssessOptions {
        allowed_session_id: session.map(ToOwned::to_owned),
        allowed_lease_id: lease.map(ToOwned::to_owned),
        ignored_pids: Vec::new(),
    }
}

fn assessed_leases(leases: Vec<WorkspaceLease>, options: &AssessOptions) -> (Vec<String>, bool) {
    let workspace = record("w1", TrustLevel::Trusted, None);
    let current = state(Vec::new(), vec![workspace.clone()], leases);
    let config = default_config_at("/acre".to_owned());
    let a = assess_workspace(
        &current,
        workspace,
        &config,
        options,
        parse_status(&[]),
        None,
        None,
        Vec::new(),
        Vec::new(),
        Vec::new(),
    );
    (a.leases.iter().map(|l| l.id.clone()).collect(), a.safe)
}

#[test]
fn a_lease_without_a_session_blocks_a_return_when_no_session_is_allowed() {
    let (leases, safe) = assessed_leases(vec![lease("l1", "w1", None)], &options(None, None));
    assert_eq!(leases, vec!["l1".to_owned()]);
    assert!(!safe);
}

#[test]
fn only_the_allowed_lease_and_the_allowed_session_stop_counting() {
    let all = vec![
        lease("mine", "w1", None),
        lease("session", "w1", Some("s1")),
        lease("other", "w1", Some("s2")),
        lease("bare", "w1", None),
        lease("elsewhere", "w2", None),
    ];
    let (leases, safe) = assessed_leases(all, &options(Some("s1"), Some("mine")));
    assert_eq!(leases, vec!["other".to_owned(), "bare".to_owned()]);
    assert!(!safe);
    let (leases, safe) = assessed_leases(vec![lease("session", "w1", Some("s1"))], &options(Some("s1"), None));
    assert!(leases.is_empty());
    assert!(safe);
}

#[test]
fn return_decisions_forget_refuse_or_return() {
    let keep = ReturnPlan { keep: true, victim: None };
    assert_eq!(return_decision(WorkspaceOwnership::External, true, &keep, None, true), ReturnDecision::ForgetOnly);
    assert_eq!(return_decision(WorkspaceOwnership::Acre, false, &keep, None, true), ReturnDecision::Refuse);
    assert_eq!(return_decision(WorkspaceOwnership::Acre, true, &keep, None, true), ReturnDecision::Return { pool: true });
    assert_eq!(return_decision(WorkspaceOwnership::Acre, true, &keep, Some(true), true), ReturnDecision::Return { pool: true });
    assert_eq!(return_decision(WorkspaceOwnership::Acre, true, &keep, Some(false), true), ReturnDecision::Return { pool: false });
    assert_eq!(return_decision(WorkspaceOwnership::Acre, true, &keep, None, false), ReturnDecision::Return { pool: false });
    let drop = ReturnPlan { keep: false, victim: None };
    assert_eq!(return_decision(WorkspaceOwnership::Acre, true, &drop, None, true), ReturnDecision::Return { pool: false });
    assert!(only_forgotten(WorkspaceOwnership::External));
    assert!(!only_forgotten(WorkspaceOwnership::Acre));
    assert!(return_needs_plan(WorkspaceOwnership::Acre, true));
    assert!(!return_needs_plan(WorkspaceOwnership::Acre, false));
    assert!(!return_needs_plan(WorkspaceOwnership::External, true));
    assert!(return_rollback_moves_back(Some(true), false));
    assert!(!return_rollback_moves_back(Some(true), true));
    assert!(!return_rollback_moves_back(Some(false), false));
    assert!(!return_rollback_moves_back(None, false));
}

#[test]
fn a_matching_slot_is_reused_and_any_other_is_cleared_and_reset() {
    let feature = target(TargetKind::LocalBranch, Some("feature"));
    let warm = slot("s1", WorkspaceStatus::Idle, Some("fp"));
    let reused = activation_plan(&warm, &plan("fp"), &feature, "/acre/active", false);
    assert!(reused.reuse);
    assert!(reused.clear_roots.is_empty());
    assert!(reused.reset.is_empty());
    assert_eq!(reused.active_path, choose_active_path("/acre/active", &feature, false));
    assert_eq!(reused.active_path, "/acre/active/feature");
    assert_eq!(reused.head_check.args[4..], ["rev-parse".to_owned(), "HEAD".to_owned()]);
    assert_eq!(reused.head_check.options.cwd.as_deref(), Some("/acre/active/feature"));

    let other = slot("s2", WorkspaceStatus::Idle, Some("old"));
    let cleared = activation_plan(&other, &plan("fp"), &feature, "/acre/active", true);
    assert!(!cleared.reuse);
    assert_eq!(cleared.clear_roots, vec![".venv".to_owned(), "node_modules".to_owned()]);
    assert_eq!(cleared.reset.len(), 2);
    assert_eq!(cleared.reset[0].args[4..], ["reset".to_owned(), "--hard".to_owned(), "abc123".to_owned()]);
    assert_eq!(cleared.reset[0].options.cwd.as_deref(), Some("/pool/s2"));
    assert!(cleared.active_path.starts_with("/acre/active/feature--"));

    let cold = slot("s3", WorkspaceStatus::Idle, None);
    assert!(!activation_plan(&cold, &plan("fp"), &feature, "/acre/active", false).reuse);
}

#[test]
fn a_moved_ref_is_refused_after_binding() {
    let feature = target(TargetKind::LocalBranch, Some("feature"));
    assert!(bound_head_check(&feature, &result(&["git"], 0, "abc123\n", "")).is_ok());
    let error = bound_head_check(&feature, &result(&["git"], 0, "def456\n", "")).unwrap_err();
    assert_eq!(error.code, "ACRE_TARGET_MOVED");
    assert_eq!(error.exit_code, EXIT_CONFLICT);
    assert_eq!(error.message, "feature changed while Acre was opening it. Acre left the target untouched; run the command again.");
}

#[test]
fn a_failed_activation_deletes_only_the_branch_it_created() {
    let repo = repository(None, None, None);
    let created = activation_rollback(&repo, &target(TargetKind::NewBranch, Some("feature")), true, false);
    assert!(created.detach && created.move_back);
    let step = created.delete_branch.expect("a new branch is deleted again");
    assert_eq!(step.args[4..], ["update-ref".to_owned(), "-d".to_owned(), "refs/heads/feature".to_owned(), "abc123".to_owned()]);
    assert_eq!(step.options.accepted_statuses, vec![0, 1, 128]);
    let existing = activation_rollback(&repo, &target(TargetKind::LocalBranch, Some("feature")), true, true);
    assert!(existing.detach && !existing.move_back && existing.delete_branch.is_none());
    let untouched = activation_rollback(&repo, &target(TargetKind::RemoteBranch, Some("feature")), false, false);
    assert!(!untouched.detach && !untouched.move_back && untouched.delete_branch.is_some());
    assert!(branch_deleted(&result(&["git"], 0, "", "")));
    assert!(!branch_deleted(&result(&["git"], 1, "", "")));
    assert!(!branch_deleted(&result(&["git"], 128, "", "")));
}

#[test]
fn environments_are_lent_by_trusted_workspaces_then_slots_never_by_the_destination() {
    let current = state(
        vec![slot("s1", WorkspaceStatus::Idle, Some("fp")), slot("s2", WorkspaceStatus::Idle, Some("other"))],
        vec![
            record("untrusted", TrustLevel::Untrusted, Some("fp")),
            record("trusted", TrustLevel::Trusted, Some("fp")),
            record("dest", TrustLevel::Trusted, Some("fp")),
        ],
        Vec::new(),
    );
    assert_eq!(
        environment_candidates(&current, "fp", "/active/dest"),
        vec!["/active/trusted".to_owned(), "/pool/s1".to_owned()]
    );
    let roots = vec!["node_modules".to_owned()];
    assert!(primary_lends("/srv/repo", "/active/dest", true, "fp", "fp", &roots));
    assert!(!primary_lends("/srv/repo", "/srv/repo", true, "fp", "fp", &roots));
    assert!(!primary_lends("/srv/repo", "/active/dest", true, "fp", "other", &roots));
    assert!(!primary_lends("/srv/repo", "/active/dest", true, "fp", "fp", &Vec::new()));
}

#[test]
fn seeds_are_copied_only_when_ignored_absent_and_trusted() {
    assert!(seed_copy_allowed(TrustLevel::Trusted, false, false, true, false, true, true));
    assert!(!seed_copy_allowed(TrustLevel::Untrusted, false, false, true, false, true, true));
    assert!(!seed_copy_allowed(TrustLevel::Trusted, true, false, true, false, true, true));
    assert!(!seed_copy_allowed(TrustLevel::Trusted, false, true, true, false, true, true));
    assert!(!seed_copy_allowed(TrustLevel::Trusted, false, false, false, false, true, true));
    assert!(!seed_copy_allowed(TrustLevel::Trusted, false, false, true, true, true, true));
    assert!(!seed_copy_allowed(TrustLevel::Trusted, false, false, true, false, false, true));
    assert!(!seed_copy_allowed(TrustLevel::Trusted, false, false, true, false, true, false));
}

#[test]
fn caches_holding_seeds_or_virtual_environments_are_not_cloned() {
    let seeds = vec!["config/.env".to_owned()];
    assert!(overlaps_seed("config", &seeds));
    assert!(!overlaps_seed("node_modules", &seeds));
    assert!(cache_clone_allowed(false, false, false, false, true));
    assert!(!cache_clone_allowed(true, false, false, false, true));
    assert!(!cache_clone_allowed(false, true, false, false, true));
    assert!(!cache_clone_allowed(false, false, true, false, true));
    assert!(!cache_clone_allowed(false, false, false, true, true));
    assert!(!cache_clone_allowed(false, false, false, false, false));
}

#[test]
fn clearing_stops_at_the_first_path_behind_a_symlink() {
    let paths = vec!["a".to_owned(), "b/c".to_owned(), "d".to_owned()];
    assert_eq!(first_unsafe_clear(&paths, &vec![false, true, true]), Some(1));
    assert_eq!(first_unsafe_clear(&paths, &vec![false, false, false]), None);
    let error = unsafe_clear_error("b/c", true);
    assert_eq!(error.code, "ACRE_UNSAFE_PATH");
    assert_eq!(error.exit_code, EXIT_REFUSED);
    assert_eq!(error.message, "Cannot remove seed file through a symlink: b/c");
    assert_eq!(unsafe_clear_error("node_modules", false).message, "Cannot clear a cache through a symlink: node_modules");
}

#[test]
fn warming_starts_from_the_default_branch_and_stops_at_the_target() {
    assert_eq!(warm_base(&repository(Some("origin"), Some("main"), None)), "origin/main");
    assert_eq!(warm_base(&repository(None, Some("main"), None)), "main");
    assert_eq!(warm_base(&repository(Some("origin"), None, None)), "HEAD");
    let repo = repository(None, None, Some("cafe"));
    assert_eq!(warm_oid(Some("beef".to_owned()), &repo), "beef");
    assert_eq!(warm_oid(None, &repo), "cafe");
    assert_eq!(warm_oid(None, &repository(None, None, None)), "HEAD");
    let mut config = default_config_at("/acre".to_owned());
    config.pool.min_slots = 2;
    config.pool.max_slots = 3;
    assert_eq!(warm_target(None, &config), 2);
    assert_eq!(warm_target(Some(5), &config), 3);
    assert_eq!(warm_target(Some(1), &config), 1);
    let slots = vec![slot("a", WorkspaceStatus::Idle, None), slot("b", WorkspaceStatus::Active, None)];
    assert!(warm_needs_slot(&slots, 2));
    assert!(!warm_needs_slot(&slots, 1));
}

#[test]
fn unaccepted_exit_statuses_become_errors() {
    let ok = process_outcome(&vec![0, 1], result(&["git", "status"], 1, "", "")).unwrap();
    assert_eq!(ok.status, 1);
    let git = process_outcome(&vec![0], result(&["git", "status"], 128, "", "  fatal: not a repo \n")).unwrap_err();
    assert_eq!(git.code, "ACRE_GIT_FAILED");
    assert_eq!(git.exit_code, EXIT_GIT);
    assert_eq!(git.message, "fatal: not a repo");
    let silent = process_outcome(&vec![0], result(&["gh", "pr"], 2, "", "")).unwrap_err();
    assert_eq!(silent.code, "ACRE_PROCESS_FAILED");
    assert_eq!(silent.exit_code, EXIT_ENVIRONMENT);
    assert_eq!(silent.message, "gh exited with status 2.");
    assert_eq!(process_outcome(&vec![0], result(&[], -1, "", "")).unwrap_err().message, "process exited with status -1.");
}

#[test]
fn a_fetched_pull_request_stands_at_its_fetched_ref_or_its_reported_head() {
    let pr = PullRequestTarget {
        number: 7,
        title: "Fix".to_owned(),
        author: "me".to_owned(),
        url: "https://example.com/pr/7".to_owned(),
        base_ref_name: "main".to_owned(),
        head_ref_name: "fix".to_owned(),
        head_oid: "reported".to_owned(),
        repository: "owner/repo".to_owned(),
        cross_repository: false,
    };
    assert_eq!(fetched_head(&pr, &result(&["git"], 0, "fetched\n", "")), "fetched");
    assert_eq!(fetched_head(&pr, &result(&["git"], 128, "", "")), "reported");
}

#[test]
fn a_written_index_reads_back_unchanged() {
    let known = vec![KnownRepository {
        id: "a".to_owned(),
        name: "a".to_owned(),
        common_dir: "/a/.git".to_owned(),
        top_level: "/a".to_owned(),
        remote_url: None,
        last_seen_at: "t1".to_owned(),
    }];
    let read = load_repository_index(Some(index_for(known.clone())));
    assert_eq!(read.len(), 1);
    assert_eq!(read[0].id, "a");
    assert_eq!(read[0].last_seen_at, "t1");
}

#[test]
fn an_unchanged_seed_snapshot_reports_nothing() {
    let files = vec![".env".to_owned(), "missing".to_owned(), "config/local.json".to_owned()];
    let hashes = vec![Some("h1".to_owned()), None, Some("h3".to_owned())];
    let baseline = snapshot_seed_files(&files, &hashes);
    assert_eq!(baseline.len(), 2);
    let again: Vec<Option<String>> = baseline.iter().map(|s| Some(s.hash.clone())).collect();
    let through: Vec<bool> = baseline.iter().map(|_| false).collect();
    assert!(changed_seed_files(&baseline, &through, &again).is_empty());
    let edited = vec![Some("h1".to_owned()), Some("changed".to_owned())];
    assert_eq!(changed_seed_files(&baseline, &through, &edited), vec!["config/local.json".to_owned()]);
}

#[test]
fn an_unknown_target_is_compared_with_branches_and_refs_once_each() {
    let mut repo = repository(None, None, None);
    let mut checked_out = repo.current_worktree.clone().unwrap_or_else(|| repository(None, None, Some("c")).current_worktree.unwrap());
    checked_out.branch = Some("main".to_owned());
    repo.worktrees = vec![checked_out];
    let refs = vec![
        GitRef {
            full_name: "refs/heads/main".to_owned(),
            short_name: "main".to_owned(),
            oid: "a".to_owned(),
            kind: GitRefKind::Local,
            remote: None,
            upstream: None,
        },
        GitRef {
            full_name: "refs/remotes/origin/feature".to_owned(),
            short_name: "feature".to_owned(),
            oid: "b".to_owned(),
            kind: GitRefKind::Remote,
            remote: Some("origin".to_owned()),
            upstream: None,
        },
    ];
    assert_eq!(target_candidates(&repo, &refs), vec!["main".to_owned(), "origin/feature".to_owned()]);
}

#[test]
fn operation_markers_are_read_relative_to_the_workspace() {
    let printed = result(&["git"], 0, ".git/MERGE_HEAD\n/srv/repo/.git/worktrees/w/rebase-merge\n", "");
    assert_eq!(
        marker_paths("/active/w", &printed),
        vec!["/active/w/.git/MERGE_HEAD".to_owned(), "/srv/repo/.git/worktrees/w/rebase-merge".to_owned()]
    );
    assert!(marker_paths("/active/w", &result(&["git"], 0, "", "")).is_empty());
}

#[test]
fn garbage_collection_leaves_dirty_slots_alone() {
    let skipped = gc_dirty_skip(slot("s1", WorkspaceStatus::Idle, None), true).unwrap_err();
    assert_eq!(skipped.slot.id, "s1");
    assert_eq!(skipped.reason, "slot is dirty");
    assert_eq!(gc_dirty_skip(slot("s2", WorkspaceStatus::Idle, None), false).unwrap().id, "s2");
}

#[test]
fn only_fingerprinted_files_are_read_from_the_listing() {
    let listing = b"src/main.rs\0package.json\0apps/web/pnpm-lock.yaml\0\0README.md\0Cargo.lock\0";
    assert_eq!(
        fingerprint_paths(listing),
        vec!["Cargo.lock".to_owned(), "apps/web/pnpm-lock.yaml".to_owned(), "package.json".to_owned()]
    );
    let query = tracked_files_query("/srv/repo", "HEAD");
    assert_eq!(query.args[4..], ["ls-tree".to_owned(), "-r".to_owned(), "--name-only".to_owned(), "-z".to_owned(), "HEAD".to_owned()]);
}

#[test]
fn ignored_entries_are_never_empty_even_when_not_utf8() {
    let entries = list_ignored_entries(b"node_modules/\0\xff\0\0dist/\0");
    assert_eq!(entries.len(), 3);
    assert!(entries.iter().all(|entry| !entry.is_empty()));
}

#[test]
fn processes_that_cannot_start_or_run_too_long_are_environment_failures() {
    let start = process_start_failed("gh", "No such file or directory");
    assert_eq!(start.code, "ACRE_PROCESS_START_FAILED");
    assert_eq!(start.exit_code, EXIT_ENVIRONMENT);
    assert_eq!(start.message, "Could not start gh: No such file or directory");
    let late = process_timed_out("git");
    assert_eq!(late.code, "ACRE_PROCESS_TIMEOUT");
    assert_eq!(late.exit_code, EXIT_ENVIRONMENT);
    assert_eq!(late.message, "git exceeded its process timeout.");
}

#[test]
fn lsof_rows_carry_the_last_pid_and_command() {
    let listing = b"p101\ncvim\nn/active/w\np102\nc\nn/active/w/src\npnot-a-pid\ncbash\nn/tmp\np99999999999\nn/x\np7\ncsh\nn/home\nn/var\n";
    let rows = lsof_processes(listing);
    let shown: Vec<(u32, String, Option<String>)> = rows.iter().map(|p| (p.pid, p.command.clone(), p.cwd.clone())).collect();
    assert_eq!(
        shown,
        vec![
            (101, "vim".to_owned(), Some("/active/w".to_owned())),
            (102, "pid 102".to_owned(), Some("/active/w/src".to_owned())),
            (7, "sh".to_owned(), Some("/home".to_owned())),
            (7, "sh".to_owned(), Some("/var".to_owned())),
        ]
    );
    assert!(lsof_processes(b"n/orphan\n").is_empty());
    let query = lsof_query();
    assert_eq!(query.executable, "lsof");
    assert_eq!(query.args, vec!["-a", "-d", "cwd", "-F", "pcn"]);
    assert_eq!(query.options.accepted_statuses, vec![0, 1]);
    assert_eq!(query.options.timeout_ms, Some(10000));
    assert_eq!(pid_label(42), "pid 42");
}

#[test]
fn a_shell_that_stays_in_the_same_path_keeps_its_previous_directory() {
    assert!(same_path_exec("/a/", "/a"));
    assert!(same_path_exec("/a//b/./c", "/a/b/c"));
    assert!(!same_path_exec("./a", "a"));
    assert!(!same_path_exec("/a", "a"));
    let stored = ShellSessionState {
        schema_version: 1,
        id: "s".to_owned(),
        current_directory: Some("/a".to_owned()),
        previous_directory: Some("/before".to_owned()),
        pid: None,
        updated_at: "t0".to_owned(),
    };
    let kept = record_navigation_at("s", "/a/", "/a", Some(5), Some(stored.clone()), "t1".to_owned());
    assert_eq!(kept.previous_directory.as_deref(), Some("/before"));
    let moved = record_navigation_at("s", "/b", "/a", Some(5), Some(stored), "t1".to_owned());
    assert_eq!(moved.previous_directory.as_deref(), Some("/b"));
}

#[test]
fn a_shell_gives_up_its_lease_only_in_repositories_it_left() {
    let sources = vec!["/r1/.git".to_owned(), "/r2/.git".to_owned(), "/r1/.git".to_owned()];
    assert_eq!(repositories_left(&sources, None), vec![0, 1]);
    assert_eq!(repositories_left(&sources, Some(&"/r1/.git".to_owned())), vec![1]);
    assert!(repositories_left(&Vec::new(), None).is_empty());
}

#[test]
fn stamps_are_rfc3339_to_the_millisecond() {
    let stamp = now_iso();
    let tail: Vec<char> = stamp.chars().rev().take(20).collect::<Vec<_>>().into_iter().rev().collect();
    assert!(stamp.len() >= 24);
    assert_eq!((tail[0], tail[3], tail[6], tail[9], tail[12], tail[15], tail[19]), ('-', '-', 'T', ':', ':', '.', 'Z'));
    let fresh = acquire_lease(
        &mut state(Vec::new(), vec![record("w1", TrustLevel::Trusted, None)], Vec::new()),
        AcquireLease { workspace_id: "w1".to_owned(), holder: "cli".to_owned(), pid: None, session_id: None },
    );
    assert_eq!(fresh.id.len(), 32);
    assert!(fresh.id.chars().all(|c| c.is_ascii_hexdigit() && !c.is_ascii_uppercase()));
}
