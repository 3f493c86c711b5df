use acre::commands::system::{doctor_exit_code, doctor_lines, gc_lines, inspect_lines, state_checks, warm_lines, CheckLevel, DoctorCheck};
use acre::model::{RepositoryState, WorkspaceSlot};
use acre::pool::maintenance::GcSkipped;
use acre::model::WorkspaceLease;
use acre::commands::machine::{acquired_line, has_lease, release_lines, release_outcome, remaining_leases, tries_return, ReleaseOutcome};
use acre::cli::ShellBridge;
use acre::commands::done::{check_resume, done_action, done_exit_code, safe_destination, DoneAction, Destination};
use acre::commands::open::{lease_for_command, lease_for_shell, previous_location};
use acre::commands::opened::{environment_label, manual_move};
use acre::error::AcreError;
use acre::git::worktrees::GitWorktree;
use acre::model::{
    EnvironmentSnapshot, EnvironmentState, PendingDoneOperation, StoredTarget, TargetKind, TrustLevel,
    WorkspaceOwnership, WorkspaceRecord, WorkspaceStatus,
};
use acre::ui::errors::{render_error, render_failure};
use acre::error::find_detail_text;
use acre::target::{not_found, suggest_targets};
use acre::ui::output::Renderer;

fn shell(active: bool, session: Option<&str>) -> ShellBridge {
    ShellBridge {
        active,
        directive_file: None,
        session_id: session.map(ToOwned::to_owned),
        pid: Some(99),
    }
}

fn worktree(path: &str, is_main: bool) -> GitWorktree {
    GitWorktree {
        path: path.to_owned(),
        head: "abc".to_owned(),
        branch: Some("main".to_owned()),
        branch_ref: Some("refs/heads/main".to_owned()),
        detached: false,
        bare: false,
        locked: false,
        lock_reason: None,
        prunable: false,
        prune_reason: None,
        is_main,
        exists: true,
    }
}

fn workspace(environment: Option<EnvironmentSnapshot>) -> WorkspaceRecord {
    WorkspaceRecord {
        id: "w1".to_owned(),
        repository_id: "repo".to_owned(),
        path: "/active/w1".to_owned(),
        ownership: WorkspaceOwnership::Acre,
        status: WorkspaceStatus::Active,
        slot_id: None,
        target: StoredTarget {
            kind: TargetKind::LocalBranch,
            display_name: "feature".to_owned(),
            oid: "abc".to_owned(),
            local_branch: Some("feature".to_owned()),
            remote_branch: None,
            pull_request: None,
        },
        trust: TrustLevel::Trusted,
        environment,
        baseline_ignored: Vec::new(),
        seeded_paths: Vec::new(),
        baseline_seed_files: Vec::new(),
        activated_at: "t".to_owned(),
        last_used_at: "t".to_owned(),
    }
}

fn snapshot(state: EnvironmentState) -> EnvironmentSnapshot {
    EnvironmentSnapshot {
        fingerprint: "0123456789abcdef".to_owned(),
        state,
        cache_roots: Vec::new(),
        required_roots: Vec::new(),
        present_roots: Vec::new(),
        source: None,
        cloned_files: None,
        cloned_bytes: None,
        clone_mode: None,
    }
}

fn strings(values: &[&str]) -> Vec<String> {
    values.iter().map(|value| (*value).to_owned()).collect()
}

#[test]
fn the_workspace_holding_the_shell_waits_for_the_shell_to_move() {
    assert_eq!(done_action(false, true, &shell(true, Some("s")), "/active/feature").unwrap(), DoneAction::Refuse);
    assert_eq!(done_action(true, false, &shell(false, None), "/active/feature").unwrap(), DoneAction::ReturnNow);
    assert_eq!(done_action(true, true, &shell(true, Some("s")), "/active/feature").unwrap(), DoneAction::MoveShellFirst);
    let error = done_action(true, true, &shell(false, Some("s")), "/active/feature").unwrap_err();
    assert_eq!(error.code, "ACRE_SHELL_INTEGRATION_REQUIRED");
    assert_eq!(find_detail_text(&error.details, "hint").map(String::as_str), Some("acre setup"));
    assert_eq!(find_detail_text(&error.details, "workspace").map(String::as_str), Some("/active/feature"));
    assert_eq!(done_exit_code(true, false), 0);
    assert_eq!(done_exit_code(false, true), 0);
    assert_ne!(done_exit_code(false, false), 0);
}

#[test]
fn a_resumed_done_needs_the_workspace_unchanged() {
    let operation = PendingDoneOperation {
        schema_version: 1,
        kind: "done".to_owned(),
        token: "tok".to_owned(),
        repository_common_dir: "/repo/.git".to_owned(),
        workspace_id: "w1".to_owned(),
        expected_head: "abc".to_owned(),
        expected_status_fingerprint: "fp".to_owned(),
        safe_destination: "/repo".to_owned(),
        current_session_id: None,
        created_at: "t".to_owned(),
    };
    assert!(check_resume(&operation, Some(&"abc".to_owned()), "fp", "/active/feature").is_ok());
    assert_eq!(
        check_resume(&operation, Some(&"def".to_owned()), "fp", "/active/feature").unwrap_err().code,
        "ACRE_WORKSPACE_CHANGED"
    );
    assert!(check_resume(&operation, None, "fp", "/active/feature").is_err());
    assert!(check_resume(&operation, Some(&"abc".to_owned()), "other", "/active/feature").is_err());
}

#[test]
fn a_leaving_shell_goes_back_or_to_the_same_spot_in_the_primary_worktree() {
    let primary = worktree("/srv/repo", true);
    match safe_destination(Some("/home/me"), true, "/active/w1", Some(&primary), "/srv/repo", "/active/w1", true, "/active/w1") {
        Ok(Destination::Previous(path)) => assert_eq!(path, "/home/me"),
        other => panic!("unexpected {other:?}"),
    }
    match safe_destination(
        Some("/active/w1/src"),
        true,
        "/active/w1",
        Some(&primary),
        "/srv/repo",
        "/active/w1",
        true,
        "/active/w1/src/lib",
    ) {
        Ok(Destination::Primary { path, nested }) => {
            assert_eq!(path, "/srv/repo");
            assert_eq!(nested.as_deref(), Some("/srv/repo/src/lib"));
        },
        other => panic!("unexpected {other:?}"),
    }
    let refused = safe_destination(None, false, "/srv/repo", Some(&primary), "/srv/repo", "/srv/repo", true, "/srv/repo");
    assert_eq!(refused.unwrap_err().code, "ACRE_NO_SAFE_DESTINATION");
}

#[test]
fn shells_and_commands_hold_leases_under_their_own_names() {
    let request = lease_for_shell(&shell(true, Some("abc"))).expect("lease");
    assert_eq!(request.holder, "shell:abc");
    assert_eq!(request.pid, Some(99));
    assert_eq!(request.session_id.as_deref(), Some("abc"));
    assert!(lease_for_shell(&shell(true, None)).is_none());
    let command = lease_for_command(4242);
    assert_eq!(command.holder, "command:4242");
    assert_eq!(command.pid, Some(4242));
    assert!(command.session_id.is_none());
}

#[test]
fn the_previous_location_needs_shell_history() {
    assert_eq!(
        previous_location(true, &shell(true, Some("s")), Some("/x".to_owned()), true).unwrap_err().code,
        "ACRE_INVALID_PREVIOUS_COMMAND"
    );
    assert_eq!(
        previous_location(false, &shell(true, None), Some("/x".to_owned()), true).unwrap_err().code,
        "ACRE_NO_SHELL_HISTORY"
    );
    assert_eq!(previous_location(false, &shell(true, Some("s")), Some("/x".to_owned()), true).unwrap(), "/x");
    assert_eq!(
        previous_location(false, &shell(true, Some("s")), Some("/x".to_owned()), false).unwrap_err().code,
        "ACRE_NO_PREVIOUS_LOCATION"
    );
}

#[test]
fn environment_labels_name_the_generation() {
    assert_eq!(environment_label(&workspace(None), false), "environment unknown");
    assert_eq!(
        environment_label(&workspace(Some(snapshot(EnvironmentState::Ready))), true),
        "workspace ready · reused environment 01234567"
    );
    assert_eq!(
        environment_label(&workspace(Some(snapshot(EnvironmentState::Cold))), false),
        "code ready · environment 01234567 cold"
    );
}

#[test]
fn a_manual_move_quotes_the_destination() {
    let renderer = Renderer { color: false };
    assert_eq!(
        manual_move(&renderer, "/srv/it's"),
        strings(&[
            "",
            "Move this shell:",
            "  <blue>cd '/srv/it'\\''s'</blue>",
            "",
            "Enable direct navigation with <blue>acre setup</blue>.",
        ])
    );
}

#[test]
fn an_unknown_target_suggests_matches_and_a_new_branch() {
    let renderer = Renderer { color: false };
    let error = AcreError::new("ACRE_TARGET_NOT_FOUND", "No target named feat.", 4);
    let lines = render_failure(&renderer, &error, &strings(&["feature"]), &Vec::new(), Some("feat"), None, None);
    assert_eq!(
        lines,
        strings(&[
            "<bold><red>No target named feat.</red></bold>",
            "",
            "Closest matches:",
            "  <blue>feature</blue>",
            "",
            "Start a new branch:",
            "  <blue>acre new feat</blue>",
        ])
    );
    let exists = AcreError::new("ACRE_BRANCH_EXISTS", "x already exists.", 5);
    let lines = render_failure(&renderer, &exists, &Vec::new(), &Vec::new(), None, Some("x"), Some("<detail>"));
    assert_eq!(
        lines,
        strings(&[
            "<bold><red>x already exists.</red></bold>",
            "",
            "Open it:",
            "  <blue>acre x</blue>",
            "",
            "<dim>‹detail›</dim>",
        ])
    );
}

#[test]
fn the_last_lease_out_returns_the_workspace() {
    let lease = |id: &str, workspace: &str| WorkspaceLease {
        id: id.to_owned(),
        workspace_id: workspace.to_owned(),
        holder: "agent".to_owned(),
        pid: None,
        session_id: None,
        acquired_at: "t".to_owned(),
        updated_at: "t".to_owned(),
    };
    let leases = vec![lease("a", "w1"), lease("b", "w2"), lease("c", "w1")];
    assert!(has_lease(&leases, "b"));
    assert!(!has_lease(&leases, "z"));
    assert_eq!(remaining_leases(&leases, "w1"), 2);
    assert!(tries_return(false, 0));
    assert!(!tries_return(true, 0));
    assert!(!tries_return(false, 1));
    assert_eq!(release_outcome(None), ReleaseOutcome { retained: true, pooled: false, external: false });

    let renderer = Renderer { color: false };
    let kept = ReleaseOutcome { retained: true, pooled: false, external: false };
    assert_eq!(
        release_lines(&renderer, "feature", kept, false, 2, &Vec::new()),
        strings(&[
            "<bold><green>Released</green></bold> <blue>feature</blue>",
            "<dim>Workspace remains active · 2 other leases</dim>",
        ])
    );
    assert_eq!(
        release_lines(&renderer, "feature", kept, false, 1, &Vec::new())[1],
        "<dim>Workspace remains active · 1 other lease</dim>"
    );
    assert_eq!(
        release_lines(&renderer, "feature", kept, false, 0, &strings(&["dirty <tree>"])),
        strings(&[
            "<bold><green>Released</green></bold> <blue>feature</blue>",
            "<dim>Workspace remains active because Acre could not prove it safe to recycle</dim>",
            "  <yellow>•</yellow> dirty ‹tree›",
        ])
    );
    let pooled = ReleaseOutcome { retained: false, pooled: true, external: false };
    assert_eq!(
        release_lines(&renderer, "feature", pooled, false, 0, &Vec::new())[1],
        "<dim>Warm workspace returned to the pool</dim>"
    );
    assert_eq!(acquired_line(&renderer, Some("l1"), Some(EnvironmentState::Warm)), "<dim>lease l1 · warm</dim>");
    assert_eq!(acquired_line(&renderer, None, None), "<dim>lease none · unknown</dim>");
}

fn slot(id: &str, status: WorkspaceStatus, environment: Option<EnvironmentSnapshot>) -> WorkspaceSlot {
    WorkspaceSlot {
        id: id.to_owned(),
        path: format!("/home/me/.acre/slots/{id}"),
        head: None,
        status,
        environment,
        created_at: "t".to_owned(),
        last_used_at: "t".to_owned(),
    }
}

#[test]
fn doctor_fails_on_broken_records_and_only_warns_on_an_empty_pool() {
    let mut broken = workspace(None);
    broken.status = WorkspaceStatus::Broken;
    let state = RepositoryState {
        schema_version: 1,
        repository_id: "repo".to_owned(),
        repository_common_dir: "/repo/.git".to_owned(),
        repository_name: "repo".to_owned(),
        updated_at: "t".to_owned(),
        slots: vec![slot("a", WorkspaceStatus::Active, None), slot("b", WorkspaceStatus::Broken, None)],
        workspaces: vec![broken],
        leases: Vec::new(),
    };
    let (consistency, pool) = state_checks(&state);
    assert_eq!(consistency.level, CheckLevel::Fail);
    assert_eq!(consistency.detail, "2 broken record(s)");
    assert_eq!(pool.level, CheckLevel::Warn);
    assert_eq!(pool.detail, "no idle slots");
    let checks = vec![
        DoctorCheck { name: "Git".to_owned(), level: CheckLevel::Pass, detail: "git version 2.45".to_owned(), hint: None },
        consistency,
        pool,
    ];
    assert_eq!(doctor_exit_code(&checks), 3);
    let renderer = Renderer { color: false };
    assert_eq!(
        doctor_lines(&renderer, &checks),
        vec![
            "<bold>Acre doctor</bold>".to_owned(),
            String::new(),
            format!("<green>✓</green> {:10}  <dim>git version 2.45</dim>", "Git"),
            format!("<red>✗</red> {:10}  <dim>2 broken record(s)</dim>", "Acre state"),
            format!("<yellow>!</yellow> {:10}  <dim>no idle slots</dim>", "Warm pool"),
            String::new(),
            "Run <blue>acre system repair</blue> inside this repository.".to_owned(),
            "Prepare warm workspaces with <blue>acre system warm</blue>.".to_owned(),
        ]
    );
    let warn_only = vec![DoctorCheck { name: "Warm pool".to_owned(), level: CheckLevel::Warn, detail: String::new(), hint: None }];
    assert_eq!(doctor_exit_code(&warn_only), 0);
}

#[test]
fn warm_and_gc_report_what_they_did() {
    let renderer = Renderer { color: false };
    assert_eq!(warm_lines(&renderer, &Vec::new(), "/home/me"), strings(&["<green>The warm workspace pool is ready.</green>"]));
    let created = vec![slot("a", WorkspaceStatus::Idle, Some(snapshot(EnvironmentState::Warm))), slot("b", WorkspaceStatus::Idle, None)];
    assert_eq!(
        warm_lines(&renderer, &created, "/home/me"),
        strings(&[
            "<bold><green>Prepared 2</green></bold> warm workspaces",
            "  <dim>~/.acre/slots/a</dim> · warm",
            "  <dim>~/.acre/slots/b</dim> · cold",
        ])
    );
    let skipped = vec![GcSkipped { slot: slot("c", WorkspaceStatus::Idle, None), reason: "slot is dirty".to_owned() }];
    assert_eq!(
        gc_lines(&renderer, 1, &skipped),
        strings(&["<bold><green>Removed 1</green></bold> idle workspace", "  <yellow>kept c</yellow> · slot is dirty"])
    );
}

#[test]
fn inspect_lists_workspaces_idle_slots_and_leases() {
    let renderer = Renderer { color: false };
    let mut active = workspace(Some(snapshot(EnvironmentState::Ready)));
    active.path = "/home/me/.acre/workspaces/feature".to_owned();
    let state = RepositoryState {
        schema_version: 1,
        repository_id: "repo".to_owned(),
        repository_common_dir: "/repo/.git".to_owned(),
        repository_name: "repo".to_owned(),
        updated_at: "t".to_owned(),
        slots: vec![
            slot("s1", WorkspaceStatus::Idle, Some(snapshot(EnvironmentState::Warm))),
            slot("s2", WorkspaceStatus::Active, None),
        ],
        workspaces: vec![active],
        leases: vec![WorkspaceLease {
            id: "0123456789".to_owned(),
            workspace_id: "w1".to_owned(),
            holder: "shell:abc".to_owned(),
            pid: None,
            session_id: None,
            acquired_at: "t".to_owned(),
            updated_at: "t".to_owned(),
        }],
    };
    assert_eq!(
        inspect_lines(&renderer, "repo", &state, "/home/me"),
        strings(&[
            "<bold>repo</bold>",
            "",
            "Active workspaces",
            "  <blue>feature</blue>  acre · ready",
            "    <dim>~/.acre/workspaces/feature</dim>",
            "",
            "Warm slots",
            "  s1  warm · 01234567",
            "",
            "Leases  1",
            "  01234567  shell:abc",
        ])
    );
}

#[test]
fn a_failure_is_told_from_its_own_details() {
    let renderer = Renderer { color: false };
    let names = strings(&["feature", "main", "origin/feature"]);
    let error = suggest_targets(not_found("feat"), "feat", &names);
    assert_eq!(find_detail_text(&error.details, "selector").map(String::as_str), Some("feat"));
    assert_eq!(
        render_error(&renderer, &error, None),
        strings(&[
            "<bold><red>No existing work is named feat.</red></bold>",
            "",
            "Closest matches:",
            "  <blue>feature</blue>",
            "  <blue>origin/feature</blue>",
            "",
            "Start a new branch:",
            "  <blue>acre new feat</blue>",
        ])
    );
    let other = suggest_targets(AcreError::new("ACRE_OTHER", "x", 1), "feat", &names);
    assert!(other.details.is_empty());
}
