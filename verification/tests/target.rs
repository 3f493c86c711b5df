use acre::git::refs::{GitRef, GitRefKind};
use acre::git::repository::Repository;
use acre::git::worktrees::GitWorktree;
use acre::error::{find_detail_text, find_detail_texts};
use acre::model::{RepositoryState, TargetKind, TrustLevel};
use acre::target::{
    closest, new_branch_target, parse_typed_selector, resolve_existing_target, resolve_new_target, similarity, store_target,
    Resolution, SelectorKind,
};

fn worktree(path: &str, branch: Option<&str>, is_main: bool) -> GitWorktree {
    GitWorktree {
        path: path.to_owned(),
        head: "headoid".to_owned(),
        branch: branch.map(ToOwned::to_owned),
        branch_ref: branch.map(|b| format!("refs/heads/{b}")),
        detached: branch.is_none(),
        bare: false,
        locked: false,
        lock_reason: None,
        prunable: false,
        prune_reason: None,
        is_main,
        exists: true,
    }
}

fn repository() -> Repository {
    let main = worktree("/srv/repo", Some("main"), true);
    Repository {
        id: "id".to_owned(),
        name: "repo".to_owned(),
        top_level: "/srv/repo".to_owned(),
        git_dir: "/srv/repo/.git".to_owned(),
        common_dir: "/srv/repo/.git".to_owned(),
        remote: Some("origin".to_owned()),
        remote_url: None,
        default_branch: Some("main".to_owned()),
        current_worktree: Some(main.clone()),
        worktrees: vec![main],
    }
}

fn git_ref(short: &str, kind: GitRefKind) -> GitRef {
    let (full, remote) = match kind {
        GitRefKind::Local => (format!("refs/heads/{short}"), None),
        GitRefKind::Remote => (format!("refs/remotes/origin/{short}"), Some("origin".to_owned())),
    };
    GitRef { full_name: full, short_name: short.to_owned(), oid: "oid".to_owned(), kind, remote, upstream: None }
}

fn strings(values: &[&str]) -> Vec<String> {
    values.iter().map(|value| (*value).to_owned()).collect()
}

#[test]
fn selector_prefixes_pick_the_kind() {
    let typed = parse_typed_selector("branch:feature/x").expect("selector");
    assert_eq!(typed.kind, SelectorKind::Branch);
    assert_eq!(typed.value, "feature/x");
    let auto = parse_typed_selector("feature/x").expect("selector");
    assert_eq!(auto.kind, SelectorKind::Auto);
    assert_eq!(auto.value, "feature/x");
    assert_eq!(parse_typed_selector("worktree:/tmp/w").expect("selector").kind, SelectorKind::Worktree);
    let empty = parse_typed_selector("remote:").unwrap_err();
    assert_eq!(empty.code, "ACRE_TARGET_INVALID");
    assert_eq!(empty.message, "remote requires a value.");
}

#[test]
fn similarity_prefers_substrings_then_subsequences() {
    assert_eq!(similarity("feat", "feature"), 93);
    assert_eq!(similarity("fte", "feature"), 43);
    assert_eq!(similarity("xyz", "feature"), 0);
}

#[test]
fn closest_matches_rank_best_first_and_ignore_case() {
    let candidates = strings(&["main", "feature/alpha", "Feature", "release", "fix"]);
    assert_eq!(closest("FEAT", &candidates), strings(&["Feature", "feature/alpha"]));
    assert!(closest("zzz", &candidates).is_empty());
    let many = strings(&["a1", "a2", "a3", "a4", "a5", "a6"]);
    assert_eq!(closest("a", &many).len(), 5);
}

#[test]
fn a_new_branch_must_be_valid_and_unused() {
    let repo = repository();
    let refs = vec![git_ref("taken", GitRefKind::Local), git_ref("main", GitRefKind::Remote)];
    let invalid = resolve_new_target(&repo, "bad..name", false, &refs, None, false).unwrap_err();
    assert_eq!(invalid.code, "ACRE_INVALID_BRANCH");
    assert_eq!(invalid.message, "bad..name is not a valid Git branch name.");
    let taken = resolve_new_target(&repo, "taken", true, &refs, None, false).unwrap_err();
    assert_eq!(taken.code, "ACRE_BRANCH_EXISTS");
    let checked_out = resolve_new_target(&repo, "main", true, &refs, None, false).unwrap_err();
    assert_eq!(checked_out.code, "ACRE_BRANCH_EXISTS");
}

#[test]
fn a_new_branch_starts_from_the_remote_default_unless_told_otherwise() {
    let repo = repository();
    let refs = vec![git_ref("main", GitRefKind::Remote)];
    let plan = resolve_new_target(&repo, "feature", true, &refs, None, false).expect("plan");
    assert_eq!(plan.branch, "feature");
    assert_eq!(plan.base_ref, "origin/main");
    assert!(plan.fetch.is_none());
    let here = resolve_new_target(&repo, "feature", true, &refs, Some("."), false).expect("plan");
    assert_eq!(here.base_ref, "headoid");
    let without_remote_ref = resolve_new_target(&repo, "feature", true, &Vec::new(), None, false).expect("plan");
    assert_eq!(without_remote_ref.base_ref, "main");
    let fresh = resolve_new_target(&repo, "feature", true, &refs, None, true).expect("plan");
    let fetch = fresh.fetch.expect("fetch");
    assert_eq!(
        fetch.args[4..].to_vec(),
        strings(&["fetch", "--no-tags", "origin", "+refs/heads/main:refs/remotes/origin/main"])
    );
    assert_eq!(fetch.options.cwd.as_deref(), Some("/srv/repo"));
}

#[test]
fn a_new_branch_target_needs_its_base() {
    let repo = repository();
    let plan = resolve_new_target(&repo, "feature", true, &Vec::new(), Some("v9"), false).expect("plan");
    let missing = new_branch_target(plan, None).unwrap_err();
    assert_eq!(missing.code, "ACRE_BASE_NOT_FOUND");
    assert_eq!(missing.message, "Acre could not resolve the base v9.");
    let plan = resolve_new_target(&repo, "feature", true, &Vec::new(), Some("v9"), false).expect("plan");
    let target = new_branch_target(plan, Some("abc".to_owned())).expect("target");
    assert_eq!(target.kind, TargetKind::NewBranch);
    assert_eq!(target.oid, "abc");
    assert_eq!(target.trust, TrustLevel::Trusted);
    assert_eq!(target.local_branch.as_deref(), Some("feature"));
    assert_eq!(target.base_ref.as_deref(), Some("v9"));
    let stored = store_target(&target);
    assert_eq!(stored.kind, TargetKind::NewBranch);
    assert_eq!(stored.display_name, "feature");
    assert_eq!(stored.oid, "abc");
}

#[test]
fn an_unknown_target_comes_back_with_the_closest_names() {
    let repo = repository();
    let worktree_paths: Vec<String> = repo.worktrees.iter().map(|w| w.path.clone()).collect();
    let state = RepositoryState {
        schema_version: 1,
        repository_id: "id".to_owned(),
        repository_common_dir: "/srv/repo/.git".to_owned(),
        repository_name: "repo".to_owned(),
        updated_at: "t0".to_owned(),
        slots: Vec::new(),
        workspaces: Vec::new(),
        leases: Vec::new(),
    };
    let refs = vec![git_ref("feature", GitRefKind::Local), git_ref("fix", GitRefKind::Remote)];
    let error = match resolve_existing_target(&repo, &worktree_paths, &state, &Vec::new(), Some(&refs), "feat", "/nowhere/feat") {
        Err(error) => error,
        Ok(_) => panic!("an unknown target resolves to nothing"),
    };
    assert_eq!(error.code, "ACRE_TARGET_NOT_FOUND");
    assert_eq!(error.exit_code, 4);
    assert_eq!(error.message, "No existing work is named feat.");
    assert_eq!(find_detail_text(&error.details, "selector").map(String::as_str), Some("feat"));
    assert_eq!(find_detail_texts(&error.details, "suggestions"), strings(&["feature"]));
    match resolve_existing_target(&repo, &worktree_paths, &state, &Vec::new(), None, "feat", "/nowhere/feat") {
        Ok(Resolution::NeedsRefs) => {}
        _ => panic!("the refs are asked for first"),
    }
}
