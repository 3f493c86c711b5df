use acre::git::content::{parse_batch, read_files_query};
use acre::git::commands::{in_progress_operation, is_ignored_path, list_refs, resolve_oid, resolved_oid, validate_branch_name};
use acre::git::repository::{
    assemble_repository, config_facts, discover_repository_from_common_dir, first_worktree_path, remote_head_branch,
    repository_locations, ConfigFacts, RepositoryLocations,
};
use acre::git::runner::{decode_stdout, run_git, ProcessResult};
use acre::git::worktrees::GitWorktree;

fn with_prefix(args: &[&str]) -> Vec<String> {
    let prefix = ["-c", "core.hooksPath=/dev/null", "-c", "core.fsmonitor=false"];
    prefix.iter().chain(args.iter()).map(|a| (*a).to_owned()).collect()
}

fn result(status: i32, stdout: &[u8]) -> ProcessResult {
    ProcessResult {
        argv: Vec::new(),
        cwd: None,
        status,
        stdout: stdout.to_vec(),
        stderr: Vec::new(),
        duration_ms: 0,
    }
}

fn worktree(path: &str, branch: Option<&str>, is_main: bool) -> GitWorktree {
    GitWorktree {
        path: path.to_owned(),
        head: "abc".to_owned(),
        branch: branch.map(ToOwned::to_owned),
        branch_ref: branch.map(|b| format!("refs/heads/{b}")),
        detached: branch.is_none(),
        bare: false,
        locked: false,
        lock_reason: None,
        prunable: false,
        prune_reason: None,
        is_main,
        exists: true,
    }
}

#[test]
fn git_never_runs_repository_hooks() {
    let inv = run_git("/repo", &["status"]);
    assert_eq!(inv.executable, "git");
    assert_eq!(inv.args, with_prefix(&["status"]));
    assert_eq!(inv.options.cwd.as_deref(), Some("/repo"));
    assert_eq!(inv.options.accepted_statuses, vec![0]);
}

#[test]
fn queries_ask_git_what_they_need() {
    let refs = list_refs("/repo");
    assert_eq!(
        refs.args,
        with_prefix(&[
            "for-each-ref",
            "--format=%(refname)%00%(objectname)%00%(upstream)%00",
            "refs/heads",
            "refs/remotes"
        ])
    );
    let check = validate_branch_name("/repo", "feature/x");
    assert_eq!(check.args, with_prefix(&["check-ref-format", "--branch", "feature/x"]));
    assert_eq!(check.options.accepted_statuses, vec![0, 1, 128]);
    let oid = resolve_oid("/repo", "v1.0");
    assert_eq!(oid.args, with_prefix(&["rev-parse", "--verify", "v1.0^{commit}"]));
    let ignored = is_ignored_path("/repo", ".env");
    assert_eq!(ignored.args, with_prefix(&["check-ignore", "--quiet", "--", ".env"]));
    assert_eq!(ignored.options.timeout_ms, Some(10_000));
}

#[test]
fn a_resolved_oid_is_the_trimmed_output_of_a_success() {
    assert_eq!(resolved_oid(&result(0, b"abc123\n")).as_deref(), Some("abc123"));
    assert_eq!(resolved_oid(&result(128, b"fatal\n")), None);
    assert_eq!(decode_stdout(&result(0, b"  text \n")), "text");
}

#[test]
fn the_first_marker_present_names_the_operation() {
    assert_eq!(in_progress_operation(&vec![false, false, false, false, false]), None);
    assert_eq!(in_progress_operation(&vec![false, true, false, true, false]).as_deref(), Some("rebase"));
    assert_eq!(in_progress_operation(&vec![false, false, false, false, true]).as_deref(), Some("revert"));
    assert_eq!(in_progress_operation(&vec![true, false, false, false, false]).as_deref(), Some("merge"));
}

#[test]
fn repository_locations_need_a_work_tree() {
    let found = repository_locations(&result(0, b"/repo\n/repo/.git\n/repo/.git\ntrue\n")).expect("repository");
    assert_eq!(found.top_level, "/repo");
    assert_eq!(found.git_dir, "/repo/.git");
    assert_eq!(found.common_dir, "/repo/.git");
    let bare = repository_locations(&result(0, b"/repo\n/repo\n/repo\nfalse\n")).unwrap_err();
    assert_eq!(bare.code, "ACRE_NOT_IN_REPOSITORY");
    let outside = repository_locations(&result(128, b"")).unwrap_err();
    assert_eq!(outside.code, "ACRE_NOT_IN_REPOSITORY");
}

#[test]
fn origin_is_preferred_and_the_default_branch_is_read() {
    let facts = config_facts(
        b"remote.upstream.url\nhttps://example.com/u.git\0remote.origin.url\ngit@github.com:acme/widgets.git\0init.defaultBranch\ntrunk\0",
    );
    assert_eq!(facts.remote.as_deref(), Some("origin"));
    assert_eq!(facts.remote_url.as_deref(), Some("git@github.com:acme/widgets.git"));
    assert_eq!(facts.default_branch.as_deref(), Some("trunk"));
    let other = config_facts(b"remote.zeta.url\nz\0remote.alpha.url\na\0");
    assert_eq!(other.remote.as_deref(), Some("alpha"));
    assert_eq!(other.remote_url.as_deref(), Some("a"));
    assert_eq!(other.default_branch, None);
    let none = config_facts(b"");
    assert_eq!(none.remote, None);
}

#[test]
fn the_remote_head_names_the_default_branch() {
    assert_eq!(
        remote_head_branch("ref: refs/remotes/origin/main\n", "origin").as_deref(),
        Some("main")
    );
    assert_eq!(remote_head_branch("ref: refs/remotes/upstream/main\n", "origin"), None);
}

#[test]
fn a_repository_is_named_by_its_remote_and_identified_by_a_hash() {
    let locations = RepositoryLocations {
        top_level: "/srv/repo".to_owned(),
        git_dir: "/srv/repo/.git".to_owned(),
        common_dir: "/srv/repo/.git".to_owned(),
    };
    let facts = ConfigFacts {
        remote: Some("origin".to_owned()),
        remote_url: Some("git@github.com:acme/widgets.git".to_owned()),
        default_branch: Some("trunk".to_owned()),
    };
    let worktrees = vec![worktree("/srv/repo", Some("main"), true)];
    let repository = assemble_repository(locations, worktrees, None, facts, Some("main".to_owned()));
    assert_eq!(repository.name, "widgets");
    assert_eq!(repository.id, "44d052bc011d3b94");
    assert_eq!(repository.default_branch.as_deref(), Some("main"));

    let local = assemble_repository(
        RepositoryLocations {
            top_level: "/srv/repo".to_owned(),
            git_dir: "/srv/repo/.git".to_owned(),
            common_dir: "/srv/repo/.git".to_owned(),
        },
        vec![worktree("/srv/repo", Some("develop"), true)],
        None,
        ConfigFacts { remote: None, remote_url: None, default_branch: None },
        None,
    );
    assert_eq!(local.name, "repo");
    assert_eq!(local.id, "4b45de8d0544bbd0");
    assert_eq!(local.default_branch.as_deref(), Some("develop"));
}

#[test]
fn a_repository_is_found_again_from_its_common_directory() {
    let inv = discover_repository_from_common_dir("/srv/repo/.git");
    assert_eq!(
        inv.args,
        vec!["--git-dir=/srv/repo/.git", "worktree", "list", "--porcelain", "-z"]
    );
    assert_eq!(inv.options.cwd.as_deref(), Some("/srv/repo"));
    let listed = first_worktree_path(&result(0, b"worktree /srv/repo\0HEAD abc\0branch refs/heads/main\0\0"))
        .expect("worktree");
    assert_eq!(listed, "/srv/repo");
    assert_eq!(first_worktree_path(&result(128, b"")).unwrap_err().code, "ACRE_REPOSITORY_UNAVAILABLE");
}

#[test]
fn files_at_a_commit_come_from_one_batch() {
    assert!(read_files_query("/repo", "abc", &Vec::new()).is_none());
    let files = vec!["package.json".to_owned(), "missing.txt".to_owned(), "a.txt".to_owned()];
    let inv = read_files_query("/repo", "abc", &files).expect("query");
    assert_eq!(inv.args, with_prefix(&["cat-file", "--batch"]));
    assert_eq!(
        inv.options.stdin.as_deref(),
        Some(&b"abc:package.json\nabc:missing.txt\nabc:a.txt\n"[..])
    );
    let output = b"1111 blob 2\n{}\nabc:missing.txt missing\n2222 blob 3\nxyz\n";
    let entries = parse_batch(output, &files);
    assert_eq!(
        entries,
        vec![("package.json".to_owned(), b"{}".to_vec()), ("a.txt".to_owned(), b"xyz".to_vec())]
    );
    let truncated = parse_batch(b"1111 blob 20\nshort\n", &files);
    assert!(truncated.is_empty());
}
