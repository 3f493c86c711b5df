use acre::git::refs::parse_refs;
use acre::git::status::parse_status;
use acre::git::worktrees::parse_worktree_porcelain;
use acre::provider::remote::parse_hosted_remote;

#[test]
fn parses_local_and_remote_refs() {
    let input =
        b"refs/heads/main\0abc\0refs/remotes/origin/main\0\nrefs/remotes/origin/feature/x\0def\0\0";
    let refs = parse_refs(input);
    assert_eq!(refs.len(), 2);
    assert_eq!(refs[0].short_name, "main");
    assert_eq!(refs[1].remote.as_deref(), Some("origin"));
    assert_eq!(refs[1].short_name, "feature/x");
}

#[test]
fn parses_status_v2() {
    let input = b"1 M. N... 100644 100644 100644 abc abc src/lib.rs\0? new.txt\0";
    let status = parse_status(input);
    assert_eq!(status.staged, 1);
    assert_eq!(status.untracked, 1);
    assert!(status.dirty);
}

#[test]
fn parses_nul_delimited_worktrees() {
    let input = b"worktree /repo\0HEAD abc\0branch refs/heads/main\0\nworktree /repo-feature\0HEAD def\0detached\0locked busy\0";
    let rows = parse_worktree_porcelain(input);
    assert_eq!(rows.len(), 2);
    assert_eq!(rows[0].branch.as_deref(), Some("main"));
    assert!(rows[0].is_main);
    assert!(rows[1].detached);
    assert!(rows[1].locked);
}

#[test]
fn parses_ssh_and_https_remotes() {
    for url in [
        "git@github.com:acme/widgets.git",
        "https://github.com/acme/widgets",
        "ssh://git@github.com/acme/widgets.git",
    ] {
        let remote = parse_hosted_remote(url).expect(url);
        assert_eq!(
            (remote.host.as_str(), remote.owner.as_str(), remote.repo.as_str()),
            ("github.com", "acme", "widgets")
        );
    }
    assert!(parse_hosted_remote("/srv/git/widgets.git").is_none());
}
