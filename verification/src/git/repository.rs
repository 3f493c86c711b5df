//! What Acre knows of a repository: top level, common dir, remote, default branch, and its
//! registered worktrees.

use vstd::prelude::*;

use crate::bytes::{split_bytes, nonempty_fields};
use crate::error::{AcreError, EXIT_ENVIRONMENT};
use crate::git::refs::opt_view;
use crate::git::runner::{git_prefix, run_git_with, str_views, Invocation, ProcessResult, RunOptions};
use crate::git::worktrees::GitWorktree;
use crate::order::{seq_less, str_less, views};
use crate::provider::remote::{hosted_remote_spec, parse_hosted_remote, trim_whitespace, trim_whitespace_exec};
use crate::state::repository::{file_name, opt_text};
use crate::text::{chars_of, ends_with, starts_with, utf8_lossy};
use crate::util::{short_hash, short_hash_spec};

verus! {

#[derive(Debug, Clone)]
pub struct Repository {
    pub id: String,
    pub name: String,
    pub top_level: String,
    pub git_dir: String,
    pub common_dir: String,
    pub remote: Option<String>,
    pub remote_url: Option<String>,
    pub default_branch: Option<String>,
    pub current_worktree: Option<GitWorktree>,
    pub worktrees: Vec<GitWorktree>,
}

impl Repository {
    /// The main worktree's directory: the first registered worktree, else the top level.
    pub open spec fn primary_view(self) -> Seq<char> {
        if self.worktrees@.len() > 0 {
            self.worktrees@[0].path@
        } else {
            self.top_level@
        }
    }

    /// The main worktree's directory, which holds the trusted copies of local files.
    pub fn primary_path(&self) -> (path: &String)
        ensures
            path@ == self.primary_view(),
    {
        if self.worktrees.len() > 0 {
            &self.worktrees[0].path
        } else {
            &self.top_level
        }
    }

    /// The first registered worktree whose canonical path is `path`. `canonical[i]` is the
    /// canonical form of worktree `i`'s path, and `path` is canonical too.
    pub fn worktree_at(&self, canonical: &Vec<String>, path: &str) -> (r: Option<&GitWorktree>)
        requires
            canonical@.len() == self.worktrees@.len(),
        ensures
            r is None <==> forall|j: int|
                0 <= j < canonical@.len() ==> (#[trigger] canonical@[j])@ != path@,
            r matches Some(w) ==> exists|k: int|
                0 <= k < canonical@.len() && canonical@[k]@ == path@ && *w == self.worktrees@[k]
                    && forall|j: int| 0 <= j < k ==> (#[trigger] canonical@[j])@ != path@,
    {
        let mut i: usize = 0;
        while i < self.worktrees.len()
            invariant
                i <= self.worktrees@.len(),
                canonical@.len() == self.worktrees@.len(),
                forall|j: int| 0 <= j < i ==> (#[trigger] canonical@[j])@ != path@,
            decreases self.worktrees.len() - i,
        {
            if crate::text::str_equal(canonical[i].as_str(), path) {
                return Some(&self.worktrees[i]);
            }
            i = i + 1;
        }
        None
    }
}


/// Where a repository lives, as Git reports it from inside one of its worktrees.
#[derive(Debug, Clone)]
pub struct RepositoryLocations {
    pub top_level: String,
    pub git_dir: String,
    pub common_dir: String,
}

/// Asks Git, from `cwd`, for the worktree's top level, its Git directory, the common directory
/// and whether `cwd` is inside a working tree; status 128 means it is not in a repository.
pub fn repository_query(cwd: &str) -> (inv: Invocation)
    ensures
        inv.executable@ == "git"@,
        views(inv.args@) == git_prefix() + seq![
            "rev-parse"@,
            "--path-format=absolute"@,
            "--show-toplevel"@,
            "--git-dir"@,
            "--git-common-dir"@,
            "--is-inside-work-tree"@,
        ],
        inv.options.cwd matches Some(c) && c@ == cwd@,
        inv.options.accepted_statuses@ == seq![0i32, 128i32],
{
    let args = ["rev-parse", "--path-format=absolute", "--show-toplevel", "--git-dir", "--git-common-dir", "--is-inside-work-tree"];
    let accepted = vec![0i32, 128i32];
    assert(accepted@ =~= seq![0i32, 128i32]);
    assert(str_views(args@) =~= seq![
        "rev-parse"@,
        "--path-format=absolute"@,
        "--show-toplevel"@,
        "--git-dir"@,
        "--git-common-dir"@,
        "--is-inside-work-tree"@,
    ]);
    run_git_with(cwd, &args, RunOptions { cwd: None, stdin: None, timeout_ms: None, accepted_statuses: accepted })
}

/// `s` without one trailing carriage return.
pub open spec fn strip_cr(s: Seq<char>) -> Seq<char> {
    if s.len() > 0 && s.last() == '\r' {
        s.drop_last()
    } else {
        s
    }
}

/// The lines of a text with no trailing newline, as `str::lines` gives them.
pub open spec fn text_lines(t: Seq<char>) -> Seq<Seq<char>> {
    if t.len() == 0 {
        Seq::empty()
    } else {
        split_bytes(t, '\n').map_values(|l: Seq<char>| strip_cr(l))
    }
}

/// What `repository_query` answered: refused outside a repository, and in a bare one.
pub open spec fn locations_spec(status: i32, stdout: Seq<u8>) -> Option<(Seq<char>, Seq<char>, Seq<char>)> {
    let lines = text_lines(trim_whitespace(utf8_lossy(stdout)));
    if status != 0 || lines.len() < 4 || lines[3] != "true"@ {
        None
    } else {
        Some((lines[0], lines[1], lines[2]))
    }
}

pub fn repository_locations(result: &ProcessResult) -> (r: Result<RepositoryLocations, AcreError>)
    ensures
        match (r, locations_spec(result.status, result.stdout@)) {
            (Ok(l), Some((t, g, c))) => l.top_level@ == t && l.git_dir@ == g && l.common_dir@ == c,
            (Err(e), None) => e.code == "ACRE_NOT_IN_REPOSITORY" && e.exit_code == EXIT_ENVIRONMENT,
            _ => false,
        },
{
    if result.status != 0 {
        return Err(AcreError::new("ACRE_NOT_IN_REPOSITORY", "This directory is not inside a Git worktree.", EXIT_ENVIRONMENT));
    }
    let text = crate::text::lossy_string(result.stdout.as_slice());
    let trimmed = trim_whitespace_exec(&chars_of(text.as_str()));
    let mut lines: Vec<Vec<char>> = Vec::new();
    if trimmed.len() > 0 {
        let pieces = crate::bytes::split_chars_on(&trimmed, '\n');
        let mut i: usize = 0;
        while i < pieces.len()
            invariant
                i <= pieces@.len(),
                lines@.map_values(|l: Vec<char>| l@) == pieces@.map_values(|l: Vec<char>| l@).take(i as int).map_values(
                    |l: Seq<char>| strip_cr(l),
                ),
            decreases pieces.len() - i,
        {
            let p = &pieces[i];
            let line = if p.len() > 0 && p[p.len() - 1] == '\r' {
                crate::text::slice_chars(p, 0, p.len() - 1)
            } else {
                crate::text::slice_chars(p, 0, p.len())
            };
            assert(line@ =~= strip_cr(p@));
            let ghost before = lines@.map_values(|l: Vec<char>| l@);
            lines.push(line);
            assert(lines@.map_values(|l: Vec<char>| l@) =~= before.push(strip_cr(p@)));
            assert(pieces@.map_values(|l: Vec<char>| l@).take(i + 1).map_values(|l: Seq<char>| strip_cr(l)) =~= pieces@.map_values(
                |l: Vec<char>| l@,
            ).take(i as int).map_values(|l: Seq<char>| strip_cr(l)).push(strip_cr(p@)));
            i = i + 1;
        }
        assert(pieces@.map_values(|l: Vec<char>| l@).take(pieces@.len() as int) =~= pieces@.map_values(|l: Vec<char>| l@));
    }
    assert(lines@.map_values(|l: Vec<char>| l@) =~= text_lines(trim_whitespace(utf8_lossy(result.stdout@))));
    let yes = vec!['t', 'r', 'u', 'e'];
    assert(yes@ =~= "true"@) by {
        reveal_strlit("true");
    }
    if lines.len() < 4 || !crate::text::chars_equal(&lines[3], &yes) {
        return Err(AcreError::new("ACRE_NOT_IN_REPOSITORY", "Acre needs a non-bare Git working tree.", EXIT_ENVIRONMENT));
    }
    Ok(RepositoryLocations {
        top_level: crate::text::string_from_chars(&lines[0]),
        git_dir: crate::text::string_from_chars(&lines[1]),
        common_dir: crate::text::string_from_chars(&lines[2]),
    })
}

/// Asks Git for the repository's remote URLs and its configured default branch; status 1
/// means none is set.
pub fn repository_config_query(cwd: &str) -> (inv: Invocation)
    ensures
        inv.executable@ == "git"@,
        views(inv.args@) == git_prefix() + seq![
            "config"@,
            "--null"@,
            "--get-regexp"@,
            "^(remote\\..*\\.url|init\\.defaultBranch)$"@,
        ],
        inv.options.cwd matches Some(c) && c@ == cwd@,
        inv.options.accepted_statuses@ == seq![0i32, 1i32],
{
    let args = ["config", "--null", "--get-regexp", "^(remote\\..*\\.url|init\\.defaultBranch)$"];
    let accepted = vec![0i32, 1i32];
    assert(accepted@ =~= seq![0i32, 1i32]);
    assert(str_views(args@) =~= seq!["config"@, "--null"@, "--get-regexp"@, "^(remote\\..*\\.url|init\\.defaultBranch)$"@]);
    run_git_with(cwd, &args, RunOptions { cwd: None, stdin: None, timeout_ms: None, accepted_statuses: accepted })
}

/// One configuration record: a key and its value.
pub struct ConfigRecord {
    pub key: Seq<char>,
    pub value: Seq<char>,
}

/// The records of `git config --null` output: each NUL-ended record is a key, a newline and a
/// value; a record without a newline is skipped.
pub open spec fn config_records(stdout: Seq<u8>) -> Seq<ConfigRecord> {
    let fields = nonempty_fields(split_bytes(stdout, 0u8));
    records_of(fields, fields.len() as int)
}

pub open spec fn records_of(fields: Seq<Seq<u8>>, n: int) -> Seq<ConfigRecord>
    decreases n,
{
    if n <= 0 {
        Seq::empty()
    } else {
        let text = utf8_lossy(fields[n - 1]);
        let prev = records_of(fields, n - 1);
        match crate::text::find_seq(text, seq!['\n']) {
            Some(i) => prev.push(ConfigRecord { key: text.take(i), value: text.skip(i + 1) }),
            None => prev,
        }
    }
}

/// The remote a record's key names, for `remote.<name>.url`.
pub open spec fn remote_of_key(key: Seq<char>) -> Option<Seq<char>> {
    if starts_with(key, "remote."@) && ends_with(key.skip(7), ".url"@) {
        Some(key.skip(7).take(key.len() - 7 - 4))
    } else {
        None
    }
}

/// The records that name remotes, as (remote, URL).
pub open spec fn remote_records(records: Seq<ConfigRecord>) -> Seq<(Seq<char>, Seq<char>)>
    decreases records.len(),
{
    if records.len() == 0 {
        Seq::empty()
    } else {
        let prev = remote_records(records.drop_last());
        match remote_of_key(records.last().key) {
            Some(name) => prev.push((name, records.last().value)),
            None => prev,
        }
    }
}

/// The remote that sorts first.
pub open spec fn first_remote(remotes: Seq<(Seq<char>, Seq<char>)>) -> Option<Seq<char>>
    decreases remotes.len(),
{
    if remotes.len() == 0 {
        None
    } else {
        match first_remote(remotes.drop_last()) {
            Some(m) => if seq_less(remotes.last().0, m) {
                Some(remotes.last().0)
            } else {
                Some(m)
            },
            None => Some(remotes.last().0),
        }
    }
}

/// The remote Acre works with: `origin` when there is one, else the one that sorts first.
pub open spec fn chosen_remote(remotes: Seq<(Seq<char>, Seq<char>)>) -> Option<Seq<char>> {
    if exists|i: int| 0 <= i < remotes.len() && (#[trigger] remotes[i]).0 == "origin"@ {
        Some("origin"@)
    } else {
        first_remote(remotes)
    }
}

/// The URL of `name`: its last record wins.
pub open spec fn url_of(remotes: Seq<(Seq<char>, Seq<char>)>, name: Seq<char>) -> Option<Seq<char>>
    decreases remotes.len(),
{
    if remotes.len() == 0 {
        None
    } else if remotes.last().0 == name {
        Some(remotes.last().1)
    } else {
        url_of(remotes.drop_last(), name)
    }
}

/// The configured default branch for new repositories: the last `init.defaultBranch` record.
pub open spec fn configured_default(records: Seq<ConfigRecord>) -> Option<Seq<char>>
    decreases records.len(),
{
    if records.len() == 0 {
        None
    } else if records.last().key == "init.defaultBranch"@ {
        Some(records.last().value)
    } else {
        configured_default(records.drop_last())
    }
}

/// What the configuration says: the remote Acre works with and its URL, and the default
/// branch for new repositories.
#[derive(Debug, Clone)]
pub struct ConfigFacts {
    pub remote: Option<String>,
    pub remote_url: Option<String>,
    pub default_branch: Option<String>,
}

fn remote_key_exec(key: &Vec<char>) -> (r: Option<Vec<char>>)
    ensures
        match (r, remote_of_key(key@)) {
            (Some(a), Some(b)) => a@ == b,
            (None, None) => true,
            _ => false,
        },
{
    let prefix = chars_of("remote.");
    let suffix = chars_of(".url");
    proof {
        reveal_strlit("remote.");
        reveal_strlit(".url");
    }
    if !crate::text::chars_start_with(key, &prefix) {
        return None;
    }
    let rest = crate::text::slice_chars(key, 7, key.len());
    assert(rest@ =~= key@.skip(7));
    if !crate::text::chars_end_with(&rest, &suffix) {
        return None;
    }
    let name = crate::text::slice_chars(&rest, 0, rest.len() - 4);
    assert(name@ =~= key@.skip(7).take(key@.len() - 7 - 4));
    Some(name)
}

/// Reads `git config --null --get-regexp` output.
pub fn config_facts(stdout: &[u8]) -> (r: ConfigFacts)
    ensures
        ({
            let records = config_records(stdout@);
            let remotes = remote_records(records);
            &&& opt_view(r.remote) == chosen_remote(remotes)
            &&& opt_view(r.remote_url) == match chosen_remote(remotes) {
                Some(name) => url_of(remotes, name),
                None => None,
            }
            &&& opt_view(r.default_branch) == configured_default(records)
        }),
{
    let pieces = crate::bytes::split_on(stdout, 0u8);
    let fields = crate::bytes::nonempty_fields_of(pieces, Ghost(split_bytes(stdout@, 0u8)));
    let ghost fv = fields@.map_values(|f: Vec<u8>| f@);
    assert(fv =~= nonempty_fields(split_bytes(stdout@, 0u8)));
    let ghost records = records_of(fv, fv.len() as int);
    assert(records == config_records(stdout@));
    let mut names: Vec<String> = Vec::new();
    let mut urls: Vec<String> = Vec::new();
    let mut default_branch: Option<String> = None;
    let mut i: usize = 0;
    while i < fields.len()
        invariant
            i <= fields@.len(),
            fv == fields@.map_values(|f: Vec<u8>| f@),
            names@.len() == urls@.len(),
            views(names@).zip_with(views(urls@)) == remote_records(records_of(fv, i as int)),
            opt_view(default_branch) == configured_default(records_of(fv, i as int)),
        decreases fields.len() - i,
    {
        let text = chars_of(crate::text::lossy_string(fields[i].as_slice()).as_str());
        let newline = vec!['\n'];
        assert(newline@ =~= seq!['\n']);
        proof {
            crate::text::lemma_first_occurrence_from(text@, seq!['\n'], 0);
        }
        match crate::text::find_chars_from(&text, &newline, 0) {
            Some(k) => {
                assert(k < text@.len());
                assert(text@.len() == text.len());
                let key = crate::text::slice_chars(&text, 0, k);
                let value = crate::text::slice_chars(&text, k + 1, text.len());
                assert(value@ =~= text@.skip(k + 1));
                assert(key@ =~= text@.take(k as int));
                proof {
                    let prev = records_of(fv, i as int);
                    let rec = ConfigRecord { key: key@, value: value@ };
                    assert(text@ == utf8_lossy(fv[i as int]));
                    assert(records_of(fv, i + 1) == prev.push(rec));
                    assert(prev.push(rec).drop_last() =~= prev);
                }
                let init = chars_of("init.defaultBranch");
                match remote_key_exec(&key) {
                    Some(name) => {
                        let ghost before = views(names@).zip_with(views(urls@));
                        names.push(crate::text::string_from_chars(&name));
                        urls.push(crate::text::string_from_chars(&value));
                        assert(views(names@).zip_with(views(urls@)) =~= before.push((name@, value@)));
                    },
                    None => {},
                }
                if crate::text::chars_equal(&key, &init) {
                    default_branch = Some(crate::text::string_from_chars(&value));
                }
            },
            None => {
                proof {
                    assert(text@ == utf8_lossy(fv[i as int]));
                    assert(records_of(fv, i + 1) == records_of(fv, i as int));
                }
            },
        }
        i = i + 1;
    }
    let ghost remotes = remote_records(records);
    let mut has_origin = false;
    let mut first: Option<usize> = None;
    let mut j: usize = 0;
    while j < names.len()
        invariant
            j <= names@.len(),
            names@.len() == urls@.len(),
            remotes == views(names@).zip_with(views(urls@)),
            has_origin == exists|t: int| 0 <= t < j && (#[trigger] remotes[t]).0 == "origin"@,
            match first {
                Some(k) => k < j && first_remote(remotes.take(j as int)) == Some(names@[k as int]@),
                None => j == 0,
            },
        decreases names.len() - j,
    {
        assert(remotes.take(j + 1).drop_last() =~= remotes.take(j as int));
        assert(remotes[j as int].0 == names@[j as int]@);
        if crate::text::str_equal(names[j].as_str(), "origin") {
            has_origin = true;
        }
        match first {
            Some(k) => {
                if str_less(names[j].as_str(), names[k].as_str()) {
                    first = Some(j);
                }
            },
            None => {
                first = Some(j);
            },
        }
        j = j + 1;
    }
    assert(remotes.take(remotes.len() as int) =~= remotes);
    let remote: Option<String> = if has_origin {
        Some("origin".to_owned())
    } else {
        match first {
            Some(k) => Some(names[k].clone()),
            None => None,
        }
    };
    let remote_url: Option<String> = match &remote {
        Some(name) => {
            let mut found: Option<String> = None;
            let mut t: usize = 0;
            while t < names.len()
                invariant
                    t <= names@.len(),
                    names@.len() == urls@.len(),
                    remotes == views(names@).zip_with(views(urls@)),
                    opt_view(found) == url_of(remotes.take(t as int), name@),
                decreases names.len() - t,
            {
                assert(remotes.take(t + 1).drop_last() =~= remotes.take(t as int));
                if crate::text::str_equal(names[t].as_str(), name.as_str()) {
                    found = Some(urls[t].clone());
                }
                t = t + 1;
            }
            found
        },
        None => None,
    };
    ConfigFacts { remote, remote_url, default_branch }
}

/// The branch a remote's `HEAD` points at, from the text of `refs/remotes/<remote>/HEAD`.
pub open spec fn remote_head_spec(text: Seq<char>, remote: Seq<char>) -> Option<Seq<char>> {
    let t = trim_whitespace(text);
    let prefix = "ref: refs/remotes/"@ + remote + seq!['/'];
    if starts_with(t, prefix) {
        Some(t.skip(prefix.len() as int))
    } else {
        None
    }
}

pub fn remote_head_branch(text: &str, remote: &str) -> (r: Option<String>)
    ensures
        opt_view(r) == remote_head_spec(text@, remote@),
{
    let t = trim_whitespace_exec(&chars_of(text));
    let mut prefix = chars_of("ref: refs/remotes/");
    crate::text::push_str(&mut prefix, remote);
    prefix.push('/');
    assert(prefix@ =~= "ref: refs/remotes/"@ + remote@ + seq!['/']);
    if crate::text::chars_start_with(&t, &prefix) {
        let rest = crate::text::slice_chars(&t, prefix.len(), t.len());
        Some(crate::text::string_from_chars(&rest))
    } else {
        None
    }
}

/// The branch of the first main worktree.
pub open spec fn main_branch(worktrees: Seq<GitWorktree>, i: int) -> Option<Seq<char>>
    decreases worktrees.len() - i,
{
    if i < 0 || i >= worktrees.len() {
        None
    } else if worktrees[i].is_main {
        opt_view(worktrees[i].branch)
    } else {
        main_branch(worktrees, i + 1)
    }
}

fn main_branch_exec(worktrees: &Vec<GitWorktree>) -> (r: Option<String>)
    ensures
        opt_view(r) == main_branch(worktrees@, 0),
{
    let mut i: usize = 0;
    while i < worktrees.len()
        invariant
            i <= worktrees@.len(),
            main_branch(worktrees@, 0) == main_branch(worktrees@, i as int),
        decreases worktrees.len() - i,
    {
        if worktrees[i].is_main {
            return crate::text::clone_opt_text(&worktrees[i].branch);
        }
        i = i + 1;
    }
    None
}

/// The repository's display name: the hosted remote's repository name, else the main
/// checkout's directory name, else `repository`.
pub open spec fn repository_name_spec(remote_url: Option<Seq<char>>, worktrees: Seq<GitWorktree>) -> Seq<char> {
    match (match remote_url {
        Some(u) => hosted_remote_spec(u),
        None => None,
    }) {
        Some(p) => p.repo,
        None => match (if worktrees.len() > 0 { file_name(worktrees[0].path@) } else { None }) {
            Some(n) => n,
            None => "repository"@,
        },
    }
}

/// The repository Acre sees: its identity is the remote URL when there is one, else the common
/// directory, and its id sixteen hex digits of that identity's SHA-256. The default branch is
/// the remote's `HEAD`, else the configured default, else the main worktree's branch.
pub fn assemble_repository(
    locations: RepositoryLocations,
    worktrees: Vec<GitWorktree>,
    current: Option<GitWorktree>,
    facts: ConfigFacts,
    remote_head: Option<String>,
) -> (r: Repository)
    ensures
        r.top_level@ == locations.top_level@,
        r.git_dir@ == locations.git_dir@,
        r.common_dir@ == locations.common_dir@,
        opt_view(r.remote) == opt_view(facts.remote),
        opt_view(r.remote_url) == opt_view(facts.remote_url),
        r.worktrees@ == worktrees@,
        r.current_worktree == current,
        r.name@ == repository_name_spec(opt_view(facts.remote_url), worktrees@),
        r.id@ == short_hash_spec(vstd::utf8::encode_utf8(match facts.remote_url {
            Some(u) => u@,
            None => locations.common_dir@,
        }), 16),
        opt_view(r.default_branch) == match opt_view(remote_head) {
            Some(h) => Some(h),
            None => match opt_view(facts.default_branch) {
                Some(d) => Some(d),
                None => main_branch(worktrees@, 0),
            },
        },
{
    let hosted = match &facts.remote_url {
        Some(u) => parse_hosted_remote(u.as_str()),
        None => None,
    };
    let name: String = match hosted {
        Some(h) => h.repo,
        None => {
            let from_path = if worktrees.len() > 0 {
                crate::state::repository::file_name_exec(worktrees[0].path.as_str())
            } else {
                None
            };
            match from_path {
                Some(n) => n,
                None => "repository".to_owned(),
            }
        },
    };
    let id = match &facts.remote_url {
        Some(u) => short_hash(u.as_str().as_bytes(), 16),
        None => short_hash(locations.common_dir.as_str().as_bytes(), 16),
    };
    let default_branch: Option<String> = match remote_head {
        Some(h) => Some(h),
        None => match facts.default_branch {
            Some(d) => Some(d),
            None => main_branch_exec(&worktrees),
        },
    };
    Repository {
        id,
        name,
        top_level: locations.top_level,
        git_dir: locations.git_dir,
        common_dir: locations.common_dir,
        remote: facts.remote,
        remote_url: facts.remote_url,
        default_branch,
        current_worktree: current,
        worktrees,
    }
}


/// The directory holding `path`: everything before its last `/` (the root for a top-level
/// path), or `.` when there is no `/`.
pub open spec fn parent_dir(path: Seq<char>) -> Seq<char> {
    match last_slash(path, path.len() as int) {
        Some(k) => if k == 0 {
            seq!['/']
        } else {
            path.take(k)
        },
        None => seq!['.'],
    }
}

/// The position of the last `/` among the first `n` characters.
pub open spec fn last_slash(path: Seq<char>, n: int) -> Option<int>
    decreases n,
{
    if n <= 0 {
        None
    } else if path[n - 1] == '/' {
        Some(n - 1)
    } else {
        last_slash(path, n - 1)
    }
}

/// Lists the worktrees of the repository whose common directory is `common_dir`, from the
/// directory that holds it; status 128 means the repository is gone.
pub fn discover_repository_from_common_dir(common_dir: &str) -> (inv: Invocation)
    ensures
        inv.executable@ == "git"@,
        views(inv.args@) == seq!["--git-dir="@ + common_dir@, "worktree"@, "list"@, "--porcelain"@, "-z"@],
        inv.options.cwd matches Some(c) && c@ == parent_dir(common_dir@),
        inv.options.stdin is None,
        inv.options.timeout_ms is None,
        inv.options.accepted_statuses@ == seq![0i32, 128i32],
{
    let chars = chars_of(common_dir);
    let mut k: usize = chars.len();
    while k > 0 && chars[k - 1] != '/'
        invariant
            k <= chars@.len(),
            chars@ == common_dir@,
            last_slash(common_dir@, common_dir@.len() as int) == last_slash(common_dir@, k as int),
        decreases k,
    {
        k = k - 1;
    }
    let parent: Vec<char> = if k == 0 {
        vec!['.']
    } else if k == 1 {
        vec!['/']
    } else {
        crate::text::slice_chars(&chars, 0, k - 1)
    };
    proof {
        if k == 0 {
            assert(parent@ =~= seq!['.']);
        } else if k == 1 {
            assert(last_slash(common_dir@, common_dir@.len() as int) == Some(0int));
            assert(parent@ =~= seq!['/']);
        } else {
            assert(last_slash(common_dir@, common_dir@.len() as int) == Some(k - 1));
        }
    }
    let mut flag = chars_of("--git-dir=");
    crate::text::push_str(&mut flag, common_dir);
    let args = vec![
        crate::text::string_from_chars(&flag),
        "worktree".to_owned(),
        "list".to_owned(),
        "--porcelain".to_owned(),
        "-z".to_owned(),
    ];
    assert(views(args@) =~= seq!["--git-dir="@ + common_dir@, "worktree"@, "list"@, "--porcelain"@, "-z"@]);
    let accepted = vec![0i32, 128i32];
    assert(accepted@ =~= seq![0i32, 128i32]);
    Invocation {
        executable: "git".to_owned(),
        args,
        options: RunOptions {
            cwd: Some(crate::text::string_from_chars(&parent)),
            stdin: None,
            timeout_ms: None,
            accepted_statuses: accepted,
        },
    }
}

/// The first worktree of the repository listed by `discover_repository_from_common_dir`, from
/// which the repository is discovered again.
pub fn first_worktree_path(result: &ProcessResult) -> (r: Result<String, AcreError>)
    ensures
        result.status != 0 ==> (r matches Err(e) && e.code == "ACRE_REPOSITORY_UNAVAILABLE" && e.exit_code == EXIT_ENVIRONMENT),
        result.status == 0 ==> match r {
            Ok(p) => crate::git::worktrees::parse_worktrees_spec(result.stdout@).len() > 0
                && p@ == crate::git::worktrees::parse_worktrees_spec(result.stdout@)[0].path,
            Err(e) => e.code == "ACRE_REPOSITORY_UNAVAILABLE" && e.exit_code == EXIT_ENVIRONMENT
                && crate::git::worktrees::parse_worktrees_spec(result.stdout@).len() == 0,
        },
{
    if result.status != 0 {
        return Err(AcreError::new("ACRE_REPOSITORY_UNAVAILABLE", "The repository is no longer available.", EXIT_ENVIRONMENT));
    }
    let mut worktrees = crate::git::worktrees::parse_worktree_porcelain(result.stdout.as_slice());
    let ghost old_rows = worktrees@;
    if worktrees.len() == 0 {
        return Err(AcreError::new("ACRE_REPOSITORY_UNAVAILABLE", "The repository has no usable worktree.", EXIT_ENVIRONMENT));
    }
    let first = worktrees.remove(0);
    assert(crate::git::worktrees::rows_view(old_rows)[0] == first.fields());
    Ok(first.path)
}

} // verus!
