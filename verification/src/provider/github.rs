//! Pull request selectors, and the GitHub repository a checkout belongs to.

use vstd::prelude::*;

use crate::bytes::{join_bytes, join_char_fields, split_bytes, split_chars_on};
use crate::error::{AcreError, EXIT_ENVIRONMENT, EXIT_NETWORK, EXIT_USAGE};
use crate::git::operations::{fetch_ref, refspec, FETCH_TIMEOUT_MS};
use crate::git::runner::{git_prefix, Invocation, ProcessResult, RunOptions};
use crate::provider::remote::trim_whitespace;
use crate::model::{PullRequestTarget, TargetKind, TrustLevel};
use crate::number::{decimal, decimal_spec};
use crate::order::views;
use crate::target::{target_fields, ResolvedTarget, TargetFields};
use crate::git::refs::opt_view;
use crate::git::repository::Repository;
use crate::number::{parse_u64, parse_u64_spec};
use crate::provider::remote::{hosted_remote_spec, parse_hosted_remote, HostedRemote, RemoteParts};
use crate::text::{
    ascii_lower_seq, chars_equal, chars_of, chars_start_with, find_chars_from, find_seq,
    lower_chars, slice_chars, starts_with, string_from_chars, utf8_lossy,
};

verus! {

pub open spec fn pr_prefix() -> Seq<char> {
    seq!['p', 'r', ':']
}

pub open spec fn https_prefix() -> Seq<char> {
    seq!['h', 't', 't', 'p', 's', ':', '/', '/']
}

pub open spec fn http_prefix() -> Seq<char> {
    seq!['h', 't', 't', 'p', ':', '/', '/']
}

pub open spec fn pull_word() -> Seq<char> {
    seq!['p', 'u', 'l', 'l']
}

/// `s` up to its first `?` or `#`.
pub open spec fn before_query(s: Seq<char>) -> Seq<char>
    decreases s.len(),
{
    if s.len() == 0 {
        s
    } else if s[0] == '?' || s[0] == '#' {
        Seq::empty()
    } else {
        seq![s[0]] + before_query(s.drop_first())
    }
}

/// The text after `http://` or `https://`, if the selector is a web URL.
pub open spec fn after_web_scheme(s: Seq<char>) -> Option<Seq<char>> {
    if starts_with(s, https_prefix()) {
        Some(s.skip(8))
    } else if starts_with(s, http_prefix()) {
        Some(s.skip(7))
    } else {
        None
    }
}

/// The number a pull request selector names: `pr:<n>` in any case, or a
/// `http(s)://host/owner/repo/pull/<n>` URL (a query or fragment after the number is ignored).
pub open spec fn pull_request_number(selector: Seq<char>) -> Option<u64> {
    let lower = ascii_lower_seq(selector);
    if starts_with(lower, pr_prefix()) {
        parse_u64_spec(lower.skip(3))
    } else {
        match after_web_scheme(selector) {
            None => None,
            Some(rest) => match find_seq(rest, seq!['/']) {
                None => None,
                Some(i) => {
                    let parts = split_bytes(rest.skip(i + 1), '/');
                    if parts.len() >= 4 && parts[2] == pull_word() {
                        parse_u64_spec(before_query(parts[3]))
                    } else {
                        None
                    }
                },
            },
        }
    }
}

fn before_query_exec(s: &Vec<char>) -> (r: Vec<char>)
    ensures
        r@ == before_query(s@),
{
    let mut i: usize = 0;
    assert(s@.take(0) + before_query(s@.skip(0)) =~= before_query(s@)) by {
        assert(s@.skip(0) =~= s@);
    }
    while i < s.len() && s[i] != '?' && s[i] != '#'
        invariant
            i <= s.len(),
            forall|j: int| 0 <= j < i ==> (#[trigger] s@[j]) != '?' && s@[j] != '#',
            before_query(s@) == s@.take(i as int) + before_query(s@.skip(i as int)),
        decreases s.len() - i,
    {
        proof {
            let rest = s@.skip(i as int);
            assert(rest.drop_first() =~= s@.skip(i + 1));
            assert(s@.take(i + 1) =~= s@.take(i as int) + seq![rest[0]]);
        }
        i = i + 1;
    }
    proof {
        if i < s.len() {
            assert(before_query(s@.skip(i as int)) =~= Seq::<char>::empty());
        } else {
            assert(s@.skip(i as int) =~= Seq::<char>::empty());
        }
        assert(s@.take(i as int) + before_query(s@.skip(i as int)) =~= s@.take(i as int));
    }
    slice_chars(s, 0, i)
}

/// The pull request number in `selector`, if it names one.
pub fn parse_pull_request_selector(selector: &str) -> (r: Option<u64>)
    ensures
        r == pull_request_number(selector@),
{
    let chars = chars_of(selector);
    let lower = lower_chars(&chars);
    let pr = vec!['p', 'r', ':'];
    assert(pr@ =~= pr_prefix());
    if chars_start_with(&lower, &pr) {
        let value = slice_chars(&lower, 3, lower.len());
        assert(value@ =~= lower@.skip(3));
        return parse_u64(&value);
    }
    let https = vec!['h', 't', 't', 'p', 's', ':', '/', '/'];
    let http = vec!['h', 't', 't', 'p', ':', '/', '/'];
    assert(https@ =~= https_prefix());
    assert(http@ =~= http_prefix());
    let rest = if chars_start_with(&chars, &https) {
        slice_chars(&chars, 8, chars.len())
    } else if chars_start_with(&chars, &http) {
        slice_chars(&chars, 7, chars.len())
    } else {
        return None;
    };
    assert(after_web_scheme(selector@) == Some(rest@));
    let slash = vec!['/'];
    assert(slash@ =~= seq!['/']);
    let i = match find_chars_from(&rest, &slash, 0) {
        None => {
            return None;
        },
        Some(i) => i,
    };
    proof {
        crate::text::lemma_first_occurrence_from(rest@, seq!['/'], 0);
        assert(rest@.subrange(i as int, i + 1) == seq!['/']);
    }
    assert(i < rest.len());
    let path = slice_chars(&rest, i + 1, rest.len());
    assert(path@ =~= rest@.skip(i + 1));
    let parts = split_chars_on(&path, '/');
    if parts.len() < 4 {
        return None;
    }
    let pull = vec!['p', 'u', 'l', 'l'];
    assert(pull@ =~= pull_word());
    if !chars_equal(&parts[2], &pull) {
        return None;
    }
    let number = before_query_exec(&parts[3]);
    parse_u64(&number)
}

/// The `gh --repo` value for a hosted remote: `owner/repo` on github.com (in any case),
/// `host/owner/repo` elsewhere.
pub open spec fn repository_slug_for(r: RemoteParts) -> Seq<char> {
    if ascii_lower_seq(r.host) == ascii_lower_seq(seq!['g', 'i', 't', 'h', 'u', 'b', '.', 'c', 'o', 'm']) {
        r.owner + seq!['/'] + r.repo
    } else {
        r.host + seq!['/'] + r.owner + seq!['/'] + r.repo
    }
}

/// The hosted remote a repository's remote URL names, if any.
pub open spec fn repository_remote(remote_url: Option<Seq<char>>) -> Option<RemoteParts> {
    match remote_url {
        Some(url) => hosted_remote_spec(url),
        None => None,
    }
}

fn ascii_equal_ignoring_case(a: &Vec<char>, b: &Vec<char>) -> (r: bool)
    ensures
        r == (ascii_lower_seq(a@) == ascii_lower_seq(b@)),
{
    let x = lower_chars(a);
    let y = lower_chars(b);
    chars_equal(&x, &y)
}

fn remote_of(repository: &Repository) -> (r: Option<HostedRemote>)
    ensures
        match (r, repository_remote(opt_view(repository.remote_url))) {
            (None, None) => true,
            (Some(h), Some(p)) => h.parts() == p,
            _ => false,
        },
{
    match &repository.remote_url {
        Some(url) => parse_hosted_remote(url.as_str()),
        None => None,
    }
}

/// The repository `gh` is asked about: `owner/repo` for github.com, `host/owner/repo` for
/// another host. A repository without a hosted remote cannot have pull requests.
pub fn pull_request_repository(repository: &Repository) -> (r: Result<String, AcreError>)
    ensures
        match repository_remote(opt_view(repository.remote_url)) {
            Some(p) => r matches Ok(slug) && slug@ == repository_slug_for(p),
            None => r matches Err(e) && e.code == "ACRE_PR_PROVIDER_UNSUPPORTED" && e.exit_code
                == EXIT_ENVIRONMENT,
        },
{
    match remote_of(repository) {
        None => Err(
            AcreError::new(
                "ACRE_PR_PROVIDER_UNSUPPORTED",
                "Pull request targets require a hosted GitHub remote.",
                EXIT_ENVIRONMENT,
            ),
        ),
        Some(hosted) => {
            let host = chars_of(hosted.host.as_str());
            let github = vec!['g', 'i', 't', 'h', 'u', 'b', '.', 'c', 'o', 'm'];
            let mut out: Vec<char> = Vec::new();
            if !ascii_equal_ignoring_case(&host, &github) {
                out = host;
                out.push('/');
            }
            crate::text::push_str(&mut out, hosted.owner.as_str());
            out.push('/');
            crate::text::push_str(&mut out, hosted.repo.as_str());
            proof {
                let p = hosted.parts();
                assert(github@ =~= seq!['g', 'i', 't', 'h', 'u', 'b', '.', 'c', 'o', 'm']);
                assert(out@ =~= repository_slug_for(p));
            }
            Ok(string_from_chars(&out))
        },
    }
}

/// Two hosted remotes name the same repository: host, owner and name equal up to ASCII case.
pub open spec fn same_repository(a: RemoteParts, b: RemoteParts) -> bool {
    &&& ascii_lower_seq(a.host) == ascii_lower_seq(b.host)
    &&& ascii_lower_seq(a.owner) == ascii_lower_seq(b.owner)
    &&& ascii_lower_seq(a.repo) == ascii_lower_seq(b.repo)
}

/// The first five `/`-separated pieces of a URL, joined again: `scheme://host/owner/repo`,
/// which is where a pull request URL names its repository.
pub open spec fn url_repository_prefix(selector: Seq<char>) -> Seq<char> {
    let pieces = split_bytes(selector, '/');
    join_bytes(pieces.take(if pieces.len() < 5 { pieces.len() as int } else { 5 }), '/')
}

/// A pull request URL is refused when it does not belong to this repository's remote.
pub open spec fn pull_request_url_mismatch(remote_url: Option<Seq<char>>, selector: Seq<char>) -> bool {
    &&& (starts_with(selector, http_prefix()) || starts_with(selector, https_prefix()))
    &&& !(match (hosted_remote_spec(url_repository_prefix(selector)), repository_remote(remote_url)) {
        (Some(requested), Some(current)) => same_repository(requested, current),
        _ => false,
    })
}

/// A pull request URL must point at this repository; other selectors pass.
pub fn validate_pull_request_url(repository: &Repository, selector: &str) -> (r: Result<(), AcreError>)
    ensures
        r is Ok <==> !pull_request_url_mismatch(opt_view(repository.remote_url), selector@),
        r matches Err(e) ==> e.code == "ACRE_PR_REPOSITORY_MISMATCH" && e.exit_code == EXIT_USAGE,
{
    let chars = chars_of(selector);
    let https = vec!['h', 't', 't', 'p', 's', ':', '/', '/'];
    let http = vec!['h', 't', 't', 'p', ':', '/', '/'];
    assert(https@ =~= https_prefix());
    assert(http@ =~= http_prefix());
    if !chars_start_with(&chars, &http) && !chars_start_with(&chars, &https) {
        return Ok(());
    }
    let pieces = split_chars_on(&chars, '/');
    let count: usize = if pieces.len() < 5 {
        pieces.len()
    } else {
        5
    };
    let prefix = join_char_fields(&pieces, 0, count, '/');
    proof {
        assert(pieces@.map_values(|f: Vec<char>| f@) =~= split_bytes(selector@, '/'));
        assert(prefix@ == url_repository_prefix(selector@));
    }
    let prefix_text = string_from_chars(&prefix);
    let requested = parse_hosted_remote(prefix_text.as_str());
    let current = remote_of(repository);
    let same = match (&requested, &current) {
        (Some(a), Some(b)) => {
            let ah = chars_of(a.host.as_str());
            let bh = chars_of(b.host.as_str());
            let ao = chars_of(a.owner.as_str());
            let bo = chars_of(b.owner.as_str());
            let ar = chars_of(a.repo.as_str());
            let br = chars_of(b.repo.as_str());
            ascii_equal_ignoring_case(&ah, &bh) && ascii_equal_ignoring_case(&ao, &bo)
                && ascii_equal_ignoring_case(&ar, &br)
        },
        _ => false,
    };
    if same {
        Ok(())
    } else {
        Err(
            AcreError::new(
                "ACRE_PR_REPOSITORY_MISMATCH",
                "This pull request URL belongs to a different repository or host.",
                EXIT_USAGE,
            ),
        )
    }
}


/// The pull request fields `gh pr view --json` is asked for.
pub open spec fn pull_request_json_fields() -> Seq<char> {
    "number,title,author,url,baseRefName,headRefName,headRefOid,isCrossRepository,headRepository"@
}

/// `gh` may take a minute to answer.
pub const GH_TIMEOUT_MS: u64 = 60000;

/// Asks `gh` about the pull request `selector` in this repository's hosted remote, from inside
/// the checkout so that `gh` reads the repository's own host configuration.
pub fn pull_request_view(repository: &Repository, selector: &str) -> (r: Result<Invocation, AcreError>)
    ensures
        match repository_remote(opt_view(repository.remote_url)) {
            Some(p) => r matches Ok(inv) && inv.executable@ == "gh"@ && views(inv.args@) == seq![
                "pr"@,
                "view"@,
                selector@,
                "--repo"@,
                repository_slug_for(p),
                "--json"@,
                pull_request_json_fields(),
            ] && (inv.options.cwd matches Some(c) && c@ == repository.top_level@) && inv.options.stdin is None
                && inv.options.timeout_ms == Some(GH_TIMEOUT_MS) && inv.options.accepted_statuses@ == seq![0i32],
            None => r matches Err(e) && e.code == "ACRE_PR_PROVIDER_UNSUPPORTED" && e.exit_code == EXIT_ENVIRONMENT,
        },
{
    let slug = pull_request_repository(repository)?;
    let fields = "number,title,author,url,baseRefName,headRefName,headRefOid,isCrossRepository,headRepository";
    let args = vec![
        "pr".to_owned(),
        "view".to_owned(),
        selector.to_owned(),
        "--repo".to_owned(),
        slug,
        "--json".to_owned(),
        fields.to_owned(),
    ];
    proof {
        reveal_strlit("number,title,author,url,baseRefName,headRefName,headRefOid,isCrossRepository,headRepository");
        assert(views(args@) =~= seq!["pr"@, "view"@, selector@, "--repo"@, args@[4]@, "--json"@, pull_request_json_fields()]);
    }
    let accepted = vec![0i32];
    assert(accepted@ =~= seq![0i32]);
    Ok(Invocation {
        executable: "gh".to_owned(),
        args,
        options: RunOptions {
            cwd: Some(repository.top_level.clone()),
            stdin: None,
            timeout_ms: Some(GH_TIMEOUT_MS),
            accepted_statuses: accepted,
        },
    })
}

/// What `gh` reported of a pull request. An absent author leaves both of its names out.
#[derive(Debug, Clone)]
pub struct PullRequestResponse {
    pub number: u64,
    pub title: String,
    pub author_login: Option<String>,
    pub author_name: Option<String>,
    pub url: String,
    pub base_ref_name: String,
    pub head_ref_name: String,
    pub head_ref_oid: String,
    pub is_cross_repository: Option<bool>,
}

/// The name a pull request's author goes by: the login, else the name, else `unknown`.
pub open spec fn author_spec(login: Option<Seq<char>>, name: Option<Seq<char>>) -> Seq<char> {
    match login {
        Some(l) => l,
        None => match name {
            Some(n) => n,
            None => "unknown"@,
        },
    }
}

/// The pull request `gh` described, in `repository_slug`. Without word on whether the head
/// lives in another repository it is taken to: missing trust metadata must withhold secrets
/// and keep caches out of the pool.
pub fn resolve_pull_request(response: PullRequestResponse, repository_slug: String) -> (pr: PullRequestTarget)
    ensures
        pr.number == response.number,
        pr.title == response.title,
        pr.author@ == author_spec(opt_view(response.author_login), opt_view(response.author_name)),
        pr.url == response.url,
        pr.base_ref_name == response.base_ref_name,
        pr.head_ref_name == response.head_ref_name,
        pr.head_oid == response.head_ref_oid,
        pr.repository == repository_slug,
        pr.cross_repository == match response.is_cross_repository {
            Some(b) => b,
            None => true,
        },
{
    let author = match response.author_login {
        Some(login) => login,
        None => match response.author_name {
            Some(name) => name,
            None => {
                proof {
                    reveal_strlit("unknown");
                }
                "unknown".to_owned()
            },
        },
    };
    PullRequestTarget {
        number: response.number,
        title: response.title,
        author,
        url: response.url,
        base_ref_name: response.base_ref_name,
        head_ref_name: response.head_ref_name,
        head_oid: response.head_ref_oid,
        repository: repository_slug,
        cross_repository: match response.is_cross_repository {
            Some(b) => b,
            None => true,
        },
    }
}

/// Where the head of a pull request comes from: already present, or fetched into Acre's own
/// ref namespace so nothing collides with the user's remote-tracking refs.
#[derive(Debug)]
pub enum PullRequestObject {
    Present(String),
    Fetch { invocation: Invocation, destination: String },
}

/// `refs/acre/pull/<number>`, where a fetched pull request head is kept.
pub open spec fn pull_request_destination(number: u64) -> Seq<char> {
    "refs/acre/pull/"@ + decimal_spec(number as nat)
}

/// How to get the head object of `pr`: nothing to do when the head is already known
/// (`head_present`), else a fetch of `refs/pull/<number>/head` from the repository's remote,
/// which a repository without a remote cannot do.
pub fn ensure_pull_request_object(repository: &Repository, pr: &PullRequestTarget, head_present: bool) -> (r: Result<PullRequestObject, AcreError>)
    ensures
        head_present ==> (r matches Ok(PullRequestObject::Present(oid)) && oid == pr.head_oid),
        !head_present && repository.remote is None ==> (r matches Err(e) && e.code == "ACRE_PR_FETCH_UNAVAILABLE"
            && e.exit_code == EXIT_NETWORK),
        !head_present && repository.remote is Some ==> (r matches Ok(PullRequestObject::Fetch { invocation, destination })
            && destination@ == pull_request_destination(pr.number)
            && invocation.executable@ == "git"@
            && views(invocation.args@) == git_prefix() + seq![
                "fetch"@,
                "--no-tags"@,
                repository.remote.unwrap()@,
                refspec("refs/pull/"@ + decimal_spec(pr.number as nat) + "/head"@, Some(pull_request_destination(pr.number))),
            ]
            && (invocation.options.cwd matches Some(c) && c@ == repository.top_level@)
            && invocation.options.timeout_ms == Some(FETCH_TIMEOUT_MS)),
{
    if head_present {
        return Ok(PullRequestObject::Present(pr.head_oid.clone()));
    }
    let remote = match &repository.remote {
        Some(remote) => remote,
        None => {
            return Err(AcreError::new(
                "ACRE_PR_FETCH_UNAVAILABLE",
                "Acre could not fetch this pull request because the repository has no remote.",
                EXIT_NETWORK,
            ));
        },
    };
    let number = decimal(pr.number);
    let mut destination = chars_of("refs/acre/pull/");
    crate::text::push_chars(&mut destination, &number);
    let mut source = chars_of("refs/pull/");
    crate::text::push_chars(&mut source, &number);
    crate::text::push_str(&mut source, "/head");
    let destination = string_from_chars(&destination);
    let source = string_from_chars(&source);
    let invocation = fetch_ref(repository, remote.as_str(), source.as_str(), Some(destination.as_str()));
    Ok(PullRequestObject::Fetch { invocation, destination })
}

/// The commit a fetched pull request head stands at: what `resolve_oid` on the destination ref
/// answered (`resolved`), or the head the provider reported when that ref does not resolve.
pub fn fetched_head(pr: &PullRequestTarget, resolved: &ProcessResult) -> (oid: String)
    ensures
        resolved.status == 0 ==> oid@ == trim_whitespace(utf8_lossy(resolved.stdout@)),
        resolved.status != 0 ==> oid@ == pr.head_oid@,
{
    match crate::git::commands::resolved_oid(resolved) {
        Some(oid) => oid,
        None => pr.head_oid.clone(),
    }
}

/// The pull request target for `pr` with head `oid`: named `PR #<number> · <title>`, and
/// untrusted when its head lives in another repository.
pub open spec fn pull_request_fields(pr: PullRequestTarget, oid: Seq<char>) -> TargetFields {
    TargetFields {
        kind: TargetKind::PullRequest,
        display_name: "PR #"@ + decimal_spec(pr.number as nat) + " · "@ + pr.title@,
        oid,
        trust: if pr.cross_repository { TrustLevel::Untrusted } else { TrustLevel::Trusted },
        existing_worktree: None,
        local_branch: None,
        remote_branch: None,
        remote: None,
        base_ref: None,
        pull_request: Some(PullRequestTarget { head_oid: pr.head_oid, ..pr }),
    }
}

/// Resolves to the pull request `pr` whose head turned out to be `oid`.
pub fn pull_request_resolution(pr: PullRequestTarget, oid: String) -> (t: ResolvedTarget)
    ensures
        target_fields(t) == (TargetFields {
            pull_request: Some(PullRequestTarget { head_oid: oid, ..pr }),
            ..pull_request_fields(pr, oid@)
        }),
{
    let mut name = chars_of("PR #");
    let number = decimal(pr.number);
    crate::text::push_chars(&mut name, &number);
    crate::text::push_str(&mut name, " · ");
    crate::text::push_str(&mut name, pr.title.as_str());
    let display_name = string_from_chars(&name);
    let trust = if pr.cross_repository { TrustLevel::Untrusted } else { TrustLevel::Trusted };
    let head = oid.clone();
    let mut pull_request = pr;
    pull_request.head_oid = head;
    ResolvedTarget {
        kind: TargetKind::PullRequest,
        display_name,
        oid,
        trust,
        existing_worktree: None,
        local_branch: None,
        remote_branch: None,
        remote: None,
        base_ref: None,
        pull_request: Some(pull_request),
    }
}

} // verus!
