//! Targets: what a selector names, the resolved form the broker binds, and suggestions for a
//! selector that names nothing.

use vstd::prelude::*;

use crate::error::{detail_text, detail_texts, AcreError, DetailValue, EXIT_CONFLICT, EXIT_NOT_FOUND, EXIT_USAGE};
use crate::order::strictly_sorted;
use crate::git::operations::{fetch_ref, refspec, FETCH_TIMEOUT_MS};
use crate::git::runner::{git_prefix, Invocation};
use crate::git::refs::{opt_view, GitRef, GitRefKind};
use crate::git::repository::Repository;
use crate::git::worktrees::{GitWorktree, WorktreeFields};
use crate::model::{PullRequestTarget, RepositoryState, StoredTarget, TargetKind, TrustLevel, WorkspaceStatus};
use crate::order::{seq_less, views};
use crate::provider::github::{parse_pull_request_selector, pull_request_number};
use crate::text::{ascii_lower_seq, chars_contain, chars_of, chars_start_with, clone_opt_text, contains_seq, find_seq, lower_chars, slice_chars, starts_with, string_from_chars};
use crate::util::{is_subsequence_spec, subsequence_chars};

verus! {

/// A target resolved against the repository: what to bind, and how far to trust it.
#[derive(Debug, Clone)]
pub struct ResolvedTarget {
    pub kind: TargetKind,
    pub display_name: String,
    pub oid: String,
    pub trust: TrustLevel,
    pub existing_worktree: Option<GitWorktree>,
    pub local_branch: Option<String>,
    pub remote_branch: Option<String>,
    pub remote: Option<String>,
    pub base_ref: Option<String>,
    pub pull_request: Option<PullRequestTarget>,
}

/// What a selector's prefix asks for.
#[derive(Debug, Clone, Copy, PartialEq, Eq, Structural)]
pub enum SelectorKind {
    Auto,
    Branch,
    Remote,
    Worktree,
}

#[derive(Debug)]
pub struct TypedSelector {
    pub kind: SelectorKind,
    pub value: String,
}

pub open spec fn prefix_for(kind: SelectorKind) -> Seq<char> {
    match kind {
        SelectorKind::Branch => "branch:"@,
        SelectorKind::Remote => "remote:"@,
        SelectorKind::Worktree => "worktree:"@,
        SelectorKind::Auto => Seq::empty(),
    }
}

pub open spec fn name_for(kind: SelectorKind) -> Seq<char> {
    match kind {
        SelectorKind::Branch => "branch"@,
        SelectorKind::Remote => "remote"@,
        SelectorKind::Worktree => "worktree"@,
        SelectorKind::Auto => Seq::empty(),
    }
}

/// The kind a selector's prefix names: `branch:`, `remote:` or `worktree:`, tried in that
/// order; anything else is automatic.
pub open spec fn selector_kind(selector: Seq<char>) -> SelectorKind {
    if starts_with(selector, "branch:"@) {
        SelectorKind::Branch
    } else if starts_with(selector, "remote:"@) {
        SelectorKind::Remote
    } else if starts_with(selector, "worktree:"@) {
        SelectorKind::Worktree
    } else {
        SelectorKind::Auto
    }
}

/// A selector's value: the text after its prefix.
pub open spec fn selector_value(selector: Seq<char>) -> Seq<char> {
    selector.skip(prefix_for(selector_kind(selector)).len() as int)
}

fn strip(selector: &Vec<char>, prefix: &str) -> (r: Option<Vec<char>>)
    ensures
        match r {
            Some(v) => starts_with(selector@, prefix@) && v@ == selector@.skip(prefix@.len() as int),
            None => !starts_with(selector@, prefix@),
        },
{
    let p = chars_of(prefix);
    if chars_start_with(selector, &p) {
        let v = slice_chars(selector, p.len(), selector.len());
        assert(v@ =~= selector@.skip(prefix@.len() as int));
        Some(v)
    } else {
        None
    }
}

fn requires_value(name: &str) -> (e: AcreError)
    ensures
        e.code == "ACRE_TARGET_INVALID",
        e.exit_code == EXIT_USAGE,
        e.message@ == name@ + " requires a value."@,
{
    let mut text = chars_of(name);
    crate::text::push_str(&mut text, " requires a value.");
    let message = string_from_chars(&text);
    AcreError::new("ACRE_TARGET_INVALID", message.as_str(), EXIT_USAGE)
}

/// Reads a selector's prefix. A prefix with nothing after it is refused.
pub fn parse_typed_selector(selector: &str) -> (r: Result<TypedSelector, AcreError>)
    ensures
        match r {
            Ok(t) => t.kind == selector_kind(selector@) && t.value@ == selector_value(selector@) && (t.kind
                != SelectorKind::Auto ==> t.value@.len() > 0),
            Err(e) => selector_kind(selector@) != SelectorKind::Auto && selector_value(selector@).len() == 0
                && e.code == "ACRE_TARGET_INVALID" && e.exit_code == EXIT_USAGE && e.message@ == name_for(
                selector_kind(selector@),
            ) + " requires a value."@,
        },
{
    let chars = chars_of(selector);
    let candidates = [("branch:", "branch", SelectorKind::Branch), ("remote:", "remote", SelectorKind::Remote), ("worktree:", "worktree", SelectorKind::Worktree)];
    let mut i: usize = 0;
    while i < 3
        invariant
            i <= 3,
            chars@ == selector@,
            candidates@ == seq![("branch:", "branch", SelectorKind::Branch), ("remote:", "remote", SelectorKind::Remote), ("worktree:", "worktree", SelectorKind::Worktree)],
            i >= 1 ==> !starts_with(selector@, "branch:"@),
            i >= 2 ==> !starts_with(selector@, "remote:"@),
            i >= 3 ==> !starts_with(selector@, "worktree:"@),
        decreases 3 - i,
    {
        let (prefix, name, kind) = candidates[i];
        match strip(&chars, prefix) {
            Some(value) => {
                if value.len() == 0 {
                    return Err(requires_value(name));
                }
                return Ok(TypedSelector { kind, value: string_from_chars(&value) });
            },
            None => {},
        }
        i = i + 1;
    }
    Ok(TypedSelector { kind: SelectorKind::Auto, value: selector.to_owned() })
}

fn clone_pull_request(pr: &PullRequestTarget) -> (r: PullRequestTarget)
    ensures
        r == *pr,
{
    PullRequestTarget {
        number: pr.number,
        title: pr.title.clone(),
        author: pr.author.clone(),
        url: pr.url.clone(),
        base_ref_name: pr.base_ref_name.clone(),
        head_ref_name: pr.head_ref_name.clone(),
        head_oid: pr.head_oid.clone(),
        repository: pr.repository.clone(),
        cross_repository: pr.cross_repository,
    }
}

pub(crate) fn clone_opt_pull_request(pr: &Option<PullRequestTarget>) -> (r: Option<PullRequestTarget>)
    ensures
        r == *pr,
{
    match pr {
        Some(p) => Some(clone_pull_request(p)),
        None => None,
    }
}

/// The remote of a remote branch name: the text before its first `/`.
pub open spec fn remote_of(remote_branch: Option<Seq<char>>) -> Option<Seq<char>> {
    match remote_branch {
        Some(b) => match find_seq(b, seq!['/']) {
            Some(i) => Some(b.take(i)),
            None => None,
        },
        None => None,
    }
}

/// A resolved target, as text.
pub struct TargetFields {
    pub kind: TargetKind,
    pub display_name: Seq<char>,
    pub oid: Seq<char>,
    pub trust: TrustLevel,
    pub existing_worktree: Option<WorktreeFields>,
    pub local_branch: Option<Seq<char>>,
    pub remote_branch: Option<Seq<char>>,
    pub remote: Option<Seq<char>>,
    pub base_ref: Option<Seq<char>>,
    pub pull_request: Option<PullRequestTarget>,
}

pub open spec fn target_fields(t: ResolvedTarget) -> TargetFields {
    TargetFields {
        kind: t.kind,
        display_name: t.display_name@,
        oid: t.oid@,
        trust: t.trust,
        existing_worktree: match t.existing_worktree {
            Some(w) => Some(w.fields()),
            None => None,
        },
        local_branch: opt_view(t.local_branch),
        remote_branch: opt_view(t.remote_branch),
        remote: opt_view(t.remote),
        base_ref: opt_view(t.base_ref),
        pull_request: t.pull_request,
    }
}

/// The resolved form of a stored target, trusted as `trust`.
pub open spec fn stored_fields(target: StoredTarget, trust: TrustLevel) -> TargetFields {
    TargetFields {
        kind: target.kind,
        display_name: target.display_name@,
        oid: target.oid@,
        trust,
        existing_worktree: None,
        local_branch: opt_view(target.local_branch),
        remote_branch: opt_view(target.remote_branch),
        remote: remote_of(opt_view(target.remote_branch)),
        base_ref: None,
        pull_request: target.pull_request,
    }
}

/// A stored target in resolved form; its remote is the part of the remote branch before `/`.
pub fn from_stored(target: &StoredTarget, trust: TrustLevel) -> (r: ResolvedTarget)
    ensures
        target_fields(r) == stored_fields(*target, trust),
{
    let remote = match &target.remote_branch {
        Some(b) => {
            let chars = chars_of(b.as_str());
            let slash = vec!['/'];
            assert(slash@ =~= seq!['/']);
            match crate::text::find_chars_from(&chars, &slash, 0) {
                Some(i) => {
                    proof {
                        crate::text::lemma_first_occurrence_from(chars@, seq!['/'], 0);
                    }
                    let head = slice_chars(&chars, 0, i);
                    assert(head@ =~= b@.take(i as int));
                    Some(string_from_chars(&head))
                },
                None => None,
            }
        },
        None => None,
    };
    ResolvedTarget {
        kind: target.kind,
        display_name: target.display_name.clone(),
        oid: target.oid.clone(),
        trust,
        existing_worktree: None,
        local_branch: clone_opt_text(&target.local_branch),
        remote_branch: clone_opt_text(&target.remote_branch),
        remote,
        base_ref: None,
        pull_request: clone_opt_pull_request(&target.pull_request),
    }
}

/// How well `candidate` matches `needle` (both lower-cased): containing it scores
/// `100 - length`, holding its characters in order `50 - length`, anything else 0. The length
/// is in bytes.
pub open spec fn similarity_spec(needle: Seq<char>, candidate: Seq<char>) -> int {
    let n = vstd::utf8::encode_utf8(candidate).len() as int;
    if contains_seq(candidate, needle) {
        100 - n
    } else if is_subsequence_spec(needle, candidate) {
        50 - n
    } else {
        0
    }
}

pub fn similarity(needle: &str, candidate: &str) -> (score: i32)
    requires
        vstd::utf8::encode_utf8(candidate@).len() <= i32::MAX,
    ensures
        score == similarity_spec(needle@, candidate@),
{
    let n = chars_of(needle);
    let c = chars_of(candidate);
    let length = candidate.as_bytes().len() as i32;
    if chars_contain(&c, &n) {
        100 - length
    } else if subsequence_chars(&n, &c) {
        50 - length
    } else {
        0
    }
}

/// `a` is suggested before `b`: a higher score, or the same score and earlier text.
pub open spec fn ranks_before(a: (int, Seq<char>), b: (int, Seq<char>)) -> bool {
    a.0 > b.0 || (a.0 == b.0 && seq_less(a.1, b.1))
}

pub open spec fn ranked(s: Seq<(int, Seq<char>)>) -> bool {
    forall|i: int, j: int| 0 <= i < j < s.len() ==> !ranks_before(#[trigger] s[j], #[trigger] s[i])
}

/// The candidates among the first `n` that match at all, with their scores.
pub open spec fn scored(needle: Seq<char>, candidates: Seq<String>, n: int) -> Seq<(int, Seq<char>)>
    decreases n,
{
    if n <= 0 || n > candidates.len() {
        Seq::empty()
    } else {
        let prev = scored(needle, candidates, n - 1);
        let score = similarity_spec(ascii_lower_seq(needle), ascii_lower_seq(candidates[n - 1]@));
        if score > 0 {
            prev.push((score, candidates[n - 1]@))
        } else {
            prev
        }
    }
}

fn insert_ranked(v: &mut Vec<(i32, String)>, x: (i32, String))
    requires
        ranked(old(v)@.map_values(|p: (i32, String)| (p.0 as int, p.1@))),
    ensures
        ranked(final(v)@.map_values(|p: (i32, String)| (p.0 as int, p.1@))),
        final(v)@.map_values(|p: (i32, String)| (p.0 as int, p.1@)).to_multiset()
            == old(v)@.map_values(|p: (i32, String)| (p.0 as int, p.1@)).to_multiset().insert((x.0 as int, x.1@)),
{
    let ghost xv = (x.0 as int, x.1@);
    let ghost old_v = v@.map_values(|p: (i32, String)| (p.0 as int, p.1@));
    let mut k: usize = 0;
    while k < v.len() && !(x.0 > v[k].0 || (x.0 == v[k].0 && crate::order::str_less(x.1.as_str(), v[k].1.as_str())))
        invariant
            k <= v@.len(),
            v@.map_values(|p: (i32, String)| (p.0 as int, p.1@)) == old_v,
            forall|i: int| 0 <= i < k ==> !ranks_before(xv, #[trigger] old_v[i]),
            xv == (x.0 as int, x.1@),
        decreases v.len() - k,
    {
        assert(old_v[k as int] == (v@[k as int].0 as int, v@[k as int].1@));
        k = k + 1;
    }
    v.insert(k, x);
    proof {
        let nv = v@.map_values(|p: (i32, String)| (p.0 as int, p.1@));
        assert(nv =~= old_v.insert(k as int, xv));
        assert forall|i: int, j: int| 0 <= i < j < nv.len() implies !ranks_before(#[trigger] nv[j], #[trigger] nv[i]) by {
            if j < k {
                assert(nv[i] == old_v[i] && nv[j] == old_v[j]);
            } else if j == k {
                assert(nv[i] == old_v[i]);
                crate::order::lemma_less_asymmetric(old_v[i].1, xv.1);
                crate::order::lemma_less_total(old_v[i].1, xv.1);
            } else if i == k {
                let y = old_v[j - 1];
                assert(ranks_before(xv, old_v[k as int]));
                if j - 1 > k {
                    assert(!ranks_before(old_v[j - 1], old_v[k as int]));
                }
                crate::order::lemma_less_total(y.1, old_v[k as int].1);
                crate::order::lemma_less_total(y.1, xv.1);
                crate::order::lemma_less_transitive(y.1, old_v[k as int].1, xv.1);
                crate::order::lemma_less_transitive(y.1, xv.1, old_v[k as int].1);
                crate::order::lemma_less_asymmetric(xv.1, old_v[k as int].1);
                crate::order::lemma_less_irreflexive(xv.1);
            } else if i < k {
                assert(nv[i] == old_v[i] && nv[j] == old_v[j - 1]);
                assert(!ranks_before(old_v[j - 1], old_v[i]));
            } else {
                assert(nv[i] == old_v[i - 1] && nv[j] == old_v[j - 1]);
            }
        }
        assert(nv.remove(k as int) =~= old_v);
        broadcast use vstd::seq_lib::group_to_multiset_ensures;
        assert(nv.to_multiset().remove(xv) =~= old_v.to_multiset());
        assert(nv.to_multiset().count(xv) > 0) by {
            assert(nv[k as int] == xv);
            assert(nv.contains(xv));
        }
        assert(nv.to_multiset() =~= old_v.to_multiset().insert(xv));
    }
}

/// The texts of the first five ranked matches.
pub open spec fn top_suggestions(s: Seq<(int, Seq<char>)>) -> Seq<Seq<char>> {
    s.take(if s.len() < 5 { s.len() as int } else { 5 }).map_values(|p: (int, Seq<char>)| p.1)
}

/// Up to five suggestions for `needle`: the candidates that match it at all, ignoring ASCII
/// case, best score first and then in text order.
pub fn closest(needle: &str, candidates: &[String]) -> (r: Vec<String>)
    requires
        forall|i: int| 0 <= i < candidates@.len() ==> vstd::utf8::encode_utf8(#[trigger] candidates@[i]@).len() <= i32::MAX,
    ensures
        exists|s: Seq<(int, Seq<char>)>|
            ranked(s) && s.to_multiset() == scored(needle@, candidates@, candidates@.len() as int).to_multiset()
                && views(r@) == #[trigger] top_suggestions(s),
{
    let lower_needle_chars = lower_chars(&chars_of(needle));
    let lower_needle = string_from_chars(&lower_needle_chars);
    let mut matches: Vec<(i32, String)> = Vec::new();
    let mut i: usize = 0;
    proof {
        broadcast use vstd::seq_lib::group_to_multiset_ensures;
    }
    while i < candidates.len()
        invariant
            i <= candidates@.len(),
            lower_needle@ == ascii_lower_seq(needle@),
            forall|m: int| 0 <= m < candidates@.len() ==> vstd::utf8::encode_utf8(#[trigger] candidates@[m]@).len() <= i32::MAX,
            ranked(matches@.map_values(|p: (i32, String)| (p.0 as int, p.1@))),
            matches@.map_values(|p: (i32, String)| (p.0 as int, p.1@)).to_multiset() == scored(needle@, candidates@, i as int).to_multiset(),
        decreases candidates.len() - i,
    {
        let lower_candidate_chars = lower_chars(&chars_of(candidates[i].as_str()));
        let lower_candidate = string_from_chars(&lower_candidate_chars);
        proof {
            assert(vstd::utf8::encode_utf8(lower_candidate@).len() == vstd::utf8::encode_utf8(candidates@[i as int]@).len()) by {
                lemma_lower_keeps_byte_length(candidates@[i as int]@);
            }
        }
        let score = similarity(lower_needle.as_str(), lower_candidate.as_str());
        if score > 0 {
            insert_ranked(&mut matches, (score, candidates[i].clone()));
        }
        proof {
            broadcast use vstd::seq_lib::group_to_multiset_ensures;
        }
        i = i + 1;
    }
    let ghost s = matches@.map_values(|p: (i32, String)| (p.0 as int, p.1@));
    let count = if matches.len() < 5 { matches.len() } else { 5 };
    let mut r: Vec<String> = Vec::new();
    let mut k: usize = 0;
    while k < count
        invariant
            k <= count <= matches@.len(),
            s == matches@.map_values(|p: (i32, String)| (p.0 as int, p.1@)),
            views(r@) == s.take(k as int).map_values(|p: (int, Seq<char>)| p.1),
        decreases count - k,
    {
        let ghost before = views(r@);
        r.push(matches[k].1.clone());
        assert(views(r@) =~= before.push(s[k as int].1));
        assert(s.take(k + 1).map_values(|p: (int, Seq<char>)| p.1) =~= s.take(k as int).map_values(|p: (int, Seq<char>)| p.1).push(s[k as int].1));
        k = k + 1;
    }
    assert(views(r@) == top_suggestions(s));
    r
}

/// ASCII lower-casing keeps a text's length in bytes.
proof fn lemma_lower_keeps_byte_length(s: Seq<char>)
    ensures
        vstd::utf8::encode_utf8(ascii_lower_seq(s)).len() == vstd::utf8::encode_utf8(s).len(),
    decreases s.len(),
{
    if s.len() > 0 {
        let l = ascii_lower_seq(s);
        assert(l.drop_first() =~= ascii_lower_seq(s.drop_first()));
        lemma_lower_keeps_byte_length(s.drop_first());
        let c = s[0];
        assert(l[0] == crate::text::ascii_lower(c));
        if 'A' <= c && c <= 'Z' {
            assert(vstd::utf8::has_width_1_encoding(c as u32));
            assert(vstd::utf8::has_width_1_encoding(l[0] as u32));
        }
        assert(vstd::utf8::encode_scalar(l[0] as u32).len() == vstd::utf8::encode_scalar(c as u32).len());
    }
}

/// What resolving an existing target comes to before any outside lookup: a target, a pull
/// request number to look up with `gh`, or the repository's refs needed to go on.
#[derive(Debug)]
pub enum Resolution {
    Resolved(ResolvedTarget),
    PullRequest(u64),
    NeedsRefs,
}

/// The first position from `i` on whose text is `p`.
pub open spec fn first_text_from(texts: Seq<String>, p: Seq<char>, i: int) -> Option<int>
    decreases texts.len() - i,
{
    if i < 0 || i >= texts.len() {
        None
    } else if texts[i]@ == p {
        Some(i)
    } else {
        first_text_from(texts, p, i + 1)
    }
}

fn find_text(texts: &Vec<String>, p: &str) -> (r: Option<usize>)
    ensures
        match r {
            Some(k) => first_text_from(texts@, p@, 0) == Some(k as int) && k < texts@.len(),
            None => first_text_from(texts@, p@, 0) is None,
        },
{
    let mut i: usize = 0;
    while i < texts.len()
        invariant
            i <= texts@.len(),
            first_text_from(texts@, p@, 0) == first_text_from(texts@, p@, i as int),
        decreases texts.len() - i,
    {
        if crate::text::str_equal(texts[i].as_str(), p) {
            return Some(i);
        }
        i = i + 1;
    }
    None
}

/// A usable workspace bound to pull request `number`.
pub open spec fn holds_pull_request(w: crate::model::WorkspaceRecord, number: u64) -> bool {
    w.status != WorkspaceStatus::Broken && (w.target.pull_request matches Some(pr) && pr.number == number)
}

pub open spec fn first_pr_workspace(ws: Seq<crate::model::WorkspaceRecord>, number: u64, i: int) -> Option<int>
    decreases ws.len() - i,
{
    if i < 0 || i >= ws.len() {
        None
    } else if holds_pull_request(ws[i], number) {
        Some(i)
    } else {
        first_pr_workspace(ws, number, i + 1)
    }
}

/// Worktree `w` (canonical path `path`) is what a selector of `kind` with `value` names:
/// `worktree:` by path, `remote:` never, otherwise by branch, or also by path when no prefix
/// was given. `value_path` is the canonical form of the value.
pub open spec fn names_worktree(w: GitWorktree, path: Seq<char>, kind: SelectorKind, value: Seq<char>, value_path: Seq<char>) -> bool {
    match kind {
        SelectorKind::Worktree => path == value_path,
        SelectorKind::Remote => false,
        _ => opt_view(w.branch) == Some(value) || (kind == SelectorKind::Auto && path == value_path),
    }
}

pub open spec fn first_named_worktree(
    ws: Seq<GitWorktree>,
    paths: Seq<String>,
    kind: SelectorKind,
    value: Seq<char>,
    value_path: Seq<char>,
    i: int,
) -> Option<int>
    decreases ws.len() - i,
{
    if i < 0 || i >= ws.len() {
        None
    } else if names_worktree(ws[i], paths[i]@, kind, value, value_path) {
        Some(i)
    } else {
        first_named_worktree(ws, paths, kind, value, value_path, i + 1)
    }
}

pub open spec fn is_local_named(r: GitRef, value: Seq<char>) -> bool {
    r.kind == GitRefKind::Local && r.short_name@ == value
}

pub open spec fn is_remote_qualified(r: GitRef, value: Seq<char>) -> bool {
    r.kind == GitRefKind::Remote && (r.remote matches Some(remote) && remote@ + seq!['/'] + r.short_name@ == value)
}

pub open spec fn is_remote_named(r: GitRef, value: Seq<char>) -> bool {
    r.kind == GitRefKind::Remote && r.short_name@ == value
}

pub open spec fn first_local(refs: Seq<GitRef>, value: Seq<char>, i: int) -> Option<int>
    decreases refs.len() - i,
{
    if i < 0 || i >= refs.len() {
        None
    } else if is_local_named(refs[i], value) {
        Some(i)
    } else {
        first_local(refs, value, i + 1)
    }
}

pub open spec fn first_qualified(refs: Seq<GitRef>, value: Seq<char>, i: int) -> Option<int>
    decreases refs.len() - i,
{
    if i < 0 || i >= refs.len() {
        None
    } else if is_remote_qualified(refs[i], value) {
        Some(i)
    } else {
        first_qualified(refs, value, i + 1)
    }
}

/// The remote refs among the first `n` whose short name is `value`.
pub open spec fn remote_named(refs: Seq<GitRef>, value: Seq<char>, n: int) -> Seq<int>
    decreases n,
{
    if n <= 0 || n > refs.len() {
        Seq::empty()
    } else if is_remote_named(refs[n - 1], value) {
        remote_named(refs, value, n - 1).push(n - 1)
    } else {
        remote_named(refs, value, n - 1)
    }
}

/// The remote refs a value can mean: the one it names as `remote/branch`, else (unless only
/// worktrees were asked for) every remote ref with that short name.
pub open spec fn remote_candidates(refs: Seq<GitRef>, kind: SelectorKind, value: Seq<char>) -> Seq<int> {
    match first_qualified(refs, value, 0) {
        Some(k) => seq![k],
        None => if kind == SelectorKind::Worktree {
            Seq::empty()
        } else {
            remote_named(refs, value, refs.len() as int)
        },
    }
}

/// The target an existing worktree resolves to.
pub open spec fn worktree_target(w: GitWorktree, stored: Option<crate::model::WorkspaceRecord>, value: Seq<char>) -> TargetFields {
    TargetFields {
        kind: TargetKind::Worktree,
        display_name: match w.branch {
            Some(b) => b@,
            None => match stored {
                Some(s) => s.target.display_name@,
                None => value,
            },
        },
        oid: w.head@,
        trust: match stored {
            Some(s) => s.trust,
            None => TrustLevel::Trusted,
        },
        existing_worktree: Some(w.fields()),
        local_branch: opt_view(w.branch),
        remote_branch: None,
        remote: None,
        base_ref: None,
        pull_request: match stored {
            Some(s) => s.target.pull_request,
            None => None,
        },
    }
}

pub open spec fn local_target(r: GitRef) -> TargetFields {
    TargetFields {
        kind: TargetKind::LocalBranch,
        display_name: r.short_name@,
        oid: r.oid@,
        trust: TrustLevel::Trusted,
        existing_worktree: None,
        local_branch: Some(r.short_name@),
        remote_branch: None,
        remote: None,
        base_ref: None,
        pull_request: None,
    }
}

pub open spec fn remote_target(r: GitRef) -> TargetFields {
    let remote = match r.remote {
        Some(remote) => remote@,
        None => Seq::empty(),
    };
    TargetFields {
        kind: TargetKind::RemoteBranch,
        display_name: r.short_name@,
        oid: r.oid@,
        trust: TrustLevel::Trusted,
        existing_worktree: None,
        local_branch: Some(r.short_name@),
        remote_branch: Some(remote + seq!['/'] + r.short_name@),
        remote: Some(remote),
        base_ref: None,
        pull_request: None,
    }
}

/// What resolving comes to, as text.
pub enum Outcome {
    Target(TargetFields),
    LookUpPullRequest(u64),
    NeedsRefs,
    Ambiguous,
    NotFound,
}

/// How an existing target is resolved. A pull request selector finds a usable workspace bound
/// to it that still has its worktree, or must be looked up; then a worktree named by the
/// selector; then a local branch (unless `remote:` was asked for); then the one remote branch
/// the value can mean. More than one remote branch is ambiguous, and none is not found.
pub open spec fn existing_outcome(
    repository: Repository,
    worktree_paths: Seq<String>,
    state: RepositoryState,
    workspace_paths: Seq<String>,
    refs: Option<Seq<GitRef>>,
    kind: SelectorKind,
    value: Seq<char>,
    value_path: Seq<char>,
) -> Outcome {
    let pr = if kind == SelectorKind::Auto { pull_request_number(value) } else { None };
    let ws = state.workspaces@;
    let wts = repository.worktrees@;
    let pr_outcome = match pr {
        Some(n) => match first_pr_workspace(ws, n, 0) {
            Some(k) => match first_text_from(worktree_paths, workspace_paths[k]@, 0) {
                Some(j) => Some(Outcome::Target(TargetFields {
                    kind: TargetKind::Worktree,
                    existing_worktree: Some(wts[j].fields()),
                    ..stored_fields(ws[k].target, ws[k].trust)
                })),
                None => Some(Outcome::LookUpPullRequest(n)),
            },
            None => Some(Outcome::LookUpPullRequest(n)),
        },
        None => None,
    };
    match pr_outcome {
        Some(o) => o,
        None => match first_named_worktree(wts, worktree_paths, kind, value, value_path, 0) {
            Some(j) => {
                let stored = match first_text_from(workspace_paths, worktree_paths[j]@, 0) {
                    Some(k) => Some(ws[k]),
                    None => None,
                };
                Outcome::Target(worktree_target(wts[j], stored, value))
            },
            None => match refs {
                None => Outcome::NeedsRefs,
                Some(refs) => {
                    let local = if kind != SelectorKind::Remote { first_local(refs, value, 0) } else { None };
                    match local {
                        Some(k) => Outcome::Target(local_target(refs[k])),
                        None => {
                            let matches = remote_candidates(refs, kind, value);
                            if matches.len() == 1 {
                                Outcome::Target(remote_target(refs[matches[0]]))
                            } else if matches.len() > 1 {
                                Outcome::Ambiguous
                            } else {
                                Outcome::NotFound
                            }
                        },
                    }
                },
            },
        },
    }
}

fn worktree_resolution(w: &GitWorktree, stored: Option<&crate::model::WorkspaceRecord>, value: &str) -> (r: ResolvedTarget)
    ensures
        target_fields(r) == worktree_target(*w, match stored { Some(s) => Some(*s), None => None }, value@),
        r.existing_worktree matches Some(e) && e.fields() == w.fields() && e.exists == w.exists,
{
    let display_name = match &w.branch {
        Some(b) => b.clone(),
        None => match stored {
            Some(s) => s.target.display_name.clone(),
            None => value.to_owned(),
        },
    };
    let trust = match stored {
        Some(s) => s.trust,
        None => TrustLevel::Trusted,
    };
    let pull_request = match stored {
        Some(s) => clone_opt_pull_request(&s.target.pull_request),
        None => None,
    };
    ResolvedTarget {
        kind: TargetKind::Worktree,
        display_name,
        oid: w.head.clone(),
        trust,
        existing_worktree: Some(w.duplicate()),
        local_branch: clone_opt_text(&w.branch),
        remote_branch: None,
        remote: None,
        base_ref: None,
        pull_request,
    }
}

fn local_resolution(r: &GitRef) -> (t: ResolvedTarget)
    ensures
        target_fields(t) == local_target(*r),
{
    ResolvedTarget {
        kind: TargetKind::LocalBranch,
        display_name: r.short_name.clone(),
        oid: r.oid.clone(),
        trust: TrustLevel::Trusted,
        existing_worktree: None,
        local_branch: Some(r.short_name.clone()),
        remote_branch: None,
        remote: None,
        base_ref: None,
        pull_request: None,
    }
}

fn remote_resolution(r: &GitRef) -> (t: ResolvedTarget)
    ensures
        target_fields(t) == remote_target(*r),
{
    let remote = match &r.remote {
        Some(remote) => remote.clone(),
        None => String::new(),
    };
    let mut qualified = chars_of(remote.as_str());
    qualified.push('/');
    crate::text::push_str(&mut qualified, r.short_name.as_str());
    assert(qualified@ =~= remote@ + seq!['/'] + r.short_name@);
    let remote_branch = string_from_chars(&qualified);
    ResolvedTarget {
        kind: TargetKind::RemoteBranch,
        display_name: r.short_name.clone(),
        oid: r.oid.clone(),
        trust: TrustLevel::Trusted,
        existing_worktree: None,
        local_branch: Some(r.short_name.clone()),
        remote_branch: Some(remote_branch),
        remote: Some(remote),
        base_ref: None,
        pull_request: None,
    }
}

fn is_qualified_remote(r: &GitRef, value: &str) -> (b: bool)
    ensures
        b == is_remote_qualified(*r, value@),
{
    if r.kind != GitRefKind::Remote {
        return false;
    }
    match &r.remote {
        Some(remote) => {
            let mut qualified = chars_of(remote.as_str());
            qualified.push('/');
            crate::text::push_str(&mut qualified, r.short_name.as_str());
            assert(qualified@ =~= remote@ + seq!['/'] + r.short_name@);
            let v = chars_of(value);
            crate::text::chars_equal(&qualified, &v)
        },
        None => false,
    }
}

fn remote_choices(refs: &Vec<GitRef>, kind: SelectorKind, value: &str) -> (m: Vec<usize>)
    ensures
        m@.map_values(|k: usize| k as int) == remote_candidates(refs@, kind, value@),
        forall|t: int| 0 <= t < m@.len() ==> #[trigger] m@[t] < refs@.len(),
{
    let mut i: usize = 0;
    while i < refs.len()
        invariant
            i <= refs@.len(),
            first_qualified(refs@, value@, 0) == first_qualified(refs@, value@, i as int),
        decreases refs.len() - i,
    {
        if is_qualified_remote(&refs[i], value) {
            let m = vec![i];
            assert(m@.map_values(|k: usize| k as int) =~= seq![i as int]);
            return m;
        }
        i = i + 1;
    }
    let mut m: Vec<usize> = Vec::new();
    if kind == SelectorKind::Worktree {
        assert(m@.map_values(|k: usize| k as int) =~= Seq::<int>::empty());
        return m;
    }
    let mut j: usize = 0;
    while j < refs.len()
        invariant
            j <= refs@.len(),
            m@.map_values(|k: usize| k as int) == remote_named(refs@, value@, j as int),
            forall|t: int| 0 <= t < m@.len() ==> #[trigger] m@[t] < j,
        decreases refs.len() - j,
    {
        let r = &refs[j];
        if r.kind == GitRefKind::Remote && crate::text::str_equal(r.short_name.as_str(), value) {
            let ghost before = m@.map_values(|k: usize| k as int);
            m.push(j);
            assert(m@.map_values(|k: usize| k as int) =~= before.push(j as int));
        }
        j = j + 1;
    }
    m
}

/// An unknown target: the selector that named nothing is kept as the `selector` detail.
pub fn not_found(selector: &str) -> (e: AcreError)
    ensures
        e.code == "ACRE_TARGET_NOT_FOUND",
        e.exit_code == EXIT_NOT_FOUND,
        e.message@ == "No existing work is named "@ + selector@ + "."@,
        e.details@.len() == 1,
        e.details@[0].key@ == "selector"@,
        detail_text(e.details@, "selector"@) == Some(selector@),
{
    let mut text = chars_of("No existing work is named ");
    crate::text::push_str(&mut text, selector);
    crate::text::push_str(&mut text, ".");
    let message = string_from_chars(&text);
    let e = AcreError::new("ACRE_TARGET_NOT_FOUND", message.as_str(), EXIT_NOT_FOUND).with_text("selector", selector);
    assert(e.details@.drop_first().len() == 0);
    assert(e.details@[0] == e.details@.last());
    e
}

/// An ambiguous target: the remote branches it could be (`remote/branch`) are the `matches`.
fn ambiguous(value: &str, refs: &Vec<GitRef>, matches: &Vec<usize>) -> (e: AcreError)
    requires
        forall|t: int| 0 <= t < matches@.len() ==> #[trigger] matches@[t] < refs@.len(),
    ensures
        e.code == "ACRE_TARGET_AMBIGUOUS",
        e.exit_code == EXIT_CONFLICT,
        e.message@ == value@ + " exists on more than one remote."@,
        detail_texts(e.details@, "matches"@) == matches@.map_values(|k: usize| refs@[k as int].qualified_view()),
{
    let mut text = chars_of(value);
    crate::text::push_str(&mut text, " exists on more than one remote.");
    let message = string_from_chars(&text);
    let mut names: Vec<String> = Vec::new();
    let mut i: usize = 0;
    while i < matches.len()
        invariant
            i <= matches@.len(),
            forall|t: int| 0 <= t < matches@.len() ==> #[trigger] matches@[t] < refs@.len(),
            names@.map_values(|n: String| n@) == matches@.take(i as int).map_values(|k: usize| refs@[k as int].qualified_view()),
        decreases matches.len() - i,
    {
        let ghost before = names@.map_values(|n: String| n@);
        names.push(refs[matches[i]].qualified_name());
        assert(names@.map_values(|n: String| n@) =~= before.push(refs@[matches@[i as int] as int].qualified_view()));
        assert(matches@.take(i + 1).map_values(|k: usize| refs@[k as int].qualified_view()) =~= matches@.take(i as int).map_values(
            |k: usize| refs@[k as int].qualified_view(),
        ).push(refs@[matches@[i as int] as int].qualified_view()));
        i = i + 1;
    }
    assert(matches@.take(matches@.len() as int) =~= matches@);
    let e = AcreError::new("ACRE_TARGET_AMBIGUOUS", message.as_str(), EXIT_CONFLICT).with_texts("matches", names);
    assert(e.details@.drop_first().len() == 0);
    e
}

/// `w` has the branch `n` checked out.
pub open spec fn branch_named(w: GitWorktree, n: Seq<char>) -> bool {
    w.branch matches Some(b) && b@ == n
}

/// The branches checked out in worktrees and every ref by its qualified name.
pub open spec fn target_names(repository: Repository, refs: Seq<GitRef>) -> Set<Seq<char>> {
    Set::new(|n: Seq<char>|
        (exists|i: int| 0 <= i < repository.worktrees@.len() && branch_named(#[trigger] repository.worktrees@[i], n))
        || (exists|j: int| 0 <= j < refs.len() && (#[trigger] refs[j]).qualified_view() == n))
}

/// `e` reports the unknown `selector` (whose value is `value`): it names the selector, and its
/// `suggestions` are the closest, at most five, of the candidate `names` taken in text order
/// (when every name is short enough to be scored).
pub open spec fn reports_unknown_target(e: AcreError, selector: Seq<char>, value: Seq<char>, names: Set<Seq<char>>) -> bool {
    &&& detail_text(e.details@, "selector"@) == Some(selector)
    &&& exists|c: Seq<String>| #![trigger views(c)]
        strictly_sorted(views(c)) && views(c).to_set() == names && ((forall|i: int|
            0 <= i < c.len() ==> vstd::utf8::encode_utf8(#[trigger] c[i]@).len() <= i32::MAX) ==> exists|
            s: Seq<(int, Seq<char>)>,
        |
            ranked(s) && s.to_multiset() == scored(value, c, c.len() as int).to_multiset() && detail_texts(
                e.details@,
                "suggestions"@,
            ) == #[trigger] top_suggestions(s))
}

/// The names an unknown target is compared with: the branches checked out in worktrees and
/// every ref by its qualified name (`remote/branch` for a remote one), sorted, each once.
pub fn target_candidates(repository: &Repository, refs: &Vec<GitRef>) -> (r: Vec<String>)
    ensures
        strictly_sorted(views(r@)),
        views(r@).to_set() == target_names(*repository, refs@),
{
    let mut all: Vec<String> = Vec::new();
    let mut i: usize = 0;
    while i < repository.worktrees.len()
        invariant
            i <= repository.worktrees@.len(),
            forall|n: Seq<char>| views(all@).contains(n) <==> exists|t: int| 0 <= t < i
                && branch_named(#[trigger] repository.worktrees@[t], n),
        decreases repository.worktrees.len() - i,
    {
        match &repository.worktrees[i].branch {
            Some(b) => {
                let ghost before = views(all@);
                all.push(b.clone());
                assert(views(all@) =~= before.push(b@));
                assert forall|n: Seq<char>| views(all@).contains(n) <==> exists|t: int| 0 <= t < i + 1
                    && branch_named(#[trigger] repository.worktrees@[t], n) by {
                    if views(all@).contains(n) && n != b@ {
                        assert(before.contains(n));
                    }
                    if exists|t: int| 0 <= t < i + 1 && branch_named(#[trigger] repository.worktrees@[t], n) {
                        let t = choose|t: int| 0 <= t < i + 1 && branch_named(#[trigger] repository.worktrees@[t], n);
                        if t < i {
                            assert(before.contains(n));
                            let k = choose|k: int| 0 <= k < before.len() && before[k] == n;
                            assert(views(all@)[k] == n);
                        } else {
                            assert(views(all@)[before.len() as int] == n);
                        }
                    }
                }
            },
            None => {},
        }
        i = i + 1;
    }
    let mut j: usize = 0;
    while j < refs.len()
        invariant
            j <= refs@.len(),
            forall|n: Seq<char>| views(all@).contains(n) <==> ((exists|t: int| 0 <= t < repository.worktrees@.len()
                && branch_named(#[trigger] repository.worktrees@[t], n))
                || exists|u: int| 0 <= u < j && (#[trigger] refs@[u]).qualified_view() == n),
        decreases refs.len() - j,
    {
        let ghost before = views(all@);
        let name = refs[j].qualified_name();
        all.push(name);
        assert(views(all@) =~= before.push(refs@[j as int].qualified_view()));
        assert forall|n: Seq<char>| views(all@).contains(n) <==> ((exists|t: int| 0 <= t < repository.worktrees@.len()
            && branch_named(#[trigger] repository.worktrees@[t], n))
            || exists|u: int| 0 <= u < j + 1 && (#[trigger] refs@[u]).qualified_view() == n) by {
            if views(all@).contains(n) && n != refs@[j as int].qualified_view() {
                let k = choose|k: int| 0 <= k < views(all@).len() && views(all@)[k] == n;
                assert(before[k] == n);
                assert(before.contains(n));
            }
            if exists|u: int| 0 <= u < j + 1 && (#[trigger] refs@[u]).qualified_view() == n {
                let u = choose|u: int| 0 <= u < j + 1 && (#[trigger] refs@[u]).qualified_view() == n;
                if u < j {
                    assert(before.contains(n));
                    let k = choose|k: int| 0 <= k < before.len() && before[k] == n;
                    assert(views(all@)[k] == n);
                } else {
                    assert(views(all@)[before.len() as int] == n);
                }
            }
            if exists|t: int| 0 <= t < repository.worktrees@.len() && branch_named(#[trigger] repository.worktrees@[t], n) {
                assert(before.contains(n));
                let k = choose|k: int| 0 <= k < before.len() && before[k] == n;
                assert(views(all@)[k] == n);
            }
        }
        j = j + 1;
    }
    let r = crate::order::sort_unique_strings(&all);
    assert(views(r@).to_set() =~= Set::new(|n: Seq<char>|
        (exists|i: int| 0 <= i < repository.worktrees@.len() && branch_named(#[trigger] repository.worktrees@[i], n))
        || (exists|j: int| 0 <= j < refs@.len() && (#[trigger] refs@[j]).qualified_view() == n)));
    r
}

/// An unknown target with the closest of `candidates` to its `value` as its `suggestions`;
/// any other error, or candidates too long to score, as it was.
pub fn suggest_targets(error: AcreError, value: &str, candidates: &Vec<String>) -> (e: AcreError)
    ensures
        e.code == error.code,
        e.message == error.message,
        e.exit_code == error.exit_code,
        error.code@ != "ACRE_TARGET_NOT_FOUND"@ ==> e.details == error.details,
        error.code@ == "ACRE_TARGET_NOT_FOUND"@ && (forall|i: int| 0 <= i < candidates@.len()
            ==> vstd::utf8::encode_utf8(#[trigger] candidates@[i]@).len() <= i32::MAX) ==> (
            e.details@.take(error.details@.len() as int) == error.details@
            && e.details@.len() == error.details@.len() + 1
            && e.details@.last().key == "suggestions"
            && exists|s: Seq<(int, Seq<char>)>| ranked(s) && s.to_multiset() == scored(value@, candidates@, candidates@.len() as int).to_multiset()
                && (e.details@.last().value matches DetailValue::Texts(ts) && views(ts@) == #[trigger] top_suggestions(s))),
        !(forall|i: int| 0 <= i < candidates@.len()
            ==> vstd::utf8::encode_utf8(#[trigger] candidates@[i]@).len() <= i32::MAX) ==> e.details == error.details,
{
    if !crate::text::str_equal(error.code, "ACRE_TARGET_NOT_FOUND") {
        return error;
    }
    let mut i: usize = 0;
    while i < candidates.len()
        invariant
            i <= candidates@.len(),
            forall|t: int| 0 <= t < i ==> vstd::utf8::encode_utf8(#[trigger] candidates@[t]@).len() <= i32::MAX,
        decreases candidates.len() - i,
    {
        if candidates[i].as_str().as_bytes().len() > 2147483647usize {
            return error;
        }
        i = i + 1;
    }
    let suggestions = closest(value, candidates.as_slice());
    error.with_texts("suggestions", suggestions)
}

/// The error for a selector that names no existing work, with the closest names the
/// repository has (`target_candidates`) as its suggestions.
pub fn unknown_target(repository: &Repository, refs: &Vec<GitRef>, selector: &str, value: &str) -> (e: AcreError)
    ensures
        e.code == "ACRE_TARGET_NOT_FOUND",
        e.exit_code == EXIT_NOT_FOUND,
        e.message@ == "No existing work is named "@ + selector@ + "."@,
        reports_unknown_target(e, selector@, value@, target_names(*repository, refs@)),
{
    let candidates = target_candidates(repository, refs);
    let first = not_found(selector);
    let ghost d0 = first.details@;
    let e = suggest_targets(first, value, &candidates);
    proof {
        reveal_strlit("selector");
        reveal_strlit("suggestions");
        reveal_strlit("ACRE_TARGET_NOT_FOUND");
        assert("selector"@.len() != "suggestions"@.len());
        reveal_with_fuel(detail_text, 3);
        reveal_with_fuel(detail_texts, 3);
        let c = candidates@;
        if forall|i: int| 0 <= i < c.len() ==> vstd::utf8::encode_utf8(#[trigger] c[i]@).len() <= i32::MAX {
            assert(e.details@[0] == d0[0]) by {
                assert(e.details@.take(1)[0] == e.details@[0]);
            }
            assert(e.details@.drop_first()[0] == e.details@.last());
            assert(detail_text(e.details@, "selector"@) == Some(selector@));
            let s = choose|s: Seq<(int, Seq<char>)>| ranked(s) && s.to_multiset() == scored(value@, c, c.len() as int).to_multiset()
                && (e.details@.last().value matches DetailValue::Texts(ts) && views(ts@) == #[trigger] top_suggestions(s));
            match e.details@.last().value {
                DetailValue::Texts(ts) => {
                    assert(ts@.map_values(|t: String| t@) =~= views(ts@));
                },
                _ => {},
            }
            assert(detail_texts(e.details@, "suggestions"@) == top_suggestions(s));
        }
        assert(views(c) == views(candidates@));
    }
    e
}

fn find_pr_workspace(ws: &Vec<crate::model::WorkspaceRecord>, number: u64) -> (r: Option<usize>)
    ensures
        match r {
            Some(k) => first_pr_workspace(ws@, number, 0) == Some(k as int) && k < ws@.len(),
            None => first_pr_workspace(ws@, number, 0) is None,
        },
{
    let mut k: usize = 0;
    while k < ws.len()
        invariant
            k <= ws@.len(),
            first_pr_workspace(ws@, number, 0) == first_pr_workspace(ws@, number, k as int),
        decreases ws.len() - k,
    {
        let w = &ws[k];
        let holds = w.status != WorkspaceStatus::Broken && match &w.target.pull_request {
            Some(pr) => pr.number == number,
            None => false,
        };
        if holds {
            return Some(k);
        }
        k = k + 1;
    }
    None
}

/// The result says what the outcome says.
pub open spec fn resolution_matches(r: Result<Resolution, AcreError>, o: Outcome, selector: Seq<char>, value: Seq<char>) -> bool {
    match (r, o) {
        (Ok(Resolution::Resolved(t)), Outcome::Target(f)) => target_fields(t) == f,
        (Ok(Resolution::PullRequest(n)), Outcome::LookUpPullRequest(m)) => n == m,
        (Ok(Resolution::NeedsRefs), Outcome::NeedsRefs) => true,
        (Err(e), Outcome::Ambiguous) => e.code == "ACRE_TARGET_AMBIGUOUS" && e.exit_code == EXIT_CONFLICT
            && e.message@ == value + " exists on more than one remote."@,
        (Err(e), Outcome::NotFound) => e.code == "ACRE_TARGET_NOT_FOUND" && e.exit_code == EXIT_NOT_FOUND
            && e.message@ == "No existing work is named "@ + selector + "."@,
        _ => false,
    }
}

/// Resolves `selector` to existing work. `worktree_paths[i]` and `workspace_paths[i]` are the
/// canonical paths of the repository's worktrees and of the state's workspaces, and
/// `value_path` is the canonical form of the selector's value read as a path. The refs are
/// asked for only once they are needed; a pull request that no workspace holds is handed back
/// to be looked up.
pub fn resolve_existing_target(
    repository: &Repository,
    worktree_paths: &Vec<String>,
    state: &RepositoryState,
    workspace_paths: &Vec<String>,
    refs: Option<&Vec<GitRef>>,
    selector: &str,
    value_path: &str,
) -> (r: Result<Resolution, AcreError>)
    requires
        worktree_paths@.len() == repository.worktrees@.len(),
        workspace_paths@.len() == state.workspaces@.len(),
    ensures
        selector_kind(selector@) != SelectorKind::Auto && selector_value(selector@).len() == 0 ==> (r matches Err(
            e,
        ) && e.code == "ACRE_TARGET_INVALID" && e.exit_code == EXIT_USAGE),
        !(selector_kind(selector@) != SelectorKind::Auto && selector_value(selector@).len() == 0) ==> resolution_matches(
            r,
            existing_outcome(
                *repository,
                worktree_paths@,
                *state,
                workspace_paths@,
                match refs {
                    Some(v) => Some(v@),
                    None => None,
                },
                selector_kind(selector@),
                selector_value(selector@),
                value_path@,
            ),
            selector@,
            selector_value(selector@),
        ),
        r matches Err(e) ==> (e.code == "ACRE_TARGET_NOT_FOUND" ==> (refs matches Some(v) && reports_unknown_target(
            e,
            selector@,
            selector_value(selector@),
            target_names(*repository, v@),
        ))),
        r matches Ok(Resolution::Resolved(t)) ==> (t.existing_worktree matches Some(w) ==> exists|j: int|
            0 <= j < repository.worktrees@.len() && (#[trigger] repository.worktrees@[j]).fields() == w.fields()
                && repository.worktrees@[j].exists == w.exists),
{
    let typed = parse_typed_selector(selector)?;
    let kind = typed.kind;
    let value = typed.value.as_str();
    let ghost ws = state.workspaces@;
    let ghost wts = repository.worktrees@;
    if kind == SelectorKind::Auto {
        match parse_pull_request_selector(value) {
            Some(number) => {
                match find_pr_workspace(&state.workspaces, number) {
                    Some(k) => {
                        let existing = &state.workspaces[k];
                        match find_text(worktree_paths, workspace_paths[k].as_str()) {
                            Some(j) => {
                                let mut target = from_stored(&existing.target, existing.trust);
                                target.kind = TargetKind::Worktree;
                                target.existing_worktree = Some(repository.worktrees[j].duplicate());
                                return Ok(Resolution::Resolved(target));
                            },
                            None => {
                                return Ok(Resolution::PullRequest(number));
                            },
                        }
                    },
                    None => {},
                }
                return Ok(Resolution::PullRequest(number));
            },
            None => {},
        }
    }
    let value_chars = chars_of(value);
    let mut j: usize = 0;
    while j < repository.worktrees.len()
        invariant
            j <= repository.worktrees@.len(),
            worktree_paths@.len() == repository.worktrees@.len(),
            workspace_paths@.len() == state.workspaces@.len(),
            kind == selector_kind(selector@),
            value@ == selector_value(selector@),
            kind != SelectorKind::Auto ==> value@.len() > 0,
            kind == SelectorKind::Auto ==> pull_request_number(value@) is None,
            first_named_worktree(repository.worktrees@, worktree_paths@, kind, value@, value_path@, 0)
                == first_named_worktree(repository.worktrees@, worktree_paths@, kind, value@, value_path@, j as int),
        decreases repository.worktrees.len() - j,
    {
        let w = &repository.worktrees[j];
        let same_path = crate::text::str_equal(worktree_paths[j].as_str(), value_path);
        let named = match kind {
            SelectorKind::Worktree => same_path,
            SelectorKind::Remote => false,
            _ => {
                let by_branch = match &w.branch {
                    Some(b) => crate::text::str_equal(b.as_str(), value),
                    None => false,
                };
                by_branch || (kind == SelectorKind::Auto && same_path)
            },
        };
        if named {
            let stored = match find_text(workspace_paths, worktree_paths[j].as_str()) {
                Some(k) => Some(&state.workspaces[k]),
                None => None,
            };
            return Ok(Resolution::Resolved(worktree_resolution(w, stored, value)));
        }
        j = j + 1;
    }
    let known = match refs {
        Some(v) => v,
        None => {
            return Ok(Resolution::NeedsRefs);
        },
    };
    if kind != SelectorKind::Remote {
        let mut k: usize = 0;
        while k < known.len()
            invariant
                k <= known@.len(),
                refs matches Some(v) && v@ == known@,
                first_local(known@, value@, 0) == first_local(known@, value@, k as int),
                kind == selector_kind(selector@),
                value@ == selector_value(selector@),
                kind != SelectorKind::Auto ==> value@.len() > 0,
                kind == SelectorKind::Auto ==> pull_request_number(value@) is None,
                first_named_worktree(repository.worktrees@, worktree_paths@, kind, value@, value_path@, 0) is None,
                kind != SelectorKind::Remote,
            decreases known.len() - k,
        {
            if known[k].kind == GitRefKind::Local && crate::text::str_equal(known[k].short_name.as_str(), value) {
                assert(first_local(known@, value@, k as int) == Some(k as int));
                return Ok(Resolution::Resolved(local_resolution(&known[k])));
            }
            k = k + 1;
        }
    }
    let matches = remote_choices(known, kind, value);
    if matches.len() == 1 {
        return Ok(Resolution::Resolved(remote_resolution(&known[matches[0]])));
    }
    if matches.len() > 1 {
        return Err(ambiguous(value, known, &matches));
    }
    Err(unknown_target(repository, known, selector, value))
}


/// `branch` is taken: a worktree has it checked out, or a local branch has that name.
pub open spec fn branch_taken(worktrees: Seq<GitWorktree>, refs: Seq<GitRef>, branch: Seq<char>) -> bool {
    ||| exists|i: int| 0 <= i < worktrees.len() && opt_view(#[trigger] worktrees[i].branch) == Some(branch)
    ||| exists|i: int| 0 <= i < refs.len() && is_local_named(#[trigger] refs[i], branch)
}

/// Some remote-tracking ref is `remote/branch` as written.
pub open spec fn has_qualified_remote(refs: Seq<GitRef>, qualified: Seq<char>) -> bool {
    exists|i: int| 0 <= i < refs.len() && is_remote_qualified(#[trigger] refs[i], qualified)
}

/// Where a new branch starts: `.` is the current worktree's commit (or `HEAD` outside one), an
/// explicit base is taken as written, and otherwise the default branch, preferring its
/// remote-tracking ref when that exists; without a default branch, `HEAD`.
pub open spec fn new_branch_base_spec(repository: Repository, refs: Seq<GitRef>, from: Option<Seq<char>>) -> Seq<char> {
    match from {
        Some(f) => if f == seq!['.'] {
            match repository.current_worktree {
                Some(w) => w.head@,
                None => "HEAD"@,
            }
        } else {
            f
        },
        None => match repository.default_branch {
            Some(d) => match repository.remote {
                Some(r) => if has_qualified_remote(refs, r@ + seq!['/'] + d@) {
                    r@ + seq!['/'] + d@
                } else {
                    d@
                },
                None => d@,
            },
            None => "HEAD"@,
        },
    }
}

fn any_qualified_remote(refs: &Vec<GitRef>, qualified: &str) -> (b: bool)
    ensures
        b == has_qualified_remote(refs@, qualified@),
{
    let mut i: usize = 0;
    while i < refs.len()
        invariant
            i <= refs@.len(),
            forall|j: int| 0 <= j < i ==> !is_remote_qualified(#[trigger] refs@[j], qualified@),
        decreases refs.len() - i,
    {
        if is_qualified_remote(&refs[i], qualified) {
            return true;
        }
        i = i + 1;
    }
    false
}

fn branch_in_use(repository: &Repository, refs: &Vec<GitRef>, branch: &str) -> (b: bool)
    ensures
        b == branch_taken(repository.worktrees@, refs@, branch@),
{
    let mut i: usize = 0;
    while i < repository.worktrees.len()
        invariant
            i <= repository.worktrees@.len(),
            forall|j: int| 0 <= j < i ==> opt_view(#[trigger] repository.worktrees@[j].branch) != Some(branch@),
        decreases repository.worktrees.len() - i,
    {
        match &repository.worktrees[i].branch {
            Some(b) => {
                if crate::text::str_equal(b.as_str(), branch) {
                    return true;
                }
            },
            None => {},
        }
        i = i + 1;
    }
    let mut k: usize = 0;
    while k < refs.len()
        invariant
            k <= refs@.len(),
            forall|j: int| 0 <= j < repository.worktrees@.len() ==> opt_view(#[trigger] repository.worktrees@[j].branch) != Some(branch@),
            forall|j: int| 0 <= j < k ==> !is_local_named(#[trigger] refs@[j], branch@),
        decreases refs.len() - k,
    {
        if refs[k].kind == GitRefKind::Local && crate::text::str_equal(refs[k].short_name.as_str(), branch) {
            return true;
        }
        k = k + 1;
    }
    false
}

/// What creating a branch needs after its checks: the base it starts from, and the fetch to
/// run first when a fresh base on the remote was asked for.
#[derive(Debug)]
pub struct NewBranchPlan {
    pub branch: String,
    pub base_ref: String,
    pub fetch: Option<Invocation>,
}

/// The remote branch a base names: the rest of `base` after `<remote>/`.
pub open spec fn remote_part(remote: Option<String>, base: Seq<char>) -> Option<Seq<char>> {
    match remote {
        Some(r) => if starts_with(base, r@ + seq!['/']) {
            Some(base.skip(r@.len() as int + 1))
        } else {
            None
        },
        None => None,
    }
}

/// Plans `new <branch>`. `branch_valid` is Git's verdict on the name, and `refs` are the
/// repository's refs. An invalid name, or one a worktree or local branch already has, is
/// refused; otherwise the base is chosen, and with `fresh` a base on the remote is fetched
/// first.
pub fn resolve_new_target(
    repository: &Repository,
    branch: &str,
    branch_valid: bool,
    refs: &Vec<GitRef>,
    from: Option<&str>,
    fresh: bool,
) -> (r: Result<NewBranchPlan, AcreError>)
    ensures
        !branch_valid ==> (r matches Err(e) && e.code == "ACRE_INVALID_BRANCH" && e.exit_code == EXIT_USAGE
            && e.message@ == branch@ + " is not a valid Git branch name."@
            && detail_text(e.details@, "branch"@) == Some(branch@)),
        branch_valid && branch_taken(repository.worktrees@, refs@, branch@) ==> (r matches Err(e) && e.code
            == "ACRE_BRANCH_EXISTS" && e.exit_code == EXIT_CONFLICT && e.message@ == branch@ + " already exists."@
            && detail_text(e.details@, "branch"@) == Some(branch@)),
        branch_valid && !branch_taken(repository.worktrees@, refs@, branch@) ==> (r matches Ok(plan)
            && plan.branch@ == branch@
            && plan.base_ref@ == new_branch_base_spec(*repository, refs@, match from {
                Some(f) => Some(f@),
                None => None,
            })
            && (plan.fetch is Some <==> fresh && remote_part(repository.remote, plan.base_ref@) is Some)
            && (plan.fetch matches Some(inv) ==> remote_part(repository.remote, plan.base_ref@) matches Some(rest)
                && inv.executable@ == "git"@
                && views(inv.args@) == git_prefix() + seq![
                    "fetch"@,
                    "--no-tags"@,
                    repository.remote.unwrap()@,
                    refspec("refs/heads/"@ + rest, Some("refs/remotes/"@ + repository.remote.unwrap()@ + seq!['/'] + rest)),
                ]
                && (inv.options.cwd matches Some(c) && c@ == repository.top_level@)
                && inv.options.timeout_ms == Some(FETCH_TIMEOUT_MS))),
{
    if !branch_valid {
        let mut text = chars_of(branch);
        crate::text::push_str(&mut text, " is not a valid Git branch name.");
        let e = AcreError::new("ACRE_INVALID_BRANCH", string_from_chars(&text).as_str(), EXIT_USAGE).with_text("branch", branch);
        assert(e.details@.drop_first().len() == 0);
        return Err(e);
    }
    if branch_in_use(repository, refs, branch) {
        let mut text = chars_of(branch);
        crate::text::push_str(&mut text, " already exists.");
        let e = AcreError::new("ACRE_BRANCH_EXISTS", string_from_chars(&text).as_str(), EXIT_CONFLICT).with_text("branch", branch);
        assert(e.details@.drop_first().len() == 0);
        return Err(e);
    }
    let base_ref: String = match from {
        Some(f) => {
            let dot = vec!['.'];
            let fc = chars_of(f);
            assert(dot@ =~= seq!['.']);
            if crate::text::chars_equal(&fc, &dot) {
                match &repository.current_worktree {
                    Some(w) => w.head.clone(),
                    None => {
                        proof { reveal_strlit("HEAD"); }
                        "HEAD".to_owned()
                    },
                }
            } else {
                f.to_owned()
            }
        },
        None => match &repository.default_branch {
            Some(d) => match &repository.remote {
                Some(rm) => {
                    let mut q = chars_of(rm.as_str());
                    q.push('/');
                    crate::text::push_str(&mut q, d.as_str());
                    assert(q@ =~= rm@ + seq!['/'] + d@);
                    let qualified = string_from_chars(&q);
                    if any_qualified_remote(refs, qualified.as_str()) {
                        qualified
                    } else {
                        d.clone()
                    }
                },
                None => d.clone(),
            },
            None => {
                proof { reveal_strlit("HEAD"); }
                "HEAD".to_owned()
            },
        },
    };
    let mut fetch: Option<Invocation> = None;
    if fresh {
        match &repository.remote {
            Some(rm) => {
                let mut prefix = chars_of(rm.as_str());
                prefix.push('/');
                assert(prefix@ =~= rm@ + seq!['/']);
                let base_chars = chars_of(base_ref.as_str());
                if chars_start_with(&base_chars, &prefix) {
                    let rest = slice_chars(&base_chars, prefix.len(), base_chars.len());
                    assert(rest@ =~= base_ref@.skip(rm@.len() as int + 1));
                    let mut source = chars_of("refs/heads/");
                    crate::text::push_chars(&mut source, &rest);
                    let mut destination = chars_of("refs/remotes/");
                    crate::text::push_chars(&mut destination, &prefix);
                    crate::text::push_chars(&mut destination, &rest);
                    assert(destination@ =~= "refs/remotes/"@ + rm@ + seq!['/'] + rest@);
                    let source = string_from_chars(&source);
                    let destination = string_from_chars(&destination);
                    fetch = Some(fetch_ref(repository, rm.as_str(), source.as_str(), Some(destination.as_str())));
                }
            },
            None => {},
        }
    }
    Ok(NewBranchPlan { branch: branch.to_owned(), base_ref, fetch })
}

/// The new branch target once its base resolved to `oid`; a base that resolves to nothing is
/// not found.
pub fn new_branch_target(plan: NewBranchPlan, oid: Option<String>) -> (r: Result<ResolvedTarget, AcreError>)
    ensures
        oid is None ==> (r matches Err(e) && e.code == "ACRE_BASE_NOT_FOUND" && e.exit_code == EXIT_NOT_FOUND
            && e.message@ == "Acre could not resolve the base "@ + plan.base_ref@ + "."@
            && detail_text(e.details@, "baseRef"@) == Some(plan.base_ref@)),
        oid matches Some(o) ==> (r matches Ok(t) && target_fields(t) == TargetFields {
            kind: TargetKind::NewBranch,
            display_name: plan.branch@,
            oid: o@,
            trust: TrustLevel::Trusted,
            existing_worktree: None,
            local_branch: Some(plan.branch@),
            remote_branch: None,
            remote: None,
            base_ref: Some(plan.base_ref@),
            pull_request: None,
        }),
{
    match oid {
        None => {
            let mut text = chars_of("Acre could not resolve the base ");
            crate::text::push_str(&mut text, plan.base_ref.as_str());
            crate::text::push_str(&mut text, ".");
            let e = AcreError::new("ACRE_BASE_NOT_FOUND", string_from_chars(&text).as_str(), EXIT_NOT_FOUND).with_text(
                "baseRef",
                plan.base_ref.as_str(),
            );
            assert(e.details@.drop_first().len() == 0);
            Err(e)
        },
        Some(o) => Ok(ResolvedTarget {
            kind: TargetKind::NewBranch,
            display_name: plan.branch.clone(),
            oid: o,
            trust: TrustLevel::Trusted,
            existing_worktree: None,
            local_branch: Some(plan.branch),
            remote_branch: None,
            remote: None,
            base_ref: Some(plan.base_ref),
            pull_request: None,
        }),
    }
}

/// An existing target is never silently turned into a new branch: whatever resolving an
/// existing selector comes to, it is not a branch to create.
pub proof fn law_existing_never_new_branch(
    repository: Repository,
    worktree_paths: Seq<String>,
    state: RepositoryState,
    workspace_paths: Seq<String>,
    refs: Option<Seq<GitRef>>,
    kind: SelectorKind,
    value: Seq<char>,
    value_path: Seq<char>,
)
    ensures
        existing_outcome(repository, worktree_paths, state, workspace_paths, refs, kind, value, value_path) matches Outcome::Target(f)
            ==> f.kind != TargetKind::NewBranch,
{
}


/// The record of `target` kept with a workspace: its kind, name, commit, branches and pull
/// request.
pub fn store_target(target: &ResolvedTarget) -> (r: StoredTarget)
    ensures
        r.kind == target.kind,
        r.display_name@ == target.display_name@,
        r.oid@ == target.oid@,
        opt_view(r.local_branch) == opt_view(target.local_branch),
        opt_view(r.remote_branch) == opt_view(target.remote_branch),
        r.pull_request == target.pull_request,
{
    StoredTarget {
        kind: target.kind,
        display_name: target.display_name.clone(),
        oid: target.oid.clone(),
        local_branch: clone_opt_text(&target.local_branch),
        remote_branch: clone_opt_text(&target.remote_branch),
        pull_request: clone_opt_pull_request(&target.pull_request),
    }
}


proof fn lemma_first_worktree_none(
    ws: Seq<GitWorktree>,
    paths: Seq<String>,
    kind: SelectorKind,
    value: Seq<char>,
    value_path: Seq<char>,
    i: int,
)
    requires
        0 <= i,
        paths.len() == ws.len(),
        forall|j: int| 0 <= j < ws.len() ==> !names_worktree(#[trigger] ws[j], paths[j]@, kind, value, value_path),
    ensures
        first_named_worktree(ws, paths, kind, value, value_path, i) is None,
    decreases ws.len() - i,
{
    if i < ws.len() {
        lemma_first_worktree_none(ws, paths, kind, value, value_path, i + 1);
    }
}

proof fn lemma_first_local_none(refs: Seq<GitRef>, value: Seq<char>, i: int)
    requires
        0 <= i,
        forall|j: int| 0 <= j < refs.len() ==> !is_local_named(#[trigger] refs[j], value),
    ensures
        first_local(refs, value, i) is None,
    decreases refs.len() - i,
{
    if i < refs.len() {
        lemma_first_local_none(refs, value, i + 1);
    }
}

proof fn lemma_first_qualified_at(refs: Seq<GitRef>, value: Seq<char>, k: int, i: int)
    requires
        0 <= i <= k < refs.len(),
        refs[k].kind == GitRefKind::Remote,
        refs[k].remote matches Some(o) && o@ + seq!['/'] + refs[k].short_name@ == value,
        forall|j: int| 0 <= j < k ==> !is_remote_qualified(#[trigger] refs[j], value),
    ensures
        first_qualified(refs, value, i) == Some(k),
    decreases k - i,
{
    if i < k {
        lemma_first_qualified_at(refs, value, k, i + 1);
    }
}

/// A selector written as `<remote>/<branch>` opens that remote branch: when no worktree and
/// (unless only remotes were asked for) no local branch is named by it, and `refs[k]` is the
/// first remote ref whose remote and short name spell the value, the outcome is a remote-branch
/// target for that ref, tracking exactly the value, with a local branch of its short name.
pub proof fn law_qualified_remote_selector_opens_that_branch(
    repository: Repository,
    worktree_paths: Seq<String>,
    state: RepositoryState,
    workspace_paths: Seq<String>,
    refs: Seq<GitRef>,
    kind: SelectorKind,
    value: Seq<char>,
    value_path: Seq<char>,
    k: int,
)
    requires
        worktree_paths.len() == repository.worktrees@.len(),
        kind != SelectorKind::Auto || pull_request_number(value) is None,
        forall|j: int| 0 <= j < repository.worktrees@.len() ==> !names_worktree(
            #[trigger] repository.worktrees@[j],
            worktree_paths[j]@,
            kind,
            value,
            value_path,
        ),
        kind == SelectorKind::Remote || forall|j: int| 0 <= j < refs.len() ==> !is_local_named(#[trigger] refs[j], value),
        0 <= k < refs.len(),
        refs[k].kind == GitRefKind::Remote,
        refs[k].remote matches Some(o) && o@ + seq!['/'] + refs[k].short_name@ == value,
        forall|j: int| 0 <= j < k ==> !is_remote_qualified(#[trigger] refs[j], value),
    ensures
        existing_outcome(repository, worktree_paths, state, workspace_paths, Some(refs), kind, value, value_path) matches Outcome::Target(f)
            && f.kind == TargetKind::RemoteBranch
            && f.remote_branch == Some(value)
            && f.local_branch == Some(refs[k].short_name@)
            && f.remote == Some(refs[k].remote.unwrap()@)
            && f.oid == refs[k].oid@,
{
    lemma_first_worktree_none(repository.worktrees@, worktree_paths, kind, value, value_path, 0);
    if kind != SelectorKind::Remote {
        lemma_first_local_none(refs, value, 0);
    }
    lemma_first_qualified_at(refs, value, k, 0);
}

} // verus!
