//! Reads the host, owner, and repository out of a Git remote URL.

use vstd::prelude::*;

use crate::bytes::{join_bytes, join_char_fields, nonempty_char_fields, nonempty_fields, split_bytes, split_chars_on};
use crate::text::{chars_end_with, chars_of, contains_seq, ends_with, find_chars_from, find_seq, slice_chars, string_from_chars};
use crate::util::{lemma_trim_end_take, lemma_trim_start_skip, trim_end_by, trim_start_by};

verus! {

#[derive(Debug, Clone)]
pub struct HostedRemote {
    pub host: String,
    pub owner: String,
    pub repo: String,
}

/// The parts of a hosted remote, as text.
pub struct RemoteParts {
    pub host: Seq<char>,
    pub owner: Seq<char>,
    pub repo: Seq<char>,
}

impl HostedRemote {
    pub open spec fn parts(self) -> RemoteParts {
        RemoteParts { host: self.host@, owner: self.owner@, repo: self.repo@ }
    }
}

/// Unicode `White_Space`, what `char::is_whitespace` and `str::trim` go by.
pub open spec fn is_whitespace(c: char) -> bool {
    let n = c as u32;
    (0x9 <= n && n <= 0xd) || n == 0x20 || n == 0x85 || n == 0xa0 || n == 0x1680 || (0x2000 <= n
        && n <= 0x200a) || n == 0x2028 || n == 0x2029 || n == 0x202f || n == 0x205f || n == 0x3000
}

/// `s` without leading and trailing whitespace.
pub open spec fn trim_whitespace(s: Seq<char>) -> Seq<char> {
    trim_end_by(trim_start_by(s, |c: char| is_whitespace(c)), |c: char| is_whitespace(c))
}

/// `s` with `suffix` removed from its end as long as it ends with it.
pub open spec fn trim_suffix_repeat(s: Seq<char>, suffix: Seq<char>) -> Seq<char>
    decreases s.len(),
{
    if suffix.len() > 0 && ends_with(s, suffix) {
        trim_suffix_repeat(s.take(s.len() - suffix.len()), suffix)
    } else {
        s
    }
}

pub open spec fn git_suffix() -> Seq<char> {
    seq!['.', 'g', 'i', 't']
}

pub open spec fn scheme_separator() -> Seq<char> {
    seq![':', '/', '/']
}

/// The URL without surrounding whitespace, trailing slashes, and trailing `.git`.
pub open spec fn sanitize_remote(url: Seq<char>) -> Seq<char> {
    trim_suffix_repeat(trim_end_by(trim_whitespace(url), |c: char| c == '/'), git_suffix())
}

/// The non-empty `/`-separated parts of `path`.
pub open spec fn path_parts(path: Seq<char>) -> Seq<Seq<char>> {
    nonempty_fields(split_bytes(path, '/'))
}

/// Owner and repository from a path's parts: the last part is the repository, the ones before
/// it, joined by `/`, the owner.
pub open spec fn owner_and_repo(host: Seq<char>, parts: Seq<Seq<char>>) -> Option<RemoteParts> {
    if parts.len() >= 2 {
        Some(RemoteParts { host, owner: join_bytes(parts.drop_last(), '/'), repo: parts.last() })
    } else {
        None
    }
}

/// The scp-style form `user@host:owner/repo`, when the text has no scheme.
pub open spec fn scp_remote(s: Seq<char>) -> Option<RemoteParts> {
    if contains_seq(s, scheme_separator()) {
        None
    } else {
        match find_seq(s, seq![':']) {
            None => None,
            Some(i) => owner_and_repo(split_bytes(s.take(i), '@').last(), path_parts(s.skip(i + 1))),
        }
    }
}

/// The host of a URL authority: without `user@` and without `:port`.
pub open spec fn authority_host(authority: Seq<char>) -> Seq<char> {
    split_bytes(split_bytes(authority, '@').last(), ':')[0]
}

/// The URL form `scheme://[user@]host[:port]/owner/repo`.
pub open spec fn url_remote(s: Seq<char>) -> Option<RemoteParts> {
    match find_seq(s, scheme_separator()) {
        None => None,
        Some(i) => {
            let rest = s.skip(i + 3);
            match find_seq(rest, seq!['/']) {
                None => None,
                Some(j) => owner_and_repo(authority_host(rest.take(j)), path_parts(rest.skip(j + 1))),
            }
        },
    }
}

/// What `parse_hosted_remote` finds in `url`.
pub open spec fn hosted_remote_spec(url: Seq<char>) -> Option<RemoteParts> {
    let s = sanitize_remote(url);
    match scp_remote(s) {
        Some(r) => Some(r),
        None => url_remote(s),
    }
}

pub(crate) fn is_whitespace_char(c: char) -> (r: bool)
    ensures
        r == is_whitespace(c),
{
    let n = c as u32;
    (0x9 <= n && n <= 0xd) || n == 0x20 || n == 0x85 || n == 0xa0 || n == 0x1680 || (0x2000 <= n
        && n <= 0x200a) || n == 0x2028 || n == 0x2029 || n == 0x202f || n == 0x205f || n == 0x3000
}

/// `s` without leading and trailing whitespace.
pub fn trim_whitespace_exec(s: &Vec<char>) -> (r: Vec<char>)
    ensures
        r@ == trim_whitespace(s@),
{
    let ghost ws = |c: char| is_whitespace(c);
    let mut start: usize = 0;
    while start < s.len() && is_whitespace_char(s[start])
        invariant
            start <= s.len(),
            forall|j: int| 0 <= j < start ==> is_whitespace(#[trigger] s@[j]),
        decreases s.len() - start,
    {
        start = start + 1;
    }
    let started = slice_chars(s, start, s.len());
    proof {
        lemma_trim_start_skip(s@, ws, start as int);
        assert(s@.skip(start as int) =~= started@);
    }
    let mut end: usize = started.len();
    while end > 0 && is_whitespace_char(started[end - 1])
        invariant
            end <= started.len(),
            forall|j: int| end <= j < started@.len() ==> is_whitespace(#[trigger] started@[j]),
        decreases end,
    {
        end = end - 1;
    }
    let r = slice_chars(&started, 0, end);
    proof {
        lemma_trim_end_take(started@, ws, end as int);
        assert(started@.take(end as int) =~= r@);
        assert(trim_end_by(r@, ws) == r@);
    }
    r
}

fn trim_end_slashes(s: &Vec<char>) -> (r: Vec<char>)
    ensures
        r@ == trim_end_by(s@, |c: char| c == '/'),
{
    let ghost slash = |c: char| c == '/';
    let mut end: usize = s.len();
    while end > 0 && s[end - 1] == '/'
        invariant
            end <= s.len(),
            forall|j: int| end <= j < s@.len() ==> #[trigger] s@[j] == '/',
        decreases end,
    {
        end = end - 1;
    }
    let r = slice_chars(s, 0, end);
    proof {
        lemma_trim_end_take(s@, slash, end as int);
        assert(s@.take(end as int) =~= r@);
        assert(trim_end_by(r@, slash) == r@);
    }
    r
}

fn trim_git_suffixes(s: Vec<char>) -> (r: Vec<char>)
    ensures
        r@ == trim_suffix_repeat(s@, git_suffix()),
    decreases s@.len(),
{
    let suffix = vec!['.', 'g', 'i', 't'];
    assert(suffix@ =~= git_suffix());
    if chars_end_with(&s, &suffix) {
        let shorter = slice_chars(&s, 0, s.len() - 4);
        assert(shorter@ =~= s@.take(s@.len() - 4));
        trim_git_suffixes(shorter)
    } else {
        s
    }
}

fn parts_result(host: &Vec<char>, parts: &Vec<Vec<char>>) -> (r: Option<HostedRemote>)
    ensures
        match (r, owner_and_repo(host@, parts@.map_values(|p: Vec<char>| p@))) {
            (None, None) => true,
            (Some(h), Some(p)) => h.parts() == p,
            _ => false,
        },
{
    let ghost all = parts@.map_values(|p: Vec<char>| p@);
    if parts.len() >= 2 {
        let owner = join_char_fields(parts, 0, parts.len() - 1, '/');
        assert(all.subrange(0, parts@.len() - 1) =~= all.drop_last());
        Some(
            HostedRemote {
                host: string_from_chars(host),
                owner: string_from_chars(&owner),
                repo: string_from_chars(&parts[parts.len() - 1]),
            },
        )
    } else {
        None
    }
}

fn path_parts_exec(path: &Vec<char>) -> (r: Vec<Vec<char>>)
    ensures
        r@.map_values(|p: Vec<char>| p@) == path_parts(path@),
{
    let split = split_chars_on(path, '/');
    assert(split@.map_values(|f: Vec<char>| f@) =~= split_bytes(path@, '/'));
    let r = nonempty_char_fields(&split);
    assert(r@.map_values(|p: Vec<char>| p@) =~= path_parts(path@));
    r
}

fn last_piece(s: &Vec<char>, sep: char) -> (r: Vec<char>)
    ensures
        r@ == split_bytes(s@, sep).last(),
{
    let pieces = split_chars_on(s, sep);
    proof {
        crate::bytes::lemma_split_nonempty(s@, sep);
    }
    let n = pieces.len();
    slice_chars(&pieces[n - 1], 0, pieces[n - 1].len())
}

fn scp_remote_exec(s: &Vec<char>) -> (r: Option<HostedRemote>)
    ensures
        match (r, scp_remote(s@)) {
            (None, None) => true,
            (Some(h), Some(p)) => h.parts() == p,
            _ => false,
        },
{
    let scheme = vec![':', '/', '/'];
    assert(scheme@ =~= scheme_separator());
    if crate::text::chars_contain(s, &scheme) {
        return None;
    }
    let colon = vec![':'];
    assert(colon@ =~= seq![':']);
    match find_chars_from(s, &colon, 0) {
        None => None,
        Some(i) => {
            proof {
                crate::text::lemma_first_occurrence_from(s@, seq![':'], 0);
                assert(s@.subrange(i as int, i + 1) == seq![':']);
            }
            assert(i < s.len());
            let left = slice_chars(s, 0, i);
            let right = slice_chars(s, i + 1, s.len());
            assert(left@ =~= s@.take(i as int));
            assert(right@ =~= s@.skip(i + 1));
            let host = last_piece(&left, '@');
            let parts = path_parts_exec(&right);
            parts_result(&host, &parts)
        },
    }
}

fn url_remote_exec(s: &Vec<char>) -> (r: Option<HostedRemote>)
    ensures
        match (r, url_remote(s@)) {
            (None, None) => true,
            (Some(h), Some(p)) => h.parts() == p,
            _ => false,
        },
{
    let scheme = vec![':', '/', '/'];
    assert(scheme@ =~= scheme_separator());
    match find_chars_from(s, &scheme, 0) {
        None => None,
        Some(i) => {
            proof {
                crate::text::lemma_first_occurrence_from(s@, scheme_separator(), 0);
                assert(s@.subrange(i as int, i + 3) == scheme_separator());
            }
            assert(i + 3 <= s.len());
            let rest = slice_chars(s, i + 3, s.len());
            assert(rest@ =~= s@.skip(i + 3));
            let slash = vec!['/'];
            assert(slash@ =~= seq!['/']);
            match find_chars_from(&rest, &slash, 0) {
                None => None,
                Some(j) => {
                    proof {
                        crate::text::lemma_first_occurrence_from(rest@, seq!['/'], 0);
                        assert(rest@.subrange(j as int, j + 1) == seq!['/']);
                    }
                    assert(j < rest.len());
                    let authority = slice_chars(&rest, 0, j);
                    let path = slice_chars(&rest, j + 1, rest.len());
                    assert(authority@ =~= rest@.take(j as int));
                    assert(path@ =~= rest@.skip(j + 1));
                    let after_user = last_piece(&authority, '@');
                    let pieces = split_chars_on(&after_user, ':');
                    proof {
                        crate::bytes::lemma_split_nonempty(after_user@, ':');
                    }
                    let host = slice_chars(&pieces[0], 0, pieces[0].len());
                    assert(host@ =~= authority_host(authority@));
                    let parts = path_parts_exec(&path);
                    parts_result(&host, &parts)
                },
            }
        },
    }
}

/// Host, owner and repository of a remote URL, in scp form (`git@host:owner/repo.git`) or URL
/// form (`https://host/owner/repo`, `ssh://git@host:22/owner/repo.git`); `None` for anything
/// else, such as a local path.
pub fn parse_hosted_remote(remote_url: &str) -> (r: Option<HostedRemote>)
    ensures
        match (r, hosted_remote_spec(remote_url@)) {
            (None, None) => true,
            (Some(h), Some(p)) => h.parts() == p,
            _ => false,
        },
{
    let chars = chars_of(remote_url);
    let trimmed = trim_whitespace_exec(&chars);
    let unslashed = trim_end_slashes(&trimmed);
    let sanitized = trim_git_suffixes(unslashed);
    match scp_remote_exec(&sanitized) {
        Some(r) => Some(r),
        None => url_remote_exec(&sanitized),
    }
}

} // verus!
