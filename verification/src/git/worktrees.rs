//! Worktrees, read from `git worktree list --porcelain -z`.

use vstd::prelude::*;

use crate::bytes::{nonempty_fields, nonempty_fields_of, split_bytes, split_on};
use crate::git::refs::opt_view;
use crate::text::{
    chars_of, chars_start_with, find_chars_from, find_seq, lossy_string, slice_bytes, slice_chars,
    str_equal, string_from_chars, utf8_lossy,
};
use crate::util::{path_within, is_inside};

verus! {

broadcast use vstd::string::group_string_axioms;

#[derive(Debug, Clone)]
pub struct GitWorktree {
    pub path: String,
    pub head: String,
    pub branch: Option<String>,
    pub branch_ref: Option<String>,
    pub detached: bool,
    pub bare: bool,
    pub locked: bool,
    pub lock_reason: Option<String>,
    pub prunable: bool,
    pub prune_reason: Option<String>,
    pub is_main: bool,
    pub exists: bool,
}

/// What one worktree record says, as text.
pub struct WorktreeFields {
    pub path: Seq<char>,
    pub head: Seq<char>,
    pub branch: Option<Seq<char>>,
    pub branch_ref: Option<Seq<char>>,
    pub detached: bool,
    pub bare: bool,
    pub locked: bool,
    pub lock_reason: Option<Seq<char>>,
    pub prunable: bool,
    pub prune_reason: Option<Seq<char>>,
    pub is_main: bool,
}

impl GitWorktree {
    /// The record this worktree describes (everything but `exists`).
    pub open spec fn fields(self) -> WorktreeFields {
        WorktreeFields {
            path: self.path@,
            head: self.head@,
            branch: opt_view(self.branch),
            branch_ref: opt_view(self.branch_ref),
            detached: self.detached,
            bare: self.bare,
            locked: self.locked,
            lock_reason: opt_view(self.lock_reason),
            prunable: self.prunable,
            prune_reason: opt_view(self.prune_reason),
            is_main: self.is_main,
        }
    }
}

/// The record being read: everything seen since its `worktree` line.
pub struct PendingRecord {
    pub path: Option<Seq<char>>,
    pub head: Seq<char>,
    pub branch_ref: Option<Seq<char>>,
    pub branch: Option<Seq<char>>,
    pub detached: bool,
    pub bare: bool,
    pub locked: bool,
    pub lock_reason: Option<Seq<char>>,
    pub prunable: bool,
    pub prune_reason: Option<Seq<char>>,
}

pub open spec fn no_record() -> PendingRecord {
    PendingRecord {
        path: None,
        head: Seq::empty(),
        branch_ref: None,
        branch: None,
        detached: false,
        bare: false,
        locked: false,
        lock_reason: None,
        prunable: false,
        prune_reason: None,
    }
}

/// The rows after the pending record is closed: a record without a path is dropped, and the
/// first record is the main worktree.
pub open spec fn close_record(rows: Seq<WorktreeFields>, p: PendingRecord) -> Seq<WorktreeFields> {
    match p.path {
        None => rows,
        Some(path) => rows.push(
            WorktreeFields {
                path,
                head: p.head,
                branch: p.branch,
                branch_ref: p.branch_ref,
                detached: p.detached,
                bare: p.bare,
                locked: p.locked,
                lock_reason: p.lock_reason,
                prunable: p.prunable,
                prune_reason: p.prune_reason,
                is_main: rows.len() == 0,
            },
        ),
    }
}

/// The key of a porcelain line: the text before its first space, or all of it.
pub open spec fn line_key(text: Seq<char>) -> Seq<char> {
    match find_seq(text, seq![' ']) {
        Some(i) => text.take(i),
        None => text,
    }
}

/// The value of a porcelain line: the text after its first space, or nothing.
pub open spec fn line_value(text: Seq<char>) -> Seq<char> {
    match find_seq(text, seq![' ']) {
        Some(i) => text.skip(i + 1),
        None => Seq::empty(),
    }
}

pub open spec fn heads_prefix() -> Seq<char> {
    "refs/heads/"@
}

/// `value` without a leading `refs/heads/`.
pub open spec fn short_branch(value: Seq<char>) -> Seq<char> {
    if crate::text::starts_with(value, heads_prefix()) {
        value.skip(heads_prefix().len() as int)
    } else {
        value
    }
}

/// What one porcelain line does to the rows and the pending record.
pub open spec fn porcelain_step(rows: Seq<WorktreeFields>, p: PendingRecord, text: Seq<char>) -> (
    Seq<WorktreeFields>,
    PendingRecord,
) {
    let key = line_key(text);
    let value = line_value(text);
    if key == "worktree"@ {
        (close_record(rows, p), PendingRecord { path: Some(value), ..no_record() })
    } else if key == "HEAD"@ {
        (rows, PendingRecord { head: value, ..p })
    } else if key == "branch"@ {
        (rows, PendingRecord { branch_ref: Some(value), branch: Some(short_branch(value)), ..p })
    } else if key == "detached"@ {
        (rows, PendingRecord { detached: true, ..p })
    } else if key == "bare"@ {
        (rows, PendingRecord { bare: true, ..p })
    } else if key == "locked"@ {
        (
            rows,
            PendingRecord {
                locked: true,
                lock_reason: if value.len() > 0 {
                    Some(value)
                } else {
                    p.lock_reason
                },
                ..p
            },
        )
    } else if key == "prunable"@ {
        (
            rows,
            PendingRecord {
                prunable: true,
                prune_reason: if value.len() > 0 {
                    Some(value)
                } else {
                    p.prune_reason
                },
                ..p
            },
        )
    } else {
        (rows, p)
    }
}

/// The rows and pending record after reading the lines `texts` in order.
pub open spec fn porcelain_state(texts: Seq<Seq<char>>) -> (Seq<WorktreeFields>, PendingRecord)
    decreases texts.len(),
{
    if texts.len() == 0 {
        (Seq::empty(), no_record())
    } else {
        let (rows, p) = porcelain_state(texts.drop_last());
        porcelain_step(rows, p, texts.last())
    }
}

/// A field without the one newline that a blank separator line leaves in front of it.
pub open spec fn strip_separator(raw: Seq<u8>) -> Seq<u8> {
    if raw.len() > 0 && raw[0] == 10u8 {
        raw.skip(1)
    } else {
        raw
    }
}

/// The decoded, non-empty lines of a `worktree list --porcelain -z` buffer.
pub open spec fn porcelain_lines(buffer: Seq<u8>) -> Seq<Seq<char>> {
    nonempty_fields(split_bytes(buffer, 0u8).map_values(|f: Seq<u8>| strip_separator(f))).map_values(
        |f: Seq<u8>| utf8_lossy(f),
    )
}

/// The worktree records of a `worktree list --porcelain -z` buffer.
pub open spec fn parse_worktrees_spec(buffer: Seq<u8>) -> Seq<WorktreeFields> {
    let (rows, p) = porcelain_state(porcelain_lines(buffer));
    close_record(rows, p)
}

/// The executable form of the pending record.
struct Pending {
    path: Option<String>,
    head: String,
    branch_ref: Option<String>,
    branch: Option<String>,
    detached: bool,
    bare: bool,
    locked: bool,
    lock_reason: Option<String>,
    prunable: bool,
    prune_reason: Option<String>,
}

impl Pending {
    spec fn record(self) -> PendingRecord {
        PendingRecord {
            path: opt_view(self.path),
            head: self.head@,
            branch_ref: opt_view(self.branch_ref),
            branch: opt_view(self.branch),
            detached: self.detached,
            bare: self.bare,
            locked: self.locked,
            lock_reason: opt_view(self.lock_reason),
            prunable: self.prunable,
            prune_reason: opt_view(self.prune_reason),
        }
    }

    fn empty() -> (p: Pending)
        ensures
            p.record() == no_record(),
    {
        Pending {
            path: None,
            head: String::new(),
            branch_ref: None,
            branch: None,
            detached: false,
            bare: false,
            locked: false,
            lock_reason: None,
            prunable: false,
            prune_reason: None,
        }
    }
}

/// The records of `rows`.
pub open spec fn rows_view(rows: Seq<GitWorktree>) -> Seq<WorktreeFields> {
    rows.map_values(|w: GitWorktree| w.fields())
}

pub open spec fn all_exist(rows: Seq<GitWorktree>) -> bool {
    forall|i: int| 0 <= i < rows.len() ==> (#[trigger] rows[i]).exists
}

/// Closes the pending record onto `rows`.
fn close_pending(rows: &mut Vec<GitWorktree>, p: Pending)
    requires
        all_exist(old(rows)@),
    ensures
        rows_view(final(rows)@) == close_record(rows_view(old(rows)@), p.record()),
        all_exist(final(rows)@),
{
    match p.path {
        None => {},
        Some(path) => {
            let is_main = rows.len() == 0;
            let w = GitWorktree {
                path,
                head: p.head,
                branch: p.branch,
                branch_ref: p.branch_ref,
                detached: p.detached,
                bare: p.bare,
                locked: p.locked,
                lock_reason: p.lock_reason,
                prunable: p.prunable,
                prune_reason: p.prune_reason,
                is_main,
                exists: true,
            };
            let ghost before = rows@;
            rows.push(w);
            assert(rows_view(rows@) =~= rows_view(before).push(w.fields()));
        },
    }
}

/// Splits a line at its first space.
fn split_line(text: &Vec<char>) -> (r: (Vec<char>, Vec<char>))
    ensures
        r.0@ == line_key(text@),
        r.1@ == line_value(text@),
{
    let space = vec![' '];
    assert(space@ =~= seq![' ']);
    match find_chars_from(text, &space, 0) {
        Some(i) => {
            assert(find_seq(text@, seq![' ']) == Some(i as int));
            proof {
                crate::text::lemma_first_occurrence_from(text@, seq![' '], 0);
                assert(crate::text::occurs_at(text@, seq![' '], i as int));
                assert(seq![' '].len() == 1);
                assert(text@.subrange(i as int, i + 1) == seq![' ']);
            }
            assert(i < text.len());
            let key = slice_chars(text, 0, i);
            let value = slice_chars(text, i + 1, text.len());
            assert(key@ =~= text@.take(i as int));
            assert(value@ =~= text@.skip(i + 1));
            (key, value)
        },
        None => {
            let key = slice_chars(text, 0, text.len());
            assert(key@ =~= text@);
            (key, Vec::new())
        },
    }
}

fn is_key(key: &Vec<char>, word: &str) -> (r: bool)
    ensures
        r == (key@ == word@),
{
    let w = chars_of(word);
    crate::text::chars_equal(key, &w)
}

/// Applies one porcelain line.
fn apply_line(rows: &mut Vec<GitWorktree>, p: Pending, text: &Vec<char>) -> (r: Pending)
    requires
        all_exist(old(rows)@),
    ensures
        (rows_view(final(rows)@), r.record()) == porcelain_step(
            rows_view(old(rows)@),
            p.record(),
            text@,
        ),
        all_exist(final(rows)@),
{
    let (key, value) = split_line(text);
    let ghost before = p.record();
    if is_key(&key, "worktree") {
        close_pending(rows, p);
        let mut next = Pending::empty();
        next.path = Some(string_from_chars(&value));
        return next;
    }
    let mut p = p;
    if is_key(&key, "HEAD") {
        p.head = string_from_chars(&value);
    } else if is_key(&key, "branch") {
        p.branch_ref = Some(string_from_chars(&value));
        let prefix = chars_of("refs/heads/");
        let short = if chars_start_with(&value, &prefix) {
            slice_chars(&value, prefix.len(), value.len())
        } else {
            slice_chars(&value, 0, value.len())
        };
        assert(value@.subrange(0, value@.len() as int) =~= value@);
        assert(value@.subrange(prefix@.len() as int, value@.len() as int) =~= value@.skip(
            prefix@.len() as int,
        ));
        p.branch = Some(string_from_chars(&short));
    } else if is_key(&key, "detached") {
        p.detached = true;
    } else if is_key(&key, "bare") {
        p.bare = true;
    } else if is_key(&key, "locked") {
        p.locked = true;
        if value.len() > 0 {
            p.lock_reason = Some(string_from_chars(&value));
        }
    } else if is_key(&key, "prunable") {
        p.prunable = true;
        if value.len() > 0 {
            p.prune_reason = Some(string_from_chars(&value));
        }
    }
    p
}

/// The lines of the buffer, each without a leading separator newline, empty ones dropped.
fn porcelain_fields(buffer: &[u8]) -> (r: Vec<Vec<u8>>)
    ensures
        r@.len() == nonempty_fields(
            split_bytes(buffer@, 0u8).map_values(|f: Seq<u8>| strip_separator(f)),
        ).len(),
        forall|i: int|
            0 <= i < r@.len() ==> (#[trigger] r@[i])@ == nonempty_fields(
                split_bytes(buffer@, 0u8).map_values(|f: Seq<u8>| strip_separator(f)),
            )[i],
{
    let raw = split_on(buffer, 0u8);
    let ghost stripped_spec = split_bytes(buffer@, 0u8).map_values(|f: Seq<u8>| strip_separator(f));
    let mut stripped: Vec<Vec<u8>> = Vec::new();
    let mut i: usize = 0;
    while i < raw.len()
        invariant
            i <= raw@.len(),
            raw@.len() == split_bytes(buffer@, 0u8).len(),
            forall|j: int| 0 <= j < raw@.len() ==> (#[trigger] raw@[j])@ == split_bytes(buffer@, 0u8)[j],
            stripped@.len() == i,
            stripped_spec == split_bytes(buffer@, 0u8).map_values(|f: Seq<u8>| strip_separator(f)),
            forall|j: int| 0 <= j < i ==> (#[trigger] stripped@[j])@ == stripped_spec[j],
        decreases raw.len() - i,
    {
        let f = &raw[i];
        let s = if f.len() > 0 && f[0] == 10u8 {
            slice_bytes(f, 1, f.len())
        } else {
            slice_bytes(f, 0, f.len())
        };
        assert(s@ =~= strip_separator(f@));
        stripped.push(s);
        i = i + 1;
    }
    nonempty_fields_of(stripped, Ghost(stripped_spec))
}

/// Parses NUL-delimited `git worktree list --porcelain -z` output. Records start at a
/// `worktree` line; Git lists the main worktree first. Every row is marked as existing.
pub fn parse_worktree_porcelain(buffer: &[u8]) -> (worktrees: Vec<GitWorktree>)
    ensures
        rows_view(worktrees@) == parse_worktrees_spec(buffer@),
        forall|i: int| 0 <= i < worktrees@.len() ==> (#[trigger] worktrees@[i]).exists,
{
    let fields = porcelain_fields(buffer);
    let ghost nf = nonempty_fields(
        split_bytes(buffer@, 0u8).map_values(|f: Seq<u8>| strip_separator(f)),
    );
    let ghost lines = porcelain_lines(buffer@);
    let mut rows: Vec<GitWorktree> = Vec::new();
    let mut pending = Pending::empty();
    let mut i: usize = 0;
    while i < fields.len()
        invariant
            i <= fields@.len(),
            fields@.len() == nf.len(),
            lines == nf.map_values(|f: Seq<u8>| utf8_lossy(f)),
            forall|j: int| 0 <= j < fields@.len() ==> (#[trigger] fields@[j])@ == nf[j],
            (rows_view(rows@), pending.record()) == porcelain_state(lines.take(i as int)),
            all_exist(rows@),
        decreases fields.len() - i,
    {
        let text = lossy_string(&fields[i]);
        let chars = chars_of(text.as_str());
        proof {
            assert(lines.take(i + 1).drop_last() =~= lines.take(i as int));
            assert(lines.take(i + 1).last() == chars@);
        }
        pending = apply_line(&mut rows, pending, &chars);
        i = i + 1;
    }
    assert(lines.take(fields@.len() as int) =~= lines);
    close_pending(&mut rows, pending);
    rows
}

/// The worktrees with `exists` set from `present`, which says for each whether its path is a
/// directory now.
pub fn with_existence(worktrees: Vec<GitWorktree>, present: &Vec<bool>) -> (r: Vec<GitWorktree>)
    requires
        present@.len() == worktrees@.len(),
    ensures
        rows_view(r@) == rows_view(worktrees@),
        r@.len() == worktrees@.len(),
        forall|i: int| 0 <= i < r@.len() ==> (#[trigger] r@[i]).exists == present@[i],
{
    let mut out: Vec<GitWorktree> = Vec::new();
    let mut rest = worktrees;
    let ghost all = rest@;
    let mut i: usize = 0;
    let mut taken: Vec<GitWorktree> = Vec::new();
    while i < rest.len()
        invariant
            rest@ == all,
            present@.len() == all.len(),
            i <= all.len(),
            out@.len() == i,
            forall|j: int| 0 <= j < i ==> (#[trigger] out@[j]).fields() == all[j].fields(),
            forall|j: int| 0 <= j < i ==> (#[trigger] out@[j]).exists == present@[j],
        decreases all.len() - i,
    {
        let w = &rest[i];
        let copy = GitWorktree {
            path: w.path.clone(),
            head: w.head.clone(),
            branch: w.branch.clone(),
            branch_ref: w.branch_ref.clone(),
            detached: w.detached,
            bare: w.bare,
            locked: w.locked,
            lock_reason: w.lock_reason.clone(),
            prunable: w.prunable,
            prune_reason: w.prune_reason.clone(),
            is_main: w.is_main,
            exists: present[i],
        };
        out.push(copy);
        i = i + 1;
    }
    assert(rows_view(out@) =~= rows_view(all));
    out
}

fn clone_text(value: &Option<String>) -> (r: Option<String>)
    ensures
        opt_view(r) == opt_view(*value),
{
    match value {
        Some(text) => Some(text.clone()),
        None => None,
    }
}

impl GitWorktree {
    /// A copy with the same record and the same `exists`.
    pub fn duplicate(&self) -> (r: GitWorktree)
        ensures
            r.fields() == self.fields(),
            r.exists == self.exists,
    {
        GitWorktree {
            path: self.path.clone(),
            head: self.head.clone(),
            branch: clone_text(&self.branch),
            branch_ref: clone_text(&self.branch_ref),
            detached: self.detached,
            bare: self.bare,
            locked: self.locked,
            lock_reason: clone_text(&self.lock_reason),
            prunable: self.prunable,
            prune_reason: clone_text(&self.prune_reason),
            is_main: self.is_main,
            exists: self.exists,
        }
    }
}

/// The length of a path's text in bytes, which orders the candidates.
pub open spec fn path_byte_len(path: Seq<char>) -> nat {
    vstd::utf8::encode_utf8(path).len()
}

/// Worktree `k` is the one `cwd` is in: its canonical path holds `cwd`, no candidate has a
/// longer path, and no earlier candidate one as long (the longest path wins, so a nested
/// worktree beats the one that contains it).
pub open spec fn is_current_worktree(
    worktrees: Seq<GitWorktree>,
    canonical: Seq<Seq<char>>,
    cwd: Seq<char>,
    k: int,
) -> bool {
    &&& 0 <= k < worktrees.len()
    &&& path_within(canonical[k], cwd)
    &&& forall|j: int|
        0 <= j < worktrees.len() && path_within(#[trigger] canonical[j], cwd) ==> path_byte_len(
            worktrees[j].path@,
        ) <= path_byte_len(worktrees[k].path@)
    &&& forall|j: int|
        0 <= j < k && path_within(#[trigger] canonical[j], cwd) ==> path_byte_len(
            worktrees[j].path@,
        ) < path_byte_len(worktrees[k].path@)
}

/// The worktree that holds `cwd`. `canonical[i]` is the canonical form of worktree `i`'s path
/// and `cwd` is canonical too, so containment is compared on whole components of normalized
/// text.
pub fn find_current_worktree(worktrees: &Vec<GitWorktree>, canonical: &Vec<String>, cwd: &str) -> (r:
    Option<GitWorktree>)
    requires
        canonical@.len() == worktrees@.len(),
    ensures
        r is None <==> forall|j: int|
            0 <= j < worktrees@.len() ==> !path_within(#[trigger] canonical@[j]@, cwd@),
        r matches Some(w) ==> exists|k: int|
            is_current_worktree(worktrees@, crate::order::views(canonical@), cwd@, k)
                && w.fields() == (#[trigger] worktrees@[k]).fields() && w.exists == worktrees@[k].exists,
{
    let ghost canon = crate::order::views(canonical@);
    let mut best: Option<usize> = None;
    let mut best_len: usize = 0;
    let mut i: usize = 0;
    while i < worktrees.len()
        invariant
            i <= worktrees@.len(),
            canonical@.len() == worktrees@.len(),
            canon == crate::order::views(canonical@),
            best is None ==> forall|j: int| 0 <= j < i ==> !path_within(#[trigger] canon[j], cwd@),
            best matches Some(k) ==> {
                &&& k < i
                &&& path_within(canon[k as int], cwd@)
                &&& best_len == path_byte_len(worktrees@[k as int].path@)
                &&& forall|j: int|
                    0 <= j < i && path_within(#[trigger] canon[j], cwd@) ==> path_byte_len(
                        worktrees@[j].path@,
                    ) <= best_len
                &&& forall|j: int|
                    0 <= j < k && path_within(#[trigger] canon[j], cwd@) ==> path_byte_len(
                        worktrees@[j].path@,
                    ) < best_len
            },
        decreases worktrees.len() - i,
    {
        assert(canon[i as int] == canonical@[i as int]@);
        if is_inside(canonical[i].as_str(), cwd) {
            let len = worktrees[i].path.as_str().as_bytes().len();
            assert(len == path_byte_len(worktrees@[i as int].path@));
            match best {
                None => {
                    best = Some(i);
                    best_len = len;
                },
                Some(k) => {
                    if len > best_len {
                        best = Some(i);
                        best_len = len;
                    }
                },
            }
        }
        i = i + 1;
    }
    match best {
        None => {
            assert forall|j: int| 0 <= j < worktrees@.len() implies !path_within(
                #[trigger] canonical@[j]@,
                cwd@,
            ) by {
                assert(canon[j] == canonical@[j]@);
            }
            None
        },
        Some(k) => {
            let w = worktrees[k].duplicate();
            assert(is_current_worktree(worktrees@, canon, cwd@, k as int));
            assert(path_within(canonical@[k as int]@, cwd@));
            Some(w)
        },
    }
}


proof fn lemma_state_step(texts: Seq<Seq<char>>, n: int)
    requires
        0 < n <= texts.len(),
    ensures
        porcelain_state(texts.take(n)) == porcelain_step(
            porcelain_state(texts.take(n - 1)).0,
            porcelain_state(texts.take(n - 1)).1,
            texts[n - 1],
        ),
{
    assert(texts.take(n).drop_last() =~= texts.take(n - 1));
    assert(texts.take(n).last() == texts[n - 1]);
}

/// After the `worktree` line at `a`, and until another `worktree` line, the record being read
/// is the worktree at that path; once a `prunable` line at `b` was read, it stays prunable.
proof fn lemma_pending_record(texts: Seq<Seq<char>>, a: int, b: Option<int>, n: int)
    requires
        0 <= a < n <= texts.len(),
        line_key(texts[a]) == "worktree"@,
        forall|j: int| a < j < n ==> line_key(#[trigger] texts[j]) != "worktree"@,
        b matches Some(b) ==> a < b < n && line_key(texts[b]) == "prunable"@,
    ensures
        porcelain_state(texts.take(n)).1.path == Some(line_value(texts[a])),
        b is Some ==> porcelain_state(texts.take(n)).1.prunable,
    decreases n,
{
    lemma_state_step(texts, n);
    if n - 1 > a {
        let prev = match b {
            Some(k) => if k < n - 1 { Some(k) } else { None },
            None => None,
        };
        lemma_pending_record(texts, a, prev, n - 1);
        assert(line_key(texts[n - 1]) != "worktree"@);
        if b == Some(n - 1) {
            reveal_strlit("prunable");
            reveal_strlit("worktree");
            reveal_strlit("HEAD");
            reveal_strlit("branch");
            reveal_strlit("detached");
            reveal_strlit("bare");
            reveal_strlit("locked");
            assert("prunable"@.len() != "HEAD"@.len() && "prunable"@.len() != "branch"@.len());
            assert("prunable"@.len() != "bare"@.len() && "prunable"@.len() != "locked"@.len());
            assert("prunable"@[0] != "detached"@[0] && "prunable"@[0] != "worktree"@[0]);
        }
    }
}

/// Every record with a `prunable` line is read as prunable. When the `worktree` line at `a`
/// is followed, before any other `worktree` line, by a `prunable` line at `b`, the record it
/// starts is prunable: whether it is closed by the next `worktree` line at `c` (it is then
/// the last row read so far) or by the end of the listing (it is then the last row parsed).
pub proof fn law_prunable_line_marks_the_record(texts: Seq<Seq<char>>, a: int, b: int, c: Option<int>)
    requires
        0 <= a < b < texts.len(),
        line_key(texts[a]) == "worktree"@,
        line_key(texts[b]) == "prunable"@,
        match c {
            Some(c) => b < c < texts.len() && line_key(texts[c]) == "worktree"@ && forall|j: int|
                a < j < c ==> line_key(#[trigger] texts[j]) != "worktree"@,
            None => forall|j: int| a < j < texts.len() ==> line_key(#[trigger] texts[j]) != "worktree"@,
        },
    ensures
        match c {
            Some(c) => {
                let rows = porcelain_state(texts.take(c + 1)).0;
                rows.len() > 0 && rows.last().prunable && rows.last().path == line_value(texts[a])
            },
            None => {
                let (rows, p) = porcelain_state(texts);
                let parsed = close_record(rows, p);
                parsed.len() > 0 && parsed.last().prunable && parsed.last().path == line_value(texts[a])
            },
        },
{
    match c {
        Some(c) => {
            lemma_pending_record(texts, a, Some(b), c);
            lemma_state_step(texts, c + 1);
        },
        None => {
            lemma_pending_record(texts, a, Some(b), texts.len() as int);
            assert(texts.take(texts.len() as int) =~= texts);
        },
    }
}

/// The same for a listing: in `parse_worktree_porcelain`'s result, the last record is
/// prunable whenever a `prunable` line follows its `worktree` line.
pub proof fn law_prunable_worktree_is_parsed_prunable(buffer: Seq<u8>, a: int, b: int)
    requires
        0 <= a < b < porcelain_lines(buffer).len(),
        line_key(porcelain_lines(buffer)[a]) == "worktree"@,
        line_key(porcelain_lines(buffer)[b]) == "prunable"@,
        forall|j: int| a < j < porcelain_lines(buffer).len() ==> line_key(#[trigger] porcelain_lines(buffer)[j]) != "worktree"@,
    ensures
        parse_worktrees_spec(buffer).len() > 0,
        parse_worktrees_spec(buffer).last().prunable,
        parse_worktrees_spec(buffer).last().path == line_value(porcelain_lines(buffer)[a]),
{
    law_prunable_line_marks_the_record(porcelain_lines(buffer), a, b, None);
}

} // verus!
