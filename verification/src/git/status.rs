//! Working tree status (`git status --porcelain=v2 -z`) and the ignored-path listing.

use vstd::prelude::*;

use crate::bytes::{join_bytes, lemma_nonempty_fields_nonempty, nonempty_fields, nonempty_fields_of, split_bytes, split_on};
use crate::order::{sort_strings, sorted, views};
use crate::text::{
    chars_of, lossy_string, push_bytes, slice_bytes, starts_with, string_from_chars, utf8_lossy,
};
use crate::util::{sha256, sha256_hex};

verus! {

broadcast use vstd::string::group_string_axioms;

#[derive(Debug, Clone, Copy, PartialEq, Eq, Structural)]
pub enum StatusEntryKind {
    Changed,
    Untracked,
}

#[derive(Debug, Clone)]
pub struct StatusEntry {
    pub path: String,
    pub original_path: Option<String>,
    pub index: String,
    pub worktree: String,
    pub kind: StatusEntryKind,
}

#[derive(Debug, Clone)]
pub struct WorkingTreeStatus {
    pub staged: usize,
    pub modified: usize,
    pub untracked: usize,
    pub conflicted: usize,
    pub entries: Vec<StatusEntry>,
    pub dirty: bool,
    pub fingerprint: String,
}

/// What one status row says, as text.
pub struct EntryFields {
    pub path: Seq<char>,
    pub original: Option<Seq<char>>,
    pub index: char,
    pub worktree: char,
    pub untracked: bool,
    pub conflict: bool,
}

pub open spec fn untracked_marker() -> Seq<u8> {
    seq![63u8, 32u8]
}

pub open spec fn ordinary_marker() -> Seq<u8> {
    seq![49u8, 32u8]
}

pub open spec fn rename_marker() -> Seq<u8> {
    seq![50u8, 32u8]
}

pub open spec fn unmerged_marker() -> Seq<u8> {
    seq![117u8, 32u8]
}

/// The path of a porcelain v2 change row: the space-separated parts from `k` on, re-joined,
/// since the path itself may hold spaces.
pub open spec fn row_path(parts: Seq<Seq<u8>>, k: int) -> Seq<char> {
    if k <= parts.len() {
        utf8_lossy(join_bytes(parts.skip(k), 32u8))
    } else {
        Seq::empty()
    }
}

/// Whether a status row is a `1`, `2` or `u` change row.
pub open spec fn is_change_row(row: Seq<u8>) -> bool {
    starts_with(row, ordinary_marker()) || starts_with(row, rename_marker()) || starts_with(
        row,
        unmerged_marker(),
    )
}

/// The XY state of a change row: its second space-separated part, `..` when it has none.
pub open spec fn row_state(row: Seq<u8>) -> Seq<char> {
    let parts = split_bytes(row, 32u8);
    if parts.len() > 1 {
        utf8_lossy(parts[1])
    } else {
        seq!['.', '.']
    }
}

/// The index of the first path part of a change row: 8 for `1`, 9 for `2`, 10 for `u`.
pub open spec fn path_part(row: Seq<u8>) -> int {
    if starts_with(row, ordinary_marker()) {
        8
    } else if starts_with(row, rename_marker()) {
        9
    } else {
        10
    }
}

/// The entry the change row at `i` describes; a rename's original path is the next field.
pub open spec fn change_entry(fields: Seq<Seq<u8>>, i: int) -> EntryFields {
    let row = fields[i];
    let xy = row_state(row);
    EntryFields {
        path: row_path(split_bytes(row, 32u8), path_part(row)),
        original: if starts_with(row, rename_marker()) && i + 1 < fields.len() {
            Some(utf8_lossy(fields[i + 1]))
        } else {
            None
        },
        index: if xy.len() >= 1 {
            xy[0]
        } else {
            '.'
        },
        worktree: if xy.len() >= 2 {
            xy[1]
        } else {
            '.'
        },
        untracked: false,
        conflict: starts_with(row, unmerged_marker()) || xy.contains('U'),
    }
}

/// How many fields the change row at `i` consumes: two for a rename (its original path
/// follows), one otherwise.
pub open spec fn change_step(fields: Seq<Seq<u8>>, i: int) -> int {
    if starts_with(fields[i], rename_marker()) {
        2
    } else {
        1
    }
}

/// The entries described by the status fields from position `i` on. `? path` is untracked;
/// `1`, `2` and `u` rows are changes whose second part is the XY state; a rename (`2`) is
/// followed by a field holding the original path, which it consumes.
pub open spec fn status_entries(fields: Seq<Seq<u8>>, i: int) -> Seq<EntryFields>
    decreases fields.len() + 1 - i,
{
    if i < 0 || i >= fields.len() {
        Seq::empty()
    } else {
        let row = fields[i];
        if starts_with(row, untracked_marker()) {
            seq![
                EntryFields {
                    path: utf8_lossy(row.skip(2)),
                    original: None,
                    index: '?',
                    worktree: '?',
                    untracked: true,
                    conflict: false,
                },
            ] + status_entries(fields, i + 1)
        } else if is_change_row(row) {
            seq![change_entry(fields, i)] + status_entries(fields, i + change_step(fields, i))
        } else {
            status_entries(fields, i + 1)
        }
    }
}

/// The entries of a `status --porcelain=v2 -z` buffer.
pub open spec fn parse_status_entries(buffer: Seq<u8>) -> Seq<EntryFields> {
    status_entries(nonempty_fields(split_bytes(buffer, 0u8)), 0)
}

pub open spec fn count_staged(es: Seq<EntryFields>) -> nat
    decreases es.len(),
{
    if es.len() == 0 {
        0
    } else {
        count_staged(es.drop_last()) + if !es.last().untracked && es.last().index != '.' {
            1nat
        } else {
            0nat
        }
    }
}

pub open spec fn count_modified(es: Seq<EntryFields>) -> nat
    decreases es.len(),
{
    if es.len() == 0 {
        0
    } else {
        count_modified(es.drop_last()) + if !es.last().untracked && es.last().worktree != '.' {
            1nat
        } else {
            0nat
        }
    }
}

pub open spec fn count_untracked(es: Seq<EntryFields>) -> nat
    decreases es.len(),
{
    if es.len() == 0 {
        0
    } else {
        count_untracked(es.drop_last()) + if es.last().untracked {
            1nat
        } else {
            0nat
        }
    }
}

pub open spec fn count_conflicted(es: Seq<EntryFields>) -> nat
    decreases es.len(),
{
    if es.len() == 0 {
        0
    } else {
        count_conflicted(es.drop_last()) + if es.last().conflict {
            1nat
        } else {
            0nat
        }
    }
}

/// The bytes hashed for the status fingerprint: per entry, index and worktree state, NUL, path,
/// NUL, the original path if any, and a newline.
pub open spec fn fingerprint_input(es: Seq<EntryFields>) -> Seq<u8>
    decreases es.len(),
{
    if es.len() == 0 {
        Seq::empty()
    } else {
        let e = es.last();
        fingerprint_input(es.drop_last()) + vstd::utf8::encode_utf8(seq![e.index])
            + vstd::utf8::encode_utf8(seq![e.worktree]) + seq![0u8] + vstd::utf8::encode_utf8(
            e.path,
        ) + seq![0u8] + match e.original {
            Some(o) => vstd::utf8::encode_utf8(o),
            None => Seq::empty(),
        } + seq![10u8]
    }
}

/// `entry` says what `f` says.
pub open spec fn entry_matches(entry: StatusEntry, f: EntryFields) -> bool {
    &&& entry.path@ == f.path
    &&& match (entry.original_path, f.original) {
        (None, None) => true,
        (Some(a), Some(b)) => a@ == b,
        _ => false,
    }
    &&& entry.index@ == seq![f.index]
    &&& entry.worktree@ == seq![f.worktree]
    &&& (entry.kind == StatusEntryKind::Untracked) == f.untracked
}

/// `status` is the summary of the entries `es`.
pub open spec fn status_matches(status: WorkingTreeStatus, es: Seq<EntryFields>) -> bool {
    &&& status.entries@.len() == es.len()
    &&& forall|i: int| 0 <= i < es.len() ==> entry_matches(#[trigger] status.entries@[i], es[i])
    &&& status.staged == count_staged(es)
    &&& status.modified == count_modified(es)
    &&& status.untracked == count_untracked(es)
    &&& status.conflicted == count_conflicted(es)
    &&& status.dirty == (es.len() > 0)
    &&& status.fingerprint@ == sha256_hex(fingerprint_input(es))
}

/// Joins `parts[k..]` with spaces.
fn join_parts_from(parts: &Vec<Vec<u8>>, k: usize) -> (r: Vec<u8>)
    requires
        k <= parts@.len(),
    ensures
        r@ == join_bytes(parts@.map_values(|p: Vec<u8>| p@).skip(k as int), 32u8),
{
    let ghost all = parts@.map_values(|p: Vec<u8>| p@);
    let mut r: Vec<u8> = Vec::new();
    let mut i: usize = k;
    assert(all.skip(k as int).take(0) =~= Seq::<Seq<u8>>::empty());
    while i < parts.len()
        invariant
            k <= i <= parts@.len(),
            all == parts@.map_values(|p: Vec<u8>| p@),
            r@ == join_bytes(all.skip(k as int).take(i - k), 32u8),
        decreases parts.len() - i,
    {
        proof {
            let taken = all.skip(k as int).take(i + 1 - k);
            assert(taken.drop_last() =~= all.skip(k as int).take(i - k));
            assert(taken.last() == parts@[i as int]@);
        }
        if i > k {
            r.push(32u8);
        }
        push_bytes(&mut r, &parts[i]);
        proof {
            let taken = all.skip(k as int).take(i + 1 - k);
            if i == k {
                assert(taken.len() == 1);
                assert(r@ =~= taken[0]);
            }
        }
        i = i + 1;
    }
    assert(all.skip(k as int).take(parts@.len() - k) =~= all.skip(k as int));
    r
}

/// Whether the character `c` is in `s`.
fn chars_have(s: &Vec<char>, c: char) -> (r: bool)
    ensures
        r == s@.contains(c),
{
    crate::text::has_char(s, c)
}

fn one_char_string(c: char) -> (s: String)
    ensures
        s@ == seq![c],
{
    let v = vec![c];
    assert(v@ =~= seq![c]);
    string_from_chars(&v)
}

/// Parses NUL-delimited porcelain v2 status; counts are per entry, and the fingerprint hashes
/// every entry so a resumed `done` can prove nothing changed in between.
pub fn parse_status(buffer: &[u8]) -> (status: WorkingTreeStatus)
    ensures
        status_matches(status, parse_status_entries(buffer@)),
{
    let raw = split_on(buffer, 0u8);
    let ghost raw_spec = split_bytes(buffer@, 0u8);
    let fields = nonempty_fields_of(raw, Ghost(raw_spec));
    let ghost fs = nonempty_fields(raw_spec);
    let mut entries: Vec<StatusEntry> = Vec::new();
    let ghost mut views_so_far: Seq<EntryFields> = Seq::empty();
    let mut staged: usize = 0;
    let mut modified: usize = 0;
    let mut untracked: usize = 0;
    let mut conflicted: usize = 0;
    let mut fingerprint_bytes: Vec<u8> = Vec::new();
    let mut index: usize = 0;
    while index < fields.len()
        invariant
            fields@.len() == fs.len(),
            forall|j: int| 0 <= j < fields@.len() ==> (#[trigger] fields@[j])@ == fs[j],
            index <= fields@.len(),
            views_so_far + status_entries(fs, index as int) == status_entries(fs, 0),
            entries@.len() == views_so_far.len(),
            views_so_far.len() <= index,
            forall|j: int| 0 <= j < entries@.len() ==> entry_matches(#[trigger] entries@[j], views_so_far[j]),
            staged == count_staged(views_so_far),
            modified == count_modified(views_so_far),
            untracked == count_untracked(views_so_far),
            conflicted == count_conflicted(views_so_far),
            staged <= views_so_far.len(),
            modified <= views_so_far.len(),
            untracked <= views_so_far.len(),
            conflicted <= views_so_far.len(),
            fingerprint_bytes@ == fingerprint_input(views_so_far),
        decreases fields.len() + 1 - index,
    {
        let row = &fields[index];
        let ghost row_spec = fs[index as int];
        let question: Vec<u8> = vec![63u8, 32u8];
        let one: Vec<u8> = vec![49u8, 32u8];
        let two: Vec<u8> = vec![50u8, 32u8];
        let unmerged: Vec<u8> = vec![117u8, 32u8];
        assert(question@ =~= untracked_marker());
        assert(one@ =~= ordinary_marker());
        assert(two@ =~= rename_marker());
        assert(unmerged@ =~= unmerged_marker());
        let ghost rest_before = status_entries(fs, index as int);
        if crate::text::bytes_start_with(row, &question) {
            let path_bytes = slice_bytes(row, 2, row.len());
            assert(path_bytes@ =~= row_spec.skip(2));
            let path = lossy_string(&path_bytes);
            let entry = StatusEntry {
                path,
                original_path: None,
                index: one_char_string('?'),
                worktree: one_char_string('?'),
                kind: StatusEntryKind::Untracked,
            };
            let ghost ev = EntryFields {
                path: utf8_lossy(row_spec.skip(2)),
                original: None,
                index: '?',
                worktree: '?',
                untracked: true,
                conflict: false,
            };
            append_fingerprint(&mut fingerprint_bytes, &entry, Ghost(ev));
            entries.push(entry);
            untracked = untracked + 1;
            proof {
                let nv = views_so_far.push(ev);
                assert(nv.drop_last() =~= views_so_far);
                lemma_fingerprint_push(views_so_far, ev);
                assert(rest_before == seq![ev] + status_entries(fs, index + 1));
                assert(nv + status_entries(fs, index + 1) =~= views_so_far + rest_before);
                views_so_far = nv;
            }
            index = index + 1;
            continue;
        }
        let is_one = crate::text::bytes_start_with(row, &one);
        let is_two = crate::text::bytes_start_with(row, &two);
        let is_u = crate::text::bytes_start_with(row, &unmerged);
        if is_one || is_two || is_u {
            let (change, Ghost(ev)) = parse_change_row(&fields, index, Ghost(fs));
            let ChangeRow { entry, step, index_state, worktree_state, conflict } = change;
            append_fingerprint(&mut fingerprint_bytes, &entry, Ghost(ev));
            entries.push(entry);
            if index_state != '.' {
                staged = staged + 1;
            }
            if worktree_state != '.' {
                modified = modified + 1;
            }
            if conflict {
                conflicted = conflicted + 1;
            }
            proof {
                let nv = views_so_far.push(ev);
                assert(nv.drop_last() =~= views_so_far);
                lemma_fingerprint_push(views_so_far, ev);
                assert(nv + status_entries(fs, index + step) =~= views_so_far + rest_before);
                views_so_far = nv;
            }
            index = index + step;
            continue;
        }
        proof {
            assert(rest_before == status_entries(fs, index + 1));
        }
        index = index + 1;
    }
    proof {
        assert(status_entries(fs, index as int) =~= Seq::<EntryFields>::empty());
        assert(views_so_far =~= status_entries(fs, 0));
    }
    let fingerprint = sha256(&fingerprint_bytes);
    let dirty = entries.len() > 0;
    WorkingTreeStatus { staged, modified, untracked, conflicted, entries, dirty, fingerprint }
}

/// A parsed change row: its entry, the fields it consumes, and what the counters need.
struct ChangeRow {
    entry: StatusEntry,
    step: usize,
    index_state: char,
    worktree_state: char,
    conflict: bool,
}

/// The entry a `1`, `2` or `u` row describes, and how many fields it consumes.
fn parse_change_row(fields: &Vec<Vec<u8>>, index: usize, Ghost(fs): Ghost<Seq<Seq<u8>>>) -> (r: (
    ChangeRow,
    Ghost<EntryFields>,
))
    requires
        index < fields@.len(),
        fields@.len() == fs.len(),
        forall|j: int| 0 <= j < fields@.len() ==> (#[trigger] fields@[j])@ == fs[j],
        starts_with(fs[index as int], ordinary_marker()) || starts_with(
            fs[index as int],
            rename_marker(),
        ) || starts_with(fs[index as int], unmerged_marker()),
        !starts_with(fs[index as int], untracked_marker()),
    ensures
        status_entries(fs, index as int) == seq![r.1@] + status_entries(fs, index + r.0.step),
        entry_matches(r.0.entry, r.1@),
        r.0.entry.kind == StatusEntryKind::Changed,
        !r.1@.untracked,
        r.0.step == 1 || r.0.step == 2,
        index + r.0.step <= fields@.len(),
        r.0.index_state == r.1@.index,
        r.0.worktree_state == r.1@.worktree,
        r.0.conflict == r.1@.conflict,
{
    let row = &fields[index];
    let ghost row_spec = fs[index as int];
    let one: Vec<u8> = vec![49u8, 32u8];
    let two: Vec<u8> = vec![50u8, 32u8];
    let unmerged: Vec<u8> = vec![117u8, 32u8];
    assert(one@ =~= ordinary_marker());
    assert(two@ =~= rename_marker());
    assert(unmerged@ =~= unmerged_marker());
    let is_one = crate::text::bytes_start_with(row, &one);
    let is_two = crate::text::bytes_start_with(row, &two);
    let is_u = crate::text::bytes_start_with(row, &unmerged);
    let parts = split_on(row, 32u8);
    let ghost parts_spec = split_bytes(row_spec, 32u8);
    assert(parts@.map_values(|p: Vec<u8>| p@) =~= parts_spec);
    let ghost xy_spec = if parts_spec.len() > 1 {
        utf8_lossy(parts_spec[1])
    } else {
        seq!['.', '.']
    };
    let xy: Vec<char> = if parts.len() > 1 {
        let text = lossy_string(&parts[1]);
        assert(parts@[1]@ == parts_spec[1]);
        chars_of(text.as_str())
    } else {
        vec!['.', '.']
    };
    assert(xy@ =~= xy_spec);
    let k: usize = if is_one {
        8
    } else if is_two {
        9
    } else {
        10
    };
    let path = if k <= parts.len() {
        let joined = join_parts_from(&parts, k);
        lossy_string(&joined)
    } else {
        String::new()
    };
    let has_original = is_two && fields.len() - index > 1;
    let original = if has_original {
        Some(lossy_string(&fields[index + 1]))
    } else {
        None
    };
    let index_state = if xy.len() >= 1 {
        xy[0]
    } else {
        '.'
    };
    let worktree_state = if xy.len() >= 2 {
        xy[1]
    } else {
        '.'
    };
    let conflict = is_u || chars_have(&xy, 'U');
    let ghost ev = EntryFields {
        path: row_path(parts_spec, k as int),
        original: if has_original {
            Some(utf8_lossy(fs[index + 1]))
        } else {
            None
        },
        index: index_state,
        worktree: worktree_state,
        untracked: false,
        conflict,
    };
    let entry = StatusEntry {
        path,
        original_path: original,
        index: one_char_string(index_state),
        worktree: one_char_string(worktree_state),
        kind: StatusEntryKind::Changed,
    };
    let step: usize = if has_original {
        2
    } else {
        1
    };
    proof {
        assert(k as int == path_part(row_spec));
        assert(ev == change_entry(fs, index as int));
        assert(status_entries(fs, index + change_step(fs, index as int)) == status_entries(
            fs,
            index + step,
        ));
    }
    (ChangeRow { entry, step, index_state, worktree_state, conflict }, Ghost(ev))
}

proof fn lemma_fingerprint_push(vs: Seq<EntryFields>, ev: EntryFields)
    ensures
        fingerprint_input(vs.push(ev)) == fingerprint_input(vs) + fingerprint_input(seq![ev]),
{
    let e = seq![ev];
    assert(vs.push(ev).drop_last() =~= vs);
    assert(e.drop_last() =~= Seq::<EntryFields>::empty());
    assert(fingerprint_input(Seq::<EntryFields>::empty()) =~= Seq::<u8>::empty());
    let tail = fingerprint_input(e);
    assert(fingerprint_input(vs.push(ev)) =~= fingerprint_input(vs) + tail);
}

/// Adds one entry's fingerprint bytes.
fn append_fingerprint(out: &mut Vec<u8>, entry: &StatusEntry, Ghost(ev): Ghost<EntryFields>)
    requires
        entry_matches(*entry, ev),
    ensures
        final(out)@ == old(out)@ + (fingerprint_input(seq![ev])),
{
    let ghost start = out@;
    push_bytes(out, entry.index.as_str().as_bytes());
    push_bytes(out, entry.worktree.as_str().as_bytes());
    out.push(0u8);
    push_bytes(out, entry.path.as_str().as_bytes());
    out.push(0u8);
    let ghost mid = out@;
    assert(mid == start + vstd::utf8::encode_utf8(seq![ev.index]) + vstd::utf8::encode_utf8(
        seq![ev.worktree],
    ) + seq![0u8] + vstd::utf8::encode_utf8(ev.path) + seq![0u8]);
    match &entry.original_path {
        Some(original) => {
            push_bytes(out, original.as_str().as_bytes());
        },
        None => {},
    }
    let ghost tail = match ev.original {
        Some(o) => vstd::utf8::encode_utf8(o),
        None => Seq::<u8>::empty(),
    };
    assert(out@ =~= mid + tail);
    out.push(10u8);
    proof {
        let e = seq![ev];
        assert(e.drop_last() =~= Seq::<EntryFields>::empty());
        assert(e.last() == ev);
        assert(fingerprint_input(Seq::<EntryFields>::empty()) =~= Seq::<u8>::empty());
        assert(fingerprint_input(e) =~= vstd::utf8::encode_utf8(seq![ev.index])
            + vstd::utf8::encode_utf8(seq![ev.worktree]) + seq![0u8] + vstd::utf8::encode_utf8(
            ev.path,
        ) + seq![0u8] + tail + seq![10u8]);
        assert(out@ =~= start + fingerprint_input(e));
    }
}

/// The decoded non-empty NUL-separated fields of `stdout`, in order; none of them is empty.
pub fn nul_field_texts(stdout: &[u8]) -> (texts: Vec<String>)
    ensures
        views(texts@) == ignored_entry_texts(stdout@),
        forall|j: int| 0 <= j < texts@.len() ==> (#[trigger] texts@[j])@.len() > 0,
{
    let raw = split_on(stdout, 0u8);
    let ghost raw_spec = split_bytes(stdout@, 0u8);
    let fields = nonempty_fields_of(raw, Ghost(raw_spec));
    let mut texts: Vec<String> = Vec::new();
    let mut i: usize = 0;
    while i < fields.len()
        invariant
            i <= fields@.len(),
            fields@.len() == nonempty_fields(raw_spec).len(),
            raw_spec == split_bytes(stdout@, 0u8),
            forall|j: int| 0 <= j < fields@.len() ==> (#[trigger] fields@[j])@ == nonempty_fields(raw_spec)[j],
            views(texts@) == nonempty_fields(raw_spec).take(i as int).map_values(
                |f: Seq<u8>| utf8_lossy(f),
            ),
            forall|j: int| 0 <= j < texts@.len() ==> (#[trigger] texts@[j])@.len() > 0,
        decreases fields.len() - i,
    {
        proof {
            lemma_nonempty_fields_nonempty(raw_spec, i as int);
        }
        let text = lossy_string(&fields[i]);
        let ghost before = views(texts@);
        texts.push(text);
        proof {
            let ne = nonempty_fields(raw_spec);
            assert(ne.take(i + 1) =~= ne.take(i as int).push(ne[i as int]));
            assert(views(texts@) =~= before.push(utf8_lossy(ne[i as int])));
            assert(ne.take(i + 1).map_values(|f: Seq<u8>| utf8_lossy(f)) =~= ne.take(
                i as int,
            ).map_values(|f: Seq<u8>| utf8_lossy(f)).push(utf8_lossy(ne[i as int])));
        }
        i = i + 1;
    }
    assert(nonempty_fields(raw_spec).take(fields@.len() as int) =~= nonempty_fields(raw_spec));
    texts
}

/// Ignored paths reported by `git ls-files --others --ignored --directory -z`, sorted.
pub fn list_ignored_entries(stdout: &[u8]) -> (entries: Vec<String>)
    ensures
        sorted(views(entries@)),
        views(entries@).to_multiset() == ignored_entry_texts(stdout@).to_multiset(),
        forall|j: int| 0 <= j < entries@.len() ==> (#[trigger] entries@[j])@.len() > 0,
{
    let texts = nul_field_texts(stdout);
    let entries = sort_strings(&texts);
    proof {
        broadcast use vstd::seq_lib::group_to_multiset_ensures;
        assert forall|j: int| 0 <= j < entries@.len() implies (#[trigger] entries@[j])@.len() > 0 by {
            assert(views(entries@)[j] == entries@[j]@);
            assert(views(entries@).contains(entries@[j]@));
            assert(views(texts@).to_multiset().count(entries@[j]@) > 0);
            assert(views(texts@).contains(entries@[j]@));
            let k = choose|k: int| 0 <= k < views(texts@).len() && views(texts@)[k] == entries@[j]@;
            assert(texts@[k]@ == entries@[j]@);
        }
    }
    entries
}

/// The decoded non-empty NUL-separated fields of `stdout`.
pub open spec fn ignored_entry_texts(stdout: Seq<u8>) -> Seq<Seq<char>> {
    nonempty_fields(split_bytes(stdout, 0u8)).map_values(|f: Seq<u8>| utf8_lossy(f))
}


proof fn lemma_staged_is_filtered(entries: Seq<StatusEntry>, es: Seq<EntryFields>, n: int)
    requires
        entries.len() == es.len(),
        0 <= n <= es.len(),
        forall|i: int| 0 <= i < es.len() ==> entry_matches(#[trigger] entries[i], es[i]),
    ensures
        count_staged(es.take(n)) == entries.take(n).filter(
            |e: StatusEntry| e.kind == StatusEntryKind::Changed && e.index@ != seq!['.'],
        ).len(),
    decreases n,
{
    reveal(Seq::filter);
    if n > 0 {
        lemma_staged_is_filtered(entries, es, n - 1);
        assert(es.take(n).drop_last() =~= es.take(n - 1));
        assert(entries.take(n).drop_last() =~= entries.take(n - 1));
        assert(entries.take(n).last() == entries[n - 1]);
        assert(es.take(n).last() == es[n - 1]);
        assert(entry_matches(entries[n - 1], es[n - 1]));
        assert(entries[n - 1].index@ == seq![es[n - 1].index]);
        if es[n - 1].index == '.' {
            assert(entries[n - 1].index@ =~= seq!['.']);
        } else {
            assert(entries[n - 1].index@[0] != '.');
        }
        if entries[n - 1].kind == StatusEntryKind::Changed {
            assert(!es[n - 1].untracked);
        } else {
            assert(es[n - 1].untracked);
        }
    } else {
        assert(entries.take(0) =~= Seq::<StatusEntry>::empty());
        assert(es.take(0) =~= Seq::<EntryFields>::empty());
    }
}

/// The staged count of a parsed status is the number of its change entries whose index state
/// is not `.`: an added, deleted, renamed or modified file in the index each counts once, an
/// untracked file never does.
pub proof fn law_staged_counts_index_changes(status: WorkingTreeStatus, buffer: Seq<u8>)
    requires
        status_matches(status, parse_status_entries(buffer)),
    ensures
        status.staged == status.entries@.filter(
            |e: StatusEntry| e.kind == StatusEntryKind::Changed && e.index@ != seq!['.'],
        ).len(),
{
    let es = parse_status_entries(buffer);
    lemma_staged_is_filtered(status.entries@, es, es.len() as int);
    assert(es.take(es.len() as int) =~= es);
    assert(status.entries@.take(es.len() as int) =~= status.entries@);
}

} // verus!
