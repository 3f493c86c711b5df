//! Seed files are trusted local configuration such as `.env`: copied only into trusted
//! workspaces, hashed so any edit blocks a return, and scrubbed from idle slots. Reading the
//! files and their metadata happens around this.

use vstd::prelude::*;
use vstd::string::StringSliceAdditionalSpecFns;

use crate::error::{AcreError, EXIT_REFUSED};
use crate::model::{SeedFileSnapshot, TrustLevel};
use crate::number::{decimal, decimal_spec};
use crate::order::{seq_less, strictly_sorted, views};
use crate::text::{push_bytes, push_chars};
use crate::util::{sha256, sha256_hex};

verus! {

/// The seed files a workspace is offered: none for an untrusted target, whose code could read
/// whatever is copied in.
pub fn seed_candidates(files: &Vec<String>, trust: TrustLevel) -> (r: Vec<String>)
    ensures
        trust == TrustLevel::Trusted ==> views(r@) == views(files@),
        trust != TrustLevel::Trusted ==> r@.len() == 0,
{
    if trust != TrustLevel::Trusted {
        return Vec::new();
    }
    crate::text::clone_strings(files)
}

/// A seed file is copied only into a trusted workspace, when neither side reaches it through a
/// symlinked directory, the source checkout has it, the destination has nothing there yet, and
/// Git ignores the path on both sides: a tracked file is never a seed, and nothing the checkout
/// already holds is overwritten.
pub open spec fn seed_copy_rule(
    trust: TrustLevel,
    src_symlink_parent: bool,
    dst_symlink_parent: bool,
    src_exists: bool,
    dst_exists: bool,
    src_ignored: bool,
    dst_ignored: bool,
) -> bool {
    &&& trust == TrustLevel::Trusted
    &&& !src_symlink_parent && !dst_symlink_parent
    &&& src_exists && !dst_exists
    &&& src_ignored && dst_ignored
}

/// Whether one seed file is copied, from what the disk and Git say of it.
pub fn seed_copy_allowed(
    trust: TrustLevel,
    src_symlink_parent: bool,
    dst_symlink_parent: bool,
    src_exists: bool,
    dst_exists: bool,
    src_ignored: bool,
    dst_ignored: bool,
) -> (ok: bool)
    ensures
        ok <==> seed_copy_rule(trust, src_symlink_parent, dst_symlink_parent, src_exists, dst_exists, src_ignored, dst_ignored),
{
    trust == TrustLevel::Trusted && !src_symlink_parent && !dst_symlink_parent && src_exists && !dst_exists
        && src_ignored && dst_ignored
}

/// Clearing seed files or cache roots never works through a symlink: the paths before the
/// first one reached through a symlinked directory (`symlink_parents[i]`) are removed, and that
/// one stops the clearing with `ACRE_UNSAFE_PATH`. `None` when every path is safe.
pub fn first_unsafe_clear(paths: &Vec<String>, symlink_parents: &Vec<bool>) -> (r: Option<usize>)
    requires
        symlink_parents@.len() == paths@.len(),
    ensures
        match r {
            Some(k) => k < paths@.len() && symlink_parents@[k as int] && forall|j: int| 0 <= j < k ==> !symlink_parents@[j],
            None => forall|j: int| 0 <= j < paths@.len() ==> !symlink_parents@[j],
        },
{
    let mut i: usize = 0;
    while i < symlink_parents.len()
        invariant
            i <= symlink_parents@.len(),
            symlink_parents@.len() == paths@.len(),
            forall|j: int| 0 <= j < i ==> !symlink_parents@[j],
        decreases symlink_parents.len() - i,
    {
        if symlink_parents[i] {
            return Some(i);
        }
        i = i + 1;
    }
    None
}

/// The refusal to clear `relative` through a symlink: a seed file's, or a cache root's.
pub fn unsafe_clear_error(relative: &str, seed: bool) -> (e: AcreError)
    ensures
        e.code == "ACRE_UNSAFE_PATH",
        e.exit_code == EXIT_REFUSED,
        e.message@ == (if seed {
            "Cannot remove seed file through a symlink: "@
        } else {
            "Cannot clear a cache through a symlink: "@
        }) + relative@,
{
    let mut text = if seed {
        crate::text::chars_of("Cannot remove seed file through a symlink: ")
    } else {
        crate::text::chars_of("Cannot clear a cache through a symlink: ")
    };
    crate::text::push_str(&mut text, relative);
    AcreError::new("ACRE_UNSAFE_PATH", crate::text::string_from_chars(&text).as_str(), EXIT_REFUSED)
}

/// What a seed path is on disk, as far as its hash is concerned.
#[derive(Debug, Clone)]
pub enum SeedEntry {
    Missing,
    /// A symbolic link and the text it points to; what it points at is not ours.
    Symlink(String),
    /// A file with its permission bits and contents: a chmod on `.env` is a change too.
    File { mode: u32, content: Vec<u8> },
    /// A directory with its permission bits and, sorted by name, each entry's hash (`None`
    /// for an entry that vanished).
    Directory { mode: u32, children: Vec<(String, Option<String>)> },
    Other { mode: u32 },
}

pub open spec fn utf8(s: Seq<char>) -> Seq<u8> {
    vstd::utf8::encode_utf8(s)
}

/// The bytes hashed for each directory entry: its name and hash, each ended by a NUL.
pub open spec fn children_bytes(children: Seq<(Seq<char>, Option<Seq<char>>)>) -> Seq<u8>
    decreases children.len(),
{
    if children.len() == 0 {
        Seq::empty()
    } else {
        let (name, hash) = children.last();
        children_bytes(children.drop_last()) + utf8(name) + seq![0u8] + utf8(
            match hash {
                Some(h) => h,
                None => "missing"@,
            },
        ) + seq![0u8]
    }
}

pub open spec fn children_view(children: Seq<(String, Option<String>)>) -> Seq<(Seq<char>, Option<Seq<char>>)> {
    children.map_values(|c: (String, Option<String>)| (c.0@, crate::git::refs::opt_view(c.1)))
}

/// The hash that stands for a seed path: `None` when it is missing; otherwise the SHA-256 of
/// its kind, its permission bits and what it holds.
pub open spec fn seed_hash_spec(entry: SeedEntry) -> Option<Seq<char>> {
    match entry {
        SeedEntry::Missing => None,
        SeedEntry::Symlink(target) => Some(sha256_hex(utf8("symlink"@ + seq!['\0'] + target@))),
        SeedEntry::File { mode, content } => Some(sha256_hex(
            utf8("file"@ + seq!['\0'] + decimal_spec(mode as nat) + seq!['\0']) + content@,
        )),
        SeedEntry::Directory { mode, children } => Some(sha256_hex(
            utf8("directory"@ + seq!['\0'] + decimal_spec(mode as nat) + seq!['\0']) + children_bytes(children_view(children@)),
        )),
        SeedEntry::Other { mode } => Some(sha256_hex(utf8("other"@ + seq!['\0'] + decimal_spec(mode as nat)))),
    }
}

fn text_bytes(v: &mut Vec<u8>, chars: &Vec<char>)
    ensures
        final(v)@ == old(v)@ + utf8(chars@),
{
    let s = crate::text::string_from_chars(chars);
    let b = s.as_str().as_bytes();
    assert(b@ == utf8(chars@));
    push_bytes(v, b);
}

/// The hash of a seed path, from what is on disk there.
pub fn seed_path_hash(entry: &SeedEntry) -> (r: Option<String>)
    ensures
        match (r, seed_hash_spec(*entry)) {
            (Some(a), Some(b)) => a@ == b,
            (None, None) => true,
            _ => false,
        },
{
    match entry {
        SeedEntry::Missing => None,
        SeedEntry::Symlink(target) => {
            let mut text = crate::text::chars_of("symlink");
            text.push('\0');
            crate::text::push_str(&mut text, target.as_str());
            assert(text@ =~= "symlink"@ + seq!['\0'] + target@);
            let mut bytes: Vec<u8> = Vec::new();
            text_bytes(&mut bytes, &text);
            assert(bytes@ =~= utf8("symlink"@ + seq!['\0'] + target@));
            Some(sha256(bytes.as_slice()))
        },
        SeedEntry::File { mode, content } => {
            let mut text = crate::text::chars_of("file");
            text.push('\0');
            push_chars(&mut text, &decimal(*mode as u64));
            text.push('\0');
            assert(text@ =~= "file"@ + seq!['\0'] + decimal_spec(*mode as nat) + seq!['\0']);
            let mut bytes: Vec<u8> = Vec::new();
            text_bytes(&mut bytes, &text);
            push_bytes(&mut bytes, content.as_slice());
            assert(bytes@ =~= utf8("file"@ + seq!['\0'] + decimal_spec(*mode as nat) + seq!['\0']) + content@);
            Some(sha256(bytes.as_slice()))
        },
        SeedEntry::Directory { mode, children } => {
            let mut text = crate::text::chars_of("directory");
            text.push('\0');
            push_chars(&mut text, &decimal(*mode as u64));
            text.push('\0');
            assert(text@ =~= "directory"@ + seq!['\0'] + decimal_spec(*mode as nat) + seq!['\0']);
            let mut bytes: Vec<u8> = Vec::new();
            text_bytes(&mut bytes, &text);
            let ghost head = bytes@;
            let ghost cv = children_view(children@);
            let mut i: usize = 0;
            while i < children.len()
                invariant
                    i <= children@.len(),
                    cv == children_view(children@),
                    bytes@ == head + children_bytes(cv.take(i as int)),
                decreases children.len() - i,
            {
                let mut piece = crate::text::chars_of(children[i].0.as_str());
                piece.push('\0');
                match &children[i].1 {
                    Some(h) => crate::text::push_str(&mut piece, h.as_str()),
                    None => crate::text::push_str(&mut piece, "missing"),
                }
                piece.push('\0');
                let ghost before = bytes@;
                text_bytes(&mut bytes, &piece);
                proof {
                    let t = cv.take(i + 1);
                    assert(t.drop_last() =~= cv.take(i as int));
                    let (name, hash) = t.last();
                    let hashed = match hash {
                        Some(h) => h,
                        None => "missing"@,
                    };
                    assert(piece@ =~= name + seq!['\0'] + hashed + seq!['\0']);
                    lemma_utf8_concat(name + seq!['\0'] + hashed, seq!['\0']);
                    lemma_utf8_concat(name + seq!['\0'], hashed);
                    lemma_utf8_concat(name, seq!['\0']);
                    assert(utf8(seq!['\0']) =~= seq![0u8]) by {
                        assert(vstd::utf8::is_ascii_chars(seq!['\0']));
                        vstd::utf8::is_ascii_chars_encode_utf8(seq!['\0']);
                    }
                    assert(bytes@ =~= head + children_bytes(t));
                }
                i = i + 1;
            }
            assert(cv.take(cv.len() as int) =~= cv);
            Some(sha256(bytes.as_slice()))
        },
        SeedEntry::Other { mode } => {
            let mut text = crate::text::chars_of("other");
            text.push('\0');
            push_chars(&mut text, &decimal(*mode as u64));
            assert(text@ =~= "other"@ + seq!['\0'] + decimal_spec(*mode as nat));
            let mut bytes: Vec<u8> = Vec::new();
            text_bytes(&mut bytes, &text);
            assert(bytes@ =~= utf8("other"@ + seq!['\0'] + decimal_spec(*mode as nat)));
            Some(sha256(bytes.as_slice()))
        },
    }
}

pub proof fn lemma_utf8_concat(a: Seq<char>, b: Seq<char>)
    ensures
        utf8(a + b) == utf8(a) + utf8(b),
    decreases a.len(),
{
    if a.len() > 0 {
        assert((a + b).drop_first() =~= a.drop_first() + b);
        lemma_utf8_concat(a.drop_first(), b);
        assert(utf8(a + b) =~= utf8(a) + utf8(b));
    } else {
        assert(a + b =~= b);
    }
}

/// The snapshots of the seed files that exist: `hashes[i]` is file `i`'s hash, `None` when it
/// is missing.
pub fn snapshot_seed_files(files: &Vec<String>, hashes: &Vec<Option<String>>) -> (r: Vec<SeedFileSnapshot>)
    requires
        hashes@.len() == files@.len(),
    ensures
        r@.map_values(|s: SeedFileSnapshot| (s.path@, s.hash@)) == snapshot_spec(views(files@), hashes@.map_values(
            |h: Option<String>| crate::git::refs::opt_view(h),
        )),
{
    let ghost hv = hashes@.map_values(|h: Option<String>| crate::git::refs::opt_view(h));
    let mut r: Vec<SeedFileSnapshot> = Vec::new();
    let mut i: usize = 0;
    while i < files.len()
        invariant
            i <= files@.len(),
            hashes@.len() == files@.len(),
            hv == hashes@.map_values(|h: Option<String>| crate::git::refs::opt_view(h)),
            r@.map_values(|s: SeedFileSnapshot| (s.path@, s.hash@)) == snapshot_spec(views(files@).take(i as int), hv.take(i as int)),
        decreases files.len() - i,
    {
        assert(views(files@).take(i + 1).drop_last() =~= views(files@).take(i as int));
        assert(hv.take(i + 1).drop_last() =~= hv.take(i as int));
        match &hashes[i] {
            Some(h) => {
                let ghost before = r@.map_values(|s: SeedFileSnapshot| (s.path@, s.hash@));
                r.push(SeedFileSnapshot { path: files[i].clone(), hash: h.clone() });
                assert(r@.map_values(|s: SeedFileSnapshot| (s.path@, s.hash@)) =~= before.push((files@[i as int]@, h@)));
            },
            None => {},
        }
        i = i + 1;
    }
    assert(views(files@).take(files@.len() as int) =~= views(files@));
    assert(hv.take(files@.len() as int) =~= hv);
    r
}

/// The present seed files with their hashes, in order.
pub open spec fn snapshot_spec(files: Seq<Seq<char>>, hashes: Seq<Option<Seq<char>>>) -> Seq<(Seq<char>, Seq<char>)>
    decreases files.len(),
{
    if files.len() == 0 || hashes.len() == 0 {
        Seq::empty()
    } else {
        let prev = snapshot_spec(files.drop_last(), hashes.drop_last());
        match hashes.last() {
            Some(h) => prev.push((files.last(), h)),
            None => prev,
        }
    }
}

/// The seed files that changed since activation: reached through a symlink
/// (`through_symlink[i]`), deleted, or hashing differently now (`hashes[i]`). A deleted seed
/// file counts as changed: the user may have moved secrets out on purpose.
pub open spec fn changed_spec(
    baseline: Seq<(Seq<char>, Seq<char>)>,
    through_symlink: Seq<bool>,
    hashes: Seq<Option<Seq<char>>>,
) -> Seq<Seq<char>>
    decreases baseline.len(),
{
    if baseline.len() == 0 || through_symlink.len() == 0 || hashes.len() == 0 {
        Seq::empty()
    } else {
        let prev = changed_spec(baseline.drop_last(), through_symlink.drop_last(), hashes.drop_last());
        if through_symlink.last() || hashes.last() != Some(baseline.last().1) {
            prev.push(baseline.last().0)
        } else {
            prev
        }
    }
}

pub fn changed_seed_files(
    baseline: &Vec<SeedFileSnapshot>,
    through_symlink: &Vec<bool>,
    hashes: &Vec<Option<String>>,
) -> (r: Vec<String>)
    requires
        through_symlink@.len() == baseline@.len(),
        hashes@.len() == baseline@.len(),
    ensures
        views(r@) == changed_spec(
            baseline@.map_values(|s: SeedFileSnapshot| (s.path@, s.hash@)),
            through_symlink@,
            hashes@.map_values(|h: Option<String>| crate::git::refs::opt_view(h)),
        ),
{
    let ghost bv = baseline@.map_values(|s: SeedFileSnapshot| (s.path@, s.hash@));
    let ghost hv = hashes@.map_values(|h: Option<String>| crate::git::refs::opt_view(h));
    let mut r: Vec<String> = Vec::new();
    let mut i: usize = 0;
    while i < baseline.len()
        invariant
            i <= baseline@.len(),
            through_symlink@.len() == baseline@.len(),
            hashes@.len() == baseline@.len(),
            bv == baseline@.map_values(|s: SeedFileSnapshot| (s.path@, s.hash@)),
            hv == hashes@.map_values(|h: Option<String>| crate::git::refs::opt_view(h)),
            views(r@) == changed_spec(bv.take(i as int), through_symlink@.take(i as int), hv.take(i as int)),
        decreases baseline.len() - i,
    {
        assert(bv.take(i + 1).drop_last() =~= bv.take(i as int));
        assert(through_symlink@.take(i + 1).drop_last() =~= through_symlink@.take(i as int));
        assert(hv.take(i + 1).drop_last() =~= hv.take(i as int));
        let same = match &hashes[i] {
            Some(h) => crate::text::str_equal(h.as_str(), baseline[i].hash.as_str()),
            None => false,
        };
        if through_symlink[i] || !same {
            let ghost before = views(r@);
            r.push(baseline[i].path.clone());
            assert(views(r@) =~= before.push(baseline@[i as int].path@));
        }
        i = i + 1;
    }
    assert(bv.take(bv.len() as int) =~= bv);
    assert(through_symlink@.take(bv.len() as int) =~= through_symlink@);
    assert(hv.take(bv.len() as int) =~= hv);
    r
}


/// A seed snapshot read back unchanged reports nothing: when no recorded path is reached
/// through a symlink and each hashes now as it did when recorded, no seed file changed.
pub proof fn law_unchanged_snapshot_reports_nothing(baseline: Seq<(Seq<char>, Seq<char>)>)
    ensures
        changed_spec(
            baseline,
            Seq::new(baseline.len(), |i: int| false),
            baseline.map_values(|e: (Seq<char>, Seq<char>)| Some(e.1)),
        ).len() == 0,
    decreases baseline.len(),
{
    if baseline.len() > 0 {
        let rest = baseline.drop_last();
        law_unchanged_snapshot_reports_nothing(rest);
        assert(Seq::new(baseline.len(), |i: int| false).drop_last() =~= Seq::new(rest.len(), |i: int| false));
        assert(baseline.map_values(|e: (Seq<char>, Seq<char>)| Some(e.1)).drop_last() =~= rest.map_values(
            |e: (Seq<char>, Seq<char>)| Some(e.1),
        ));
    }
}


/// No seed file ever reaches a pull request from another repository: such a target is
/// untrusted, and seeds are copied only into trusted workspaces, whatever the disk says.
pub proof fn law_cross_repository_pull_requests_get_no_seeds(
    pr: crate::model::PullRequestTarget,
    oid: Seq<char>,
    src_symlink_parent: bool,
    dst_symlink_parent: bool,
    src_exists: bool,
    dst_exists: bool,
    src_ignored: bool,
    dst_ignored: bool,
)
    requires
        pr.cross_repository,
    ensures
        !seed_copy_rule(
            crate::provider::github::pull_request_fields(pr, oid).trust,
            src_symlink_parent,
            dst_symlink_parent,
            src_exists,
            dst_exists,
            src_ignored,
            dst_ignored,
        ),
{
}


/// A snapshot taken and checked again while nothing under the worktree changed reports no
/// change: whatever files were asked for and whichever exist (`hashes`), re-reading each
/// recorded path gives its recorded hash, no path is reached through a symlink, and so
/// `changed_seed_files` finds nothing.
pub proof fn law_snapshot_unchanged_reports_nothing(files: Seq<Seq<char>>, hashes: Seq<Option<Seq<char>>>)
    ensures
        ({
            let snapshot = snapshot_spec(files, hashes);
            changed_spec(
                snapshot,
                Seq::new(snapshot.len(), |i: int| false),
                snapshot.map_values(|e: (Seq<char>, Seq<char>)| Some(e.1)),
            ).len() == 0
        }),
{
    law_unchanged_snapshot_reports_nothing(snapshot_spec(files, hashes));
}

} // verus!
