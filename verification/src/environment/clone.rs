//! Reusing prepared caches: what a clone reports, and how the reports of several cache roots
//! add up. Copying the trees happens around it.

use vstd::prelude::*;

use crate::environment::roots::{is_within_root, within_root};
use crate::model::CloneMode;

verus! {

/// How one cache root was cloned: by reflink or by copy, and how much.
#[derive(Debug, Clone, Copy)]
pub struct CloneReport {
    pub mode: CloneMode,
    pub files: u64,
    pub bytes: u64,
}

/// The clone mode after one more cache root: a single plain copy makes the whole result a
/// copy, and a reflink counts only when nothing was cloned before.
pub open spec fn merge_mode_spec(current: CloneMode, next: CloneMode) -> CloneMode {
    match (current, next) {
        (_, CloneMode::Copy) => CloneMode::Copy,
        (CloneMode::NotCloned, CloneMode::Reflink) => CloneMode::Reflink,
        (c, _) => c,
    }
}

pub fn merge_clone_mode(current: CloneMode, next: CloneMode) -> (r: CloneMode)
    ensures
        r == merge_mode_spec(current, next),
{
    match (current, next) {
        (_, CloneMode::Copy) => CloneMode::Copy,
        (CloneMode::NotCloned, CloneMode::Reflink) => CloneMode::Reflink,
        (c, _) => c,
    }
}

/// The mode of a whole publication, starting from nothing cloned.
pub open spec fn combined_mode(reports: Seq<CloneReport>) -> CloneMode
    decreases reports.len(),
{
    if reports.len() == 0 {
        CloneMode::NotCloned
    } else {
        merge_mode_spec(combined_mode(reports.drop_last()), reports.last().mode)
    }
}

pub open spec fn total_files(reports: Seq<CloneReport>) -> nat
    decreases reports.len(),
{
    if reports.len() == 0 {
        0
    } else {
        total_files(reports.drop_last()) + reports.last().files as nat
    }
}

pub open spec fn total_bytes(reports: Seq<CloneReport>) -> nat
    decreases reports.len(),
{
    if reports.len() == 0 {
        0
    } else {
        total_bytes(reports.drop_last()) + reports.last().bytes as nat
    }
}

proof fn lemma_totals_grow(reports: Seq<CloneReport>, n: int)
    requires
        0 <= n <= reports.len(),
    ensures
        total_files(reports.take(n)) <= total_files(reports),
        total_bytes(reports.take(n)) <= total_bytes(reports),
    decreases reports.len() - n,
{
    if n < reports.len() {
        lemma_totals_grow(reports, n + 1);
        assert(reports.take(n + 1).drop_last() =~= reports.take(n));
    } else {
        assert(reports.take(n) =~= reports);
    }
}

/// The files, bytes and mode of the cache roots published together.
pub fn combine_reports(reports: &Vec<CloneReport>) -> (r: CloneReport)
    requires
        total_files(reports@) <= u64::MAX,
        total_bytes(reports@) <= u64::MAX,
    ensures
        r.files == total_files(reports@),
        r.bytes == total_bytes(reports@),
        r.mode == combined_mode(reports@),
{
    let mut files: u64 = 0;
    let mut bytes: u64 = 0;
    let mut mode = CloneMode::NotCloned;
    let mut i: usize = 0;
    while i < reports.len()
        invariant
            i <= reports@.len(),
            total_files(reports@) <= u64::MAX,
            total_bytes(reports@) <= u64::MAX,
            files == total_files(reports@.take(i as int)),
            bytes == total_bytes(reports@.take(i as int)),
            mode == combined_mode(reports@.take(i as int)),
        decreases reports.len() - i,
    {
        proof {
            assert(reports@.take(i + 1).drop_last() =~= reports@.take(i as int));
            lemma_totals_grow(reports@, i + 1);
        }
        files = files + reports[i].files;
        bytes = bytes + reports[i].bytes;
        mode = merge_clone_mode(mode, reports[i].mode);
        i = i + 1;
    }
    assert(reports@.take(reports@.len() as int) =~= reports@);
    CloneReport { mode, files, bytes }
}

/// Acre records the clone mode it actually got: once any cache root was plainly copied, the
/// result is a copy, never passed off as a reflink; and it is a reflink only if some root was
/// reflinked and none copied.
pub proof fn law_copy_is_sticky(reports: Seq<CloneReport>)
    ensures
        (exists|i: int| 0 <= i < reports.len() && (#[trigger] reports[i]).mode == CloneMode::Copy)
            ==> combined_mode(reports) == CloneMode::Copy,
        combined_mode(reports) == CloneMode::Reflink ==> (exists|i: int|
            0 <= i < reports.len() && (#[trigger] reports[i]).mode == CloneMode::Reflink) && forall|i: int|
            0 <= i < reports.len() ==> (#[trigger] reports[i]).mode != CloneMode::Copy,
    decreases reports.len(),
{
    if reports.len() > 0 {
        let prev = reports.drop_last();
        law_copy_is_sticky(prev);
        assert forall|i: int| 0 <= i < prev.len() implies #[trigger] prev[i] == reports[i] by {}
        if exists|i: int| 0 <= i < reports.len() && (#[trigger] reports[i]).mode == CloneMode::Copy {
            let i = choose|i: int| 0 <= i < reports.len() && (#[trigger] reports[i]).mode == CloneMode::Copy;
            if i < reports.len() - 1 {
                assert(prev[i].mode == CloneMode::Copy);
            }
        }
        if combined_mode(reports) == CloneMode::Reflink {
            if reports.last().mode == CloneMode::Reflink {
                assert(reports[reports.len() - 1].mode == CloneMode::Reflink);
            } else {
                let i = choose|i: int| 0 <= i < prev.len() && (#[trigger] prev[i]).mode == CloneMode::Reflink;
                assert(reports[i].mode == CloneMode::Reflink);
            }
            assert forall|i: int| 0 <= i < reports.len() implies (#[trigger] reports[i]).mode != CloneMode::Copy by {
                if i < reports.len() - 1 {
                    assert(prev[i] == reports[i]);
                }
            }
        }
    }
}

/// How a cache root is put to `git check-ignore`: with a trailing slash when it is a directory,
/// so directory-only rules such as `node_modules/` match; a file root as it is.
pub fn ignore_query(cache_root: &str, is_dir: bool) -> (q: String)
    ensures
        q@ == if is_dir { cache_root@ + seq!['/'] } else { cache_root@ },
{
    if is_dir {
        let mut text = crate::text::chars_of(cache_root);
        text.push('/');
        crate::text::string_from_chars(&text)
    } else {
        cache_root.to_owned()
    }
}


/// Some seed file lies within `cache_root`.
pub open spec fn overlaps_seed_spec(cache_root: Seq<char>, seed_files: Seq<String>) -> bool {
    exists|i: int| 0 <= i < seed_files.len() && within_root((#[trigger] seed_files[i])@, cache_root)
}

/// Whether a cache root holds one of the plan's seed files; such a root is never cloned, so a
/// secret cannot travel inside a cache.
pub fn overlaps_seed(cache_root: &str, seed_files: &Vec<String>) -> (r: bool)
    ensures
        r == overlaps_seed_spec(cache_root@, seed_files@),
{
    let mut i: usize = 0;
    while i < seed_files.len()
        invariant
            i <= seed_files@.len(),
            forall|j: int| 0 <= j < i ==> !within_root((#[trigger] seed_files@[j])@, cache_root@),
        decreases seed_files.len() - i,
    {
        if is_within_root(seed_files[i].as_str(), cache_root) {
            return true;
        }
        i = i + 1;
    }
    false
}

/// A cache root present in the source is cloned into the destination only when it holds no
/// seed file, is not a Python virtual environment (`pyvenv.cfg`, which embeds its installation
/// path), the destination has nothing there yet, no directory above it in the destination is a
/// symlink, and Git ignores it in the destination.
pub open spec fn cache_clone_rule(
    overlaps_seed: bool,
    virtual_env: bool,
    dst_exists: bool,
    dst_symlink_parent: bool,
    dst_ignored: bool,
) -> bool {
    !overlaps_seed && !virtual_env && !dst_exists && !dst_symlink_parent && dst_ignored
}

/// Whether one cache root is cloned, from what the disk and Git say of it.
pub fn cache_clone_allowed(
    overlaps_seed: bool,
    virtual_env: bool,
    dst_exists: bool,
    dst_symlink_parent: bool,
    dst_ignored: bool,
) -> (ok: bool)
    ensures
        ok <==> cache_clone_rule(overlaps_seed, virtual_env, dst_exists, dst_symlink_parent, dst_ignored),
{
    !overlaps_seed && !virtual_env && !dst_exists && !dst_symlink_parent && dst_ignored
}

} // verus!
