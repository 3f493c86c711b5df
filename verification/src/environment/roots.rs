//! Where a worktree's ignored data lives: approved cache-root directories, and the Git-ignored
//! paths that fall outside every one of them.

use vstd::prelude::*;

use crate::bytes::{join_bytes, join_char_fields, split_bytes, split_chars_on};
use crate::order::{
    lemma_less_asymmetric, lemma_less_irreflexive, lemma_less_total, lemma_less_transitive,
    seq_less, sort_unique_strings, strictly_sorted, views,
};
use crate::text::{
    chars_contain, chars_end_with, chars_of, chars_start_with, contains_seq, ends_with, push_chars,
    push_str, slice_chars, starts_with, string_from_chars,
};

verus! {

#[derive(Debug)]
pub struct IgnoredLayout {
    pub cache_roots: Vec<String>,
    pub unknown: Vec<String>,
}

/// `/path/` holds `/root/`: `path` is `root`, or lies beneath a directory matching `root` at any
/// depth.
pub open spec fn within_root(path: Seq<char>, root: Seq<char>) -> bool {
    contains_seq(seq!['/'] + path + seq!['/'], seq!['/'] + root + seq!['/'])
}

fn slashed(s: &str) -> (r: Vec<char>)
    ensures
        r@ == seq!['/'] + s@ + seq!['/'],
{
    let mut r = vec!['/'];
    push_str(&mut r, s);
    r.push('/');
    assert(r@ =~= seq!['/'] + s@ + seq!['/']);
    r
}

/// True when the repository-relative `path` is `root` or lies beneath a directory matching
/// `root` at any depth, so `packages/app/node_modules` matches the root `node_modules`. Both
/// sides arrive without `./` prefixes or trailing slashes.
pub fn is_within_root(path: &str, root: &str) -> (r: bool)
    ensures
        r == within_root(path@, root@),
{
    chars_contain(&slashed(path), &slashed(root))
}

impl IgnoredLayout {
    /// A directory matching `root` is present at any depth.
    pub fn has_cache_root(&self, root: &str) -> (r: bool)
        ensures
            r == exists|i: int|
                0 <= i < self.cache_roots@.len() && within_root(#[trigger] self.cache_roots@[i]@, root@),
    {
        let mut i: usize = 0;
        while i < self.cache_roots.len()
            invariant
                i <= self.cache_roots@.len(),
                forall|j: int| 0 <= j < i ==> !within_root(#[trigger] self.cache_roots@[j]@, root@),
            decreases self.cache_roots.len() - i,
        {
            if is_within_root(self.cache_roots[i].as_str(), root) {
                return true;
            }
            i = i + 1;
        }
        false
    }
}

/// The nested root that completes `entry` for the first `count` parts of `root`, trying the
/// longest matching prefix of `root` first.
pub open spec fn nested_from(entry_parts: Seq<Seq<char>>, root_parts: Seq<Seq<char>>, count: int) -> Option<
    int,
>
    decreases count,
{
    if count < 1 || count >= root_parts.len() {
        None
    } else if ends_with(entry_parts, root_parts.take(count)) {
        Some(count)
    } else {
        nested_from(entry_parts, root_parts, count - 1)
    }
}

/// When an ignored directory `entry` ends with the leading components of a multi-component
/// cache root, the root completed inside it: `apps/web/.next` and `.next/cache` give
/// `apps/web/.next/cache`.
pub open spec fn nested_root_spec(entry: Seq<char>, root: Seq<char>) -> Option<Seq<char>> {
    if !root.contains('/') {
        None
    } else {
        let root_parts = split_bytes(root, '/');
        match nested_from(split_bytes(entry, '/'), root_parts, root_parts.len() - 1) {
            Some(count) => Some(entry + seq!['/'] + join_bytes(root_parts.skip(count), '/')),
            None => None,
        }
    }
}

fn parts_end_with(entry_parts: &Vec<Vec<char>>, root_parts: &Vec<Vec<char>>, count: usize) -> (r: bool)
    requires
        count <= root_parts@.len(),
    ensures
        r == ends_with(
            entry_parts@.map_values(|p: Vec<char>| p@),
            root_parts@.map_values(|p: Vec<char>| p@).take(count as int),
        ),
{
    let ghost e = entry_parts@.map_values(|p: Vec<char>| p@);
    let ghost t = root_parts@.map_values(|p: Vec<char>| p@).take(count as int);
    if count > entry_parts.len() {
        return false;
    }
    let total = entry_parts.len();
    let offset = total - count;
    let mut i: usize = 0;
    while i < count
        invariant
            i <= count <= root_parts@.len(),
            total == entry_parts@.len(),
            offset + count == total,
            e == entry_parts@.map_values(|p: Vec<char>| p@),
            t == root_parts@.map_values(|p: Vec<char>| p@).take(count as int),
            forall|j: int| 0 <= j < i ==> e[offset + j] == t[j],
        decreases count - i,
    {
        assert(offset + i < entry_parts@.len());
        if !crate::text::chars_equal(&entry_parts[offset + i], &root_parts[i]) {
            assert(e.skip(offset as int)[i as int] != t[i as int]);
            return false;
        }
        i = i + 1;
    }
    assert(e.skip(e.len() - t.len()) =~= t);
    true
}

/// The completed nested root for `entry`, as [`nested_root_spec`] describes.
pub fn nested_cache_root(entry: &str, root: &str) -> (r: Option<String>)
    ensures
        match (r, nested_root_spec(entry@, root@)) {
            (Some(a), Some(b)) => a@ == b,
            (None, None) => true,
            _ => false,
        },
{
    let root_chars = chars_of(root);
    if !crate::text::has_char(&root_chars, '/') {
        return None;
    }
    let entry_chars = chars_of(entry);
    let root_parts = split_chars_on(&root_chars, '/');
    let entry_parts = split_chars_on(&entry_chars, '/');
    let ghost rp = split_bytes(root@, '/');
    let ghost ep = split_bytes(entry@, '/');
    assert(root_parts@.map_values(|p: Vec<char>| p@) =~= rp);
    assert(entry_parts@.map_values(|p: Vec<char>| p@) =~= ep);
    proof {
        crate::bytes::lemma_split_nonempty(root@, '/');
    }
    let mut count: usize = root_parts.len() - 1;
    while count >= 1
        invariant
            count < root_parts@.len(),
            rp == root_parts@.map_values(|p: Vec<char>| p@),
            ep == entry_parts@.map_values(|p: Vec<char>| p@),
            nested_from(ep, rp, rp.len() - 1) == nested_from(ep, rp, count as int),
            entry_chars@ == entry@,
            root@.contains('/'),
            rp == split_bytes(root@, '/'),
            ep == split_bytes(entry@, '/'),
        decreases count,
    {
        if parts_end_with(&entry_parts, &root_parts, count) {
            let tail = join_char_fields(&root_parts, count, root_parts.len(), '/');
            assert(rp.subrange(count as int, rp.len() as int) =~= rp.skip(count as int));
            let mut out = entry_chars;
            out.push('/');
            push_chars(&mut out, &tail);
            assert(out@ =~= entry@ + seq!['/'] + join_bytes(rp.skip(count as int), '/'));
            return Some(string_from_chars(&out));
        }
        count = count - 1;
    }
    None
}

/// `candidate` lies beneath `kept`: it starts with `kept` followed by a separator.
pub open spec fn beneath(candidate: Seq<char>, kept: Seq<char>) -> bool {
    starts_with(candidate, kept + seq!['/'])
}

/// The paths of the sorted `paths` that no earlier kept path covers.
pub open spec fn kept_roots(paths: Seq<Seq<char>>) -> Seq<Seq<char>>
    decreases paths.len(),
{
    if paths.len() == 0 {
        Seq::empty()
    } else {
        let prev = kept_roots(paths.drop_last());
        if exists|k: int| 0 <= k < prev.len() && beneath(paths.last(), #[trigger] prev[k]) {
            prev
        } else {
            prev.push(paths.last())
        }
    }
}

fn covered_by(kept: &Vec<String>, candidate: &str) -> (r: bool)
    ensures
        r == exists|k: int| 0 <= k < kept@.len() && beneath(candidate@, #[trigger] views(kept@)[k]),
{
    let c = chars_of(candidate);
    let mut i: usize = 0;
    while i < kept.len()
        invariant
            i <= kept@.len(),
            c@ == candidate@,
            forall|k: int| 0 <= k < i ==> !beneath(candidate@, #[trigger] views(kept@)[k]),
        decreases kept.len() - i,
    {
        let mut prefix = chars_of(kept[i].as_str());
        prefix.push('/');
        assert(prefix@ =~= views(kept@)[i as int] + seq!['/']);
        if chars_start_with(&c, &prefix) {
            return true;
        }
        i = i + 1;
    }
    false
}

/// The paths, sorted and without repeats, minus every path beneath another kept one. Sorted
/// order puts parents first, so anything beneath a kept path is already covered.
pub fn without_descendants(paths: Vec<String>) -> (r: Vec<String>)
    ensures
        exists|s: Seq<Seq<char>>|
            strictly_sorted(s) && s.to_set() == views(paths@).to_set() && views(r@) == #[trigger] kept_roots(s),
{
    let sorted = sort_unique_strings(&paths);
    let ghost s = views(sorted@);
    let mut result: Vec<String> = Vec::new();
    let mut i: usize = 0;
    while i < sorted.len()
        invariant
            i <= sorted@.len(),
            s == views(sorted@),
            views(result@) == kept_roots(s.take(i as int)),
        decreases sorted.len() - i,
    {
        proof {
            assert(s.take(i + 1).drop_last() =~= s.take(i as int));
        }
        let candidate = &sorted[i];
        if !covered_by(&result, candidate.as_str()) {
            let ghost before = views(result@);
            result.push(candidate.clone());
            assert(views(result@) =~= before.push(candidate@));
        }
        i = i + 1;
    }
    assert(s.take(s.len() as int) =~= s);
    result
}

/// A proper prefix sorts first.
proof fn lemma_prefix_less(a: Seq<char>, b: Seq<char>)
    requires
        a.len() < b.len(),
        b.take(a.len() as int) == a,
    ensures
        seq_less(a, b),
    decreases a.len(),
{
    if a.len() > 0 {
        assert(b.drop_first().take(a.drop_first().len() as int) =~= a.drop_first());
        lemma_prefix_less(a.drop_first(), b.drop_first());
    }
}

/// Of the kept roots, none lies beneath another: every path beneath a kept root was dropped
/// as covered.
pub proof fn law_kept_roots_are_independent(s: Seq<Seq<char>>)
    requires
        strictly_sorted(s),
    ensures
        forall|i: int, j: int|
            0 <= i < kept_roots(s).len() && 0 <= j < kept_roots(s).len() ==> !beneath(
                #[trigger] kept_roots(s)[j],
                #[trigger] kept_roots(s)[i],
            ),
        forall|i: int| 0 <= i < kept_roots(s).len() ==> s.contains(#[trigger] kept_roots(s)[i]),
    decreases s.len(),
{
    if s.len() > 0 {
        let p = s.drop_last();
        assert(strictly_sorted(p));
        law_kept_roots_are_independent(p);
        let prev = kept_roots(p);
        let x = s.last();
        if !(exists|k: int| 0 <= k < prev.len() && beneath(x, #[trigger] prev[k])) {
            let cur = kept_roots(s);
            assert(cur == prev.push(x));
            assert forall|i: int| 0 <= i < cur.len() implies s.contains(#[trigger] cur[i]) by {
                if i < prev.len() {
                    let m = choose|m: int| 0 <= m < p.len() && p[m] == prev[i];
                    assert(s[m] == prev[i]);
                } else {
                    assert(s[s.len() - 1] == x);
                }
            }
            assert forall|i: int, j: int|
                0 <= i < cur.len() && 0 <= j < cur.len() implies !beneath(
                #[trigger] cur[j],
                #[trigger] cur[i],
            ) by {
                if i < prev.len() && j < prev.len() {
                } else if i == prev.len() && j < prev.len() {
                    // A kept earlier path beneath x would sort after x.
                    let y = prev[j];
                    let m = choose|m: int| 0 <= m < p.len() && p[m] == y;
                    if beneath(y, x) {
                        assert(y.take(x.len() as int + 1) == x + seq!['/']);
                        assert(y.take(x.len() as int) =~= x);
                        lemma_prefix_less(x, y);
                        assert(seq_less(s[m], s[s.len() - 1]));
                        lemma_less_asymmetric(x, y);
                    }
                } else if j == prev.len() && i < prev.len() {
                } else {
                    if beneath(x, x) {
                        assert(x.take(x.len() as int + 1).len() == x.len() + 1);
                    }
                }
            }
        }
    }
}

/// Some cache root matches `path` at some depth.
pub open spec fn within_any_root(path: Seq<char>, roots: Seq<String>) -> bool {
    exists|j: int| 0 <= j < roots.len() && within_root(path, (#[trigger] roots[j])@)
}

/// An ignored entry without its trailing slashes.
pub open spec fn entry_relative(entry: Seq<char>) -> Seq<char> {
    crate::util::trim_end_by(entry, |c: char| c == '/')
}

/// The nested roots completed inside directory entry `i` that exist on disk.
pub open spec fn nested_found(roots: Seq<String>, relative: Seq<char>, present: Seq<bool>) -> Set<Seq<char>> {
    Set::new(
        |p: Seq<char>|
            exists|j: int|
                0 <= j < roots.len() && #[trigger] nested_root_spec(relative, roots[j]@) == Some(p) && present[j],
    )
}

/// The cache-root paths found among the first `n` ignored entries, on top of the configured
/// roots that exist. An entry within a cache root is one; a collapsed directory holding only
/// cache roots contributes them; another ignored directory contributes the nested roots
/// completed inside it.
pub open spec fn found_roots(
    roots: Seq<String>,
    present: Seq<bool>,
    entries: Seq<String>,
    fillings: Seq<Option<Vec<String>>>,
    nested_present: Seq<Vec<bool>>,
    n: int,
) -> Set<Seq<char>>
    decreases n,
{
    if n <= 0 {
        Set::new(|p: Seq<char>| exists|j: int| 0 <= j < roots.len() && (#[trigger] roots[j])@ == p && present[j])
    } else {
        let prev = found_roots(roots, present, entries, fillings, nested_present, n - 1);
        let entry = entries[n - 1]@;
        let relative = entry_relative(entry);
        if within_any_root(relative, roots) {
            prev.insert(relative)
        } else if ends_with(entry, seq!['/']) {
            match fillings[n - 1] {
                Some(filled) => prev.union(views(filled@).to_set()),
                None => prev.union(nested_found(roots, relative, nested_present[n - 1]@)),
            }
        } else {
            prev
        }
    }
}

/// The ignored entries among the first `n` that lie outside every cache root.
pub open spec fn unknown_entries(
    roots: Seq<String>,
    entries: Seq<String>,
    fillings: Seq<Option<Vec<String>>>,
    n: int,
) -> Seq<Seq<char>>
    decreases n,
{
    if n <= 0 {
        Seq::empty()
    } else {
        let prev = unknown_entries(roots, entries, fillings, n - 1);
        let entry = entries[n - 1]@;
        if within_any_root(entry_relative(entry), roots) {
            prev
        } else if ends_with(entry, seq!['/']) && fillings[n - 1] is Some {
            prev
        } else {
            prev.push(entry)
        }
    }
}

fn within_any(path: &str, roots: &Vec<String>) -> (r: bool)
    ensures
        r == within_any_root(path@, roots@),
{
    let mut j: usize = 0;
    while j < roots.len()
        invariant
            j <= roots@.len(),
            forall|k: int| 0 <= k < j ==> !within_root(path@, (#[trigger] roots@[k])@),
        decreases roots.len() - j,
    {
        if is_within_root(path, roots[j].as_str()) {
            return true;
        }
        j = j + 1;
    }
    false
}

fn trim_trailing_slashes(s: &str) -> (r: String)
    ensures
        r@ == entry_relative(s@),
{
    let chars = chars_of(s);
    let ghost slash = |c: char| c == '/';
    let mut end: usize = chars.len();
    while end > 0 && chars[end - 1] == '/'
        invariant
            end <= chars@.len(),
            chars@ == s@,
            forall|j: int| end <= j < chars@.len() ==> #[trigger] chars@[j] == '/',
        decreases end,
    {
        end = end - 1;
    }
    let r = slice_chars(&chars, 0, end);
    proof {
        crate::util::lemma_trim_end_take(chars@, slash, end as int);
        assert(chars@.take(end as int) =~= r@);
        assert(crate::util::trim_end_by(r@, slash) == r@);
    }
    string_from_chars(&r)
}

proof fn lemma_push_to_set(v: Seq<Seq<char>>, x: Seq<char>)
    ensures
        v.push(x).to_set() == v.to_set().insert(x),
{
    assert forall|p: Seq<char>| v.push(x).to_set().contains(p) == v.to_set().insert(x).contains(p) by {
        if v.push(x).contains(p) && p != x {
            let k = choose|k: int| 0 <= k < v.push(x).len() && v.push(x)[k] == p;
            assert(v[k] == p);
        }
        if v.contains(p) {
            let k = choose|k: int| 0 <= k < v.len() && v[k] == p;
            assert(v.push(x)[k] == p);
        }
        if p == x {
            assert(v.push(x)[v.len() as int] == x);
        }
    }
    assert(v.push(x).to_set() =~= v.to_set().insert(x));
}

/// Classifies a worktree's ignored data. `cache_roots` are the approved roots and
/// `present_roots[j]` says whether root `j` exists at the top of the worktree; `entries` is Git's
/// sorted listing of ignored paths, with directories collapsed to their topmost entry and
/// marked by a trailing slash. For a directory entry outside every root, `fillings[i]` holds the
/// cache-root directories beneath it when it holds nothing else (`None` otherwise), and
/// `nested_present[i][j]` says whether root `j`'s completion inside it is a directory. Cache
/// roots count at any depth, so a monorepo package's `node_modules` counts like the top-level
/// one.
pub fn inspect_ignored(
    cache_roots: &Vec<String>,
    present_roots: &Vec<bool>,
    entries: &Vec<String>,
    fillings: &Vec<Option<Vec<String>>>,
    nested_present: &Vec<Vec<bool>>,
) -> (layout: IgnoredLayout)
    requires
        present_roots@.len() == cache_roots@.len(),
        fillings@.len() == entries@.len(),
        nested_present@.len() == entries@.len(),
        forall|i: int| 0 <= i < entries@.len() ==> (#[trigger] nested_present@[i])@.len() == cache_roots@.len(),
    ensures
        exists|s: Seq<Seq<char>>|
            strictly_sorted(s) && s.to_set() == found_roots(
                cache_roots@,
                present_roots@,
                entries@,
                fillings@,
                nested_present@,
                entries@.len() as int,
            ) && views(layout.cache_roots@) == #[trigger] kept_roots(s),
        views(layout.unknown@) == unknown_entries(cache_roots@, entries@, fillings@, entries@.len() as int),
{
    let mut found: Vec<String> = Vec::new();
    let mut j: usize = 0;
    while j < cache_roots.len()
        invariant
            j <= cache_roots@.len(),
            present_roots@.len() == cache_roots@.len(),
            views(found@).to_set() == Set::new(
                |p: Seq<char>| exists|k: int| 0 <= k < j && (#[trigger] cache_roots@[k])@ == p && present_roots@[k],
            ),
        decreases cache_roots.len() - j,
    {
        let ghost before = views(found@);
        if present_roots[j] {
            found.push(cache_roots[j].clone());
            proof {
                assert(views(found@) =~= before.push(cache_roots@[j as int]@));
                lemma_push_to_set(before, cache_roots@[j as int]@);
            }
        }
        proof {
            assert(views(found@).to_set() =~= Set::new(
                |p: Seq<char>| exists|k: int| 0 <= k < j + 1 && (#[trigger] cache_roots@[k])@ == p && present_roots@[k],
            ));
        }
        j = j + 1;
    }
    let mut unknown: Vec<String> = Vec::new();
    let mut i: usize = 0;
    while i < entries.len()
        invariant
            i <= entries@.len(),
            present_roots@.len() == cache_roots@.len(),
            fillings@.len() == entries@.len(),
            nested_present@.len() == entries@.len(),
            forall|k: int| 0 <= k < entries@.len() ==> (#[trigger] nested_present@[k])@.len() == cache_roots@.len(),
            views(found@).to_set() == found_roots(cache_roots@, present_roots@, entries@, fillings@, nested_present@, i as int),
            views(unknown@) == unknown_entries(cache_roots@, entries@, fillings@, i as int),
        decreases entries.len() - i,
    {
        let entry = &entries[i];
        let relative = trim_trailing_slashes(entry.as_str());
        let ghost prev_found = views(found@);
        let ghost prev_unknown = views(unknown@);
        let entry_chars = chars_of(entry.as_str());
        let slash = vec!['/'];
        assert(slash@ =~= seq!['/']);
        if within_any(relative.as_str(), cache_roots) {
            found.push(relative);
            proof {
                assert(views(found@) =~= prev_found.push(entry_relative(entry@)));
                lemma_push_to_set(prev_found, entry_relative(entry@));
            }
        } else if chars_end_with(&entry_chars, &slash) {
            match &fillings[i] {
                Some(filled) => {
                    let mut k: usize = 0;
                    while k < filled.len()
                        invariant
                            k <= filled@.len(),
                            views(found@).to_set() == prev_found.to_set().union(views(filled@.take(k as int)).to_set()),
                        decreases filled.len() - k,
                    {
                        let ghost b = views(found@);
                        found.push(filled[k].clone());
                        proof {
                            assert(views(found@) =~= b.push(filled@[k as int]@));
                            lemma_push_to_set(b, filled@[k as int]@);
                            assert(views(filled@.take(k + 1)) =~= views(filled@.take(k as int)).push(filled@[k as int]@));
                            lemma_push_to_set(views(filled@.take(k as int)), filled@[k as int]@);
                            assert(views(found@).to_set() =~= prev_found.to_set().union(views(filled@.take(k + 1)).to_set()));
                        }
                        k = k + 1;
                    }
                    assert(filled@.take(filled@.len() as int) =~= filled@);
                },
                None => {
                    let present = &nested_present[i];
                    let mut k: usize = 0;
                    while k < cache_roots.len()
                        invariant
                            k <= cache_roots@.len(),
                            present@.len() == cache_roots@.len(),
                            views(found@).to_set() == prev_found.to_set().union(Set::new(
                                |p: Seq<char>| exists|m: int|
                                    0 <= m < k && #[trigger] nested_root_spec(relative@, cache_roots@[m]@) == Some(p) && present@[m],
                            )),
                        decreases cache_roots.len() - k,
                    {
                        let ghost b = views(found@);
                        let nested = nested_cache_root(relative.as_str(), cache_roots[k].as_str());
                        match nested {
                            Some(path) => {
                                if present[k] {
                                    let ghost pv = path@;
                                    found.push(path);
                                    proof {
                                        assert(views(found@) =~= b.push(pv));
                                        lemma_push_to_set(b, pv);
                                    }
                                }
                            },
                            None => {},
                        }
                        proof {
                            assert(views(found@).to_set() =~= prev_found.to_set().union(Set::new(
                                |p: Seq<char>| exists|m: int|
                                    0 <= m < k + 1 && #[trigger] nested_root_spec(relative@, cache_roots@[m]@) == Some(p) && present@[m],
                            )));
                        }
                        k = k + 1;
                    }
                    assert(Set::new(
                        |p: Seq<char>| exists|m: int|
                            0 <= m < cache_roots@.len() && #[trigger] nested_root_spec(relative@, cache_roots@[m]@) == Some(p) && present@[m],
                    ) =~= nested_found(cache_roots@, relative@, present@));
                    unknown.push(entry.clone());
                    assert(views(unknown@) =~= prev_unknown.push(entry@));
                },
            }
        } else {
            unknown.push(entry.clone());
            assert(views(unknown@) =~= prev_unknown.push(entry@));
        }
        proof {
            assert(entry_chars@ == entries@[i as int]@);
        }
        i = i + 1;
    }
    let roots = without_descendants(found);
    IgnoredLayout { cache_roots: roots, unknown }
}

} // verus!
