//! The environment plan: detected ecosystems, cache roots, seed files, and the generation
//! fingerprint.

use vstd::prelude::*;

use crate::bytes::join_bytes;
use crate::environment::definitions::{
    definition, detect_ecosystems, detect_spec, ecosystem_cache_roots, ecosystem_id, ecosystem_required_roots,
    ecosystem_seed_files, find_member, is_node_ecosystem, json_object_entries, member, parse_json_object, Ecosystem,
};
use crate::environment::roots::{is_within_root, within_root};
use crate::error::{AcreError, EXIT_USAGE};
use crate::model::{AcreConfig, RepoEnvironmentConfig};
use crate::order::{sort_unique_strings, strictly_sorted, views};
use crate::util::{normalize_entry, normalize_path_entry, normalized_entries, sha256, sha256_hex, unique_paths};
use crate::provider::remote::{trim_whitespace, trim_whitespace_exec};
use crate::text::{chars_of, find_seq, push_bytes, string_from_chars};

verus! {

#[derive(Debug, Clone)]
pub struct EnvironmentPlan {
    pub fingerprint: String,
    pub ecosystem_ids: Vec<String>,
    pub cache_roots: Vec<String>,
    pub required_roots: Vec<String>,
    pub seed_files: Vec<String>,
    pub platform_key: String,
}

/// `items` separated by commas.
pub open spec fn comma_joined(items: Seq<Seq<u8>>) -> Seq<u8> {
    join_bytes(items, 44u8)
}

/// Appends `items` to `out`, separated by commas.
fn push_joined(out: &mut Vec<u8>, items: &Vec<Vec<u8>>)
    ensures
        final(out)@ == old(out)@ + comma_joined(items@.map_values(|v: Vec<u8>| v@)),
{
    let ghost start = out@;
    let ghost all = items@.map_values(|v: Vec<u8>| v@);
    let mut i: usize = 0;
    while i < items.len()
        invariant
            i <= items@.len(),
            all == items@.map_values(|v: Vec<u8>| v@),
            out@ == start + comma_joined(all.take(i as int)),
        decreases items.len() - i,
    {
        let ghost before = out@;
        if i > 0 {
            out.push(44u8);
        }
        push_bytes(out, items[i].as_slice());
        proof {
            let t = all.take(i + 1);
            assert(t.drop_last() =~= all.take(i as int));
            assert(t.last() == all[i as int]);
            if i == 0 {
                assert(comma_joined(t) == t[0]);
                assert(out@ =~= start + comma_joined(t));
            } else {
                assert(out@ =~= start + (comma_joined(all.take(i as int)) + seq![44u8] + all[i as int]));
            }
        }
        i = i + 1;
    }
    assert(all.take(items@.len() as int) =~= all);
}

/// The text after the last `/` (all of it when there is none).
pub open spec fn last_segment(s: Seq<char>) -> Seq<char>
    decreases s.len(),
{
    if s.len() == 0 {
        s
    } else if s.last() == '/' {
        Seq::empty()
    } else {
        last_segment(s.drop_last()).push(s.last())
    }
}

fn last_segment_exec(s: &Vec<char>) -> (r: Vec<char>)
    ensures
        r@ == last_segment(s@),
{
    let mut k: usize = s.len();
    assert(s@.take(s@.len() as int) =~= s@);
    assert(s@.skip(s@.len() as int) =~= Seq::<char>::empty());
    while k > 0 && s[k - 1] != '/'
        invariant
            k <= s@.len(),
            last_segment(s@) == last_segment(s@.take(k as int)) + s@.skip(k as int),
        decreases k,
    {
        proof {
            let t = s@.take(k as int);
            assert(t.drop_last() =~= s@.take(k - 1));
            assert(s@.skip(k - 1) =~= seq![s@[k - 1]] + s@.skip(k as int));
            assert(last_segment(t) == last_segment(t.drop_last()).push(t.last()));
            assert(last_segment(s@.take(k - 1)).push(s@[k - 1]) + s@.skip(k as int) =~= last_segment(s@.take(k - 1))
                + s@.skip(k - 1));
        }
        k = k - 1;
    }
    proof {
        assert(s@.take(s@.len() as int) =~= s@);
        assert(s@.skip(s@.len() as int) =~= Seq::<char>::empty());
        let t = s@.take(k as int);
        if k > 0 {
            assert(t.last() == '/');
        }
        assert(last_segment(t) =~= Seq::<char>::empty());
    }
    crate::text::slice_chars(s, k, s.len())
}

/// The files, by name in any directory, whose contents decide an environment.
pub open spec fn fingerprint_files() -> Seq<Seq<char>> {
    seq![
        "package.json"@,
        "pnpm-lock.yaml"@,
        "yarn.lock"@,
        ".yarnrc.yml"@,
        "package-lock.json"@,
        "npm-shrinkwrap.json"@,
        "bun.lock"@,
        "bun.lockb"@,
        "turbo.json"@,
        "next.config.js"@,
        "next.config.mjs"@,
        "next.config.ts"@,
        ".nvmrc"@,
        ".node-version"@,
        ".tool-versions"@,
        "mise.toml"@,
        "Cargo.toml"@,
        "Cargo.lock"@,
        "rust-toolchain"@,
        "rust-toolchain.toml"@,
        "pyproject.toml"@,
        ".python-version"@,
        "uv.lock"@,
        "poetry.lock"@,
        "requirements.txt"@,
        "go.mod"@,
        "go.sum"@,
    ]
}

/// Whether the repository path `path` names a fingerprinted file.
pub fn is_fingerprint_path(path: &str) -> (r: bool)
    ensures
        r == fingerprint_files().contains(last_segment(path@)),
{
    let name = last_segment_exec(&chars_of(path));
    let names = ["package.json", "pnpm-lock.yaml", "yarn.lock", ".yarnrc.yml", "package-lock.json", "npm-shrinkwrap.json", "bun.lock", "bun.lockb", "turbo.json", "next.config.js", "next.config.mjs", "next.config.ts", ".nvmrc", ".node-version", ".tool-versions", "mise.toml", "Cargo.toml", "Cargo.lock", "rust-toolchain", "rust-toolchain.toml", "pyproject.toml", ".python-version", "uv.lock", "poetry.lock", "requirements.txt", "go.mod", "go.sum"];
    assert(crate::git::runner::str_views(names@) =~= fingerprint_files());
    let mut i: usize = 0;
    while i < names.len()
        invariant
            i <= names@.len(),
            name@ == last_segment(path@),
            crate::git::runner::str_views(names@) == fingerprint_files(),
            forall|j: int| 0 <= j < i ==> fingerprint_files()[j] != name@,
        decreases names.len() - i,
    {
        if crate::text::chars_equal(&name, &chars_of(names[i])) {
            assert(fingerprint_files()[i as int] == name@);
            return true;
        }
        i = i + 1;
    }
    proof {
        if fingerprint_files().contains(name@) {
            let k = choose|k: int| 0 <= k < fingerprint_files().len() && fingerprint_files()[k] == name@;
            assert(fingerprint_files()[k] != name@);
        }
    }
    false
}

/// The files Git tracks at `reference`, one NUL-terminated path each.
pub fn tracked_files_query(cwd: &str, reference: &str) -> (inv: crate::git::runner::Invocation)
    ensures
        inv.executable@ == "git"@,
        views(inv.args@) == crate::git::runner::git_prefix() + seq!["ls-tree"@, "-r"@, "--name-only"@, "-z"@, reference@],
        inv.options.cwd matches Some(c) && c@ == cwd@,
        inv.options.stdin is None,
        inv.options.timeout_ms is None,
        inv.options.accepted_statuses@ == seq![0i32],
{
    let args = ["ls-tree", "-r", "--name-only", "-z", reference];
    assert(crate::git::runner::str_views(args@) =~= seq!["ls-tree"@, "-r"@, "--name-only"@, "-z"@, reference@]);
    crate::git::runner::run_git(cwd, &args)
}

/// The tracked paths whose contents decide the environment: each file the listing names
/// whose last segment is a fingerprinted file name.
pub open spec fn fingerprint_path_texts(stdout: Seq<u8>) -> Seq<Seq<char>> {
    crate::git::status::ignored_entry_texts(stdout).filter(|p: Seq<char>| fingerprint_files().contains(last_segment(p)))
}

/// The fingerprinted paths of a `tracked_files_query` listing, sorted.
pub fn fingerprint_paths(stdout: &[u8]) -> (paths: Vec<String>)
    ensures
        crate::order::sorted(views(paths@)),
        views(paths@).to_multiset() == fingerprint_path_texts(stdout@).to_multiset(),
{
    let texts = crate::git::status::nul_field_texts(stdout);
    let ghost all = views(texts@);
    let mut kept: Vec<String> = Vec::new();
    let mut i: usize = 0;
    while i < texts.len()
        invariant
            i <= texts@.len(),
            all == views(texts@),
            views(kept@) == all.take(i as int).filter(|p: Seq<char>| fingerprint_files().contains(last_segment(p))),
        decreases texts.len() - i,
    {
        assert(all.take(i + 1).drop_last() =~= all.take(i as int));
        reveal(Seq::filter);
        if is_fingerprint_path(texts[i].as_str()) {
            let ghost before = views(kept@);
            kept.push(texts[i].clone());
            assert(views(kept@) =~= before.push(texts@[i as int]@));
        }
        i = i + 1;
    }
    assert(all.take(all.len() as int) =~= all);
    crate::order::sort_strings(&kept)
}

/// The `patches` directory beside each `package.json` among `paths`, in order: its tree object
/// is part of the fingerprint.
pub open spec fn patch_dirs(paths: Seq<Seq<char>>) -> Seq<Seq<char>>
    decreases paths.len(),
{
    if paths.len() == 0 {
        Seq::empty()
    } else {
        patch_dirs(paths.drop_last()) + if last_segment(paths.last()) == "package.json"@ {
            seq![join_relative(dir_of(paths.last()), "patches"@)]
        } else {
            Seq::empty()
        }
    }
}

pub fn patch_directories(paths: &Vec<String>) -> (r: Vec<String>)
    ensures
        views(r@) == patch_dirs(views(paths@)),
{
    let mut r: Vec<String> = Vec::new();
    let mut i: usize = 0;
    while i < paths.len()
        invariant
            i <= paths@.len(),
            views(r@) == patch_dirs(views(paths@).take(i as int)),
        decreases paths.len() - i,
    {
        assert(views(paths@).take(i + 1).drop_last() =~= views(paths@).take(i as int));
        let name = last_segment_exec(&chars_of(paths[i].as_str()));
        let manifest = chars_of("package.json");
        let ghost before = views(r@);
        if crate::text::chars_equal(&name, &manifest) {
            let directory = dir_of_exec(paths[i].as_str());
            r.push(join_relative_exec(directory.as_str(), "patches"));
            assert(views(r@) =~= before.push(join_relative(dir_of(paths@[i as int]@), "patches"@)));
        }
        assert(views(r@) =~= patch_dirs(views(paths@).take(i + 1)));
        i = i + 1;
    }
    assert(views(paths@).take(paths@.len() as int) =~= views(paths@));
    r
}

/// The top-level `package.json` keys that change what an install produces, in the order
/// `serde_json` writes them; `scripts` is handled on its own.
pub open spec fn keys_before_scripts() -> Seq<Seq<char>> {
    seq![
        "bin"@,
        "bundleDependencies"@,
        "bundledDependencies"@,
        "cpu"@,
        "dependencies"@,
        "devDependencies"@,
        "engines"@,
        "libc"@,
        "name"@,
        "optionalDependencies"@,
        "os"@,
        "overrides"@,
        "packageManager"@,
        "peerDependencies"@,
        "peerDependenciesMeta"@,
        "pnpm"@,
        "resolutions"@,
    ]
}

pub open spec fn keys_after_scripts() -> Seq<Seq<char>> {
    seq!["version"@, "volta"@, "workspaces"@]
}

/// The lifecycle scripts that run during an install, in the order they are written.
pub open spec fn install_script_keys() -> Seq<Seq<char>> {
    seq!["install"@, "postinstall"@, "preinstall"@, "prepare"@]
}

/// `"key":` followed by the member's value.
pub open spec fn member_item(key: Seq<char>, value: Seq<u8>) -> Seq<u8> {
    seq![34u8] + vstd::utf8::encode_utf8(key) + seq![34u8, 58u8] + value
}

/// The members among `keys` that `entries` has, each written as `"key":value`, in key order.
pub open spec fn items_for(entries: Seq<(Seq<char>, Seq<u8>)>, keys: Seq<Seq<char>>) -> Seq<Seq<u8>>
    decreases keys.len(),
{
    if keys.len() == 0 {
        Seq::empty()
    } else {
        let rest = items_for(entries, keys.drop_last());
        match member(entries, keys.last()) {
            Some(value) => rest.push(member_item(keys.last(), value)),
            None => rest,
        }
    }
}

/// A JSON object of the given members.
pub open spec fn object_of(items: Seq<Seq<u8>>) -> Seq<u8> {
    seq![123u8] + comma_joined(items) + seq![125u8]
}

/// The `scripts` member kept: only the install lifecycle scripts, and only if there are any.
pub open spec fn scripts_item(entries: Seq<(Seq<char>, Seq<u8>)>) -> Seq<Seq<u8>> {
    match member(entries, "scripts"@) {
        Some(raw) => match json_object_entries(raw) {
            Some(scripts) => if items_for(scripts, install_script_keys()).len() > 0 {
                seq![member_item("scripts"@, object_of(items_for(scripts, install_script_keys())))]
            } else {
                Seq::empty()
            },
            None => Seq::empty(),
        },
        None => Seq::empty(),
    }
}

/// What a manifest contributes to the fingerprint. A `package.json` that is a JSON object
/// counts only by the keys that change what an install produces (editing `scripts.test`
/// must not invalidate caches), written as `serde_json` writes an object; anything else,
/// including unparseable JSON, counts as it is: better a spurious miss than a wrong hit.
pub open spec fn normalize_spec(file: Seq<char>, content: Seq<u8>) -> Seq<u8> {
    if last_segment(file) != "package.json"@ {
        content
    } else {
        match json_object_entries(content) {
            Some(entries) => object_of(
                items_for(entries, keys_before_scripts()) + scripts_item(entries) + items_for(entries, keys_after_scripts()),
            ),
            None => content,
        }
    }
}

fn collect_items(entries: &Vec<(String, Vec<u8>)>, keys: &[&str], items: &mut Vec<Vec<u8>>)
    ensures
        final(items)@.map_values(|v: Vec<u8>| v@) == old(items)@.map_values(|v: Vec<u8>| v@) + items_for(
            entries@.map_values(|e: (String, Vec<u8>)| (e.0@, e.1@)),
            keys@.map_values(|k: &str| k@),
        ),
{
    let ghost es = entries@.map_values(|e: (String, Vec<u8>)| (e.0@, e.1@));
    let ghost ks = keys@.map_values(|k: &str| k@);
    let ghost start = items@.map_values(|v: Vec<u8>| v@);
    let mut i: usize = 0;
    while i < keys.len()
        invariant
            i <= keys@.len(),
            es == entries@.map_values(|e: (String, Vec<u8>)| (e.0@, e.1@)),
            ks == keys@.map_values(|k: &str| k@),
            items@.map_values(|v: Vec<u8>| v@) == start + items_for(es, ks.take(i as int)),
        decreases keys.len() - i,
    {
        proof {
            let t = ks.take(i + 1);
            assert(t.drop_last() =~= ks.take(i as int));
            assert(t.last() == keys@[i as int]@);
        }
        match find_member(entries, keys[i]) {
            Some(value) => {
                let mut item: Vec<u8> = Vec::new();
                item.push(34u8);
                push_bytes(&mut item, keys[i].as_bytes());
                item.push(34u8);
                item.push(58u8);
                push_bytes(&mut item, value.as_slice());
                assert(item@ =~= member_item(keys@[i as int]@, value@));
                let ghost before = items@.map_values(|v: Vec<u8>| v@);
                items.push(item);
                assert(items@.map_values(|v: Vec<u8>| v@) =~= before.push(member_item(keys@[i as int]@, value@)));
            },
            None => {},
        }
        i = i + 1;
    }
    assert(ks.take(keys@.len() as int) =~= ks);
}

fn object_bytes(items: &Vec<Vec<u8>>) -> (r: Vec<u8>)
    ensures
        r@ == object_of(items@.map_values(|v: Vec<u8>| v@)),
{
    let mut out: Vec<u8> = Vec::new();
    out.push(123u8);
    push_joined(&mut out, items);
    out.push(125u8);
    assert(out@ =~= object_of(items@.map_values(|v: Vec<u8>| v@)));
    out
}

/// The bytes of `file` that go into the fingerprint.
pub fn normalize_fingerprint_content(file: &str, content: &[u8]) -> (r: Vec<u8>)
    ensures
        r@ == normalize_spec(file@, content@),
{
    let name = last_segment_exec(&chars_of(file));
    let package = chars_of("package.json");
    let mut copy: Vec<u8> = Vec::new();
    push_bytes(&mut copy, content);
    if !crate::text::chars_equal(&name, &package) {
        return copy;
    }
    let entries = match parse_json_object(content) {
        Some(entries) => entries,
        None => {
            return copy;
        },
    };
    let before = [
        "bin",
        "bundleDependencies",
        "bundledDependencies",
        "cpu",
        "dependencies",
        "devDependencies",
        "engines",
        "libc",
        "name",
        "optionalDependencies",
        "os",
        "overrides",
        "packageManager",
        "peerDependencies",
        "peerDependenciesMeta",
        "pnpm",
        "resolutions",
    ];
    let after = ["version", "volta", "workspaces"];
    let install = ["install", "postinstall", "preinstall", "prepare"];
    assert(before@.map_values(|k: &str| k@) =~= keys_before_scripts());
    assert(after@.map_values(|k: &str| k@) =~= keys_after_scripts());
    assert(install@.map_values(|k: &str| k@) =~= install_script_keys());
    let ghost es = entries@.map_values(|e: (String, Vec<u8>)| (e.0@, e.1@));
    let mut items: Vec<Vec<u8>> = Vec::new();
    collect_items(&entries, &before, &mut items);
    let ghost after_before = items@.map_values(|v: Vec<u8>| v@);
    match find_member(&entries, "scripts") {
        Some(raw) => match parse_json_object(raw.as_slice()) {
            Some(scripts) => {
                let mut script_items: Vec<Vec<u8>> = Vec::new();
                collect_items(&scripts, &install, &mut script_items);
                assert(script_items@.map_values(|v: Vec<u8>| v@) =~= Seq::<Seq<u8>>::empty() + items_for(
                    scripts@.map_values(|e: (String, Vec<u8>)| (e.0@, e.1@)),
                    install_script_keys(),
                ));
                if script_items.len() > 0 {
                    let inner = object_bytes(&script_items);
                    let mut item: Vec<u8> = Vec::new();
                    item.push(34u8);
                    push_bytes(&mut item, "scripts".as_bytes());
                    item.push(34u8);
                    item.push(58u8);
                    push_bytes(&mut item, inner.as_slice());
                    assert(item@ =~= member_item("scripts"@, inner@));
                    items.push(item);
                    assert(items@.map_values(|v: Vec<u8>| v@) =~= after_before + scripts_item(es));
                } else {
                    assert(items@.map_values(|v: Vec<u8>| v@) =~= after_before + scripts_item(es));
                }
            },
            None => {
                assert(items@.map_values(|v: Vec<u8>| v@) =~= after_before + scripts_item(es));
            },
        },
        None => {
            assert(items@.map_values(|v: Vec<u8>| v@) =~= after_before + scripts_item(es));
        },
    }
    collect_items(&entries, &after, &mut items);
    let r = object_bytes(&items);
    assert(items@.map_values(|v: Vec<u8>| v@) =~= items_for(es, keys_before_scripts()) + scripts_item(es) + items_for(
        es,
        keys_after_scripts(),
    ));
    r
}


// ---------------------------------------------------------------------------------------------
// Path lists

/// The non-empty canonical forms of `values`.
pub open spec fn normalized_set(values: Seq<Seq<char>>) -> Set<Seq<char>> {
    Set::new(
        |x: Seq<char>| x.len() > 0 && exists|i: int| 0 <= i < values.len() && normalize_path_entry(#[trigger] values[i]) == x,
    )
}

/// The non-empty canonical forms of the `values` that `keep` marks.
pub open spec fn kept_normalized(values: Seq<Seq<char>>, keep: Seq<bool>) -> Set<Seq<char>> {
    Set::new(
        |x: Seq<char>| x.len() > 0 && exists|i: int|
            0 <= i < values.len() && keep[i] && normalize_path_entry(#[trigger] values[i]) == x,
    )
}

/// The canonical forms of the marked values, sorted and without repeats.
fn unique_kept(values: &Vec<String>, keep: &Vec<bool>) -> (r: Vec<String>)
    requires
        keep@.len() == values@.len(),
    ensures
        strictly_sorted(views(r@)),
        views(r@).to_set() == kept_normalized(views(values@), keep@),
{
    let ghost all = views(values@);
    let mut kept: Vec<String> = Vec::new();
    let ghost mut src: Seq<int> = Seq::empty();
    let ghost mut dst: Seq<int> = Seq::empty();
    let mut i: usize = 0;
    while i < values.len()
        invariant
            i <= all.len(),
            all == views(values@),
            keep@.len() == all.len(),
            src.len() == kept@.len(),
            dst.len() == i,
            forall|t: int| 0 <= t < kept@.len() ==> 0 <= #[trigger] src[t] < i && keep@[src[t]] && kept@[t]@ == all[src[t]],
            forall|j: int| 0 <= j < i && keep@[j] ==> 0 <= #[trigger] dst[j] < kept@.len() && kept@[dst[j]]@ == all[j],
        decreases values.len() - i,
    {
        if keep[i] {
            proof {
                dst = dst.push(kept@.len() as int);
                src = src.push(i as int);
            }
            kept.push(values[i].clone());
        } else {
            proof {
                dst = dst.push(0);
            }
        }
        i = i + 1;
    }
    let ghost filtered = kept@;
    let r = unique_paths(kept);
    proof {
        assert forall|x: Seq<char>| normalized_entries(filtered).contains(x) implies kept_normalized(all, keep@).contains(x) by {
            let t = choose|t: int| 0 <= t < filtered.len() && normalize_path_entry(#[trigger] filtered[t]@) == x;
            assert(normalize_path_entry(all[src[t]]) == x);
        }
        assert forall|x: Seq<char>| kept_normalized(all, keep@).contains(x) implies normalized_entries(filtered).contains(x) by {
            let j = choose|j: int| 0 <= j < all.len() && keep@[j] && normalize_path_entry(#[trigger] all[j]) == x;
            assert(normalize_path_entry(filtered[dst[j]]@) == x);
        }
        assert(normalized_entries(filtered) =~= kept_normalized(all, keep@));
    }
    r
}

fn contains_text(values: &Vec<String>, x: &str) -> (r: bool)
    ensures
        r == views(values@).contains(x@),
{
    let mut i: usize = 0;
    while i < values.len()
        invariant
            i <= values@.len(),
            forall|j: int| 0 <= j < i ==> views(values@)[j] != x@,
        decreases values.len() - i,
    {
        if crate::text::str_equal(values[i].as_str(), x) {
            assert(views(values@)[i as int] == x@);
            return true;
        }
        i = i + 1;
    }
    false
}

/// The canonical forms of `values` not in `excluded`, sorted and without repeats.
fn unique_excluding(values: Vec<String>, excluded: &Vec<String>) -> (r: Vec<String>)
    ensures
        strictly_sorted(views(r@)),
        views(r@).to_set() == normalized_set(views(values@)).filter(|x: Seq<char>| !views(excluded@).contains(x)),
{
    let ghost all = views(values@);
    let mut keep: Vec<bool> = Vec::new();
    let mut i: usize = 0;
    while i < values.len()
        invariant
            i <= values@.len(),
            all == views(values@),
            keep@.len() == i,
            forall|j: int| 0 <= j < i ==> keep@[j] == !views(excluded@).contains(normalize_path_entry(all[j])),
        decreases values.len() - i,
    {
        let n = normalize_entry(values[i].as_str());
        keep.push(!contains_text(excluded, n.as_str()));
        i = i + 1;
    }
    let r = unique_kept(&values, &keep);
    assert(kept_normalized(all, keep@) =~= normalized_set(all).filter(|x: Seq<char>| !views(excluded@).contains(x)));
    r
}

/// The canonical forms of `values` that lie within one of `roots`, sorted and without repeats.
fn unique_within(values: Vec<String>, roots: &Vec<String>) -> (r: Vec<String>)
    ensures
        strictly_sorted(views(r@)),
        views(r@).to_set() == normalized_set(views(values@)).filter(
            |x: Seq<char>| exists|c: int| 0 <= c < roots@.len() && within_root(x, #[trigger] roots@[c]@),
        ),
{
    let ghost all = views(values@);
    let mut keep: Vec<bool> = Vec::new();
    let mut i: usize = 0;
    while i < values.len()
        invariant
            i <= values@.len(),
            all == views(values@),
            keep@.len() == i,
            forall|j: int| 0 <= j < i ==> keep@[j] == exists|c: int|
                0 <= c < roots@.len() && within_root(normalize_path_entry(all[j]), #[trigger] roots@[c]@),
        decreases values.len() - i,
    {
        let n = normalize_entry(values[i].as_str());
        let mut found = false;
        let mut c: usize = 0;
        while c < roots.len()
            invariant
                c <= roots@.len(),
                found == exists|d: int| 0 <= d < c && within_root(n@, #[trigger] roots@[d]@),
            decreases roots.len() - c,
        {
            if is_within_root(n.as_str(), roots[c].as_str()) {
                found = true;
            }
            c = c + 1;
        }
        keep.push(found);
        i = i + 1;
    }
    let r = unique_kept(&values, &keep);
    assert(kept_normalized(all, keep@) =~= normalized_set(all).filter(
        |x: Seq<char>| exists|c: int| 0 <= c < roots@.len() && within_root(x, #[trigger] roots@[c]@),
    ));
    r
}

/// Appends the texts `values` to `out`.
fn extend_texts(out: &mut Vec<String>, values: &Vec<String>)
    ensures
        views(final(out)@) == views(old(out)@) + views(values@),
{
    let mut i: usize = 0;
    let ghost start = views(out@);
    while i < values.len()
        invariant
            i <= values@.len(),
            views(out@) == start + views(values@).take(i as int),
        decreases values.len() - i,
    {
        let ghost before = views(out@);
        out.push(values[i].clone());
        assert(views(out@) =~= before.push(values@[i as int]@));
        assert(views(values@).take(i + 1) =~= views(values@).take(i as int).push(values@[i as int]@));
        i = i + 1;
    }
    assert(views(values@).take(values@.len() as int) =~= views(values@));
}

// ---------------------------------------------------------------------------------------------
// Detection

/// The directory part of a repository-relative path: everything before its last `/`, empty
/// at the top.
pub open spec fn dir_of(path: Seq<char>) -> Seq<char> {
    if last_segment(path).len() < path.len() {
        path.take(path.len() - last_segment(path).len() - 1)
    } else {
        Seq::empty()
    }
}

/// `name` inside the repository-relative directory `directory`.
pub open spec fn join_relative(directory: Seq<char>, name: Seq<char>) -> Seq<char> {
    if directory.len() == 0 {
        name
    } else {
        directory + seq!['/'] + name
    }
}

/// How many `/` a text holds.
pub open spec fn slash_count(s: Seq<char>) -> nat
    decreases s.len(),
{
    if s.len() == 0 {
        0
    } else {
        slash_count(s.drop_last()) + if s.last() == '/' { 1nat } else { 0nat }
    }
}

/// How many `/`-separated parts a directory has; the top is 0.
pub open spec fn depth_of(directory: Seq<char>) -> nat {
    if directory.len() == 0 {
        0
    } else {
        slash_count(directory) + 1
    }
}

/// The names of the files (of `files`, path and content) directly in `directory`.
pub open spec fn names_in(files: Seq<(Seq<char>, Seq<u8>)>, directory: Seq<char>) -> Seq<Seq<char>>
    decreases files.len(),
{
    if files.len() == 0 {
        Seq::empty()
    } else if dir_of(files.last().0) == directory {
        names_in(files.drop_last(), directory).push(last_segment(files.last().0))
    } else {
        names_in(files.drop_last(), directory)
    }
}

/// The content of the first file at `path`.
pub open spec fn content_at(files: Seq<(Seq<char>, Seq<u8>)>, path: Seq<char>) -> Option<Seq<u8>>
    decreases files.len(),
{
    if files.len() == 0 {
        None
    } else if files[0].0 == path {
        Some(files[0].1)
    } else {
        content_at(files.drop_first(), path)
    }
}

/// Each directory's ecosystems, directory by directory.
pub open spec fn detected_in(files: Seq<(Seq<char>, Seq<u8>)>, directories: Seq<Seq<char>>) -> Seq<(Ecosystem, Seq<char>)>
    decreases directories.len(),
{
    if directories.len() == 0 {
        Seq::empty()
    } else {
        let d = directories.last();
        detected_in(files, directories.drop_last()) + detect_spec(
            names_in(files, d),
            content_at(files, join_relative(d, "package.json"@)),
        ).map_values(|e: Ecosystem| (e, d))
    }
}

/// The ecosystems in the order of their ids.
pub open spec fn ecosystem_order() -> Seq<Ecosystem> {
    seq![
        Ecosystem::Bun,
        Ecosystem::Go,
        Ecosystem::Next,
        Ecosystem::Npm,
        Ecosystem::Pnpm,
        Ecosystem::Python,
        Ecosystem::Rust,
        Ecosystem::Turbo,
        Ecosystem::Yarn,
    ]
}

/// Some detection is of ecosystem `e`.
pub open spec fn was_detected(detected: Seq<(Ecosystem, Seq<char>)>, e: Ecosystem) -> bool {
    exists|i: int| 0 <= i < detected.len() && (#[trigger] detected[i]).0 == e
}

/// The ecosystems of `order` that were detected, in that order.
pub open spec fn present_in_order(order: Seq<Ecosystem>, detected: Seq<(Ecosystem, Seq<char>)>) -> Seq<Ecosystem>
    decreases order.len(),
{
    if order.len() == 0 {
        Seq::empty()
    } else if was_detected(detected, order.last()) {
        present_in_order(order.drop_last(), detected).push(order.last())
    } else {
        present_in_order(order.drop_last(), detected)
    }
}

/// The ecosystems detected anywhere, each once, in the order of their ids.
pub open spec fn distinct_ecosystems(detected: Seq<(Ecosystem, Seq<char>)>) -> Seq<Ecosystem> {
    present_in_order(ecosystem_order(), detected)
}

/// The smallest directory depth among the detections.
pub open spec fn top_depth(detected: Seq<(Ecosystem, Seq<char>)>) -> nat
    decreases detected.len(),
{
    if detected.len() == 0 {
        0
    } else if detected.len() == 1 || depth_of(detected.last().1) < top_depth(detected.drop_last()) {
        depth_of(detected.last().1)
    } else {
        top_depth(detected.drop_last())
    }
}

/// The required roots the top-most projects contribute, relative to the repository.
pub open spec fn top_required(detected: Seq<(Ecosystem, Seq<char>)>, top: nat) -> Seq<Seq<char>>
    decreases detected.len(),
{
    if detected.len() == 0 {
        Seq::empty()
    } else {
        let (e, d) = detected.last();
        top_required(detected.drop_last(), top) + if depth_of(d) == top {
            ecosystem_required_roots(e).map_values(|r: Seq<char>| join_relative(d, r))
        } else {
            Seq::empty()
        }
    }
}

/// What a list of ecosystems contributes, in order.
pub open spec fn ecosystem_paths(ecosystems: Seq<Ecosystem>, which: int) -> Seq<Seq<char>>
    decreases ecosystems.len(),
{
    if ecosystems.len() == 0 {
        Seq::empty()
    } else {
        ecosystem_paths(ecosystems.drop_last(), which) + if which == 0 {
            ecosystem_cache_roots(ecosystems.last())
        } else {
            ecosystem_seed_files(ecosystems.last())
        }
    }
}


/// What the files at a commit say about its environment, before the platform is known.
#[derive(Debug)]
pub struct DetectedEnvironment {
    pub ecosystems: Vec<Ecosystem>,
    pub cache_roots: Vec<String>,
    pub required_roots: Vec<String>,
    pub seed_files: Vec<String>,
    /// Each manifest with the SHA-256 of what it contributes, then each patch directory (with
    /// a trailing `/`) with the SHA-256 of its tree object, which names every blob beneath it.
    pub file_hashes: Vec<(String, String)>,
}

pub open spec fn files_view(files: Seq<(String, Vec<u8>)>) -> Seq<(Seq<char>, Seq<u8>)> {
    files.map_values(|f: (String, Vec<u8>)| (f.0@, f.1@))
}

/// The directories the files are in.
pub open spec fn directories_of(files: Seq<(Seq<char>, Seq<u8>)>) -> Set<Seq<char>> {
    Set::new(|d: Seq<char>| exists|i: int| 0 <= i < files.len() && dir_of(#[trigger] files[i].0) == d)
}

pub open spec fn override_paths(overrides: Option<RepoEnvironmentConfig>, which: int) -> Seq<Seq<char>> {
    match overrides {
        Some(o) => views(
            if which == 0 {
                o.cache_roots@
            } else if which == 1 {
                o.required_roots@
            } else if which == 2 {
                o.seed_files@
            } else {
                o.excluded_roots@
            },
        ),
        None => Seq::empty(),
    }
}

/// A seed file overlaps a cache root when it lies within it, or the root lies beneath it.
pub open spec fn overlaps(seed: Seq<char>, cache: Seq<char>) -> bool {
    within_root(seed, cache) || crate::text::starts_with(cache, seed + seq!['/'])
}

/// The first overlapping pair, seed by seed.
pub open spec fn first_overlap(seeds: Seq<Seq<char>>, caches: Seq<Seq<char>>) -> Option<(Seq<char>, Seq<char>)>
    decreases seeds.len(),
{
    if seeds.len() == 0 {
        None
    } else {
        match first_overlap(seeds.drop_last(), caches) {
            Some(p) => Some(p),
            None => match first_overlap_with(seeds.last(), caches, 0) {
                Some(c) => Some((seeds.last(), c)),
                None => None,
            },
        }
    }
}

pub open spec fn first_overlap_with(seed: Seq<char>, caches: Seq<Seq<char>>, i: int) -> Option<Seq<char>>
    decreases caches.len() - i,
{
    if i < 0 || i >= caches.len() {
        None
    } else if overlaps(seed, caches[i]) {
        Some(caches[i])
    } else {
        first_overlap_with(seed, caches, i + 1)
    }
}

/// The environment detected at a commit from its fingerprinted `files` (repository-relative
/// path and content) and its `patches` directories (path and tree object), with the user's
/// `config` and the repository's checked-in `overrides`.
pub open spec fn detected_environment(
    files: Seq<(Seq<char>, Seq<u8>)>,
    directories: Seq<Seq<char>>,
    config: AcreConfig,
    overrides: Option<RepoEnvironmentConfig>,
    env: DetectedEnvironment,
) -> bool {
    let detected = detected_in(files, directories);
    let ecosystems = distinct_ecosystems(detected);
    let excluded = normalized_set(views(config.environment.excluded_roots@) + override_paths(overrides, 3));
    &&& env.ecosystems@ == ecosystems
    &&& strictly_sorted(views(env.cache_roots@))
    &&& views(env.cache_roots@).to_set() == normalized_set(
        ecosystem_paths(ecosystems, 0) + views(config.environment.cache_roots@) + override_paths(overrides, 0),
    ).filter(|x: Seq<char>| !excluded.contains(x))
    &&& strictly_sorted(views(env.required_roots@))
    &&& views(env.required_roots@).to_set() == normalized_set(
        top_required(detected, top_depth(detected)) + views(config.environment.required_roots@) + override_paths(overrides, 1),
    ).filter(|x: Seq<char>| exists|c: int| 0 <= c < env.cache_roots@.len() && within_root(x, #[trigger] env.cache_roots@[c]@))
    &&& strictly_sorted(views(env.seed_files@))
    &&& views(env.seed_files@).to_set() == normalized_set(
        ecosystem_paths(ecosystems, 1) + views(config.environment.seed_files@) + override_paths(overrides, 2),
    ).filter(|x: Seq<char>| !excluded.contains(x))
}


fn dir_of_exec(path: &str) -> (r: String)
    ensures
        r@ == dir_of(path@),
{
    let chars = chars_of(path);
    let name = last_segment_exec(&chars);
    proof {
        lemma_last_segment_suffix(path@);
    }
    if name.len() < chars.len() {
        let d = crate::text::slice_chars(&chars, 0, chars.len() - name.len() - 1);
        string_from_chars(&d)
    } else {
        String::new()
    }
}

proof fn lemma_last_segment_suffix(s: Seq<char>)
    ensures
        last_segment(s).len() <= s.len(),
        last_segment(s) == s.skip(s.len() - last_segment(s).len()),
        last_segment(s).len() < s.len() ==> s[s.len() - last_segment(s).len() - 1] == '/',
    decreases s.len(),
{
    if s.len() > 0 {
        lemma_last_segment_suffix(s.drop_last());
        if s.last() != '/' {
            let prev = last_segment(s.drop_last());
            assert(s.skip(s.len() - prev.len() - 1) =~= s.drop_last().skip(s.drop_last().len() - prev.len()).push(s.last()));
            if prev.len() < s.drop_last().len() {
                assert(s[s.len() - prev.len() - 2] == s.drop_last()[s.drop_last().len() - prev.len() - 1]);
            }
        } else {
            assert(s.skip(s.len() as int) =~= Seq::<char>::empty());
        }
    }
}

fn last_segment_text(path: &str) -> (r: String)
    ensures
        r@ == last_segment(path@),
{
    let chars = chars_of(path);
    string_from_chars(&last_segment_exec(&chars))
}

fn directories(files: &Vec<(String, Vec<u8>)>) -> (dirs: Vec<String>)
    ensures
        strictly_sorted(views(dirs@)),
        views(dirs@).to_set() == directories_of(files_view(files@)),
{
    let ghost fv = files_view(files@);
    let mut all: Vec<String> = Vec::new();
    let mut i: usize = 0;
    while i < files.len()
        invariant
            i <= files@.len(),
            fv == files_view(files@),
            all@.len() == i,
            forall|t: int| 0 <= t < i ==> (#[trigger] all@[t])@ == dir_of(fv[t].0),
        decreases files.len() - i,
    {
        all.push(dir_of_exec(files[i].0.as_str()));
        i = i + 1;
    }
    let dirs = sort_unique_strings(&all);
    proof {
        assert forall|d: Seq<char>| views(all@).to_set().contains(d) <==> directories_of(fv).contains(d) by {
            if views(all@).contains(d) {
                let t = choose|t: int| 0 <= t < views(all@).len() && views(all@)[t] == d;
                assert(dir_of(fv[t].0) == d);
            }
            if directories_of(fv).contains(d) {
                let t = choose|t: int| 0 <= t < fv.len() && dir_of(#[trigger] fv[t].0) == d;
                assert(views(all@)[t] == d);
            }
        }
        assert(views(all@).to_set() =~= directories_of(fv));
    }
    dirs
}

fn names_in_exec(files: &Vec<(String, Vec<u8>)>, directory: &str) -> (names: Vec<String>)
    ensures
        views(names@) == names_in(files_view(files@), directory@),
{
    let ghost fv = files_view(files@);
    let mut names: Vec<String> = Vec::new();
    let mut i: usize = 0;
    while i < files.len()
        invariant
            i <= files@.len(),
            fv == files_view(files@),
            views(names@) == names_in(fv.take(i as int), directory@),
        decreases files.len() - i,
    {
        assert(fv.take(i + 1).drop_last() =~= fv.take(i as int));
        let d = dir_of_exec(files[i].0.as_str());
        if crate::text::str_equal(d.as_str(), directory) {
            let ghost before = views(names@);
            names.push(last_segment_text(files[i].0.as_str()));
            assert(views(names@) =~= before.push(last_segment(fv[i as int].0)));
        }
        i = i + 1;
    }
    assert(fv.take(fv.len() as int) =~= fv);
    names
}

fn join_relative_exec(directory: &str, name: &str) -> (r: String)
    ensures
        r@ == join_relative(directory@, name@),
{
    let mut text = chars_of(directory);
    if text.len() == 0 {
        return name.to_owned();
    }
    text.push('/');
    crate::text::push_str(&mut text, name);
    string_from_chars(&text)
}

fn content_at_exec(files: &Vec<(String, Vec<u8>)>, path: &str) -> (r: Option<Vec<u8>>)
    ensures
        match (r, content_at(files_view(files@), path@)) {
            (Some(a), Some(b)) => a@ == b,
            (None, None) => true,
            _ => false,
        },
{
    let ghost fv = files_view(files@);
    assert(fv.skip(0) =~= fv);
    let mut i: usize = 0;
    while i < files.len()
        invariant
            i <= files@.len(),
            fv == files_view(files@),
            content_at(fv, path@) == content_at(fv.skip(i as int), path@),
        decreases files.len() - i,
    {
        assert(fv.skip(i as int).drop_first() =~= fv.skip(i + 1));
        if crate::text::str_equal(files[i].0.as_str(), path) {
            let mut copy: Vec<u8> = Vec::new();
            push_bytes(&mut copy, files[i].1.as_slice());
            return Some(copy);
        }
        i = i + 1;
    }
    None
}

fn detect_all(files: &Vec<(String, Vec<u8>)>, dirs: &Vec<String>) -> (r: Vec<(Ecosystem, String)>)
    ensures
        r@.map_values(|x: (Ecosystem, String)| (x.0, x.1@)) == detected_in(files_view(files@), views(dirs@)),
{
    let ghost fv = files_view(files@);
    let mut r: Vec<(Ecosystem, String)> = Vec::new();
    let mut k: usize = 0;
    while k < dirs.len()
        invariant
            k <= dirs@.len(),
            fv == files_view(files@),
            r@.map_values(|x: (Ecosystem, String)| (x.0, x.1@)) == detected_in(fv, views(dirs@).take(k as int)),
        decreases dirs.len() - k,
    {
        let d = dirs[k].as_str();
        let names = names_in_exec(files, d);
        let package_path = join_relative_exec(d, "package.json");
        let package = content_at_exec(files, package_path.as_str());
        let found = match &package {
            Some(bytes) => detect_ecosystems(&names, Some(bytes.as_slice())),
            None => detect_ecosystems(&names, None),
        };
        let ghost before = r@.map_values(|x: (Ecosystem, String)| (x.0, x.1@));
        let mut j: usize = 0;
        while j < found.len()
            invariant
                j <= found@.len(),
                k < dirs@.len(),
                d@ == dirs@[k as int]@,
                r@.map_values(|x: (Ecosystem, String)| (x.0, x.1@)) == before + found@.take(j as int).map_values(
                    |e: Ecosystem| (e, d@),
                ),
            decreases found.len() - j,
        {
            let ghost b = r@.map_values(|x: (Ecosystem, String)| (x.0, x.1@));
            r.push((found[j], d.to_owned()));
            assert(r@.map_values(|x: (Ecosystem, String)| (x.0, x.1@)) =~= b.push((found@[j as int], d@)));
            assert(found@.take(j + 1).map_values(|e: Ecosystem| (e, d@)) =~= found@.take(j as int).map_values(
                |e: Ecosystem| (e, d@),
            ).push((found@[j as int], d@)));
            j = j + 1;
        }
        proof {
            assert(found@.take(found@.len() as int) =~= found@);
            let dv = views(dirs@);
            assert(dv.take(k + 1).drop_last() =~= dv.take(k as int));
            assert(dv.take(k + 1).last() == d@);
            assert(found@ == detect_spec(names_in(fv, d@), content_at(fv, join_relative(d@, "package.json"@))));
        }
        k = k + 1;
    }
    assert(views(dirs@).take(dirs@.len() as int) =~= views(dirs@));
    r
}

fn distinct_exec(detected: &Vec<(Ecosystem, String)>) -> (r: Vec<Ecosystem>)
    ensures
        r@ == distinct_ecosystems(detected@.map_values(|x: (Ecosystem, String)| (x.0, x.1@))),
{
    let ghost dv = detected@.map_values(|x: (Ecosystem, String)| (x.0, x.1@));
    let order = [
        Ecosystem::Bun,
        Ecosystem::Go,
        Ecosystem::Next,
        Ecosystem::Npm,
        Ecosystem::Pnpm,
        Ecosystem::Python,
        Ecosystem::Rust,
        Ecosystem::Turbo,
        Ecosystem::Yarn,
    ];
    assert(order@ =~= ecosystem_order());
    let mut r: Vec<Ecosystem> = Vec::new();
    let mut i: usize = 0;
    while i < 9
        invariant
            i <= 9,
            order@ == ecosystem_order(),
            dv == detected@.map_values(|x: (Ecosystem, String)| (x.0, x.1@)),
            r@ == present_in_order(order@.take(i as int), dv),
        decreases 9 - i,
    {
        let e = order[i];
        let mut found = false;
        let mut j: usize = 0;
        while j < detected.len()
            invariant
                j <= detected@.len(),
                dv == detected@.map_values(|x: (Ecosystem, String)| (x.0, x.1@)),
                found == exists|t: int| 0 <= t < j && (#[trigger] dv[t]).0 == e,
            decreases detected.len() - j,
        {
            assert(dv[j as int].0 == detected@[j as int].0);
            if detected[j].0 == e {
                found = true;
            }
            j = j + 1;
        }
        assert(order@.take(i + 1).drop_last() =~= order@.take(i as int));
        if found {
            r.push(e);
        }
        i = i + 1;
    }
    assert(order@.take(9) =~= order@);
    r
}

fn slash_count_exec(s: &str) -> (n: usize)
    ensures
        n == slash_count(s@),
{
    let chars = chars_of(s);
    let mut n: usize = 0;
    let mut i: usize = 0;
    while i < chars.len()
        invariant
            i <= chars@.len(),
            chars@ == s@,
            n == slash_count(s@.take(i as int)),
            n <= i,
        decreases chars.len() - i,
    {
        assert(s@.take(i + 1).drop_last() =~= s@.take(i as int));
        if chars[i] == '/' {
            n = n + 1;
        }
        i = i + 1;
    }
    assert(s@.take(s@.len() as int) =~= s@);
    n
}

fn depth_exec(d: &str) -> (n: u128)
    ensures
        n == depth_of(d@),
{
    let chars = chars_of(d);
    if chars.len() == 0 {
        return 0;
    }
    let c = slash_count_exec(d);
    c as u128 + 1
}

fn top_required_exec(detected: &Vec<(Ecosystem, String)>) -> (r: Vec<String>)
    ensures
        ({
            let dv = detected@.map_values(|x: (Ecosystem, String)| (x.0, x.1@));
            views(r@) == top_required(dv, top_depth(dv))
        }),
{
    let ghost dv = detected@.map_values(|x: (Ecosystem, String)| (x.0, x.1@));
    let mut top: u128 = 0;
    let mut i: usize = 0;
    while i < detected.len()
        invariant
            i <= detected@.len(),
            dv == detected@.map_values(|x: (Ecosystem, String)| (x.0, x.1@)),
            top == top_depth(dv.take(i as int)),
        decreases detected.len() - i,
    {
        assert(dv.take(i + 1).drop_last() =~= dv.take(i as int));
        let d = depth_exec(detected[i].1.as_str());
        if i == 0 || d < top {
            top = d;
        }
        i = i + 1;
    }
    assert(dv.take(dv.len() as int) =~= dv);
    let mut r: Vec<String> = Vec::new();
    let mut i: usize = 0;
    while i < detected.len()
        invariant
            i <= detected@.len(),
            dv == detected@.map_values(|x: (Ecosystem, String)| (x.0, x.1@)),
            top == top_depth(dv),
            views(r@) == top_required(dv.take(i as int), top as nat),
        decreases detected.len() - i,
    {
        assert(dv.take(i + 1).drop_last() =~= dv.take(i as int));
        let (e, d) = (detected[i].0, detected[i].1.as_str());
        let ghost before = views(r@);
        if depth_exec(d) == top {
            let def = definition(e);
            let mut j: usize = 0;
            while j < def.required_roots.len()
                invariant
                    j <= def.required_roots@.len(),
                    def.required_roots@.map_values(|s: String| s@) == ecosystem_required_roots(e),
                    views(r@) == before + ecosystem_required_roots(e).take(j as int).map_values(|x: Seq<char>| join_relative(d@, x)),
                decreases def.required_roots.len() - j,
            {
                let joined = join_relative_exec(d, def.required_roots[j].as_str());
                let ghost b = views(r@);
                r.push(joined);
                assert(views(r@) =~= b.push(join_relative(d@, ecosystem_required_roots(e)[j as int])));
                assert(ecosystem_required_roots(e).take(j + 1).map_values(|x: Seq<char>| join_relative(d@, x))
                    =~= ecosystem_required_roots(e).take(j as int).map_values(|x: Seq<char>| join_relative(d@, x)).push(
                    join_relative(d@, ecosystem_required_roots(e)[j as int]),
                ));
                j = j + 1;
            }
            assert(ecosystem_required_roots(e).take(def.required_roots@.len() as int) =~= ecosystem_required_roots(e));
        } else {
            assert(views(r@) =~= before + Seq::<Seq<char>>::empty());
        }
        i = i + 1;
    }
    assert(dv.take(dv.len() as int) =~= dv);
    r
}

fn ecosystem_paths_exec(ecosystems: &Vec<Ecosystem>, which: usize) -> (r: Vec<String>)
    requires
        which <= 1,
    ensures
        views(r@) == ecosystem_paths(ecosystems@, which as int),
{
    let mut r: Vec<String> = Vec::new();
    let mut i: usize = 0;
    while i < ecosystems.len()
        invariant
            i <= ecosystems@.len(),
            which <= 1,
            views(r@) == ecosystem_paths(ecosystems@.take(i as int), which as int),
        decreases ecosystems.len() - i,
    {
        assert(ecosystems@.take(i + 1).drop_last() =~= ecosystems@.take(i as int));
        let def = definition(ecosystems[i]);
        let paths = if which == 0 {
            def.cache_roots
        } else {
            def.seed_files
        };
        extend_texts(&mut r, &paths);
        i = i + 1;
    }
    assert(ecosystems@.take(ecosystems@.len() as int) =~= ecosystems@);
    r
}


/// Each manifest with the SHA-256 of what it contributes, then each patch directory, with a
/// trailing `/`, with the SHA-256 of its tree object.
pub open spec fn file_hashes_spec(files: Seq<(Seq<char>, Seq<u8>)>, patches: Seq<(Seq<char>, Seq<u8>)>) -> Seq<(Seq<char>, Seq<char>)> {
    files.map_values(|f: (Seq<char>, Seq<u8>)| (f.0, crate::util::sha256_hex(normalize_spec(f.0, f.1)))) + patches.map_values(
        |p: (Seq<char>, Seq<u8>)| (p.0 + seq!['/'], crate::util::sha256_hex(p.1)),
    )
}

fn hash_files(files: &Vec<(String, Vec<u8>)>, patches: &Vec<(String, Vec<u8>)>) -> (r: Vec<(String, String)>)
    ensures
        r@.map_values(|h: (String, String)| (h.0@, h.1@)) == file_hashes_spec(files_view(files@), files_view(patches@)),
{
    let ghost fv = files_view(files@);
    let ghost pv = files_view(patches@);
    let mut r: Vec<(String, String)> = Vec::new();
    let mut i: usize = 0;
    while i < files.len()
        invariant
            i <= files@.len(),
            fv == files_view(files@),
            r@.map_values(|h: (String, String)| (h.0@, h.1@)) == fv.take(i as int).map_values(
                |f: (Seq<char>, Seq<u8>)| (f.0, crate::util::sha256_hex(normalize_spec(f.0, f.1))),
            ),
        decreases files.len() - i,
    {
        let normalized = normalize_fingerprint_content(files[i].0.as_str(), files[i].1.as_slice());
        let hash = sha256(normalized.as_slice());
        let ghost before = r@.map_values(|h: (String, String)| (h.0@, h.1@));
        r.push((files[i].0.clone(), hash));
        assert(r@.map_values(|h: (String, String)| (h.0@, h.1@)) =~= before.push((fv[i as int].0, crate::util::sha256_hex(normalize_spec(fv[i as int].0, fv[i as int].1)))));
        assert(fv.take(i + 1).map_values(|f: (Seq<char>, Seq<u8>)| (f.0, crate::util::sha256_hex(normalize_spec(f.0, f.1))))
            =~= fv.take(i as int).map_values(|f: (Seq<char>, Seq<u8>)| (f.0, crate::util::sha256_hex(normalize_spec(f.0, f.1)))).push(
            (fv[i as int].0, crate::util::sha256_hex(normalize_spec(fv[i as int].0, fv[i as int].1))),
        ));
        i = i + 1;
    }
    assert(fv.take(fv.len() as int) =~= fv);
    let ghost first = r@.map_values(|h: (String, String)| (h.0@, h.1@));
    let mut j: usize = 0;
    while j < patches.len()
        invariant
            j <= patches@.len(),
            pv == files_view(patches@),
            r@.map_values(|h: (String, String)| (h.0@, h.1@)) == first + pv.take(j as int).map_values(
                |p: (Seq<char>, Seq<u8>)| (p.0 + seq!['/'], crate::util::sha256_hex(p.1)),
            ),
        decreases patches.len() - j,
    {
        let mut name = chars_of(patches[j].0.as_str());
        name.push('/');
        assert(name@ =~= pv[j as int].0 + seq!['/']);
        let hash = sha256(patches[j].1.as_slice());
        let ghost before = r@.map_values(|h: (String, String)| (h.0@, h.1@));
        r.push((string_from_chars(&name), hash));
        assert(r@.map_values(|h: (String, String)| (h.0@, h.1@)) =~= before.push((pv[j as int].0 + seq!['/'], crate::util::sha256_hex(pv[j as int].1))));
        assert(pv.take(j + 1).map_values(|p: (Seq<char>, Seq<u8>)| (p.0 + seq!['/'], crate::util::sha256_hex(p.1)))
            =~= pv.take(j as int).map_values(|p: (Seq<char>, Seq<u8>)| (p.0 + seq!['/'], crate::util::sha256_hex(p.1))).push(
            (pv[j as int].0 + seq!['/'], crate::util::sha256_hex(pv[j as int].1)),
        ));
        j = j + 1;
    }
    assert(pv.take(pv.len() as int) =~= pv);
    r
}

fn seed_overlap(seeds: &Vec<String>, caches: &Vec<String>) -> (r: Option<(String, String)>)
    ensures
        match (r, first_overlap(views(seeds@), views(caches@))) {
            (Some(a), Some(b)) => a.0@ == b.0 && a.1@ == b.1,
            (None, None) => true,
            _ => false,
        },
{
    let ghost sv = views(seeds@);
    let ghost cv = views(caches@);
    let mut i: usize = 0;
    while i < seeds.len()
        invariant
            i <= seeds@.len(),
            sv == views(seeds@),
            cv == views(caches@),
            first_overlap(sv.take(i as int), cv) is None,
        decreases seeds.len() - i,
    {
        assert(sv.take(i + 1).drop_last() =~= sv.take(i as int));
        let seed = seeds[i].as_str();
        let mut prefix = chars_of(seed);
        prefix.push('/');
        assert(prefix@ =~= seed@ + seq!['/']);
        let mut c: usize = 0;
        while c < caches.len()
            invariant
                c <= caches@.len(),
                i < seeds@.len(),
                sv == views(seeds@),
                first_overlap(sv.take(i as int), cv) is None,
                seed@ == sv[i as int],
                prefix@ == seed@ + seq!['/'],
                cv == views(caches@),
                first_overlap_with(seed@, cv, 0) == first_overlap_with(seed@, cv, c as int),
            decreases caches.len() - c,
        {
            let cache = caches[c].as_str();
            let cache_chars = chars_of(cache);
            if is_within_root(seed, cache) || crate::text::chars_start_with(&cache_chars, &prefix) {
                assert(first_overlap_with(seed@, cv, c as int) == Some(cv[c as int]));
                assert(sv.take(i + 1).drop_last() =~= sv.take(i as int));
                assert(sv.take(i + 1).last() == seed@);
                proof {
                    lemma_first_overlap_prefix(sv, cv, i + 1);
                }
                return Some((seed.to_owned(), cache.to_owned()));
            }
            c = c + 1;
        }
        i = i + 1;
    }
    assert(sv.take(sv.len() as int) =~= sv);
    None
}

proof fn lemma_first_overlap_prefix(seeds: Seq<Seq<char>>, caches: Seq<Seq<char>>, n: int)
    requires
        0 <= n <= seeds.len(),
        first_overlap(seeds.take(n), caches) is Some,
    ensures
        first_overlap(seeds, caches) == first_overlap(seeds.take(n), caches),
    decreases seeds.len(),
{
    if seeds.len() > n {
        assert(seeds.drop_last().take(n) =~= seeds.take(n));
        lemma_first_overlap_prefix(seeds.drop_last(), caches, n);
    } else {
        assert(seeds.take(n) =~= seeds);
    }
}

proof fn lemma_normalized_entries(v: Seq<String>)
    ensures
        normalized_entries(v) == normalized_set(views(v)),
{
    assert forall|x: Seq<char>| normalized_entries(v).contains(x) <==> normalized_set(views(v)).contains(x) by {
        if normalized_entries(v).contains(x) {
            let i = choose|i: int| 0 <= i < v.len() && normalize_path_entry(#[trigger] v[i]@) == x;
            assert(views(v)[i] == v[i]@);
        }
        if normalized_set(views(v)).contains(x) {
            let i = choose|i: int| 0 <= i < views(v).len() && normalize_path_entry(#[trigger] views(v)[i]) == x;
            assert(views(v)[i] == v[i]@);
        }
    }
    assert(normalized_entries(v) =~= normalized_set(views(v)));
}

fn overlap_error(seed: &str, cache: &str) -> (e: AcreError)
    ensures
        e.code == "ACRE_CONFIG_INVALID",
        e.exit_code == EXIT_USAGE,
        e.message@ == "Seed path "@ + seed@ + " overlaps cache root "@ + cache@ + ". Keep secrets outside cache roots."@,
{
    let mut text = chars_of("Seed path ");
    crate::text::push_str(&mut text, seed);
    crate::text::push_str(&mut text, " overlaps cache root ");
    crate::text::push_str(&mut text, cache);
    crate::text::push_str(&mut text, ". Keep secrets outside cache roots.");
    AcreError::new("ACRE_CONFIG_INVALID", string_from_chars(&text).as_str(), EXIT_USAGE)
}

fn override_list(overrides: &Option<RepoEnvironmentConfig>, which: usize) -> (r: Vec<String>)
    ensures
        views(r@) == override_paths(*overrides, which as int),
{
    match overrides {
        Some(o) => {
            let v = if which == 0 {
                &o.cache_roots
            } else if which == 1 {
                &o.required_roots
            } else if which == 2 {
                &o.seed_files
            } else {
                &o.excluded_roots
            };
            let mut r: Vec<String> = Vec::new();
            extend_texts(&mut r, v);
            r
        },
        None => Vec::new(),
    }
}

/// Detects the environment at a commit from its fingerprinted `files` (repository-relative
/// path and content, in path order) and the tree objects of its `patches` directories, with
/// the user's `config` and the repository's checked-in `overrides`. Ecosystems are detected
/// directory by directory; only the top-most projects decide which roots are required (a
/// helper tool's pyproject deep in the tree must not hold a Node app at warm), and a required
/// root must lie within a cache root. A seed file inside a cache root is refused: secrets
/// stay outside caches.
pub fn detect_environment(
    files: &Vec<(String, Vec<u8>)>,
    patches: &Vec<(String, Vec<u8>)>,
    config: &AcreConfig,
    overrides: &Option<RepoEnvironmentConfig>,
) -> (r: Result<DetectedEnvironment, AcreError>)
    ensures
        exists|dirs: Seq<Seq<char>>|
            #![trigger strictly_sorted(dirs)]
            strictly_sorted(dirs) && dirs.to_set() == directories_of(files_view(files@)) && match r {
                Ok(env) => detected_environment(files_view(files@), dirs, *config, *overrides, env)
                    && env.file_hashes@.map_values(|h: (String, String)| (h.0@, h.1@)) == file_hashes_spec(
                    files_view(files@),
                    files_view(patches@),
                ) && first_overlap(views(env.seed_files@), views(env.cache_roots@)) is None,
                Err(e) => e.code == "ACRE_CONFIG_INVALID" && e.exit_code == EXIT_USAGE && exists|env: DetectedEnvironment|
                    #![trigger detected_environment(files_view(files@), dirs, *config, *overrides, env)]
                    detected_environment(files_view(files@), dirs, *config, *overrides, env) && (first_overlap(
                        views(env.seed_files@),
                        views(env.cache_roots@),
                    ) matches Some((s, c)) && e.message@ == "Seed path "@ + s + " overlaps cache root "@ + c
                        + ". Keep secrets outside cache roots."@),
            },
{
    let dirs = directories(files);
    let detected = detect_all(files, &dirs);
    let ecosystems = distinct_exec(&detected);
    let mut exclusions: Vec<String> = Vec::new();
    extend_texts(&mut exclusions, &config.environment.excluded_roots);
    let extra = override_list(overrides, 3);
    extend_texts(&mut exclusions, &extra);
    let excluded = unique_paths(exclusions);
    let mut cache_inputs = ecosystem_paths_exec(&ecosystems, 0);
    extend_texts(&mut cache_inputs, &config.environment.cache_roots);
    let extra = override_list(overrides, 0);
    extend_texts(&mut cache_inputs, &extra);
    let cache_roots = unique_excluding(cache_inputs, &excluded);
    let mut required_inputs = top_required_exec(&detected);
    extend_texts(&mut required_inputs, &config.environment.required_roots);
    let extra = override_list(overrides, 1);
    extend_texts(&mut required_inputs, &extra);
    let required_roots = unique_within(required_inputs, &cache_roots);
    let mut seed_inputs = ecosystem_paths_exec(&ecosystems, 1);
    extend_texts(&mut seed_inputs, &config.environment.seed_files);
    let extra = override_list(overrides, 2);
    extend_texts(&mut seed_inputs, &extra);
    let seed_files = unique_excluding(seed_inputs, &excluded);
    let file_hashes = hash_files(files, patches);
    let ghost ex_set = normalized_set(views(config.environment.excluded_roots@) + override_paths(*overrides, 3));
    proof {
        lemma_normalized_entries(exclusions@);
        assert(normalized_entries(exclusions@) =~= ex_set);
        assert forall|x: Seq<char>| views(excluded@).contains(x) <==> ex_set.contains(x) by {
            assert(views(excluded@).to_set().contains(x) == views(excluded@).contains(x));
        }
    }
    let env = DetectedEnvironment { ecosystems, cache_roots, required_roots, seed_files, file_hashes };
    proof {
        let fv = files_view(files@);
        let dv = views(dirs@);
        assert(normalized_set(views(cache_inputs@)).filter(|x: Seq<char>| !views(excluded@).contains(x))
            =~= normalized_set(views(cache_inputs@)).filter(|x: Seq<char>| !ex_set.contains(x)));
        assert(normalized_set(views(seed_inputs@)).filter(|x: Seq<char>| !views(excluded@).contains(x))
            =~= normalized_set(views(seed_inputs@)).filter(|x: Seq<char>| !ex_set.contains(x)));
        assert(detected_environment(fv, dv, *config, *overrides, env));
    }
    let ghost dv = views(dirs@);
    match seed_overlap(&env.seed_files, &env.cache_roots) {
        Some((seed, cache)) => {
            let e = overlap_error(seed.as_str(), cache.as_str());
            assert(strictly_sorted(dv));
            Err(e)
        },
        None => {
            assert(strictly_sorted(dv));
            Ok(env)
        },
    }
}


// ---------------------------------------------------------------------------------------------
// Platform and fingerprint

/// The part of `s` before its first `.` (all of it when there is none).
pub open spec fn before_dot(s: Seq<char>) -> Seq<char> {
    match find_seq(s, seq!['.']) {
        Some(i) => s.take(i),
        None => s,
    }
}

fn before_dot_exec(s: &Vec<char>) -> (r: Vec<char>)
    ensures
        r@ == before_dot(s@),
{
    let dot = vec!['.'];
    assert(dot@ =~= seq!['.']);
    proof {
        crate::text::lemma_first_occurrence_from(s@, seq!['.'], 0);
    }
    match crate::text::find_chars_from(s, &dot, 0) {
        Some(i) => crate::text::slice_chars(s, 0, i),
        None => {
            let r = crate::text::slice_chars(s, 0, s.len());
            assert(r@ =~= s@);
            r
        },
    }
}

/// The kernel release's major part: on macOS that tracks the OS version, which native modules
/// care about. `unknown` when the release could not be read or has no major part.
pub open spec fn os_major_spec(release: Option<Seq<char>>) -> Seq<char> {
    match release {
        Some(r) => if before_dot(trim_whitespace(r)).len() > 0 {
            before_dot(trim_whitespace(r))
        } else {
            "unknown"@
        },
        None => "unknown"@,
    }
}

pub fn os_major(release: Option<&str>) -> (r: String)
    ensures
        r@ == os_major_spec(match release {
            Some(t) => Some(t@),
            None => None,
        }),
{
    match release {
        Some(t) => {
            let trimmed = trim_whitespace_exec(&chars_of(t));
            let major = before_dot_exec(&trimmed);
            if major.len() > 0 {
                string_from_chars(&major)
            } else {
                "unknown".to_owned()
            }
        },
        None => "unknown".to_owned(),
    }
}

/// `s` without its leading `v`s.
pub open spec fn without_leading_v(s: Seq<char>) -> Seq<char>
    decreases s.len(),
{
    if s.len() > 0 && s[0] == 'v' {
        without_leading_v(s.drop_first())
    } else {
        s
    }
}

/// The Node major version `node --version` printed (`v20.11.0` gives `20`).
pub open spec fn node_major_spec(version: Seq<char>) -> Seq<char> {
    before_dot(without_leading_v(trim_whitespace(version)))
}

pub fn node_major(version: &str) -> (r: String)
    ensures
        r@ == node_major_spec(version@),
{
    let trimmed = trim_whitespace_exec(&chars_of(version));
    let mut k: usize = 0;
    assert(trimmed@.skip(0) =~= trimmed@);
    while k < trimmed.len() && trimmed[k] == 'v'
        invariant
            k <= trimmed@.len(),
            without_leading_v(trimmed@) == without_leading_v(trimmed@.skip(k as int)),
        decreases trimmed.len() - k,
    {
        assert(trimmed@.skip(k as int).drop_first() =~= trimmed@.skip(k + 1));
        k = k + 1;
    }
    let rest = crate::text::slice_chars(&trimmed, k, trimmed.len());
    assert(rest@ =~= trimmed@.skip(k as int));
    string_from_chars(&before_dot_exec(&rest))
}

/// Some detected ecosystem is a JavaScript toolchain.
pub open spec fn uses_node_spec(ecosystems: Seq<Ecosystem>) -> bool {
    exists|i: int| 0 <= i < ecosystems.len() && is_node_ecosystem(#[trigger] ecosystems[i])
}

pub fn uses_node(ecosystems: &Vec<Ecosystem>) -> (r: bool)
    ensures
        r == uses_node_spec(ecosystems@),
{
    let mut i: usize = 0;
    while i < ecosystems.len()
        invariant
            i <= ecosystems@.len(),
            forall|j: int| 0 <= j < i ==> !is_node_ecosystem(#[trigger] ecosystems@[j]),
        decreases ecosystems.len() - i,
    {
        match ecosystems[i] {
            Ecosystem::Pnpm | Ecosystem::Yarn | Ecosystem::Npm | Ecosystem::Bun | Ecosystem::Turbo | Ecosystem::Next => {
                return true;
            },
            _ => {},
        }
        i = i + 1;
    }
    false
}

/// `os:arch:os-major:node`. Native modules and build outputs do not survive an OS or Node
/// major change, so Node's major version counts for Node projects: what `node --version`
/// printed (`node_version`), `none` when it could not be asked, and `unused` otherwise.
pub open spec fn platform_key_spec(
    os: Seq<char>,
    arch: Seq<char>,
    release: Option<Seq<char>>,
    node_version: Option<Seq<char>>,
    node_project: bool,
) -> Seq<char> {
    os + seq![':'] + arch + seq![':'] + os_major_spec(release) + seq![':'] + if node_project {
        match node_version {
            Some(v) => node_major_spec(v),
            None => "none"@,
        }
    } else {
        "unused"@
    }
}

pub fn platform_key(os: &str, arch: &str, release: Option<&str>, node_version: Option<&str>, node_project: bool) -> (r: String)
    ensures
        r@ == platform_key_spec(
            os@,
            arch@,
            match release {
                Some(t) => Some(t@),
                None => None,
            },
            match node_version {
                Some(t) => Some(t@),
                None => None,
            },
            node_project,
        ),
{
    let mut text = chars_of(os);
    text.push(':');
    crate::text::push_str(&mut text, arch);
    text.push(':');
    let major = os_major(release);
    crate::text::push_str(&mut text, major.as_str());
    text.push(':');
    let node: String = if node_project {
        match node_version {
            Some(v) => node_major(v),
            None => "none".to_owned(),
        }
    } else {
        "unused".to_owned()
    };
    crate::text::push_str(&mut text, node.as_str());
    string_from_chars(&text)
}

/// The JSON literal `serde_json` writes for a string.
pub uninterp spec fn json_quoted(s: Seq<char>) -> Seq<char>;

/// `serde_json::to_string` of a string: its JSON literal, quoted and escaped.
#[verifier::external_body]
fn quote_json(s: &str) -> (r: String)
    ensures
        r@ == json_quoted(s@),
{
    serde_json::to_string(s).unwrap_or_default()
}

/// A JSON array of already written elements.
pub open spec fn json_array(items: Seq<Seq<char>>) -> Seq<char> {
    seq!['['] + join_bytes(items, ',') + seq![']']
}

pub open spec fn strings_array(values: Seq<Seq<char>>) -> Seq<char> {
    json_array(values.map_values(|v: Seq<char>| json_quoted(v)))
}

pub open spec fn hashes_array(hashes: Seq<(Seq<char>, Seq<char>)>) -> Seq<char> {
    json_array(hashes.map_values(|h: (Seq<char>, Seq<char>)| json_array(seq![json_quoted(h.0), json_quoted(h.1)])))
}

/// The text that is hashed into the fingerprint: the platform, the ecosystems, every
/// manifest's hash and the cache and required roots, as `serde_json` writes them (its objects
/// sort their keys, so the text is stable across runs).
pub open spec fn fingerprint_text(
    ids: Seq<Seq<char>>,
    cache_roots: Seq<Seq<char>>,
    required_roots: Seq<Seq<char>>,
    hashes: Seq<(Seq<char>, Seq<char>)>,
    platform_key: Seq<char>,
) -> Seq<char> {
    "{\"cacheRoots\":"@ + strings_array(cache_roots) + ",\"ecosystems\":"@ + strings_array(ids) + ",\"files\":"@
        + hashes_array(hashes) + ",\"platformKey\":"@ + json_quoted(platform_key) + ",\"requiredRoots\":"@
        + strings_array(required_roots) + "}"@
}

fn push_array(out: &mut Vec<char>, items: &Vec<Vec<char>>)
    ensures
        final(out)@ == old(out)@ + json_array(items@.map_values(|v: Vec<char>| v@)),
{
    let ghost start = out@;
    let ghost all = items@.map_values(|v: Vec<char>| v@);
    out.push('[');
    let mut i: usize = 0;
    while i < items.len()
        invariant
            i <= items@.len(),
            all == items@.map_values(|v: Vec<char>| v@),
            out@ == start + seq!['['] + join_bytes(all.take(i as int), ','),
        decreases items.len() - i,
    {
        if i > 0 {
            out.push(',');
        }
        crate::text::push_chars(out, items[i].as_slice());
        proof {
            let t = all.take(i + 1);
            assert(t.drop_last() =~= all.take(i as int));
            assert(t.last() == all[i as int]);
            if i == 0 {
                assert(join_bytes(t, ',') == t[0]);
            }
            assert(out@ =~= start + seq!['['] + join_bytes(t, ','));
        }
        i = i + 1;
    }
    out.push(']');
    assert(all.take(items@.len() as int) =~= all);
    assert(out@ =~= start + json_array(all));
}

fn quoted_all(values: &Vec<String>) -> (r: Vec<Vec<char>>)
    ensures
        r@.map_values(|v: Vec<char>| v@) == views(values@).map_values(|v: Seq<char>| json_quoted(v)),
{
    let mut r: Vec<Vec<char>> = Vec::new();
    let mut i: usize = 0;
    while i < values.len()
        invariant
            i <= values@.len(),
            r@.map_values(|v: Vec<char>| v@) == views(values@).take(i as int).map_values(|v: Seq<char>| json_quoted(v)),
        decreases values.len() - i,
    {
        let q = quote_json(values[i].as_str());
        let ghost before = r@.map_values(|v: Vec<char>| v@);
        r.push(chars_of(q.as_str()));
        assert(r@.map_values(|v: Vec<char>| v@) =~= before.push(json_quoted(values@[i as int]@)));
        assert(views(values@).take(i + 1).map_values(|v: Seq<char>| json_quoted(v)) =~= views(values@).take(i as int).map_values(
            |v: Seq<char>| json_quoted(v),
        ).push(json_quoted(values@[i as int]@)));
        i = i + 1;
    }
    assert(views(values@).take(values@.len() as int) =~= views(values@));
    r
}

/// The ids of `ecosystems`.
pub open spec fn ecosystem_ids(ecosystems: Seq<Ecosystem>) -> Seq<Seq<char>> {
    ecosystems.map_values(|e: Ecosystem| ecosystem_id(e))
}

/// The plan for a detected environment on the platform `platform_key`; its fingerprint is the
/// SHA-256 of `fingerprint_text`.
pub fn build_environment_plan(env: DetectedEnvironment, platform_key: String) -> (plan: EnvironmentPlan)
    ensures
        views(plan.ecosystem_ids@) == ecosystem_ids(env.ecosystems@),
        plan.cache_roots@ == env.cache_roots@,
        plan.required_roots@ == env.required_roots@,
        plan.seed_files@ == env.seed_files@,
        plan.platform_key == platform_key,
        plan.fingerprint@ == crate::util::sha256_hex(vstd::utf8::encode_utf8(fingerprint_text(
            ecosystem_ids(env.ecosystems@),
            views(env.cache_roots@),
            views(env.required_roots@),
            env.file_hashes@.map_values(|h: (String, String)| (h.0@, h.1@)),
            platform_key@,
        ))),
{
    let mut ids: Vec<String> = Vec::new();
    let mut i: usize = 0;
    while i < env.ecosystems.len()
        invariant
            i <= env.ecosystems@.len(),
            views(ids@) == ecosystem_ids(env.ecosystems@.take(i as int)),
        decreases env.ecosystems.len() - i,
    {
        let def = definition(env.ecosystems[i]);
        let ghost before = views(ids@);
        ids.push(def.id);
        assert(views(ids@) =~= before.push(ecosystem_id(env.ecosystems@[i as int])));
        assert(ecosystem_ids(env.ecosystems@.take(i + 1)) =~= ecosystem_ids(env.ecosystems@.take(i as int)).push(
            ecosystem_id(env.ecosystems@[i as int]),
        ));
        i = i + 1;
    }
    assert(env.ecosystems@.take(env.ecosystems@.len() as int) =~= env.ecosystems@);
    let ghost hv = env.file_hashes@.map_values(|h: (String, String)| (h.0@, h.1@));
    let mut pairs: Vec<Vec<char>> = Vec::new();
    let mut j: usize = 0;
    while j < env.file_hashes.len()
        invariant
            j <= env.file_hashes@.len(),
            hv == env.file_hashes@.map_values(|h: (String, String)| (h.0@, h.1@)),
            pairs@.map_values(|v: Vec<char>| v@) == hv.take(j as int).map_values(
                |h: (Seq<char>, Seq<char>)| json_array(seq![json_quoted(h.0), json_quoted(h.1)]),
            ),
        decreases env.file_hashes.len() - j,
    {
        let pair_items = vec![
            chars_of(quote_json(env.file_hashes[j].0.as_str()).as_str()),
            chars_of(quote_json(env.file_hashes[j].1.as_str()).as_str()),
        ];
        let mut pair: Vec<char> = Vec::new();
        push_array(&mut pair, &pair_items);
        assert(pair_items@.map_values(|v: Vec<char>| v@) =~= seq![json_quoted(hv[j as int].0), json_quoted(hv[j as int].1)]);
        let ghost before = pairs@.map_values(|v: Vec<char>| v@);
        pairs.push(pair);
        assert(pairs@.map_values(|v: Vec<char>| v@) =~= before.push(json_array(seq![json_quoted(hv[j as int].0), json_quoted(hv[j as int].1)])));
        assert(hv.take(j + 1).map_values(|h: (Seq<char>, Seq<char>)| json_array(seq![json_quoted(h.0), json_quoted(h.1)]))
            =~= hv.take(j as int).map_values(|h: (Seq<char>, Seq<char>)| json_array(seq![json_quoted(h.0), json_quoted(h.1)])).push(
            json_array(seq![json_quoted(hv[j as int].0), json_quoted(hv[j as int].1)]),
        ));
        j = j + 1;
    }
    assert(hv.take(hv.len() as int) =~= hv);
    let mut text = chars_of("{\"cacheRoots\":");
    push_array(&mut text, &quoted_all(&env.cache_roots));
    crate::text::push_str(&mut text, ",\"ecosystems\":");
    push_array(&mut text, &quoted_all(&ids));
    crate::text::push_str(&mut text, ",\"files\":");
    push_array(&mut text, &pairs);
    crate::text::push_str(&mut text, ",\"platformKey\":");
    let quoted_key = quote_json(platform_key.as_str());
    crate::text::push_str(&mut text, quoted_key.as_str());
    crate::text::push_str(&mut text, ",\"requiredRoots\":");
    push_array(&mut text, &quoted_all(&env.required_roots));
    crate::text::push_str(&mut text, "}");
    let ghost expected = fingerprint_text(
        ecosystem_ids(env.ecosystems@),
        views(env.cache_roots@),
        views(env.required_roots@),
        hv,
        platform_key@,
    );
    assert(text@ =~= expected);
    let rendered = string_from_chars(&text);
    let fingerprint = sha256(rendered.as_str().as_bytes());
    EnvironmentPlan {
        fingerprint,
        ecosystem_ids: ids,
        cache_roots: env.cache_roots,
        required_roots: env.required_roots,
        seed_files: env.seed_files,
        platform_key,
    }
}


proof fn lemma_join_contains_field(fields: Seq<Seq<u8>>, sep: u8, k: int)
    requires
        0 <= k < fields.len(),
    ensures
        crate::text::contains_seq(join_bytes(fields, sep), fields[k]),
    decreases fields.len(),
{
    let joined = join_bytes(fields, sep);
    if fields.len() == 1 {
        assert(crate::text::occurs_at(joined, fields[k], 0)) by {
            assert(joined.subrange(0, fields[k].len() as int) =~= fields[k]);
        }
    } else {
        let head = join_bytes(fields.drop_last(), sep);
        assert(joined == head + seq![sep] + fields.last());
        if k == fields.len() - 1 {
            let at: int = head.len() as int + 1;
            assert(joined.subrange(at, at + fields[k].len()) =~= fields[k]);
            assert(crate::text::occurs_at(joined, fields[k], at));
        } else {
            lemma_join_contains_field(fields.drop_last(), sep, k);
            assert(fields.drop_last()[k] == fields[k]);
            let at = choose|at: int| crate::text::occurs_at(head, fields[k], at);
            assert(joined.subrange(at, at + fields[k].len()) =~= head.subrange(at, at + fields[k].len()));
            assert(crate::text::occurs_at(joined, fields[k], at));
        }
    }
}

proof fn lemma_object_contains_item(items: Seq<Seq<u8>>, k: int)
    requires
        0 <= k < items.len(),
    ensures
        crate::text::contains_seq(object_of(items), items[k]),
{
    lemma_join_contains_field(items, 44u8, k);
    let joined = comma_joined(items);
    let at = choose|at: int| crate::text::occurs_at(joined, items[k], at);
    let whole = object_of(items);
    assert(whole.subrange(at + 1, at + 1 + items[k].len()) =~= joined.subrange(at, at + items[k].len()));
    assert(crate::text::occurs_at(whole, items[k], at + 1));
}

proof fn lemma_items_for_has(entries: Seq<(Seq<char>, Seq<u8>)>, keys: Seq<Seq<char>>, key: Seq<char>, value: Seq<u8>)
    requires
        keys.contains(key),
        member(entries, key) == Some(value),
    ensures
        items_for(entries, keys).contains(member_item(key, value)),
    decreases keys.len(),
{
    let rest = items_for(entries, keys.drop_last());
    if keys.last() == key {
        assert(items_for(entries, keys) == rest.push(member_item(key, value)));
        assert(items_for(entries, keys)[rest.len() as int] == member_item(key, value));
    } else {
        let i = choose|i: int| 0 <= i < keys.len() && keys[i] == key;
        assert(keys.drop_last()[i] == key);
        lemma_items_for_has(entries, keys.drop_last(), key, value);
        let j = choose|j: int| 0 <= j < rest.len() && rest[j] == member_item(key, value);
        match member(entries, keys.last()) {
            Some(v) => assert(items_for(entries, keys)[j] == rest.push(member_item(keys.last(), v))[j]),
            None => {},
        }
        assert(items_for(entries, keys)[j] == member_item(key, value));
    }
}

/// A `package.json` that is a JSON object keeps every dependency section in its fingerprint:
/// for `dependencies`, `devDependencies`, `optionalDependencies` and `peerDependencies`, the
/// member `"<key>":<value>` the file has appears, value unchanged, in what it contributes,
/// so editing any of them changes the environment fingerprint.
pub proof fn law_dependency_sections_count(file: Seq<char>, content: Seq<u8>, key: Seq<char>, value: Seq<u8>)
    requires
        last_segment(file) == "package.json"@,
        key == "dependencies"@ || key == "devDependencies"@ || key == "optionalDependencies"@ || key == "peerDependencies"@,
        json_object_entries(content) matches Some(entries) && member(entries, key) == Some(value),
    ensures
        crate::text::contains_seq(
            normalize_spec(file, content),
            seq![34u8] + vstd::utf8::encode_utf8(key) + seq![34u8, 58u8] + value,
        ),
{
    let entries = json_object_entries(content).unwrap();
    let keys = keys_before_scripts();
    assert(keys[4] == "dependencies"@ && keys[5] == "devDependencies"@);
    assert(keys[9] == "optionalDependencies"@ && keys[13] == "peerDependencies"@);
    assert(keys.contains(key));
    lemma_items_for_has(entries, keys, key, value);
    let first = items_for(entries, keys);
    let all = first + scripts_item(entries) + items_for(entries, keys_after_scripts());
    let j = choose|j: int| 0 <= j < first.len() && first[j] == member_item(key, value);
    assert(all[j] == first[j]);
    lemma_object_contains_item(all, j);
}

} // verus!
