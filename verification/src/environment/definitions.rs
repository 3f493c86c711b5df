//! Built-in ecosystem knowledge: which files identify a toolchain and which directories it
//! caches; and the few facts read out of a `package.json`.

use vstd::prelude::*;

use crate::order::views;
use crate::text::{chars_of, string_from_chars};

verus! {

/// The toolchains Acre knows.
#[derive(Debug, Clone, Copy, PartialEq, Eq, Structural)]
pub enum Ecosystem {
    Pnpm,
    Yarn,
    Npm,
    Bun,
    Turbo,
    Next,
    Rust,
    Python,
    Go,
}

/// A toolchain's identity, the directories it caches, the ones it needs before a workspace is
/// ready, and the local files it seeds.
#[derive(Debug, Clone)]
pub struct EcosystemDefinition {
    pub id: String,
    pub cache_roots: Vec<String>,
    pub required_roots: Vec<String>,
    pub seed_files: Vec<String>,
}

pub open spec fn env_files() -> Seq<Seq<char>> {
    seq![".env"@, ".env.local"@]
}

pub open spec fn ecosystem_id(e: Ecosystem) -> Seq<char> {
    match e {
        Ecosystem::Pnpm => "pnpm"@,
        Ecosystem::Yarn => "yarn"@,
        Ecosystem::Npm => "npm"@,
        Ecosystem::Bun => "bun"@,
        Ecosystem::Turbo => "turbo"@,
        Ecosystem::Next => "next"@,
        Ecosystem::Rust => "rust"@,
        Ecosystem::Python => "python"@,
        Ecosystem::Go => "go"@,
    }
}

pub open spec fn ecosystem_cache_roots(e: Ecosystem) -> Seq<Seq<char>> {
    match e {
        Ecosystem::Pnpm | Ecosystem::Npm | Ecosystem::Bun => seq!["node_modules"@],
        Ecosystem::Yarn => seq!["node_modules"@, ".yarn/cache"@, ".yarn/unplugged"@],
        Ecosystem::Turbo => seq![".turbo"@],
        Ecosystem::Next => seq![".next/cache"@],
        Ecosystem::Rust => seq!["target"@],
        Ecosystem::Python => seq![".venv"@, ".pytest_cache"@, ".mypy_cache"@, ".ruff_cache"@],
        Ecosystem::Go => Seq::empty(),
    }
}

pub open spec fn ecosystem_required_roots(e: Ecosystem) -> Seq<Seq<char>> {
    match e {
        Ecosystem::Pnpm | Ecosystem::Npm | Ecosystem::Bun | Ecosystem::Yarn => seq!["node_modules"@],
        Ecosystem::Python => seq![".venv"@],
        _ => Seq::empty(),
    }
}

pub open spec fn ecosystem_seed_files(e: Ecosystem) -> Seq<Seq<char>> {
    match e {
        Ecosystem::Turbo | Ecosystem::Next => Seq::empty(),
        _ => env_files(),
    }
}

/// A JavaScript toolchain, whose native modules depend on the Node major version.
pub open spec fn is_node_ecosystem(e: Ecosystem) -> bool {
    match e {
        Ecosystem::Pnpm | Ecosystem::Yarn | Ecosystem::Npm | Ecosystem::Bun | Ecosystem::Turbo | Ecosystem::Next => true,
        _ => false,
    }
}

fn strings(values: &[&str]) -> (r: Vec<String>)
    ensures
        r@.map_values(|s: String| s@) == values@.map_values(|s: &str| s@),
{
    let mut r: Vec<String> = Vec::new();
    let mut i: usize = 0;
    while i < values.len()
        invariant
            i <= values@.len(),
            r@.map_values(|s: String| s@) == values@.take(i as int).map_values(|s: &str| s@),
        decreases values.len() - i,
    {
        r.push(values[i].to_owned());
        assert(values@.take(i + 1).map_values(|s: &str| s@) =~= values@.take(i as int).map_values(|s: &str| s@).push(
            values@[i as int]@,
        ));
        assert(r@.map_values(|s: String| s@) =~= values@.take(i + 1).map_values(|s: &str| s@));
        i = i + 1;
    }
    assert(values@.take(values@.len() as int) =~= values@);
    r
}

/// The definition of ecosystem `e`.
pub fn definition(e: Ecosystem) -> (d: EcosystemDefinition)
    ensures
        d.id@ == ecosystem_id(e),
        d.cache_roots@.map_values(|s: String| s@) == ecosystem_cache_roots(e),
        d.required_roots@.map_values(|s: String| s@) == ecosystem_required_roots(e),
        d.seed_files@.map_values(|s: String| s@) == ecosystem_seed_files(e),
{
    let env = [".env", ".env.local"];
    let none: [&str; 0] = [];
    let node = ["node_modules"];
    let (id, cache, required, seed) = match e {
        Ecosystem::Pnpm => ("pnpm", strings(&node), strings(&node), strings(&env)),
        Ecosystem::Yarn => {
            let yarn = ["node_modules", ".yarn/cache", ".yarn/unplugged"];
            ("yarn", strings(&yarn), strings(&node), strings(&env))
        },
        Ecosystem::Npm => ("npm", strings(&node), strings(&node), strings(&env)),
        Ecosystem::Bun => ("bun", strings(&node), strings(&node), strings(&env)),
        Ecosystem::Turbo => {
            let turbo = [".turbo"];
            ("turbo", strings(&turbo), strings(&none), strings(&none))
        },
        Ecosystem::Next => {
            let next = [".next/cache"];
            ("next", strings(&next), strings(&none), strings(&none))
        },
        Ecosystem::Rust => {
            let rust = ["target"];
            ("rust", strings(&rust), strings(&none), strings(&env))
        },
        Ecosystem::Python => {
            let python = [".venv", ".pytest_cache", ".mypy_cache", ".ruff_cache"];
            let venv = [".venv"];
            ("python", strings(&python), strings(&venv), strings(&env))
        },
        Ecosystem::Go => ("go", strings(&none), strings(&none), strings(&env)),
    };
    proof {
        assert(cache@.map_values(|s: String| s@) =~= ecosystem_cache_roots(e));
        assert(required@.map_values(|s: String| s@) =~= ecosystem_required_roots(e));
        assert(seed@.map_values(|s: String| s@) =~= ecosystem_seed_files(e));
    }
    EcosystemDefinition { id: id.to_owned(), cache_roots: cache, required_roots: required, seed_files: seed }
}

// ---------------------------------------------------------------------------------------------
// package.json

/// What `serde_json` reads out of `bytes` when they hold a JSON object: each member's key with
/// its value written back compactly, in the order of `serde_json`'s map (by key); `None` for
/// anything else.
pub uninterp spec fn json_object_entries(bytes: Seq<u8>) -> Option<Seq<(Seq<char>, Seq<u8>)>>;

/// What `serde_json` reads out of `bytes` when they hold a JSON string; `None` otherwise.
pub uninterp spec fn json_string_of(bytes: Seq<u8>) -> Option<Seq<char>>;

/// `serde_json::from_slice::<serde_json::Value>`, kept only when the value is an object, whose
/// members come back as key and `serde_json::to_vec` of the member's value.
#[verifier::external_body]
pub fn parse_json_object(bytes: &[u8]) -> (r: Option<Vec<(String, Vec<u8>)>>)
    ensures
        match (r, json_object_entries(bytes@)) {
            (Some(v), Some(s)) => v@.map_values(|e: (String, Vec<u8>)| (e.0@, e.1@)) == s,
            (None, None) => true,
            _ => false,
        },
{
    match serde_json::from_slice::<serde_json::Value>(bytes) {
        Ok(serde_json::Value::Object(members)) => Some(
            members.into_iter().map(|(key, value)| (key, serde_json::to_vec(&value).unwrap_or_default())).collect(),
        ),
        _ => None,
    }
}

/// `serde_json::from_slice::<String>`: the string a JSON string literal holds.
#[verifier::external_body]
pub fn parse_json_string(bytes: &[u8]) -> (r: Option<String>)
    ensures
        match (r, json_string_of(bytes@)) {
            (Some(v), Some(s)) => v@ == s,
            (None, None) => true,
            _ => false,
        },
{
    serde_json::from_slice::<String>(bytes).ok()
}

/// The value of the first member named `key`.
pub open spec fn member(entries: Seq<(Seq<char>, Seq<u8>)>, key: Seq<char>) -> Option<Seq<u8>>
    decreases entries.len(),
{
    if entries.len() == 0 {
        None
    } else if entries[0].0 == key {
        Some(entries[0].1)
    } else {
        member(entries.drop_first(), key)
    }
}

pub fn find_member(entries: &Vec<(String, Vec<u8>)>, key: &str) -> (r: Option<Vec<u8>>)
    ensures
        match (r, member(entries@.map_values(|e: (String, Vec<u8>)| (e.0@, e.1@)), key@)) {
            (Some(v), Some(s)) => v@ == s,
            (None, None) => true,
            _ => false,
        },
{
    let ghost all = entries@.map_values(|e: (String, Vec<u8>)| (e.0@, e.1@));
    assert(all.skip(0) =~= all);
    let mut i: usize = 0;
    while i < entries.len()
        invariant
            i <= entries@.len(),
            all == entries@.map_values(|e: (String, Vec<u8>)| (e.0@, e.1@)),
            member(all, key@) == member(all.skip(i as int), key@),
        decreases entries.len() - i,
    {
        assert(all.skip(i as int).drop_first() =~= all.skip(i + 1));
        if crate::text::str_equal(entries[i].0.as_str(), key) {
            let mut copy: Vec<u8> = Vec::new();
            crate::text::push_bytes(&mut copy, entries[i].1.as_slice());
            return Some(copy);
        }
        i = i + 1;
    }
    None
}

/// The package manager `package.json` names: the part of `packageManager` before any `@`,
/// empty when there is none.
pub open spec fn package_manager_spec(package_json: Option<Seq<u8>>) -> Seq<char> {
    match package_json {
        Some(bytes) => match json_object_entries(bytes) {
            Some(entries) => match member(entries, "packageManager"@) {
                Some(raw) => match json_string_of(raw) {
                    Some(s) => match crate::text::find_seq(s, seq!['@']) {
                        Some(i) => s.take(i),
                        None => s,
                    },
                    None => Seq::empty(),
                },
                None => Seq::empty(),
            },
            None => Seq::empty(),
        },
        None => Seq::empty(),
    }
}

/// The dependency sections of `package.json`.
pub open spec fn dependency_sections() -> Seq<Seq<char>> {
    seq!["dependencies"@, "devDependencies"@, "optionalDependencies"@, "peerDependencies"@]
}

/// `package.json` lists `name` in one of its dependency sections.
pub open spec fn has_dependency_spec(package_json: Option<Seq<u8>>, name: Seq<char>) -> bool {
    match package_json {
        Some(bytes) => match json_object_entries(bytes) {
            Some(entries) => exists|k: int|
                0 <= k < 4 && (member(entries, #[trigger] dependency_sections()[k]) matches Some(raw) && (
                json_object_entries(raw) matches Some(section) && member(section, name) is Some)),
            None => false,
        },
        None => false,
    }
}

fn package_manager(entries: &Option<Vec<(String, Vec<u8>)>>, package_json: Option<&[u8]>) -> (pm: Vec<char>)
    requires
        match (entries, package_json) {
            (Some(v), Some(b)) => json_object_entries(b@) == Some(v@.map_values(|e: (String, Vec<u8>)| (e.0@, e.1@))),
            (None, Some(b)) => json_object_entries(b@) is None,
            (None, None) => true,
            _ => false,
        },
    ensures
        pm@ == package_manager_spec(match package_json {
            Some(b) => Some(b@),
            None => None,
        }),
{
    let entries = match entries {
        Some(e) => e,
        None => {
            return Vec::new();
        },
    };
    let raw = match find_member(entries, "packageManager") {
        Some(raw) => raw,
        None => {
            return Vec::new();
        },
    };
    match parse_json_string(raw.as_slice()) {
        Some(s) => {
            let chars = chars_of(s.as_str());
            let at = vec!['@'];
            assert(at@ =~= seq!['@']);
            match crate::text::find_chars_from(&chars, &at, 0) {
                Some(i) => {
                    proof {
                        crate::text::lemma_first_occurrence_from(chars@, seq!['@'], 0);
                    }
                    let head = crate::text::slice_chars(&chars, 0, i);
                    assert(head@ =~= s@.take(i as int));
                    head
                },
                None => {
                    proof {
                        crate::text::lemma_first_occurrence_from(chars@, seq!['@'], 0);
                    }
                    chars
                },
            }
        },
        None => Vec::new(),
    }
}

fn has_dependency(entries: &Option<Vec<(String, Vec<u8>)>>, package_json: Option<&[u8]>, name: &str) -> (r: bool)
    requires
        match (entries, package_json) {
            (Some(v), Some(b)) => json_object_entries(b@) == Some(v@.map_values(|e: (String, Vec<u8>)| (e.0@, e.1@))),
            (None, Some(b)) => json_object_entries(b@) is None,
            (None, None) => true,
            _ => false,
        },
    ensures
        r == has_dependency_spec(match package_json {
            Some(b) => Some(b@),
            None => None,
        }, name@),
{
    let entries = match entries {
        Some(e) => e,
        None => {
            return false;
        },
    };
    let sections = ["dependencies", "devDependencies", "optionalDependencies", "peerDependencies"];
    let ghost all = entries@.map_values(|e: (String, Vec<u8>)| (e.0@, e.1@));
    assert(sections@.map_values(|s: &str| s@) =~= dependency_sections());
    let mut k: usize = 0;
    while k < 4
        invariant
            k <= 4,
            sections@.len() == 4,
            sections@.map_values(|s: &str| s@) == dependency_sections(),
            all == entries@.map_values(|e: (String, Vec<u8>)| (e.0@, e.1@)),
            match package_json {
                Some(b) => json_object_entries(b@) == Some(all),
                None => false,
            },
            forall|j: int| 0 <= j < k ==> !(member(all, #[trigger] dependency_sections()[j]) matches Some(raw) && (
                json_object_entries(raw) matches Some(section) && member(section, name@) is Some)),
        decreases 4 - k,
    {
        assert(sections@[k as int]@ == dependency_sections()[k as int]);
        match find_member(entries, sections[k]) {
            Some(raw) => {
                match parse_json_object(raw.as_slice()) {
                    Some(section) => {
                        if find_member(&section, name).is_some() {
                            assert(member(all, dependency_sections()[k as int]) is Some);
                            return true;
                        }
                    },
                    None => {},
                }
            },
            None => {},
        }
        k = k + 1;
    }
    false
}

/// `names` holds `name`.
pub open spec fn has_file(names: Seq<Seq<char>>, name: Seq<char>) -> bool {
    exists|i: int| 0 <= i < names.len() && #[trigger] names[i] == name
}

/// The package manager of a directory: a lockfile first, then the `packageManager` field
/// (`pm`), npm as the fallback; none without any of them.
pub open spec fn manager_spec(names: Seq<Seq<char>>, pm: Seq<char>) -> Seq<Ecosystem> {
    if has_file(names, "pnpm-lock.yaml"@) || pm == "pnpm"@ {
        seq![Ecosystem::Pnpm]
    } else if has_file(names, "yarn.lock"@) || pm == "yarn"@ {
        seq![Ecosystem::Yarn]
    } else if has_file(names, "bun.lock"@) || has_file(names, "bun.lockb"@) || pm == "bun"@ {
        seq![Ecosystem::Bun]
    } else if has_file(names, "package-lock.json"@) || has_file(names, "npm-shrinkwrap.json"@) || has_file(
        names,
        "package.json"@,
    ) {
        seq![Ecosystem::Npm]
    } else {
        Seq::empty()
    }
}

pub open spec fn one_if(present: bool, e: Ecosystem) -> Seq<Ecosystem> {
    if present {
        seq![e]
    } else {
        Seq::empty()
    }
}

/// The ecosystems a directory holding the files `names` (with `package.json` content
/// `package_json`) belongs to: its package manager, then the tooling that stacks on top of it,
/// each checked on its own.
pub open spec fn detect_spec(names: Seq<Seq<char>>, package_json: Option<Seq<u8>>) -> Seq<Ecosystem> {
    manager_spec(names, package_manager_spec(package_json)) + one_if(
        has_file(names, "turbo.json"@) || has_dependency_spec(package_json, "turbo"@),
        Ecosystem::Turbo,
    ) + one_if(
        has_file(names, "next.config.js"@) || has_file(names, "next.config.mjs"@) || has_file(names, "next.config.ts"@)
            || has_dependency_spec(package_json, "next"@),
        Ecosystem::Next,
    ) + one_if(has_file(names, "Cargo.toml"@) || has_file(names, "Cargo.lock"@), Ecosystem::Rust) + one_if(
        has_file(names, "pyproject.toml"@) || has_file(names, "uv.lock"@) || has_file(names, "poetry.lock"@) || has_file(
            names,
            "requirements.txt"@,
        ),
        Ecosystem::Python,
    ) + one_if(has_file(names, "go.mod"@), Ecosystem::Go)
}

fn has_name(names: &Vec<String>, name: &str) -> (r: bool)
    ensures
        r == has_file(views(names@), name@),
{
    let mut i: usize = 0;
    while i < names.len()
        invariant
            i <= names@.len(),
            forall|j: int| 0 <= j < i ==> (#[trigger] views(names@)[j]) != name@,
        decreases names.len() - i,
    {
        if crate::text::str_equal(names[i].as_str(), name) {
            assert(views(names@)[i as int] == name@);
            return true;
        }
        i = i + 1;
    }
    false
}

fn detect_manager(names: &Vec<String>, pm: &Vec<char>) -> (r: Vec<Ecosystem>)
    ensures
        r@ == manager_spec(views(names@), pm@),
{
    let pnpm = vec!['p', 'n', 'p', 'm'];
    let yarn = vec!['y', 'a', 'r', 'n'];
    let bun = vec!['b', 'u', 'n'];
    assert(pnpm@ =~= "pnpm"@) by {
        reveal_strlit("pnpm");
    }
    assert(yarn@ =~= "yarn"@) by {
        reveal_strlit("yarn");
    }
    assert(bun@ =~= "bun"@) by {
        reveal_strlit("bun");
    }
    let mut r: Vec<Ecosystem> = Vec::new();
    if has_name(names, "pnpm-lock.yaml") || crate::text::chars_equal(pm, &pnpm) {
        r.push(Ecosystem::Pnpm);
    } else if has_name(names, "yarn.lock") || crate::text::chars_equal(pm, &yarn) {
        r.push(Ecosystem::Yarn);
    } else if has_name(names, "bun.lock") || has_name(names, "bun.lockb") || crate::text::chars_equal(pm, &bun) {
        r.push(Ecosystem::Bun);
    } else if has_name(names, "package-lock.json") || has_name(names, "npm-shrinkwrap.json") || has_name(names, "package.json") {
        r.push(Ecosystem::Npm);
    }
    assert(r@ =~= manager_spec(views(names@), pm@));
    r
}

fn push_if(r: &mut Vec<Ecosystem>, present: bool, e: Ecosystem)
    ensures
        final(r)@ == old(r)@ + one_if(present, e),
{
    if present {
        r.push(e);
    }
    assert(r@ =~= old(r)@ + one_if(present, e));
}

/// The ecosystems of a directory: `names` are the fingerprinted files it holds and
/// `package_json` the content of its `package.json`, if it has one.
pub fn detect_ecosystems(names: &Vec<String>, package_json: Option<&[u8]>) -> (r: Vec<Ecosystem>)
    ensures
        r@ == detect_spec(views(names@), match package_json {
            Some(b) => Some(b@),
            None => None,
        }),
{
    let entries = match package_json {
        Some(b) => parse_json_object(b),
        None => None,
    };
    let pm = package_manager(&entries, package_json);
    let mut r = detect_manager(names, &pm);
    let turbo = has_name(names, "turbo.json") || has_dependency(&entries, package_json, "turbo");
    push_if(&mut r, turbo, Ecosystem::Turbo);
    let next = has_name(names, "next.config.js") || has_name(names, "next.config.mjs") || has_name(names, "next.config.ts")
        || has_dependency(&entries, package_json, "next");
    push_if(&mut r, next, Ecosystem::Next);
    let rust = has_name(names, "Cargo.toml") || has_name(names, "Cargo.lock");
    push_if(&mut r, rust, Ecosystem::Rust);
    let python = has_name(names, "pyproject.toml") || has_name(names, "uv.lock") || has_name(names, "poetry.lock")
        || has_name(names, "requirements.txt");
    push_if(&mut r, python, Ecosystem::Python);
    let go = has_name(names, "go.mod");
    push_if(&mut r, go, Ecosystem::Go);
    r
}

} // verus!
