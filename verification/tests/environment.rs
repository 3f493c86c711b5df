use acre::environment::clone::{combine_reports, ignore_query, merge_clone_mode, CloneReport};
use acre::environment::definitions::{definition, detect_ecosystems, parse_json_object, Ecosystem};
use acre::environment::fingerprint::{is_fingerprint_path, node_major, normalize_fingerprint_content, os_major, patch_directories, platform_key, uses_node};
use acre::environment::roots::inspect_ignored;
use acre::environment::seed::{changed_seed_files, seed_candidates, seed_path_hash, snapshot_seed_files, SeedEntry};
use acre::model::{CloneMode, TrustLevel};

fn strings(values: &[&str]) -> Vec<String> {
    values.iter().map(|value| (*value).to_owned()).collect()
}

#[test]
fn package_json_script_noise_is_ignored() {
    let a = br#"{"scripts":{"test":"one","postinstall":"x"},"dependencies":{"a":"1"}}"#;
    let b = br#"{"scripts":{"test":"two","postinstall":"x"},"dependencies":{"a":"1"}}"#;
    assert_eq!(
        normalize_fingerprint_content("package.json", a),
        normalize_fingerprint_content("package.json", b)
    );
}

#[test]
fn workspace_identity_and_install_links_affect_fingerprints() {
    for field in ["name", "version", "bin"] {
        let before = format!("{{\"{field}\":\"before\"}}");
        let after = format!("{{\"{field}\":\"after\"}}");
        assert_ne!(
            normalize_fingerprint_content("packages/a/package.json", before.as_bytes()),
            normalize_fingerprint_content("packages/a/package.json", after.as_bytes()),
            "{field}"
        );
    }
}

#[test]
fn classifies_nested_and_collapsed_cache_roots() {
    // The worktree ignores `node_modules`, `*.log` and `.next`, and holds
    // node_modules/dep/index.js, packages/app/node_modules/dep/index.js, apps/web/src/page.js,
    // apps/web/.next/cache/chunk, apps/web/.next/server/page and stray.log. Git lists the
    // ignored paths collapsed to their topmost directory.
    let roots = strings(&["node_modules", ".next/cache"]);
    let present = vec![true, false];
    let entries = strings(&["apps/web/.next/", "node_modules/", "packages/app/node_modules/", "stray.log"]);
    // `apps/web/.next` holds `server/page` besides its cache, so it is not filled by roots; its
    // `.next/cache` completion is a directory.
    let fillings: Vec<Option<Vec<String>>> = vec![None, None, None, None];
    let nested = vec![vec![false, true], vec![false, false], vec![false, false], vec![false, false]];
    let layout = inspect_ignored(&roots, &present, &entries, &fillings, &nested);
    assert_eq!(
        layout.cache_roots,
        strings(&["apps/web/.next/cache", "node_modules", "packages/app/node_modules"])
    );
    assert_eq!(layout.unknown, strings(&["apps/web/.next/", "stray.log"]));
    assert!(layout.has_cache_root("node_modules"));
    assert!(layout.has_cache_root(".next/cache"));
    assert!(!layout.has_cache_root(".venv"));
}

#[test]
fn collapsed_directory_with_other_content_stays_unknown() {
    // The worktree ignores `packages/` and holds packages/app/node_modules/dep/index.js and
    // packages/app/notes.txt.bak: the notes keep `packages/` from being filled by cache roots.
    let roots = strings(&["node_modules"]);
    let present = vec![false];
    let entries = strings(&["packages/"]);
    let fillings: Vec<Option<Vec<String>>> = vec![None];
    let nested = vec![vec![false]];
    let layout = inspect_ignored(&roots, &present, &entries, &fillings, &nested);
    assert!(layout.cache_roots.is_empty(), "{:?}", layout.cache_roots);
    assert_eq!(layout.unknown, strings(&["packages/"]));
}

#[test]
fn a_directory_filled_by_cache_roots_is_opened_up() {
    let roots = strings(&["node_modules"]);
    let present = vec![false];
    let entries = strings(&["packages/"]);
    let fillings = vec![Some(strings(&["packages/app/node_modules", "packages/lib/node_modules"]))];
    let nested = vec![vec![false]];
    let layout = inspect_ignored(&roots, &present, &entries, &fillings, &nested);
    assert_eq!(
        layout.cache_roots,
        strings(&["packages/app/node_modules", "packages/lib/node_modules"])
    );
    assert!(layout.unknown.is_empty());
}

#[test]
fn package_manager_field_and_lockfiles_pick_the_manager() {
    assert_eq!(
        detect_ecosystems(&strings(&["package.json"]), Some(br#"{"packageManager":"pnpm@9.1.0"}"#)),
        vec![Ecosystem::Pnpm]
    );
    assert_eq!(
        detect_ecosystems(&strings(&["package.json", "yarn.lock"]), Some(b"{}")),
        vec![Ecosystem::Yarn]
    );
    assert_eq!(detect_ecosystems(&strings(&["package.json"]), Some(b"{}")), vec![Ecosystem::Npm]);
    assert_eq!(
        detect_ecosystems(
            &strings(&["package.json", "turbo.json"]),
            Some(br#"{"devDependencies":{"next":"14"}}"#)
        ),
        vec![Ecosystem::Npm, Ecosystem::Turbo, Ecosystem::Next]
    );
    assert_eq!(
        detect_ecosystems(&strings(&["Cargo.toml", "go.mod", "uv.lock"]), None),
        vec![Ecosystem::Rust, Ecosystem::Python, Ecosystem::Go]
    );
    assert!(detect_ecosystems(&strings(&["README.md"]), None).is_empty());
}

#[test]
fn json_objects_come_back_member_by_member() {
    let entries = parse_json_object(br#"{"b":1,"a":"x"}"#).expect("object");
    assert_eq!(entries.len(), 2);
    assert_eq!(entries[0].0, "a");
    assert_eq!(entries[0].1, br#""x""#.to_vec());
    assert_eq!(entries[1].0, "b");
    assert_eq!(entries[1].1, b"1".to_vec());
    assert!(parse_json_object(b"[1,2]").is_none());
    assert!(parse_json_object(b"{not json").is_none());
}

#[test]
fn ecosystem_definitions_name_their_roots() {
    let yarn = definition(Ecosystem::Yarn);
    assert_eq!(yarn.id, "yarn");
    assert_eq!(yarn.cache_roots, strings(&["node_modules", ".yarn/cache", ".yarn/unplugged"]));
    assert_eq!(yarn.required_roots, strings(&["node_modules"]));
    let python = definition(Ecosystem::Python);
    assert_eq!(python.required_roots, strings(&[".venv"]));
    assert!(definition(Ecosystem::Go).cache_roots.is_empty());
}

#[test]
fn platform_keys_name_the_node_major_only_for_node_projects() {
    assert_eq!(os_major(Some("23.4.0")), "23");
    assert_eq!(os_major(None), "unknown");
    assert_eq!(node_major("v20.11.1"), "20");
    assert_eq!(
        platform_key("macos", "aarch64", Some("23.4.0"), Some("v20.11.1"), true),
        "macos:aarch64:23:20"
    );
    assert_eq!(
        platform_key("linux", "x86_64", Some("6.1.0"), None, true),
        "linux:x86_64:6:none"
    );
    assert_eq!(
        platform_key("linux", "x86_64", Some("6.1.0"), Some("v20.1.0"), false),
        "linux:x86_64:6:unused"
    );
    assert!(uses_node(&vec![Ecosystem::Rust, Ecosystem::Next]));
    assert!(!uses_node(&vec![Ecosystem::Rust, Ecosystem::Go]));
}

#[test]
fn one_plain_copy_makes_the_whole_clone_a_copy() {
    assert_eq!(merge_clone_mode(CloneMode::NotCloned, CloneMode::Reflink), CloneMode::Reflink);
    assert_eq!(merge_clone_mode(CloneMode::Reflink, CloneMode::Copy), CloneMode::Copy);
    assert_eq!(merge_clone_mode(CloneMode::Copy, CloneMode::Reflink), CloneMode::Copy);
    let reports = vec![
        CloneReport { mode: CloneMode::Reflink, files: 3, bytes: 100 },
        CloneReport { mode: CloneMode::Copy, files: 2, bytes: 50 },
        CloneReport { mode: CloneMode::Reflink, files: 1, bytes: 7 },
    ];
    let total = combine_reports(&reports);
    assert_eq!(total.mode, CloneMode::Copy);
    assert_eq!(total.files, 6);
    assert_eq!(total.bytes, 157);
    let none = combine_reports(&Vec::new());
    assert_eq!(none.mode, CloneMode::NotCloned);
    assert_eq!(none.files, 0);
}

#[test]
fn ignore_queries_mark_directories() {
    assert_eq!(ignore_query("node_modules", true), "node_modules/");
    assert_eq!(ignore_query(".env", false), ".env");
}

#[test]
fn untrusted_targets_get_no_seed_files() {
    let files = strings(&[".env", ".env.local"]);
    assert_eq!(seed_candidates(&files, TrustLevel::Trusted), files);
    assert!(seed_candidates(&files, TrustLevel::Untrusted).is_empty());
}

#[test]
fn seed_hashes_cover_kind_mode_and_content() {
    assert_eq!(seed_path_hash(&SeedEntry::Missing), None);
    assert_eq!(
        seed_path_hash(&SeedEntry::Symlink("../shared/.env".to_owned())).as_deref(),
        Some("8f5bec0e3fb8ac795381564e037cb6e308eaa668bd47f93743f0ab41162e460f")
    );
    assert_eq!(
        seed_path_hash(&SeedEntry::File { mode: 420, content: b"A=1\n".to_vec() }).as_deref(),
        Some("0b9303b81d3ed5f10f9f9bd4c5acdad04f0a4bd9067a9cc67a2bad2f75ad2086")
    );
    assert_ne!(
        seed_path_hash(&SeedEntry::File { mode: 420, content: b"A=1\n".to_vec() }),
        seed_path_hash(&SeedEntry::File { mode: 384, content: b"A=1\n".to_vec() })
    );
}

#[test]
fn changed_seed_files_are_those_whose_hash_moved() {
    let files = strings(&[".env", ".env.local", "secrets.json"]);
    let hashes = vec![Some("a".to_owned()), None, Some("c".to_owned())];
    let baseline = snapshot_seed_files(&files, &hashes);
    assert_eq!(baseline.len(), 2);
    assert_eq!(baseline[0].path, ".env");
    assert_eq!(baseline[1].path, "secrets.json");
    let now = vec![Some("a".to_owned()), Some("changed".to_owned())];
    assert_eq!(changed_seed_files(&baseline, &vec![false, false], &now), strings(&["secrets.json"]));
    assert_eq!(
        changed_seed_files(&baseline, &vec![true, false], &vec![Some("a".to_owned()), Some("c".to_owned())]),
        strings(&[".env"])
    );
    assert!(changed_seed_files(&baseline, &vec![false, false], &vec![Some("a".to_owned()), Some("c".to_owned())]).is_empty());
}

#[test]
fn fingerprint_files_are_known_by_name_and_patches_sit_beside_manifests() {
    assert!(is_fingerprint_path("packages/app/package.json"));
    assert!(is_fingerprint_path("Cargo.lock"));
    assert!(!is_fingerprint_path("src/main.rs"));
    assert_eq!(
        patch_directories(&strings(&["package.json", "Cargo.toml", "packages/app/package.json"])),
        strings(&["patches", "packages/app/patches"])
    );
}
