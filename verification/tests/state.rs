use acre::cli::{CommandContext, GlobalOptions, ShellBridge};
use acre::environment::definitions::Ecosystem;
use acre::environment::fingerprint::{build_environment_plan, DetectedEnvironment};
use acre::git::repository::Repository;
use acre::model::{KnownRepository, ShellSessionState};
use acre::shell::directive::{write_cd_directive, write_resume_directive};
use acre::state::config::{default_config_at, validate_acre_config};
use acre::state::settings::set_config_value;
use acre::state::index::remember_repository_at;
use acre::state::paths::{acre_root_in, operation_path, repository_state_path, shell_state_path, validate_state_id};
use acre::state::shell::{new_shell_session_id, record_navigation_at};
use acre::util::{age_millis_at, random_short};

fn context(directive: Option<&str>) -> CommandContext {
    CommandContext {
        cwd: "/repo".to_owned(),
        interactive: false,
        global: GlobalOptions { directory: None, json: false, no_color: true, plain: false, verbose: false },
        shell: ShellBridge {
            active: directive.is_some(),
            directive_file: directive.map(ToOwned::to_owned),
            session_id: Some("s".to_owned()),
            pid: None,
        },
    }
}

fn repository(id: &str, common_dir: &str) -> Repository {
    Repository {
        id: id.to_owned(),
        name: "repo".to_owned(),
        top_level: "/srv/repo".to_owned(),
        git_dir: common_dir.to_owned(),
        common_dir: common_dir.to_owned(),
        remote: None,
        remote_url: None,
        default_branch: None,
        current_worktree: None,
        worktrees: Vec::new(),
    }
}

fn known(id: &str, common_dir: &str, seen: &str) -> KnownRepository {
    KnownRepository {
        id: id.to_owned(),
        name: id.to_owned(),
        common_dir: common_dir.to_owned(),
        top_level: "/x".to_owned(),
        remote_url: None,
        last_seen_at: seen.to_owned(),
    }
}

#[test]
fn the_previous_directory_is_where_the_shell_came_from() {
    let moved = record_navigation_at("s", "/a", "/b", Some(7), None, "t1".to_owned());
    assert_eq!(moved.current_directory.as_deref(), Some("/b"));
    assert_eq!(moved.previous_directory.as_deref(), Some("/a"));
    assert_eq!(moved.pid, Some(7));
    let stored = ShellSessionState {
        schema_version: 1,
        id: "s".to_owned(),
        current_directory: Some("/b".to_owned()),
        previous_directory: Some("/a".to_owned()),
        pid: None,
        updated_at: "t1".to_owned(),
    };
    let stayed = record_navigation_at("s", "/b", "/b", None, Some(stored), "t2".to_owned());
    assert_eq!(stayed.previous_directory.as_deref(), Some("/a"));
    assert_eq!(stayed.updated_at, "t2");
}

#[test]
fn state_ids_stay_inside_their_directories() {
    assert!(validate_state_id("abc123").is_ok());
    assert_eq!(validate_state_id("../etc").unwrap_err().code, "ACRE_INVALID_STATE_ID");
    assert_eq!(operation_path("/root/.acre", "tok").unwrap(), "/root/.acre/operations/tok.json");
    assert_eq!(shell_state_path("/root/.acre", "s1").unwrap(), "/root/.acre/shells/s1.json");
    assert!(shell_state_path("/root/.acre", "a/b").is_err());
    assert_eq!(repository_state_path("/root/.acre/repositories/x"), "/root/.acre/repositories/x/state.json");
    let config = default_config_at("~/.acre".to_owned());
    assert_eq!(acre_root_in(&config, "/home/me", "/etc/acre"), "/home/me/.acre");
    let relative = default_config_at("data".to_owned());
    assert_eq!(acre_root_in(&relative, "/home/me", "/etc/acre"), "/etc/acre/data");
}

#[test]
fn configurations_are_checked_rule_by_rule() {
    let mut config = default_config_at("/acre".to_owned());
    assert!(validate_acre_config(&config).is_ok());
    config.pool.min_slots = 9;
    assert_eq!(validate_acre_config(&config).unwrap_err().message, "pool.minSlots cannot exceed pool.maxSlots.");
    config.pool.min_slots = 1;
    config.pool.max_slots = 0;
    assert_eq!(validate_acre_config(&config).unwrap_err().message, "pool.maxSlots must be a positive integer.");
    config.pool.max_slots = 4;
    config.environment.cache_roots = vec!["../outside".to_owned()];
    assert_eq!(validate_acre_config(&config).unwrap_err().code, "ACRE_CONFIG_INVALID");
}

#[test]
fn directives_name_version_action_target_and_token() {
    let directive = write_cd_directive(&context(Some("/tmp/d")), "/srv/repo").expect("directive");
    assert_eq!(directive.path, "/tmp/d");
    assert_eq!(directive.bytes, b"acre-directive-v1\0cd\0/srv/repo\0\0".to_vec());
    let resume = write_resume_directive(&context(Some("/tmp/d")), "/srv", "tok").expect("directive");
    assert_eq!(resume.bytes, b"acre-directive-v1\0resume-after-cd\0/srv\0tok\0".to_vec());
    assert_eq!(
        write_cd_directive(&context(None), "/srv").unwrap_err().code,
        "ACRE_SHELL_INTEGRATION_REQUIRED"
    );
}

#[test]
fn the_index_keeps_one_entry_per_repository_newest_first() {
    let entries = vec![known("a", "/a/.git", "2024-01-01"), known("b", "/b/.git", "2024-03-01"), known("old", "/r/.git", "2023-01-01")];
    let updated = remember_repository_at(entries, &repository("r", "/r/.git"), "2024-05-01".to_owned());
    let ids: Vec<&str> = updated.iter().map(|k| k.id.as_str()).collect();
    assert_eq!(ids, vec!["r", "b", "a"]);
    assert_eq!(updated[0].last_seen_at, "2024-05-01");
}

#[test]
fn ages_come_from_the_parsed_timestamp() {
    assert_eq!(age_millis_at("2024-01-01T00:00:00.000Z", 1_704_067_260_000), 60_000);
    assert_eq!(age_millis_at("2024-01-01T00:01:00.000Z", 1_704_067_200_000), 0);
    assert_eq!(age_millis_at("not a time", 1_704_067_200_000), 0);
}

#[test]
fn random_ids_are_hex_of_the_asked_length() {
    let id = new_shell_session_id();
    assert_eq!(id.len(), 32);
    assert!(id.chars().all(|c| c.is_ascii_hexdigit()));
    assert_eq!(random_short(12).len(), 12);
    assert_ne!(new_shell_session_id(), new_shell_session_id());
}

#[test]
fn the_fingerprint_hashes_the_plan_as_json() {
    let detected = DetectedEnvironment {
        ecosystems: vec![Ecosystem::Npm],
        cache_roots: vec!["node_modules".to_owned()],
        required_roots: vec!["node_modules".to_owned()],
        seed_files: vec![".env".to_owned()],
        file_hashes: vec![("package.json".to_owned(), "abc".to_owned())],
    };
    let plan = build_environment_plan(detected, "linux:x86_64:6:20".to_owned());
    assert_eq!(plan.fingerprint, "f2e7c3135fdf40238e08ed1d607ca98d892e0d3de21517dbbb53261128865f51");
    assert_eq!(plan.ecosystem_ids, vec!["npm".to_owned()]);
    assert_eq!(plan.seed_files, vec![".env".to_owned()]);
}

#[test]
fn config_values_are_json_when_they_parse_and_text_otherwise() {
    let mut config = default_config_at("/acre".to_owned());
    assert!(set_config_value(&mut config, "pool.maxSlots", "6").is_ok());
    assert_eq!(config.pool.max_slots, 6);
    assert!(set_config_value(&mut config, "root", "/elsewhere").is_ok());
    assert_eq!(config.root, "/elsewhere");
    assert!(set_config_value(&mut config, "environment.cacheRoots", "[\".venv\",\"target\"]").is_ok());
    assert_eq!(config.environment.cache_roots, vec![".venv".to_owned(), "target".to_owned()]);
    assert!(set_config_value(&mut config, "pool.replenish", "false").is_ok());
    assert!(!config.pool.replenish);
    let wrong = set_config_value(&mut config, "pool.minSlots", "-1").unwrap_err();
    assert_eq!(wrong.message, "pool.minSlots must be a non-negative integer.");
    assert_eq!(config.pool.min_slots, 1);
    let unknown = set_config_value(&mut config, "pool.colour", "1").unwrap_err();
    assert_eq!(unknown.message, "Unknown configuration key: pool.colour");
    let mixed = set_config_value(&mut config, "environment.seedFiles", "[\".env\", 3]").unwrap_err();
    assert_eq!(mixed.message, "environment.seedFiles must be an array of strings.");
    let too_few = set_config_value(&mut config, "pool.minSlots", "9").unwrap_err();
    assert_eq!(too_few.message, "pool.minSlots cannot exceed pool.maxSlots.");
}
