//! Acre's configuration: the defaults, and the rules a stored configuration must meet.

use vstd::prelude::*;

use crate::error::{AcreError, EXIT_USAGE};
use crate::model::{
    AcreConfig, EnvironmentConfig, PoolConfig, RepoConfig, RepoEnvironmentConfig, SafetyConfig,
};
use crate::order::views;
use crate::state::paths::default_acre_root;
use crate::util::{is_safe_relative_path, validate_relative_path};

verus! {

/// The default seed files: `.env` and `.env.local`.
pub open spec fn default_seed_files() -> Seq<Seq<char>> {
    seq![".env"@, ".env.local"@]
}

fn default_seed_file_list() -> (files: Vec<String>)
    ensures
        views(files@) == default_seed_files(),
{
    let files = vec![".env".to_owned(), ".env.local".to_owned()];
    assert(views(files@) =~= default_seed_files());
    files
}

/// The configuration Acre uses when none is stored, rooted at `root`: one to four pool slots,
/// replenished, kept thirty idle days; no extra cache roots; `.env` and `.env.local` seeded;
/// process detection and the unknown-ignored-file block on.
pub fn default_config_at(root: String) -> (config: AcreConfig)
    ensures
        config.schema_version == 1,
        config.root@ == root@,
        config.pool.min_slots == 1,
        config.pool.max_slots == 4,
        config.pool.replenish,
        config.pool.idle_retention_days == 30,
        config.environment.cache_roots@.len() == 0,
        config.environment.required_roots@.len() == 0,
        views(config.environment.seed_files@) == default_seed_files(),
        config.environment.excluded_roots@.len() == 0,
        config.safety.detect_processes,
        config.safety.block_unknown_ignored_files,
{
    AcreConfig {
        schema_version: 1,
        root,
        pool: PoolConfig { min_slots: 1, max_slots: 4, replenish: true, idle_retention_days: 30 },
        environment: EnvironmentConfig {
            cache_roots: Vec::new(),
            required_roots: Vec::new(),
            seed_files: default_seed_file_list(),
            excluded_roots: Vec::new(),
        },
        safety: SafetyConfig { detect_processes: true, block_unknown_ignored_files: true },
    }
}

/// The default configuration, rooted at `~/.acre`.
pub fn default_config() -> (config: AcreConfig)
    ensures
        config.schema_version == 1,
        exists|home: Seq<char>| config.root@ == crate::util::path_join(home, ".acre"@),
        config.pool.min_slots == 1,
        config.pool.max_slots == 4,
        config.pool.replenish,
        config.pool.idle_retention_days == 30,
        config.environment.cache_roots@.len() == 0,
        config.environment.required_roots@.len() == 0,
        views(config.environment.seed_files@) == default_seed_files(),
        config.environment.excluded_roots@.len() == 0,
        config.safety.detect_processes,
        config.safety.block_unknown_ignored_files,
{
    default_config_at(default_acre_root())
}

/// Every path an environment section names, in the order they are checked.
pub open spec fn environment_paths(
    cache_roots: Seq<String>,
    required_roots: Seq<String>,
    seed_files: Seq<String>,
    excluded_roots: Seq<String>,
) -> Seq<Seq<char>> {
    views(cache_roots) + views(required_roots) + views(seed_files) + views(excluded_roots)
}

/// The first path in `paths` that could escape the repository.
pub open spec fn first_unsafe_path(paths: Seq<Seq<char>>, i: int) -> Option<Seq<char>>
    decreases paths.len() - i,
{
    if i < 0 || i >= paths.len() {
        None
    } else if !is_safe_relative_path(paths[i]) {
        Some(paths[i])
    } else {
        first_unsafe_path(paths, i + 1)
    }
}

pub open spec fn unsafe_path_message(source: Seq<char>, path: Seq<char>) -> Seq<char> {
    source + " contains an unsafe repository path: "@ + path
}

fn invalid(message: &str) -> (e: AcreError)
    ensures
        e.code == "ACRE_CONFIG_INVALID",
        e.message@ == message@,
        e.exit_code == EXIT_USAGE,
{
    AcreError::new("ACRE_CONFIG_INVALID", message, EXIT_USAGE)
}

fn check_paths(values: &Vec<String>, checked: Ghost<Seq<Seq<char>>>, source: &str) -> (r: Result<(), AcreError>)
    ensures
        match first_unsafe_path(checked@ + views(values@), checked@.len() as int) {
            None => r is Ok,
            Some(p) => r matches Err(e) && e.code == "ACRE_CONFIG_INVALID" && e.exit_code == EXIT_USAGE
                && e.message@ == unsafe_path_message(source@, p),
        },
{
    let ghost all = checked@ + views(values@);
    let ghost base = checked@.len() as int;
    let mut i: usize = 0;
    while i < values.len()
        invariant
            i <= values@.len(),
            all == checked@ + views(values@),
            base == checked@.len(),
            first_unsafe_path(all, base) == first_unsafe_path(all, base + i),
        decreases values.len() - i,
    {
        assert(all[base + i] == values@[i as int]@);
        if !validate_relative_path(values[i].as_str()) {
            let mut message = crate::text::chars_of(source);
            crate::text::push_str(&mut message, " contains an unsafe repository path: ");
            crate::text::push_str(&mut message, values[i].as_str());
            let text = crate::text::string_from_chars(&message);
            return Err(invalid(text.as_str()));
        }
        i = i + 1;
    }
    Ok(())
}

/// The paths of an environment section must all stay inside the repository.
fn check_environment_paths(
    cache_roots: &Vec<String>,
    required_roots: &Vec<String>,
    seed_files: &Vec<String>,
    excluded_roots: &Vec<String>,
    source: &str,
) -> (r: Result<(), AcreError>)
    ensures
        match first_unsafe_path(environment_paths(cache_roots@, required_roots@, seed_files@, excluded_roots@), 0) {
            None => r is Ok,
            Some(p) => r matches Err(e) && e.code == "ACRE_CONFIG_INVALID" && e.exit_code == EXIT_USAGE
                && e.message@ == unsafe_path_message(source@, p),
        },
{
    let ghost a = views(cache_roots@);
    let ghost b = views(required_roots@);
    let ghost c = views(seed_files@);
    let ghost d = views(excluded_roots@);
    let ghost all = a + b + c + d;
    proof {
        lemma_first_unsafe_split(a + b + c, d, 0);
        lemma_first_unsafe_split(a + b, c, 0);
        lemma_first_unsafe_split(a, b, 0);
        assert(Seq::<Seq<char>>::empty() + a =~= a);
    }
    check_paths(cache_roots, Ghost(Seq::empty()), source)?;
    check_paths(required_roots, Ghost(a), source)?;
    check_paths(seed_files, Ghost(a + b), source)?;
    check_paths(excluded_roots, Ghost(a + b + c), source)
}

proof fn lemma_first_unsafe_split(x: Seq<Seq<char>>, y: Seq<Seq<char>>, i: int)
    requires
        0 <= i <= x.len(),
    ensures
        first_unsafe_path(x + y, i) == match first_unsafe_path(x, i) {
            Some(p) => Some(p),
            None => first_unsafe_path(x + y, x.len() as int),
        },
    decreases x.len() - i,
{
    if i < x.len() {
        assert((x + y)[i] == x[i]);
        lemma_first_unsafe_split(x, y, i + 1);
    }
}

/// Why a configuration is refused, if it is: the first failed rule's message.
pub open spec fn config_problem(config: AcreConfig) -> Option<Seq<char>> {
    if config.schema_version != 1 {
        Some("schemaVersion must be 1."@)
    } else if config.root@.len() == 0 {
        Some("root must be a non-empty path."@)
    } else if config.pool.max_slots == 0 {
        Some("pool.maxSlots must be a positive integer."@)
    } else if config.pool.min_slots > config.pool.max_slots {
        Some("pool.minSlots cannot exceed pool.maxSlots."@)
    } else {
        match first_unsafe_path(
            environment_paths(
                config.environment.cache_roots@,
                config.environment.required_roots@,
                config.environment.seed_files@,
                config.environment.excluded_roots@,
            ),
            0,
        ) {
            Some(p) => Some(unsafe_path_message("Acre configuration"@, p)),
            None => None,
        }
    }
}

/// Checks a configuration: schema version 1, a non-empty root, at least one and at most
/// `maxSlots` slots with `minSlots` no larger, and environment paths that stay inside the
/// repository.
pub fn validate_acre_config(config: &AcreConfig) -> (r: Result<(), AcreError>)
    ensures
        match config_problem(*config) {
            None => r is Ok,
            Some(message) => r matches Err(e) && e.code == "ACRE_CONFIG_INVALID" && e.exit_code
                == EXIT_USAGE && e.message@ == message,
        },
{
    if config.schema_version != 1 {
        return Err(invalid("schemaVersion must be 1."));
    }
    if config.root.as_str().is_empty() {
        return Err(invalid("root must be a non-empty path."));
    }
    if config.pool.max_slots == 0 {
        return Err(invalid("pool.maxSlots must be a positive integer."));
    }
    if config.pool.min_slots > config.pool.max_slots {
        return Err(invalid("pool.minSlots cannot exceed pool.maxSlots."));
    }
    check_environment_paths(
        &config.environment.cache_roots,
        &config.environment.required_roots,
        &config.environment.seed_files,
        &config.environment.excluded_roots,
        "Acre configuration",
    )
}

/// A repository's `.acre.json`, as stored (`None` when there is none): absent reads as empty,
/// and every path it names must stay inside the repository.
pub fn load_repo_config(stored: Option<RepoConfig>) -> (r: Result<RepoConfig, AcreError>)
    ensures
        match stored {
            None => r matches Ok(c) && c.environment is None,
            Some(c) => match c.environment {
                None => r matches Ok(v) && v.environment is None,
                Some(env) => match first_unsafe_path(
                    environment_paths(env.cache_roots@, env.required_roots@, env.seed_files@, env.excluded_roots@),
                    0,
                ) {
                    None => r matches Ok(v) && v == c,
                    Some(p) => r matches Err(e) && e.code == "ACRE_CONFIG_INVALID" && e.exit_code
                        == EXIT_USAGE && e.message@ == unsafe_path_message(".acre.json"@, p),
                },
            },
        },
{
    match stored {
        None => Ok(RepoConfig { environment: None }),
        Some(config) => {
            match &config.environment {
                None => {},
                Some(env) => {
                    check_environment_paths(
                        &env.cache_roots,
                        &env.required_roots,
                        &env.seed_files,
                        &env.excluded_roots,
                        ".acre.json",
                    )?;
                },
            }
            Ok(config)
        },
    }
}

/// The `.acre.json` that `config repo-init` writes: only the default seed files.
pub fn default_repo_config() -> (config: RepoConfig)
    ensures
        config.environment matches Some(env) && env.cache_roots@.len() == 0
            && env.required_roots@.len() == 0 && views(env.seed_files@) == default_seed_files()
            && env.excluded_roots@.len() == 0,
{
    RepoConfig {
        environment: Some(
            RepoEnvironmentConfig {
                cache_roots: Vec::new(),
                required_roots: Vec::new(),
                seed_files: default_seed_file_list(),
                excluded_roots: Vec::new(),
            },
        ),
    }
}

} // verus!
