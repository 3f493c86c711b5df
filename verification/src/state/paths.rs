//! Where every persisted file lives under the Acre root.

use vstd::prelude::*;

use crate::error::{AcreError, EXIT_USAGE};
use crate::model::AcreConfig;
use crate::util::{expand_home_in, expand_home_spec, home_dir, join_path, path_join};

verus! {

/// The default Acre root: `.acre` in the home directory `home`.
pub fn default_acre_root_in(home: &str) -> (root: String)
    ensures
        root@ == path_join(home@, ".acre"@),
{
    join_path(home, ".acre")
}

/// `~/.acre`, for the user's home directory.
pub fn default_acre_root() -> (root: String)
    ensures
        exists|home: Seq<char>| root@ == path_join(home, ".acre"@),
{
    let home = home_dir();
    default_acre_root_in(home.as_str())
}

/// The configured root with `~` expanded against `home`; a relative root is taken relative to
/// `config_dir`, the directory that holds the configuration file.
pub open spec fn acre_root_spec(root: Seq<char>, home: Seq<char>, config_dir: Seq<char>) -> Seq<char> {
    let expanded = expand_home_spec(root, home);
    if expanded.len() > 0 && expanded[0] == '/' {
        expanded
    } else {
        path_join(config_dir, expanded)
    }
}

pub fn acre_root_in(config: &AcreConfig, home: &str, config_dir: &str) -> (root: String)
    ensures
        root@ == acre_root_spec(config.root@, home@, config_dir@),
{
    let expanded = expand_home_in(config.root.as_str(), home);
    let chars = crate::text::chars_of(expanded.as_str());
    if chars.len() > 0 && chars[0] == '/' {
        expanded
    } else {
        join_path(config_dir, expanded.as_str())
    }
}

/// The Acre root of `config`, for the user's home directory.
pub fn acre_root(config: &AcreConfig, config_dir: &str) -> (root: String)
    ensures
        exists|home: Seq<char>| root@ == acre_root_spec(config.root@, home, config_dir@),
{
    let home = home_dir();
    acre_root_in(config, home.as_str(), config_dir)
}

pub fn repository_index_path(acre_root: &str) -> (path: String)
    ensures
        path@ == path_join(acre_root@, "repositories.json"@),
{
    join_path(acre_root, "repositories.json")
}

pub fn repository_state_path(repository_root: &str) -> (path: String)
    ensures
        path@ == path_join(repository_root@, "state.json"@),
{
    join_path(repository_root, "state.json")
}

pub fn repository_lock_path(repository_root: &str) -> (path: String)
    ensures
        path@ == path_join(repository_root@, "state.lock"@),
{
    join_path(repository_root, "state.lock")
}

/// Where a repository's bound workspaces live.
pub fn active_root(repository_root: &str) -> (path: String)
    ensures
        path@ == path_join(repository_root@, "workspaces"@),
{
    join_path(repository_root, "workspaces")
}

/// Where a repository's idle pool slots live.
pub fn slots_root(repository_root: &str) -> (path: String)
    ensures
        path@ == path_join(repository_root@, "slots"@),
{
    join_path(repository_root, "slots")
}

pub fn operations_root(acre_root: &str) -> (path: String)
    ensures
        path@ == path_join(acre_root@, "operations"@),
{
    join_path(acre_root, "operations")
}

pub fn shells_root(acre_root: &str) -> (path: String)
    ensures
        path@ == path_join(acre_root@, "shells"@),
{
    join_path(acre_root, "shells")
}

/// A session or operation id that is safe as a file name: 1 to 128 ASCII letters, digits,
/// `-` or `_`.
pub open spec fn is_state_id_char(c: char) -> bool {
    ('a' <= c && c <= 'z') || ('A' <= c && c <= 'Z') || ('0' <= c && c <= '9') || c == '-' || c
        == '_'
}

pub open spec fn is_valid_state_id(id: Seq<char>) -> bool {
    &&& 0 < id.len() <= 128
    &&& forall|i: int| 0 <= i < id.len() ==> is_state_id_char(#[trigger] id[i])
}

/// Refuses ids that could escape their directory or are not plain names.
pub fn validate_state_id(id: &str) -> (r: Result<(), AcreError>)
    ensures
        r is Ok <==> is_valid_state_id(id@),
        r matches Err(e) ==> e.code == "ACRE_INVALID_STATE_ID" && e.exit_code == EXIT_USAGE,
{
    let chars = crate::text::chars_of(id);
    let mut ok = chars.len() > 0 && chars.len() <= 128;
    let mut i: usize = 0;
    while ok && i < chars.len()
        invariant
            i <= chars@.len(),
            chars@ == id@,
            ok ==> 0 < id@.len() <= 128,
            ok ==> forall|j: int| 0 <= j < i ==> is_state_id_char(#[trigger] id@[j]),
            !ok ==> !is_valid_state_id(id@),
        decreases chars.len() - i,
    {
        let c = chars[i];
        if !(('a' <= c && c <= 'z') || ('A' <= c && c <= 'Z') || ('0' <= c && c <= '9') || c == '-'
            || c == '_') {
            assert(!is_state_id_char(id@[i as int]));
            ok = false;
        }
        i = i + 1;
    }
    if ok {
        Ok(())
    } else {
        Err(
            AcreError::new(
                "ACRE_INVALID_STATE_ID",
                "Invalid Acre session or operation identifier.",
                EXIT_USAGE,
            ),
        )
    }
}

/// `<id>.json` inside `dir`, once `id` is known to be a plain name.
fn id_file(dir: &str, id: &str) -> (path: String)
    ensures
        path@ == path_join(dir@, id@ + ".json"@),
{
    let mut name = crate::text::chars_of(id);
    crate::text::push_str(&mut name, ".json");
    let text = crate::text::string_from_chars(&name);
    join_path(dir, text.as_str())
}

/// The file of pending operation `token`.
pub fn operation_path(acre_root: &str, token: &str) -> (r: Result<String, AcreError>)
    ensures
        r is Ok <==> is_valid_state_id(token@),
        r matches Ok(path) ==> path@ == path_join(
            path_join(acre_root@, "operations"@),
            token@ + ".json"@,
        ),
        r matches Err(e) ==> e.code == "ACRE_INVALID_STATE_ID",
{
    validate_state_id(token)?;
    let root = operations_root(acre_root);
    Ok(id_file(root.as_str(), token))
}

/// The state file of shell session `id`.
pub fn shell_state_path(acre_root: &str, id: &str) -> (r: Result<String, AcreError>)
    ensures
        r is Ok <==> is_valid_state_id(id@),
        r matches Ok(path) ==> path@ == path_join(path_join(acre_root@, "shells"@), id@ + ".json"@),
        r matches Err(e) ==> e.code == "ACRE_INVALID_STATE_ID",
{
    validate_state_id(id)?;
    let root = shells_root(acre_root);
    Ok(id_file(root.as_str(), id))
}

} // verus!
