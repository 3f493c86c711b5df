//! `config set`: a value typed on the command line, read as JSON when it parses and as text
//! otherwise, applied to one configuration key.

use vstd::prelude::*;

use crate::error::{AcreError, EXIT_USAGE};
use crate::model::AcreConfig;
use crate::order::views;
use crate::state::config::{config_problem, validate_acre_config};
use crate::text::{chars_of, push_str, string_from_chars};

verus! {

/// A configuration value as JSON gives it, reduced to what the settings read.
#[derive(Debug, Clone)]
pub enum ConfigValue {
    Null,
    Bool(bool),
    /// A number, with its value when it is a non-negative integer that fits in `u64`.
    Number(Option<u64>),
    Text(String),
    /// An array, with each element's text when the element is a string.
    List(Vec<Option<String>>),
    Object,
}

/// A configuration value, as text.
pub enum ConfigValueView {
    Null,
    Bool(bool),
    Number(Option<u64>),
    Text(Seq<char>),
    List(Seq<Option<Seq<char>>>),
    Object,
}

pub open spec fn opt_text(o: Option<String>) -> Option<Seq<char>> {
    match o {
        Some(s) => Some(s@),
        None => None,
    }
}

pub open spec fn config_value_view(v: ConfigValue) -> ConfigValueView {
    match v {
        ConfigValue::Null => ConfigValueView::Null,
        ConfigValue::Bool(b) => ConfigValueView::Bool(b),
        ConfigValue::Number(n) => ConfigValueView::Number(n),
        ConfigValue::Text(s) => ConfigValueView::Text(s@),
        ConfigValue::List(items) => ConfigValueView::List(items@.map_values(|i: Option<String>| opt_text(i))),
        ConfigValue::Object => ConfigValueView::Object,
    }
}

/// What `serde_json` reads out of `raw` as a JSON value, kept as the value a setting reads;
/// nothing when `raw` is not JSON.
pub uninterp spec fn json_config_value(raw: Seq<char>) -> Option<ConfigValueView>;

/// The value `config set` reads from `raw`: its JSON value when it parses, else the text itself.
pub open spec fn config_value_read(raw: Seq<char>) -> ConfigValueView {
    match json_config_value(raw) {
        Some(v) => v,
        None => ConfigValueView::Text(raw),
    }
}

/// `serde_json::from_str::<serde_json::Value>`: each kind of JSON value mapped to the setting
/// it can be (a number keeps `as_u64`, an array each element's string); nothing on a parse
/// error.
#[verifier::external_body]
fn parse_config_value(raw: &str) -> (v: Option<ConfigValue>)
    ensures
        match v {
            Some(c) => json_config_value(raw@) == Some(config_value_view(c)),
            None => json_config_value(raw@) is None,
        },
{
    match serde_json::from_str::<serde_json::Value>(raw) {
        Ok(serde_json::Value::Null) => Some(ConfigValue::Null),
        Ok(serde_json::Value::Bool(b)) => Some(ConfigValue::Bool(b)),
        Ok(serde_json::Value::Number(n)) => Some(ConfigValue::Number(n.as_u64())),
        Ok(serde_json::Value::String(s)) => Some(ConfigValue::Text(s)),
        Ok(serde_json::Value::Array(items)) => Some(ConfigValue::List(
            items.into_iter().map(|item| match item { serde_json::Value::String(s) => Some(s), _ => None }).collect(),
        )),
        Ok(serde_json::Value::Object(_)) => Some(ConfigValue::Object),
        Err(_) => None,
    }
}

/// The strings of a list whose every element is one.
pub open spec fn all_strings(items: Seq<Option<Seq<char>>>) -> Option<Seq<Seq<char>>> {
    if forall|i: int| 0 <= i < items.len() ==> (#[trigger] items[i]) is Some {
        Some(items.map_values(|i: Option<Seq<char>>| i.unwrap()))
    } else {
        None
    }
}

pub open spec fn count_message(key: Seq<char>) -> Seq<char> {
    key + " must be a non-negative integer."@
}

pub open spec fn bool_message(key: Seq<char>) -> Seq<char> {
    key + " must be a boolean."@
}

pub open spec fn strings_message(key: Seq<char>) -> Seq<char> {
    key + " must be an array of strings."@
}

/// Why `v` cannot be set at `key`, if it cannot: an unknown key, or a value of the wrong kind.
pub open spec fn setting_problem(key: Seq<char>, v: ConfigValueView) -> Option<Seq<char>> {
    if key == "root"@ {
        if v is Text { None } else { Some("root must be a string."@) }
    } else if key == "pool.minSlots"@ || key == "pool.maxSlots"@ {
        match v {
            ConfigValueView::Number(Some(n)) => if n <= usize::MAX { None } else { Some(count_message(key)) },
            _ => Some(count_message(key)),
        }
    } else if key == "pool.idleRetentionDays"@ {
        match v {
            ConfigValueView::Number(Some(n)) => None,
            _ => Some(count_message(key)),
        }
    } else if key == "pool.replenish"@ || key == "safety.detectProcesses"@ || key == "safety.blockUnknownIgnoredFiles"@ {
        if v is Bool { None } else { Some(bool_message(key)) }
    } else if key == "environment.cacheRoots"@ || key == "environment.requiredRoots"@ || key == "environment.seedFiles"@
        || key == "environment.excludedRoots"@ {
        match v {
            ConfigValueView::List(items) => if all_strings(items) is Some { None } else { Some(strings_message(key)) },
            _ => Some(strings_message(key)),
        }
    } else {
        Some("Unknown configuration key: "@ + key)
    }
}

/// The configuration with `v` set at `key`, when `setting_problem` finds nothing.
pub open spec fn with_setting(c: AcreConfig, key: Seq<char>, v: ConfigValueView) -> bool {
    match v {
        ConfigValueView::Text(s) => key == "root"@ && c.root@ == s,
        ConfigValueView::Number(Some(n)) => (key == "pool.minSlots"@ && c.pool.min_slots == n) || (key == "pool.maxSlots"@
            && c.pool.max_slots == n) || (key == "pool.idleRetentionDays"@ && c.pool.idle_retention_days == n),
        ConfigValueView::Bool(b) => (key == "pool.replenish"@ && c.pool.replenish == b) || (key == "safety.detectProcesses"@
            && c.safety.detect_processes == b) || (key == "safety.blockUnknownIgnoredFiles"@
            && c.safety.block_unknown_ignored_files == b),
        ConfigValueView::List(items) => (key == "environment.cacheRoots"@ && all_strings(items) == Some(
            views(c.environment.cache_roots@),
        )) || (key == "environment.requiredRoots"@ && all_strings(items) == Some(views(c.environment.required_roots@))) || (
        key == "environment.seedFiles"@ && all_strings(items) == Some(views(c.environment.seed_files@))) || (key
            == "environment.excludedRoots"@ && all_strings(items) == Some(views(c.environment.excluded_roots@))),
        _ => false,
    }
}

/// `after` is `before` with only the setting `key` changed.
pub open spec fn only_setting_changed(after: AcreConfig, before: AcreConfig, key: Seq<char>) -> bool {
    &&& after.schema_version == before.schema_version
    &&& (key != "root"@ ==> after.root == before.root)
    &&& (key != "pool.minSlots"@ ==> after.pool.min_slots == before.pool.min_slots)
    &&& (key != "pool.maxSlots"@ ==> after.pool.max_slots == before.pool.max_slots)
    &&& (key != "pool.idleRetentionDays"@ ==> after.pool.idle_retention_days == before.pool.idle_retention_days)
    &&& (key != "pool.replenish"@ ==> after.pool.replenish == before.pool.replenish)
    &&& (key != "safety.detectProcesses"@ ==> after.safety.detect_processes == before.safety.detect_processes)
    &&& (key != "safety.blockUnknownIgnoredFiles"@ ==> after.safety.block_unknown_ignored_files
        == before.safety.block_unknown_ignored_files)
    &&& (key != "environment.cacheRoots"@ ==> after.environment.cache_roots == before.environment.cache_roots)
    &&& (key != "environment.requiredRoots"@ ==> after.environment.required_roots == before.environment.required_roots)
    &&& (key != "environment.seedFiles"@ ==> after.environment.seed_files == before.environment.seed_files)
    &&& (key != "environment.excludedRoots"@ ==> after.environment.excluded_roots == before.environment.excluded_roots)
}

fn setting_error(message: Vec<char>) -> (e: AcreError)
    ensures
        e.code == "ACRE_CONFIG_INVALID",
        e.exit_code == EXIT_USAGE,
        e.message@ == message@,
{
    AcreError::new("ACRE_CONFIG_INVALID", string_from_chars(&message).as_str(), EXIT_USAGE)
}

fn keyed(key: &str, rest: &str) -> (r: Vec<char>)
    ensures
        r@ == key@ + rest@,
{
    let mut text = chars_of(key);
    push_str(&mut text, rest);
    text
}

fn strings_of(items: &Vec<Option<String>>) -> (r: Option<Vec<String>>)
    ensures
        match (r, all_strings(items@.map_values(|i: Option<String>| opt_text(i)))) {
            (Some(v), Some(s)) => views(v@) == s,
            (None, None) => true,
            _ => false,
        },
{
    let ghost view = items@.map_values(|i: Option<String>| opt_text(i));
    let mut out: Vec<String> = Vec::new();
    let mut i: usize = 0;
    while i < items.len()
        invariant
            i <= items@.len(),
            view == items@.map_values(|i: Option<String>| opt_text(i)),
            forall|j: int| 0 <= j < i ==> (#[trigger] view[j]) is Some,
            views(out@) == view.take(i as int).map_values(|o: Option<Seq<char>>| o.unwrap()),
        decreases items.len() - i,
    {
        match &items[i] {
            Some(s) => {
                let ghost before = views(out@);
                out.push(s.clone());
                assert(views(out@) =~= before.push(s@));
                assert(view.take(i + 1).map_values(|o: Option<Seq<char>>| o.unwrap()) =~= view.take(i as int).map_values(
                    |o: Option<Seq<char>>| o.unwrap(),
                ).push(s@));
            },
            None => {
                assert(!(view[i as int] is Some));
                return None;
            },
        }
        i = i + 1;
    }
    assert(view.take(items@.len() as int) =~= view);
    Some(out)
}

/// Sets `key` to `value`, then checks the whole configuration. A value of the wrong kind, or
/// an unknown key, changes nothing; a value that breaks a configuration rule is refused, and
/// the caller does not keep the configuration it was set in.
#[verifier::rlimit(60)]
pub fn apply_config_value(config: &mut AcreConfig, key: &str, value: &ConfigValue) -> (r: Result<(), AcreError>)
    ensures
        match setting_problem(key@, config_value_view(*value)) {
            Some(message) => r matches Err(e) && e.code == "ACRE_CONFIG_INVALID" && e.exit_code == EXIT_USAGE
                && e.message@ == message && *final(config) == *old(config),
            None => with_setting(*final(config), key@, config_value_view(*value))
                && only_setting_changed(*final(config), *old(config), key@) && match config_problem(*final(config)) {
                None => r is Ok,
                Some(message) => r matches Err(e) && e.code == "ACRE_CONFIG_INVALID" && e.exit_code == EXIT_USAGE
                    && e.message@ == message,
            },
        },
{
    let k = chars_of(key);
    let is = |name: &str| -> (b: bool)
        ensures
            b == (key@ == name@),
        { crate::text::str_equal(key, name) };
    if is("root") {
        match value {
            ConfigValue::Text(s) => {
                config.root = s.clone();
            },
            _ => {
                return Err(setting_error(chars_of("root must be a string.")));
            },
        }
    } else if is("pool.minSlots") || is("pool.maxSlots") {
        let n = match value {
            ConfigValue::Number(Some(n)) => *n,
            _ => {
                return Err(setting_error(keyed(key, " must be a non-negative integer.")));
            },
        };
        if n > usize::MAX as u64 {
            return Err(setting_error(keyed(key, " must be a non-negative integer.")));
        }
        if is("pool.minSlots") {
            config.pool.min_slots = n as usize;
        } else {
            config.pool.max_slots = n as usize;
        }
    } else if is("pool.idleRetentionDays") {
        match value {
            ConfigValue::Number(Some(n)) => {
                config.pool.idle_retention_days = *n;
            },
            _ => {
                return Err(setting_error(keyed(key, " must be a non-negative integer.")));
            },
        }
    } else if is("pool.replenish") || is("safety.detectProcesses") || is("safety.blockUnknownIgnoredFiles") {
        let b = match value {
            ConfigValue::Bool(b) => *b,
            _ => {
                return Err(setting_error(keyed(key, " must be a boolean.")));
            },
        };
        if is("pool.replenish") {
            config.pool.replenish = b;
        } else if is("safety.detectProcesses") {
            config.safety.detect_processes = b;
        } else {
            config.safety.block_unknown_ignored_files = b;
        }
    } else if is("environment.cacheRoots") || is("environment.requiredRoots") || is("environment.seedFiles") || is(
        "environment.excludedRoots",
    ) {
        let strings = match value {
            ConfigValue::List(items) => strings_of(items),
            _ => None,
        };
        let strings = match strings {
            Some(s) => s,
            None => {
                return Err(setting_error(keyed(key, " must be an array of strings.")));
            },
        };
        if is("environment.cacheRoots") {
            config.environment.cache_roots = strings;
        } else if is("environment.requiredRoots") {
            config.environment.required_roots = strings;
        } else if is("environment.seedFiles") {
            config.environment.seed_files = strings;
        } else {
            config.environment.excluded_roots = strings;
        }
    } else {
        let mut text = chars_of("Unknown configuration key: ");
        crate::text::push_chars(&mut text, &k);
        return Err(setting_error(text));
    }
    validate_acre_config(config)
}

/// `config set <key> <raw>`: `raw` is read as JSON when it parses and as text otherwise
/// (`config_value_read`), then set at `key` as `apply_config_value` says; the value read comes
/// back.
pub fn set_config_value(config: &mut AcreConfig, key: &str, raw: &str) -> (r: Result<ConfigValue, AcreError>)
    ensures
        match setting_problem(key@, config_value_read(raw@)) {
            Some(message) => r matches Err(e) && e.code == "ACRE_CONFIG_INVALID" && e.message@ == message
                && *final(config) == *old(config),
            None => with_setting(*final(config), key@, config_value_read(raw@))
                && only_setting_changed(*final(config), *old(config), key@) && match config_problem(*final(config)) {
                None => r matches Ok(v) && config_value_view(v) == config_value_read(raw@),
                Some(message) => r matches Err(e) && e.code == "ACRE_CONFIG_INVALID" && e.message@ == message,
            },
        },
{
    let value = match parse_config_value(raw) {
        Some(v) => v,
        None => ConfigValue::Text(String::from_str(raw)),
    };
    match apply_config_value(config, key, &value) {
        Ok(()) => Ok(value),
        Err(e) => Err(e),
    }
}

} // verus!
