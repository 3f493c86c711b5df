use acre::commands::setup::{detect_shell, install_block, shell_block, shell_snippet, END, START};
use acre::shell::SupportedShell;
use acre::ui::prompt::{prompt_suffix, read_answer};
use acre::environment::roots::{is_within_root, nested_cache_root, without_descendants};
use acre::ui::markup::{escape_markup, render_markup};
use acre::util::branch_slug;

fn strings(values: &[&str]) -> Vec<String> {
    values.iter().map(|value| (*value).to_owned()).collect()
}

#[test]
fn install_block_appends_once_and_replaces_in_place() {
    let block = format!("{START}\nnew\n{END}");
    assert_eq!(install_block("", &block), format!("{block}\n"));
    assert_eq!(
        install_block("export A=1", &block),
        format!("export A=1\n{block}\n")
    );
    let existing = format!("before\n{START}\nold\n{END}\nafter\n");
    assert_eq!(
        install_block(&existing, &block),
        format!("before\n{block}\nafter\n")
    );
}

#[test]
fn root_matching_works_at_any_depth() {
    assert!(is_within_root("node_modules", "node_modules"));
    assert!(is_within_root("packages/app/node_modules", "node_modules"));
    assert!(is_within_root("node_modules/.cache/x", "node_modules"));
    assert!(is_within_root("apps/web/.next/cache", ".next/cache"));
    assert!(!is_within_root("node_modules_backup", "node_modules"));
    assert!(!is_within_root("apps/web/.next", ".next/cache"));
}

#[test]
fn nested_root_requires_a_component_boundary() {
    assert_eq!(
        nested_cache_root("apps/web/.next", ".next/cache").as_deref(),
        Some("apps/web/.next/cache")
    );
    assert_eq!(nested_cache_root("apps/web", ".next/cache"), None);
    assert_eq!(nested_cache_root("node_modules", "node_modules"), None);
}

#[test]
fn descendants_of_a_kept_root_are_dropped() {
    let paths = strings(&["node_modules", "node_modules/.cache", "node_modules-x"]);
    assert_eq!(
        without_descendants(paths),
        strings(&["node_modules", "node_modules-x"])
    );
}

#[test]
fn strips_known_tags() {
    assert_eq!(render_markup("<bold><green>Ready</green></bold>", false), "Ready");
}

#[test]
fn escapes_control_and_markup() {
    assert_eq!(escape_markup("<x>\n"), "‹x›\\x0a");
}

#[test]
fn branch_slugs_are_safe_directory_names() {
    assert_eq!(branch_slug("feature/refunds"), "feature-refunds");
    assert_eq!(branch_slug("../weird:name?"), "weird-name");
    assert_eq!(branch_slug("///"), "workspace");
}

#[test]
fn setup_picks_the_shell_and_wraps_its_snippet() {
    assert_eq!(detect_shell(true, Some("bash")), SupportedShell::Powershell);
    assert_eq!(detect_shell(false, Some("fish")), SupportedShell::Fish);
    assert_eq!(detect_shell(false, Some("bash")), SupportedShell::Bash);
    assert_eq!(detect_shell(false, Some("tcsh")), SupportedShell::Zsh);
    assert_eq!(detect_shell(false, None), SupportedShell::Zsh);
    assert_eq!(shell_snippet(SupportedShell::Fish), "acre shell init fish | source");
    assert_eq!(shell_block("x"), format!("{START}\nx\n{END}"));
}

#[test]
fn prompt_answers_are_yes_no_or_the_default() {
    assert_eq!(prompt_suffix(true), "[Y/n]");
    assert_eq!(prompt_suffix(false), "[y/N]");
    assert!(read_answer("\n", true).unwrap());
    assert!(!read_answer("", false).unwrap());
    assert!(read_answer(" YES\n", false).unwrap());
    assert!(!read_answer("n", true).unwrap());
    assert_eq!(read_answer("maybe", true).unwrap_err().code, "ACRE_PROMPT_INVALID");
}
