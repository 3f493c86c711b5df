//! How a failure is told to a person: the message, the closest matches or candidates, and the
//! next step for the common cases.

use vstd::prelude::*;

use crate::error::{detail_text, detail_texts, find_detail_text, find_detail_texts, AcreError};
use crate::order::views;
use crate::text::{chars_of, push_str, string_from_chars};
use crate::ui::markup::escape_spec;
use crate::ui::output::Renderer;

verus! {

/// Each value, escaped, as an indented blue line.
pub open spec fn blue_lines(values: Seq<Seq<char>>) -> Seq<Seq<char>> {
    values.map_values(|v: Seq<char>| "  <blue>"@ + escape_spec(v) + "</blue>"@)
}

/// The closest matches to an unknown target, under a heading.
pub open spec fn suggestion_part(suggestions: Seq<Seq<char>>) -> Seq<Seq<char>> {
    if suggestions.len() > 0 {
        seq![Seq::empty(), "Closest matches:"@] + blue_lines(suggestions)
    } else {
        Seq::empty()
    }
}

/// The candidates of an ambiguous target.
pub open spec fn match_part(matches: Seq<Seq<char>>) -> Seq<Seq<char>> {
    if matches.len() > 0 {
        seq![Seq::<char>::empty()] + blue_lines(matches)
    } else {
        Seq::empty()
    }
}

/// For an unknown target, the one place a new branch is suggested.
pub open spec fn new_branch_part(code: Seq<char>, selector: Option<Seq<char>>) -> Seq<Seq<char>> {
    if code == "ACRE_TARGET_NOT_FOUND"@ {
        seq![
            Seq::empty(),
            "Start a new branch:"@,
            "  <blue>acre new "@ + escape_spec(match selector {
                Some(s) => s,
                None => "branch"@,
            }) + "</blue>"@,
        ]
    } else {
        Seq::empty()
    }
}

/// For a branch that exists already, how to open it.
pub open spec fn open_branch_part(code: Seq<char>, branch: Option<Seq<char>>) -> Seq<Seq<char>> {
    if code == "ACRE_BRANCH_EXISTS"@ {
        seq![
            Seq::empty(),
            "Open it:"@,
            "  <blue>acre "@ + escape_spec(match branch {
                Some(b) => b,
                None => "branch"@,
            }) + "</blue>"@,
        ]
    } else {
        Seq::empty()
    }
}

/// The error's details, dimmed, when asked to be verbose.
pub open spec fn detail_part(details: Option<Seq<char>>) -> Seq<Seq<char>> {
    match details {
        Some(d) => seq![Seq::empty(), "<dim>"@ + escape_spec(d) + "</dim>"@],
        None => Seq::empty(),
    }
}

/// The lines written to standard error for `error`: its message; the closest matches to an
/// unknown target (`suggestions`) and the candidates of an ambiguous one (`matches`); for an
/// unknown target the one place a new branch is suggested (an unknown target is never created
/// silently), and for an existing branch how to open it (`selector` and `branch` default to
/// `branch`); and, when asked to be verbose, the error's details.
pub open spec fn failure_lines_spec(
    code: Seq<char>,
    message: Seq<char>,
    suggestions: Seq<Seq<char>>,
    matches: Seq<Seq<char>>,
    selector: Option<Seq<char>>,
    branch: Option<Seq<char>>,
    details: Option<Seq<char>>,
) -> Seq<Seq<char>> {
    seq!["<bold><red>"@ + escape_spec(message) + "</red></bold>"@] + suggestion_part(suggestions)
        + match_part(matches) + new_branch_part(code, selector) + open_branch_part(code, branch)
        + detail_part(details)
}

pub open spec fn option_view(value: Option<&str>) -> Option<Seq<char>> {
    match value {
        Some(s) => Some(s@),
        None => None,
    }
}

fn push_text(lines: &mut Vec<String>, text: &str)
    ensures
        views(final(lines)@) == views(old(lines)@).push(text@),
{
    let ghost before = views(lines@);
    lines.push(text.to_owned());
    assert(views(lines@) =~= before.push(text@));
}

fn push_empty(lines: &mut Vec<String>)
    ensures
        views(final(lines)@) == views(old(lines)@).push(Seq::<char>::empty()),
{
    let ghost before = views(lines@);
    let empty = String::new();
    assert(empty@ =~= Seq::<char>::empty());
    lines.push(empty);
    assert(views(lines@) =~= before.push(Seq::<char>::empty()));
}

fn push_wrapped(lines: &mut Vec<String>, renderer: &Renderer, before: &str, value: &str, after: &str)
    ensures
        views(final(lines)@) == views(old(lines)@).push(before@ + escape_spec(value@) + after@),
{
    let mut text = chars_of(before);
    push_str(&mut text, renderer.value(value).as_str());
    push_str(&mut text, after);
    let ghost old_lines = views(lines@);
    lines.push(string_from_chars(&text));
    assert(views(lines@) =~= old_lines.push(before@ + escape_spec(value@) + after@));
}

fn push_blue(lines: &mut Vec<String>, renderer: &Renderer, values: &Vec<String>)
    ensures
        views(final(lines)@) == views(old(lines)@) + blue_lines(views(values@)),
{
    let ghost start = views(lines@);
    let mut i: usize = 0;
    while i < values.len()
        invariant
            i <= values@.len(),
            views(lines@) == start + blue_lines(views(values@).take(i as int)),
        decreases values.len() - i,
    {
        push_wrapped(lines, renderer, "  <blue>", values[i].as_str(), "</blue>");
        assert(blue_lines(views(values@).take(i + 1)) =~= blue_lines(views(values@).take(i as int)).push(
            "  <blue>"@ + escape_spec(values@[i as int]@) + "</blue>"@,
        ));
        i = i + 1;
    }
    assert(views(values@).take(values@.len() as int) =~= views(values@));
}

fn push_suggestions(lines: &mut Vec<String>, renderer: &Renderer, suggestions: &Vec<String>)
    ensures
        views(final(lines)@) == views(old(lines)@) + suggestion_part(views(suggestions@)),
{
    let ghost start = views(lines@);
    if suggestions.len() > 0 {
        push_empty(lines);
        push_text(lines, "Closest matches:");
        push_blue(lines, renderer, suggestions);
    }
    assert(views(lines@) =~= start + suggestion_part(views(suggestions@)));
}

fn push_matches(lines: &mut Vec<String>, renderer: &Renderer, matches: &Vec<String>)
    ensures
        views(final(lines)@) == views(old(lines)@) + match_part(views(matches@)),
{
    let ghost start = views(lines@);
    if matches.len() > 0 {
        push_empty(lines);
        push_blue(lines, renderer, matches);
    }
    assert(views(lines@) =~= start + match_part(views(matches@)));
}

fn push_new_branch(lines: &mut Vec<String>, renderer: &Renderer, code: &str, selector: Option<&str>)
    ensures
        views(final(lines)@) == views(old(lines)@) + new_branch_part(code@, option_view(selector)),
{
    let ghost start = views(lines@);
    if crate::text::str_equal(code, "ACRE_TARGET_NOT_FOUND") {
        push_empty(lines);
        push_text(lines, "Start a new branch:");
        let name = match selector {
            Some(s) => s,
            None => "branch",
        };
        push_wrapped(lines, renderer, "  <blue>acre new ", name, "</blue>");
    }
    assert(views(lines@) =~= start + new_branch_part(code@, option_view(selector)));
}

fn push_open_branch(lines: &mut Vec<String>, renderer: &Renderer, code: &str, branch: Option<&str>)
    ensures
        views(final(lines)@) == views(old(lines)@) + open_branch_part(code@, option_view(branch)),
{
    let ghost start = views(lines@);
    if crate::text::str_equal(code, "ACRE_BRANCH_EXISTS") {
        push_empty(lines);
        push_text(lines, "Open it:");
        let name = match branch {
            Some(b) => b,
            None => "branch",
        };
        push_wrapped(lines, renderer, "  <blue>acre ", name, "</blue>");
    }
    assert(views(lines@) =~= start + open_branch_part(code@, option_view(branch)));
}

fn push_details(lines: &mut Vec<String>, renderer: &Renderer, details: Option<&str>)
    ensures
        views(final(lines)@) == views(old(lines)@) + detail_part(option_view(details)),
{
    let ghost start = views(lines@);
    match details {
        Some(d) => {
            push_empty(lines);
            push_wrapped(lines, renderer, "<dim>", d, "</dim>");
        },
        None => {},
    }
    assert(views(lines@) =~= start + detail_part(option_view(details)));
}

/// The lines, as markup, that tell a person about `error`; see `failure_lines_spec`.
pub fn render_failure(
    renderer: &Renderer,
    error: &AcreError,
    suggestions: &Vec<String>,
    matches: &Vec<String>,
    selector: Option<&str>,
    branch: Option<&str>,
    details: Option<&str>,
) -> (lines: Vec<String>)
    ensures
        views(lines@) == failure_lines_spec(
            error.code@,
            error.message@,
            views(suggestions@),
            views(matches@),
            option_view(selector),
            option_view(branch),
            option_view(details),
        ),
{
    let mut lines: Vec<String> = Vec::new();
    push_wrapped(&mut lines, renderer, "<bold><red>", error.message.as_str(), "</red></bold>");
    assert(views(lines@) =~= seq!["<bold><red>"@ + escape_spec(error.message@) + "</red></bold>"@]);
    push_suggestions(&mut lines, renderer, suggestions);
    push_matches(&mut lines, renderer, matches);
    push_new_branch(&mut lines, renderer, error.code, selector);
    push_open_branch(&mut lines, renderer, error.code, branch);
    push_details(&mut lines, renderer, details);
    lines
}


/// The lines for `error` drawn from its own details: the `suggestions` of an unknown target,
/// the `matches` of an ambiguous one, the `selector` that named nothing and the `branch` that
/// exists already; `shown_details` is the whole of the details written out, when a verbose
/// run shows them.
pub fn render_error(renderer: &Renderer, error: &AcreError, shown_details: Option<&str>) -> (lines: Vec<String>)
    ensures
        views(lines@) == failure_lines_spec(
            error.code@,
            error.message@,
            detail_texts(error.details@, "suggestions"@),
            detail_texts(error.details@, "matches"@),
            detail_text(error.details@, "selector"@),
            detail_text(error.details@, "branch"@),
            option_view(shown_details),
        ),
{
    let suggestions = find_detail_texts(&error.details, "suggestions");
    let matches = find_detail_texts(&error.details, "matches");
    let selector = match find_detail_text(&error.details, "selector") {
        Some(s) => Some(s.as_str()),
        None => None,
    };
    let branch = match find_detail_text(&error.details, "branch") {
        Some(b) => Some(b.as_str()),
        None => None,
    };
    render_failure(renderer, error, &suggestions, &matches, selector, branch, shown_details)
}

} // verus!
