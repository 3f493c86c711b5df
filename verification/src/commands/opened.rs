//! What is said once a workspace is open: where the shell went and what state the
//! environment is in.

use vstd::prelude::*;

use crate::git::refs::opt_view;
use crate::model::{EnvironmentState, TargetKind, TrustLevel, WorkspaceRecord};
use crate::number::{decimal, decimal_spec};
use crate::order::views;
use crate::target::ResolvedTarget;
use crate::text::{chars_of, push_chars, push_str, starts_with, string_from_chars};
use crate::ui::markup::escape_spec;
use crate::ui::output::Renderer;
use crate::util::{display_path_in, display_path_spec, shell_quote, shell_quote_spec};

verus! {

/// The first eight characters of an environment's fingerprint, which name its generation.
pub open spec fn generation(fingerprint: Seq<char>) -> Seq<char> {
    fingerprint.take(if fingerprint.len() < 8 { fingerprint.len() as int } else { 8 })
}

/// How a workspace's environment is described: ready or warm, reused or not, cold, or unknown.
pub open spec fn environment_label_spec(workspace: WorkspaceRecord, reused: bool) -> Seq<char> {
    match workspace.environment {
        None => "environment unknown"@,
        Some(e) => {
            let g = generation(e.fingerprint@);
            match (reused, e.state) {
                (true, EnvironmentState::Ready) => "workspace ready · reused environment "@ + g,
                (false, EnvironmentState::Ready) => "workspace ready · environment "@ + g,
                (true, EnvironmentState::Warm) => "workspace warm · reused environment "@ + g,
                (false, EnvironmentState::Warm) => "workspace warm · environment "@ + g,
                (_, EnvironmentState::Cold) => "code ready · environment "@ + g + " cold"@,
                _ => "environment "@ + g + " unknown"@,
            }
        },
    }
}

pub fn environment_label(workspace: &WorkspaceRecord, reused: bool) -> (label: String)
    ensures
        label@ == environment_label_spec(*workspace, reused),
{
    let e = match &workspace.environment {
        None => {
            return "environment unknown".to_owned();
        },
        Some(e) => e,
    };
    let fingerprint = chars_of(e.fingerprint.as_str());
    let n = if fingerprint.len() < 8 {
        fingerprint.len()
    } else {
        8
    };
    let g = crate::text::slice_chars(&fingerprint, 0, n);
    assert(g@ =~= generation(e.fingerprint@));
    let (prefix, suffix) = match (reused, e.state) {
        (true, EnvironmentState::Ready) => ("workspace ready · reused environment ", ""),
        (false, EnvironmentState::Ready) => ("workspace ready · environment ", ""),
        (true, EnvironmentState::Warm) => ("workspace warm · reused environment ", ""),
        (false, EnvironmentState::Warm) => ("workspace warm · environment ", ""),
        (_, EnvironmentState::Cold) => ("code ready · environment ", " cold"),
        _ => ("environment ", " unknown"),
    };
    let mut text = chars_of(prefix);
    push_chars(&mut text, &g);
    push_str(&mut text, suffix);
    proof {
        reveal_strlit("");
    }
    string_from_chars(&text)
}

/// Where `destination` lies below `path`, when it does.
pub open spec fn relative_below(destination: Seq<char>, path: Seq<char>) -> Seq<char> {
    if starts_with(destination, path + seq!['/']) {
        destination.skip(path.len() as int + 1)
    } else {
        Seq::empty()
    }
}

/// `parts` joined by ` · `.
pub open spec fn dot_joined(parts: Seq<Seq<char>>) -> Seq<char>
    decreases parts.len(),
{
    if parts.len() == 0 {
        Seq::empty()
    } else if parts.len() == 1 {
        parts[0]
    } else {
        dot_joined(parts.drop_last()) + " · "@ + parts.last()
    }
}

/// The milliseconds an operation took, never shown as zero.
pub open spec fn shown_ms(elapsed_ms: u64) -> Seq<char> {
    decimal_spec(if elapsed_ms > 1 { elapsed_ms as nat } else { 1 }) + " ms"@
}

/// How the target came about: a new branch and its base, the remote branch tracked, or the
/// pull request opened.
pub open spec fn header_lines(target: ResolvedTarget) -> Seq<Seq<char>> {
    match target.kind {
        TargetKind::NewBranch => seq!["<bold><green>Created</green></bold> <blue>"@ + escape_spec(target.display_name@) + "</blue>"@]
            + match target.base_ref {
            Some(b) => seq!["<dim>from "@ + escape_spec(b@) + "</dim>"@],
            None => Seq::empty(),
        } + seq![Seq::empty()],
        TargetKind::RemoteBranch => match target.remote_branch {
            Some(r) => seq!["<dim>Tracking</dim> <blue>"@ + escape_spec(r@) + "</blue>"@],
            None => Seq::empty(),
        },
        TargetKind::PullRequest => match target.pull_request {
            Some(pr) => seq!["<dim>Opening PR #"@ + decimal_spec(pr.number as nat) + "</dim>"@],
            None => Seq::empty(),
        },
        _ => Seq::empty(),
    }
}

/// Where the workspace is and the state of its environment: after navigating, the target's
/// name then the relative spot, the environment and the time taken; otherwise the
/// environment, the path and the time.
pub open spec fn place_lines(
    target: ResolvedTarget,
    workspace: WorkspaceRecord,
    path: Seq<char>,
    reused: bool,
    elapsed_ms: u64,
    destination: Seq<char>,
    navigated: bool,
    home: Seq<char>,
) -> Seq<Seq<char>> {
    let label = environment_label_spec(workspace, reused);
    let relative = relative_below(destination, path);
    if navigated {
        seq![
            "<green>→</green> <bold><blue>"@ + escape_spec(target.display_name@) + "</blue></bold>"@,
            "<dim>"@ + escape_spec(dot_joined(
                (if relative.len() > 0 { seq![relative] } else { Seq::empty() }) + seq![label, shown_ms(elapsed_ms)],
            )) + "</dim>"@,
        ]
    } else {
        seq![
            "<bold>"@ + escape_spec(label) + "</bold>"@,
            "<dim>"@ + escape_spec(display_path_spec(path, home)) + "</dim>"@,
            "<dim>"@ + shown_ms(elapsed_ms) + "</dim>"@,
        ]
    }
}

/// The warnings: fork secrets withheld, and what to do about a cold environment.
pub open spec fn warning_lines(target: ResolvedTarget, workspace: WorkspaceRecord) -> Seq<Seq<char>> {
    (if target.trust == TrustLevel::Untrusted {
        seq!["<yellow>Fork secrets withheld · no repository code was run</yellow>"@]
    } else {
        Seq::empty()
    }) + match workspace.environment {
        Some(e) if e.state == EnvironmentState::Cold => seq![
            Seq::empty(),
            "<yellow>No compatible prepared environment exists yet.</yellow>"@,
            "<dim>Run the project’s normal install or build command. Acre will retain the clean result for matching branches.</dim>"@,
        ],
        _ => Seq::empty(),
    }
}

/// The summary printed once `target` is open at `path` (the shell going to `destination` when
/// it `navigated`): how the target came about, where it is, the environment's state, a warning
/// when fork secrets were withheld, and what to do about a cold environment. `home` is the
/// user's home directory, which paths are shown relative to.
pub open spec fn summary_lines(
    target: ResolvedTarget,
    workspace: WorkspaceRecord,
    path: Seq<char>,
    reused: bool,
    elapsed_ms: u64,
    destination: Seq<char>,
    navigated: bool,
    home: Seq<char>,
) -> Seq<Seq<char>> {
    header_lines(target) + place_lines(target, workspace, path, reused, elapsed_ms, destination, navigated, home)
        + warning_lines(target, workspace)
}

pub(crate) fn push_line(lines: &mut Vec<String>, text: &Vec<char>)
    ensures
        views(final(lines)@) == views(old(lines)@).push(text@),
{
    let ghost before = views(lines@);
    lines.push(string_from_chars(text));
    assert(views(lines@) =~= before.push(text@));
}

pub(crate) fn push_text(lines: &mut Vec<String>, text: &str)
    ensures
        views(final(lines)@) == views(old(lines)@).push(text@),
{
    let ghost before = views(lines@);
    lines.push(text.to_owned());
    assert(views(lines@) =~= before.push(text@));
}

pub(crate) fn push_empty(lines: &mut Vec<String>)
    ensures
        views(final(lines)@) == views(old(lines)@).push(Seq::<char>::empty()),
{
    let ghost before = views(lines@);
    let empty = String::new();
    assert(empty@ =~= Seq::<char>::empty());
    lines.push(empty);
    assert(views(lines@) =~= before.push(Seq::<char>::empty()));
}

fn shown_ms_exec(elapsed_ms: u64) -> (r: Vec<char>)
    ensures
        r@ == shown_ms(elapsed_ms),
{
    let ms = if elapsed_ms > 1 {
        elapsed_ms
    } else {
        1
    };
    let mut text = decimal(ms);
    push_str(&mut text, " ms");
    text
}

fn push_header(lines: &mut Vec<String>, renderer: &Renderer, target: &ResolvedTarget)
    ensures
        views(final(lines)@) == views(old(lines)@) + header_lines(*target),
{
    let ghost start = views(lines@);
    match target.kind {
        TargetKind::NewBranch => {
            let mut text = chars_of("<bold><green>Created</green></bold> <blue>");
            push_str(&mut text, renderer.value(target.display_name.as_str()).as_str());
            push_str(&mut text, "</blue>");
            push_line(lines, &text);
            match &target.base_ref {
                Some(b) => {
                    let mut text = chars_of("<dim>from ");
                    push_str(&mut text, renderer.value(b.as_str()).as_str());
                    push_str(&mut text, "</dim>");
                    push_line(lines, &text);
                },
                None => {},
            }
            push_empty(lines);
        },
        TargetKind::RemoteBranch => {
            match &target.remote_branch {
                Some(r) => {
                    let mut text = chars_of("<dim>Tracking</dim> <blue>");
                    push_str(&mut text, renderer.value(r.as_str()).as_str());
                    push_str(&mut text, "</blue>");
                    push_line(lines, &text);
                },
                None => {},
            }
        },
        TargetKind::PullRequest => {
            match &target.pull_request {
                Some(pr) => {
                    let mut text = chars_of("<dim>Opening PR #");
                    push_chars(&mut text, &decimal(pr.number));
                    push_str(&mut text, "</dim>");
                    push_line(lines, &text);
                },
                None => {},
            }
        },
        _ => {},
    }
    assert(views(lines@) =~= start + header_lines(*target));
}

fn joined_details(parts: &Vec<Vec<char>>) -> (r: Vec<char>)
    ensures
        r@ == dot_joined(parts@.map_values(|v: Vec<char>| v@)),
{
    let mut joined: Vec<char> = Vec::new();
    let mut i: usize = 0;
    let ghost pv = parts@.map_values(|v: Vec<char>| v@);
    while i < parts.len()
        invariant
            i <= parts@.len(),
            pv == parts@.map_values(|v: Vec<char>| v@),
            joined@ == dot_joined(pv.take(i as int)),
        decreases parts.len() - i,
    {
        if i > 0 {
            push_str(&mut joined, " · ");
        }
        push_chars(&mut joined, &parts[i]);
        proof {
            let t = pv.take(i + 1);
            assert(t.drop_last() =~= pv.take(i as int));
        }
        i = i + 1;
    }
    assert(pv.take(pv.len() as int) =~= pv);
    joined
}

fn push_place(
    lines: &mut Vec<String>,
    renderer: &Renderer,
    target: &ResolvedTarget,
    workspace: &WorkspaceRecord,
    path: &str,
    reused: bool,
    elapsed_ms: u64,
    destination: &str,
    navigated: bool,
    home: &str,
)
    ensures
        views(final(lines)@) == views(old(lines)@) + place_lines(
            *target,
            *workspace,
            path@,
            reused,
            elapsed_ms,
            destination@,
            navigated,
            home@,
        ),
{
    let ghost start = views(lines@);
    let label = environment_label(workspace, reused);
    if navigated {
        let mut text = chars_of("<green>→</green> <bold><blue>");
        push_str(&mut text, renderer.value(target.display_name.as_str()).as_str());
        push_str(&mut text, "</blue></bold>");
        push_line(lines, &text);
        let mut parts: Vec<Vec<char>> = Vec::new();
        let dest = chars_of(destination);
        let mut prefix = chars_of(path);
        prefix.push('/');
        assert(prefix@ =~= path@ + seq!['/']);
        let ghost relative = relative_below(destination@, path@);
        if crate::text::chars_start_with(&dest, &prefix) {
            let rest = crate::text::slice_chars(&dest, prefix.len(), dest.len());
            assert(rest@ =~= relative);
            if rest.len() > 0 {
                parts.push(rest);
            }
        }
        parts.push(chars_of(label.as_str()));
        parts.push(shown_ms_exec(elapsed_ms));
        assert(parts@.map_values(|v: Vec<char>| v@) =~= (if relative.len() > 0 {
            seq![relative]
        } else {
            Seq::<Seq<char>>::empty()
        }) + seq![label@, shown_ms(elapsed_ms)]);
        let joined = string_from_chars(&joined_details(&parts));
        let mut text = chars_of("<dim>");
        push_str(&mut text, renderer.value(joined.as_str()).as_str());
        push_str(&mut text, "</dim>");
        push_line(lines, &text);
    } else {
        let mut text = chars_of("<bold>");
        push_str(&mut text, renderer.value(label.as_str()).as_str());
        push_str(&mut text, "</bold>");
        push_line(lines, &text);
        let shown = display_path_in(path, home);
        let mut text = chars_of("<dim>");
        push_str(&mut text, renderer.value(shown.as_str()).as_str());
        push_str(&mut text, "</dim>");
        push_line(lines, &text);
        let mut text = chars_of("<dim>");
        push_chars(&mut text, &shown_ms_exec(elapsed_ms));
        push_str(&mut text, "</dim>");
        push_line(lines, &text);
    }
    assert(views(lines@) =~= start + place_lines(*target, *workspace, path@, reused, elapsed_ms, destination@, navigated, home@));
}

fn push_warnings(lines: &mut Vec<String>, target: &ResolvedTarget, workspace: &WorkspaceRecord)
    ensures
        views(final(lines)@) == views(old(lines)@) + warning_lines(*target, *workspace),
{
    let ghost start = views(lines@);
    if target.trust == TrustLevel::Untrusted {
        push_text(lines, "<yellow>Fork secrets withheld · no repository code was run</yellow>");
    }
    let cold = match &workspace.environment {
        Some(e) => e.state == EnvironmentState::Cold,
        None => false,
    };
    if cold {
        push_empty(lines);
        push_text(lines, "<yellow>No compatible prepared environment exists yet.</yellow>");
        push_text(
            lines,
            "<dim>Run the project’s normal install or build command. Acre will retain the clean result for matching branches.</dim>",
        );
    }
    assert(views(lines@) =~= start + warning_lines(*target, *workspace));
}

/// The summary lines, as markup, for a workspace just opened; see `summary_lines`.
pub fn render_materialized_summary(
    renderer: &Renderer,
    target: &ResolvedTarget,
    workspace: &WorkspaceRecord,
    path: &str,
    reused: bool,
    elapsed_ms: u64,
    destination: &str,
    navigated: bool,
    home: &str,
) -> (lines: Vec<String>)
    ensures
        views(lines@) == summary_lines(*target, *workspace, path@, reused, elapsed_ms, destination@, navigated, home@),
{
    let mut lines: Vec<String> = Vec::new();
    push_header(&mut lines, renderer, target);
    push_place(&mut lines, renderer, target, workspace, path, reused, elapsed_ms, destination, navigated, home);
    push_warnings(&mut lines, target, workspace);
    assert(views(lines@) =~= summary_lines(*target, *workspace, path@, reused, elapsed_ms, destination@, navigated, home@));
    lines
}

/// What a shell without the integration is told: the `cd` to run, and how to enable direct
/// navigation.
pub open spec fn manual_move_lines(destination: Seq<char>) -> Seq<Seq<char>> {
    seq![
        Seq::empty(),
        "Move this shell:"@,
        "  <blue>cd "@ + escape_spec(shell_quote_spec(destination)) + "</blue>"@,
        Seq::empty(),
        "Enable direct navigation with <blue>acre setup</blue>."@,
    ]
}

pub fn manual_move(renderer: &Renderer, destination: &str) -> (lines: Vec<String>)
    ensures
        views(lines@) == manual_move_lines(destination@),
{
    let mut lines: Vec<String> = Vec::new();
    push_empty(&mut lines);
    push_text(&mut lines, "Move this shell:");
    let quoted = shell_quote(destination);
    let mut text = chars_of("  <blue>cd ");
    push_str(&mut text, renderer.value(quoted.as_str()).as_str());
    push_str(&mut text, "</blue>");
    push_line(&mut lines, &text);
    push_empty(&mut lines);
    push_text(&mut lines, "Enable direct navigation with <blue>acre setup</blue>.");
    assert(views(lines@) =~= manual_move_lines(destination@));
    lines
}

} // verus!
