//! `acquire` and `release`, the lease-based interface for editors and agents: which repository
//! holds a lease, whether the last lease out returns the workspace, and what is reported.

use vstd::prelude::*;

use crate::commands::opened::{push_line, push_text};
use crate::model::{EnvironmentState, WorkspaceLease};
use crate::number::{decimal, decimal_spec};
use crate::order::views;
use crate::pool::broker::ReturnResult;
use crate::text::{chars_of, push_chars, push_str, string_from_chars};
use crate::ui::markup::escape_spec;
use crate::ui::output::Renderer;

verus! {

/// Some lease in `leases` has id `lease_id`: a lease id says nothing about its repository, so
/// `release` looks for it in every repository it has seen.
pub fn has_lease(leases: &Vec<WorkspaceLease>, lease_id: &str) -> (r: bool)
    ensures
        r == exists|i: int| 0 <= i < leases@.len() && (#[trigger] leases@[i]).id@ == lease_id@,
{
    let mut i: usize = 0;
    while i < leases.len()
        invariant
            i <= leases@.len(),
            forall|j: int| 0 <= j < i ==> (#[trigger] leases@[j]).id@ != lease_id@,
        decreases leases.len() - i,
    {
        if crate::text::str_equal(leases[i].id.as_str(), lease_id) {
            return true;
        }
        i = i + 1;
    }
    false
}

/// How many of `leases` are on `workspace_id`.
pub open spec fn lease_count(leases: Seq<WorkspaceLease>, workspace_id: Seq<char>) -> nat
    decreases leases.len(),
{
    if leases.len() == 0 {
        0
    } else {
        lease_count(leases.drop_last(), workspace_id) + if leases.last().workspace_id@ == workspace_id {
            1nat
        } else {
            0nat
        }
    }
}

/// The leases still held on `workspace_id`.
pub fn remaining_leases(leases: &Vec<WorkspaceLease>, workspace_id: &str) -> (n: usize)
    ensures
        n == lease_count(leases@, workspace_id@),
{
    let mut n: usize = 0;
    let mut i: usize = 0;
    while i < leases.len()
        invariant
            i <= leases@.len(),
            n == lease_count(leases@.take(i as int), workspace_id@),
            n <= i,
        decreases leases.len() - i,
    {
        assert(leases@.take(i + 1).drop_last() =~= leases@.take(i as int));
        if crate::text::str_equal(leases[i].workspace_id.as_str(), workspace_id) {
            n = n + 1;
        }
        i = i + 1;
    }
    assert(leases@.take(leases@.len() as int) =~= leases@);
    n
}

/// The last lease out tries to return the workspace, unless asked to keep it active; other
/// releases just let go.
pub fn tries_return(keep_active: bool, remaining: usize) -> (r: bool)
    ensures
        r == (!keep_active && remaining == 0),
{
    !keep_active && remaining == 0
}

/// What a release reports of the workspace: whether it stays active, went back to the pool, or
/// is an external worktree.
#[derive(Debug, Clone, Copy, PartialEq, Eq, Structural)]
pub struct ReleaseOutcome {
    pub retained: bool,
    pub pooled: bool,
    pub external: bool,
}

/// The outcome from the return that was tried, if one was and it ran; the lease is already
/// gone, so a return that failed or was not tried leaves the workspace retained.
pub fn release_outcome(returned: Option<&ReturnResult>) -> (o: ReleaseOutcome)
    ensures
        match returned {
            Some(r) => o == ReleaseOutcome { retained: !r.returned, pooled: r.pooled, external: r.external },
            None => o == ReleaseOutcome { retained: true, pooled: false, external: false },
        },
{
    match returned {
        Some(r) => ReleaseOutcome { retained: !r.returned, pooled: r.pooled, external: r.external },
        None => ReleaseOutcome { retained: true, pooled: false, external: false },
    }
}

/// The line under `Released` that says why the workspace stayed or where it went, and, when
/// it stayed for want of proof, each reason.
pub open spec fn release_detail(outcome: ReleaseOutcome, keep_active: bool, remaining: usize, reasons: Seq<Seq<char>>) -> Seq<Seq<char>> {
    if !outcome.retained {
        if outcome.pooled {
            seq!["<dim>Warm workspace returned to the pool</dim>"@]
        } else {
            seq!["<dim>Workspace directory removed</dim>"@]
        }
    } else if keep_active {
        seq!["<dim>Workspace remains active by request</dim>"@]
    } else if remaining > 0 {
        seq![
            "<dim>Workspace remains active · "@ + decimal_spec(remaining as nat) + " other lease"@ + (if remaining == 1 {
                Seq::empty()
            } else {
                "s"@
            }) + "</dim>"@,
        ]
    } else if outcome.external {
        seq!["<dim>External worktree left untouched</dim>"@]
    } else {
        seq!["<dim>Workspace remains active because Acre could not prove it safe to recycle</dim>"@]
            + reasons.map_values(|r: Seq<char>| "  <yellow>•</yellow> "@ + escape_spec(r))
    }
}

/// What `release` prints: the workspace released, then `release_detail`.
pub open spec fn release_lines_spec(
    display_name: Seq<char>,
    outcome: ReleaseOutcome,
    keep_active: bool,
    remaining: usize,
    reasons: Seq<Seq<char>>,
) -> Seq<Seq<char>> {
    seq!["<bold><green>Released</green></bold> <blue>"@ + escape_spec(display_name) + "</blue>"@] + release_detail(
        outcome,
        keep_active,
        remaining,
        reasons,
    )
}

fn push_reasons(lines: &mut Vec<String>, renderer: &Renderer, reasons: &Vec<String>)
    ensures
        views(final(lines)@) == views(old(lines)@) + views(reasons@).map_values(
            |r: Seq<char>| "  <yellow>•</yellow> "@ + escape_spec(r),
        ),
{
    let ghost start = views(lines@);
    let mut i: usize = 0;
    while i < reasons.len()
        invariant
            i <= reasons@.len(),
            views(lines@) == start + views(reasons@).take(i as int).map_values(
                |r: Seq<char>| "  <yellow>•</yellow> "@ + escape_spec(r),
            ),
        decreases reasons.len() - i,
    {
        let mut text = chars_of("  <yellow>•</yellow> ");
        push_str(&mut text, renderer.value(reasons[i].as_str()).as_str());
        push_line(lines, &text);
        assert(views(reasons@).take(i + 1).map_values(|r: Seq<char>| "  <yellow>•</yellow> "@ + escape_spec(r))
            =~= views(reasons@).take(i as int).map_values(|r: Seq<char>| "  <yellow>•</yellow> "@ + escape_spec(r)).push(
            "  <yellow>•</yellow> "@ + escape_spec(reasons@[i as int]@),
        ));
        i = i + 1;
    }
    assert(views(reasons@).take(reasons@.len() as int) =~= views(reasons@));
}

fn push_detail(
    lines: &mut Vec<String>,
    renderer: &Renderer,
    outcome: ReleaseOutcome,
    keep_active: bool,
    remaining: usize,
    reasons: &Vec<String>,
)
    ensures
        views(final(lines)@) == views(old(lines)@) + release_detail(outcome, keep_active, remaining, views(reasons@)),
{
    let ghost start = views(lines@);
    if !outcome.retained {
        if outcome.pooled {
            push_text(lines, "<dim>Warm workspace returned to the pool</dim>");
        } else {
            push_text(lines, "<dim>Workspace directory removed</dim>");
        }
    } else if keep_active {
        push_text(lines, "<dim>Workspace remains active by request</dim>");
    } else if remaining > 0 {
        let mut text = chars_of("<dim>Workspace remains active · ");
        push_chars(&mut text, &decimal(remaining as u64));
        push_str(&mut text, " other lease");
        if remaining != 1 {
            push_str(&mut text, "s");
        }
        push_str(&mut text, "</dim>");
        proof {
            if remaining == 1 {
                assert(text@ =~= "<dim>Workspace remains active · "@ + decimal_spec(remaining as nat) + " other lease"@
                    + Seq::<char>::empty() + "</dim>"@);
            }
        }
        push_line(lines, &text);
    } else if outcome.external {
        push_text(lines, "<dim>External worktree left untouched</dim>");
    } else {
        push_text(lines, "<dim>Workspace remains active because Acre could not prove it safe to recycle</dim>");
        push_reasons(lines, renderer, reasons);
    }
    assert(views(lines@) =~= start + release_detail(outcome, keep_active, remaining, views(reasons@)));
}

/// The lines, as markup, that `release` prints; see `release_lines_spec`.
pub fn release_lines(
    renderer: &Renderer,
    display_name: &str,
    outcome: ReleaseOutcome,
    keep_active: bool,
    remaining: usize,
    reasons: &Vec<String>,
) -> (lines: Vec<String>)
    ensures
        views(lines@) == release_lines_spec(display_name@, outcome, keep_active, remaining, views(reasons@)),
{
    let mut lines: Vec<String> = Vec::new();
    let mut text = chars_of("<bold><green>Released</green></bold> <blue>");
    push_str(&mut text, renderer.value(display_name).as_str());
    push_str(&mut text, "</blue>");
    push_line(&mut lines, &text);
    push_detail(&mut lines, renderer, outcome, keep_active, remaining, reasons);
    lines
}

/// An environment state as text.
pub open spec fn state_label(state: EnvironmentState) -> Seq<char> {
    match state {
        EnvironmentState::Ready => "ready"@,
        EnvironmentState::Warm => "warm"@,
        EnvironmentState::Cold => "cold"@,
        EnvironmentState::Unknown => "unknown"@,
    }
}

/// The line `acquire` writes to standard error beside the path: the lease, or `none`, and the
/// environment's state (`unknown` without one).
pub open spec fn acquired_line_spec(lease_id: Option<Seq<char>>, state: Option<EnvironmentState>) -> Seq<char> {
    "<dim>lease "@ + escape_spec(match lease_id {
        Some(id) => id,
        None => "none"@,
    }) + " · "@ + state_label(match state {
        Some(s) => s,
        None => EnvironmentState::Unknown,
    }) + "</dim>"@
}

pub fn acquired_line(renderer: &Renderer, lease_id: Option<&str>, state: Option<EnvironmentState>) -> (line: String)
    ensures
        line@ == acquired_line_spec(
            match lease_id {
                Some(id) => Some(id@),
                None => None,
            },
            state,
        ),
{
    let mut text = chars_of("<dim>lease ");
    let id = match lease_id {
        Some(id) => id,
        None => "none",
    };
    push_str(&mut text, renderer.value(id).as_str());
    push_str(&mut text, " · ");
    let s = match state {
        Some(s) => s,
        None => EnvironmentState::Unknown,
    };
    push_str(&mut text, s.label());
    push_str(&mut text, "</dim>");
    string_from_chars(&text)
}

} // verus!
