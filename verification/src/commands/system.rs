//! `system`: what `doctor` concludes from the repository's state, and what `warm` and `gc`
//! report.

use vstd::prelude::*;

use crate::commands::machine::state_label;
use crate::commands::opened::{push_empty, push_line, push_text};
use crate::error::{EXIT_ENVIRONMENT, EXIT_SUCCESS};
use crate::model::{EnvironmentState, RepositoryState, WorkspaceSlot, WorkspaceStatus};
use crate::number::{decimal, decimal_spec};
use crate::order::views;
use crate::pool::maintenance::GcSkipped;
use crate::text::{chars_of, push_chars, push_str, string_from_chars};
use crate::ui::markup::escape_spec;
use crate::ui::output::Renderer;
use crate::util::{display_path_in, display_path_spec};

verus! {

/// How a doctor check came out: a pass, something worth knowing, or a failure.
#[derive(Debug, Clone, Copy, PartialEq, Eq, Structural)]
pub enum CheckLevel {
    Pass,
    Warn,
    Fail,
}

/// One line of `doctor`: what was checked, how it came out, the detail, and what to run when it
/// is not a pass.
#[derive(Debug)]
pub struct DoctorCheck {
    pub name: String,
    pub level: CheckLevel,
    pub detail: String,
    pub hint: Option<String>,
}

/// How many of `statuses` are `status`.
pub open spec fn status_count(statuses: Seq<WorkspaceStatus>, status: WorkspaceStatus) -> nat
    decreases statuses.len(),
{
    if statuses.len() == 0 {
        0
    } else {
        status_count(statuses.drop_last(), status) + if statuses.last() == status {
            1nat
        } else {
            0nat
        }
    }
}

/// The statuses of a state's workspaces, then of its slots.
pub open spec fn state_statuses(state: RepositoryState) -> Seq<WorkspaceStatus> {
    state.workspaces@.map_values(|w: crate::model::WorkspaceRecord| w.status) + state.slots@.map_values(
        |s: WorkspaceSlot| s.status,
    )
}

/// The repository hint: `system repair` fixes broken records.
pub open spec fn repair_hint() -> Seq<char> {
    "Run <blue>acre system repair</blue> inside this repository."@
}

/// The pool hint: `system warm` prepares warm workspaces.
pub open spec fn warm_hint() -> Seq<char> {
    "Prepare warm workspaces with <blue>acre system warm</blue>."@
}

fn count_status(statuses: &Vec<WorkspaceStatus>, status: WorkspaceStatus) -> (n: usize)
    ensures
        n == status_count(statuses@, status),
{
    let mut n: usize = 0;
    let mut i: usize = 0;
    while i < statuses.len()
        invariant
            i <= statuses@.len(),
            n == status_count(statuses@.take(i as int), status),
            n <= i,
        decreases statuses.len() - i,
    {
        assert(statuses@.take(i + 1).drop_last() =~= statuses@.take(i as int));
        if statuses[i] == status {
            n = n + 1;
        }
        i = i + 1;
    }
    assert(statuses@.take(statuses@.len() as int) =~= statuses@);
    n
}

fn statuses_of(state: &RepositoryState) -> (r: Vec<WorkspaceStatus>)
    ensures
        r@ == state_statuses(*state),
{
    let mut r: Vec<WorkspaceStatus> = Vec::new();
    let mut i: usize = 0;
    while i < state.workspaces.len()
        invariant
            i <= state.workspaces@.len(),
            r@ == state.workspaces@.take(i as int).map_values(|w: crate::model::WorkspaceRecord| w.status),
        decreases state.workspaces.len() - i,
    {
        r.push(state.workspaces[i].status);
        assert(state.workspaces@.take(i + 1).map_values(|w: crate::model::WorkspaceRecord| w.status)
            =~= state.workspaces@.take(i as int).map_values(|w: crate::model::WorkspaceRecord| w.status).push(
            state.workspaces@[i as int].status,
        ));
        i = i + 1;
    }
    assert(state.workspaces@.take(state.workspaces@.len() as int) =~= state.workspaces@);
    let ghost first = r@;
    let mut j: usize = 0;
    while j < state.slots.len()
        invariant
            j <= state.slots@.len(),
            r@ == first + state.slots@.take(j as int).map_values(|s: WorkspaceSlot| s.status),
        decreases state.slots.len() - j,
    {
        r.push(state.slots[j].status);
        assert(state.slots@.take(j + 1).map_values(|s: WorkspaceSlot| s.status) =~= state.slots@.take(j as int).map_values(
            |s: WorkspaceSlot| s.status,
        ).push(state.slots@[j as int].status));
        j = j + 1;
    }
    assert(state.slots@.take(state.slots@.len() as int) =~= state.slots@);
    r
}

/// `count` and `noun(s)`, as `doctor` writes counts.
pub open spec fn counted(count: nat, noun: Seq<char>) -> Seq<char> {
    decimal_spec(count) + " "@ + noun + "(s)"@
}

fn counted_text(count: usize, noun: &str) -> (r: String)
    ensures
        r@ == counted(count as nat, noun@),
{
    let mut text = decimal(count as u64);
    push_str(&mut text, " ");
    push_str(&mut text, noun);
    push_str(&mut text, "(s)");
    string_from_chars(&text)
}

/// The two checks `doctor` makes of a repository's state: no record is broken (else run
/// `system repair`), and the pool has an idle slot (else, only a warning, run `system warm`).
pub fn state_checks(state: &RepositoryState) -> (checks: (DoctorCheck, DoctorCheck))
    ensures
        checks.0.name@ == "Acre state"@,
        ({
            let broken = status_count(state_statuses(*state), WorkspaceStatus::Broken);
            if broken == 0 {
                checks.0.level == CheckLevel::Pass && checks.0.detail@ == "consistent"@ && checks.0.hint is None
            } else {
                checks.0.level == CheckLevel::Fail && checks.0.detail@ == counted(broken, "broken record"@)
                    && (checks.0.hint matches Some(h) && h@ == repair_hint())
            }
        }),
        checks.1.name@ == "Warm pool"@,
        ({
            let idle = status_count(state.slots@.map_values(|s: WorkspaceSlot| s.status), WorkspaceStatus::Idle);
            if idle == 0 {
                checks.1.level == CheckLevel::Warn && checks.1.detail@ == "no idle slots"@ && (checks.1.hint matches Some(
                    h,
                ) && h@ == warm_hint())
            } else {
                checks.1.level == CheckLevel::Pass && checks.1.detail@ == counted(idle, "idle slot"@) && checks.1.hint is None
            }
        }),
{
    let statuses = statuses_of(state);
    let broken = count_status(&statuses, WorkspaceStatus::Broken);
    let consistency = if broken == 0 {
        DoctorCheck { name: "Acre state".to_owned(), level: CheckLevel::Pass, detail: "consistent".to_owned(), hint: None }
    } else {
        DoctorCheck {
            name: "Acre state".to_owned(),
            level: CheckLevel::Fail,
            detail: counted_text(broken, "broken record"),
            hint: Some("Run <blue>acre system repair</blue> inside this repository.".to_owned()),
        }
    };
    let mut slot_statuses: Vec<WorkspaceStatus> = Vec::new();
    let mut i: usize = 0;
    while i < state.slots.len()
        invariant
            i <= state.slots@.len(),
            slot_statuses@ == state.slots@.take(i as int).map_values(|s: WorkspaceSlot| s.status),
        decreases state.slots.len() - i,
    {
        slot_statuses.push(state.slots[i].status);
        assert(state.slots@.take(i + 1).map_values(|s: WorkspaceSlot| s.status) =~= state.slots@.take(i as int).map_values(
            |s: WorkspaceSlot| s.status,
        ).push(state.slots@[i as int].status));
        i = i + 1;
    }
    assert(state.slots@.take(state.slots@.len() as int) =~= state.slots@);
    let idle = count_status(&slot_statuses, WorkspaceStatus::Idle);
    let pool = if idle == 0 {
        DoctorCheck {
            name: "Warm pool".to_owned(),
            level: CheckLevel::Warn,
            detail: "no idle slots".to_owned(),
            hint: Some("Prepare warm workspaces with <blue>acre system warm</blue>.".to_owned()),
        }
    } else {
        DoctorCheck { name: "Warm pool".to_owned(), level: CheckLevel::Pass, detail: counted_text(idle, "idle slot"), hint: None }
    };
    (consistency, pool)
}

/// `doctor` succeeds when no check failed; a warning is no failure.
pub open spec fn doctor_ok(checks: Seq<DoctorCheck>) -> bool {
    forall|i: int| 0 <= i < checks.len() ==> (#[trigger] checks[i]).level != CheckLevel::Fail
}

pub fn doctor_exit_code(checks: &Vec<DoctorCheck>) -> (code: i32)
    ensures
        code == if doctor_ok(checks@) { EXIT_SUCCESS } else { EXIT_ENVIRONMENT },
{
    let mut i: usize = 0;
    while i < checks.len()
        invariant
            i <= checks@.len(),
            forall|j: int| 0 <= j < i ==> (#[trigger] checks@[j]).level != CheckLevel::Fail,
        decreases checks.len() - i,
    {
        if checks[i].level == CheckLevel::Fail {
            return EXIT_ENVIRONMENT;
        }
        i = i + 1;
    }
    EXIT_SUCCESS
}

/// The widest check name.
pub open spec fn name_width(checks: Seq<DoctorCheck>) -> nat
    decreases checks.len(),
{
    if checks.len() == 0 {
        0
    } else {
        let w = name_width(checks.drop_last());
        if checks.last().name@.len() > w {
            checks.last().name@.len()
        } else {
            w
        }
    }
}

/// `n` spaces.
pub open spec fn spaces(n: nat) -> Seq<char> {
    Seq::new(n, |i: int| ' ')
}

/// A check's mark.
pub open spec fn mark(level: CheckLevel) -> Seq<char> {
    match level {
        CheckLevel::Pass => "<green>✓</green>"@,
        CheckLevel::Warn => "<yellow>!</yellow>"@,
        CheckLevel::Fail => "<red>✗</red>"@,
    }
}

/// A check's line: its mark, its name padded to `width`, and its detail.
pub open spec fn check_line(check: DoctorCheck, width: nat) -> Seq<char> {
    mark(check.level) + " "@ + check.name@ + spaces(if width > check.name@.len() { (width - check.name@.len()) as nat } else { 0 })
        + "  <dim>"@ + escape_spec(check.detail@) + "</dim>"@
}

/// The hints of the checks that have one, in order.
pub open spec fn hints(checks: Seq<DoctorCheck>) -> Seq<Seq<char>>
    decreases checks.len(),
{
    if checks.len() == 0 {
        Seq::empty()
    } else {
        hints(checks.drop_last()) + match checks.last().hint {
            Some(h) => seq![h@],
            None => Seq::empty(),
        }
    }
}

/// What `doctor` prints: a title, each check aligned on the widest name, then the hints.
pub open spec fn doctor_lines_spec(checks: Seq<DoctorCheck>) -> Seq<Seq<char>> {
    seq!["<bold>Acre doctor</bold>"@, Seq::empty()] + checks.map_values(|c: DoctorCheck| check_line(c, name_width(checks)))
        + if hints(checks).len() > 0 {
        seq![Seq::<char>::empty()] + hints(checks)
    } else {
        Seq::empty()
    }
}

fn widest(checks: &Vec<DoctorCheck>) -> (w: usize)
    ensures
        w == name_width(checks@),
{
    let mut w: usize = 0;
    let mut i: usize = 0;
    while i < checks.len()
        invariant
            i <= checks@.len(),
            w == name_width(checks@.take(i as int)),
        decreases checks.len() - i,
    {
        assert(checks@.take(i + 1).drop_last() =~= checks@.take(i as int));
        let n = checks[i].name.unicode_len();
        if n > w {
            w = n;
        }
        i = i + 1;
    }
    assert(checks@.take(checks@.len() as int) =~= checks@);
    w
}

fn check_text(renderer: &Renderer, check: &DoctorCheck, width: usize) -> (r: Vec<char>)
    ensures
        r@ == check_line(*check, width as nat),
{
    let mut text = match check.level {
        CheckLevel::Pass => chars_of("<green>✓</green>"),
        CheckLevel::Warn => chars_of("<yellow>!</yellow>"),
        CheckLevel::Fail => chars_of("<red>✗</red>"),
    };
    push_str(&mut text, " ");
    push_str(&mut text, check.name.as_str());
    let n = check.name.unicode_len();
    let pad = if width > n { width - n } else { 0 };
    let ghost before = text@;
    let mut k: usize = 0;
    while k < pad
        invariant
            k <= pad,
            text@ == before + spaces(k as nat),
        decreases pad - k,
    {
        text.push(' ');
        assert(spaces((k + 1) as nat) =~= spaces(k as nat).push(' '));
        k = k + 1;
    }
    push_str(&mut text, "  <dim>");
    push_str(&mut text, renderer.value(check.detail.as_str()).as_str());
    push_str(&mut text, "</dim>");
    text
}

fn push_hints(lines: &mut Vec<String>, checks: &Vec<DoctorCheck>)
    ensures
        views(final(lines)@) == views(old(lines)@) + hints(checks@),
{
    let ghost start = views(lines@);
    let mut i: usize = 0;
    while i < checks.len()
        invariant
            i <= checks@.len(),
            views(lines@) == start + hints(checks@.take(i as int)),
        decreases checks.len() - i,
    {
        assert(checks@.take(i + 1).drop_last() =~= checks@.take(i as int));
        match &checks[i].hint {
            Some(h) => {
                push_text(lines, h.as_str());
            },
            None => {},
        }
        assert(views(lines@) =~= start + hints(checks@.take(i + 1)));
        i = i + 1;
    }
    assert(checks@.take(checks@.len() as int) =~= checks@);
}

fn has_hint(checks: &Vec<DoctorCheck>) -> (r: bool)
    ensures
        r == (hints(checks@).len() > 0),
{
    let mut i: usize = 0;
    while i < checks.len()
        invariant
            i <= checks@.len(),
            hints(checks@.take(i as int)).len() == 0,
        decreases checks.len() - i,
    {
        assert(checks@.take(i + 1).drop_last() =~= checks@.take(i as int));
        if checks[i].hint.is_some() {
            proof {
                lemma_hints_grow(checks@, i as int + 1);
            }
            return true;
        }
        i = i + 1;
    }
    assert(checks@.take(checks@.len() as int) =~= checks@);
    false
}

proof fn lemma_hints_grow(checks: Seq<DoctorCheck>, n: int)
    requires
        0 <= n <= checks.len(),
    ensures
        hints(checks.take(n)).len() <= hints(checks).len(),
    decreases checks.len() - n,
{
    if n < checks.len() {
        lemma_hints_grow(checks, n + 1);
        assert(checks.take(n + 1).drop_last() =~= checks.take(n));
    } else {
        assert(checks.take(n) =~= checks);
    }
}

/// The lines, as markup, that `doctor` prints; see `doctor_lines_spec`.
pub fn doctor_lines(renderer: &Renderer, checks: &Vec<DoctorCheck>) -> (lines: Vec<String>)
    ensures
        views(lines@) == doctor_lines_spec(checks@),
{
    let mut lines: Vec<String> = Vec::new();
    assert(views(lines@) =~= Seq::<Seq<char>>::empty());
    push_text(&mut lines, "<bold>Acre doctor</bold>");
    push_empty(&mut lines);
    let width = widest(checks);
    let ghost head = views(lines@);
    assert(head =~= seq!["<bold>Acre doctor</bold>"@, Seq::<char>::empty()]);
    let mut i: usize = 0;
    while i < checks.len()
        invariant
            i <= checks@.len(),
            width == name_width(checks@),
            views(lines@) == head + checks@.take(i as int).map_values(|c: DoctorCheck| check_line(c, name_width(checks@))),
        decreases checks.len() - i,
    {
        let text = check_text(renderer, &checks[i], width);
        push_line(&mut lines, &text);
        assert(checks@.take(i + 1).map_values(|c: DoctorCheck| check_line(c, name_width(checks@))) =~= checks@.take(
            i as int,
        ).map_values(|c: DoctorCheck| check_line(c, name_width(checks@))).push(check_line(checks@[i as int], name_width(checks@))));
        i = i + 1;
    }
    assert(checks@.take(checks@.len() as int) =~= checks@);
    let ghost body = views(lines@);
    if has_hint(checks) {
        push_empty(&mut lines);
        push_hints(&mut lines, checks);
        assert(views(lines@) =~= body + (seq![Seq::<char>::empty()] + hints(checks@)));
    }
    assert(views(lines@) =~= doctor_lines_spec(checks@));
    lines
}

/// A count and a noun, plural unless the count is one.
pub open spec fn plural(count: nat, noun: Seq<char>) -> Seq<char> {
    decimal_spec(count) + "</green></bold> "@ + noun + if count == 1 { Seq::empty() } else { "s"@ }
}

/// What `system warm` prints: that the pool is ready when nothing had to be prepared, else how
/// many workspaces were prepared and, for each, where it is and the state of its environment
/// (`cold` without one).
pub open spec fn warm_lines_spec(created: Seq<WorkspaceSlot>, home: Seq<char>) -> Seq<Seq<char>> {
    if created.len() == 0 {
        seq!["<green>The warm workspace pool is ready.</green>"@]
    } else {
        seq!["<bold><green>Prepared "@ + plural(created.len(), "warm workspace"@)] + created.map_values(
            |s: WorkspaceSlot| "  <dim>"@ + escape_spec(display_path_spec(s.path@, home)) + "</dim> · "@ + state_label(
                match s.environment {
                    Some(e) => e.state,
                    None => EnvironmentState::Cold,
                },
            ),
        )
    }
}

fn plural_text(text: &mut Vec<char>, count: usize, noun: &str)
    ensures
        final(text)@ == old(text)@ + plural(count as nat, noun@),
{
    push_chars(text, &decimal(count as u64));
    push_str(text, "</green></bold> ");
    push_str(text, noun);
    if count != 1 {
        push_str(text, "s");
    } else {
        proof {
            reveal_strlit("");
        }
    }
    assert(final(text)@ =~= old(text)@ + plural(count as nat, noun@)) by {
        reveal_strlit("");
    }
}

pub fn warm_lines(renderer: &Renderer, created: &Vec<WorkspaceSlot>, home: &str) -> (lines: Vec<String>)
    ensures
        views(lines@) == warm_lines_spec(created@, home@),
{
    let mut lines: Vec<String> = Vec::new();
    if created.len() == 0 {
        push_text(&mut lines, "<green>The warm workspace pool is ready.</green>");
        assert(views(lines@) =~= warm_lines_spec(created@, home@));
        return lines;
    }
    let mut head = chars_of("<bold><green>Prepared ");
    plural_text(&mut head, created.len(), "warm workspace");
    push_line(&mut lines, &head);
    let ghost first = views(lines@);
    let mut i: usize = 0;
    while i < created.len()
        invariant
            i <= created@.len(),
            views(lines@) == first + created@.take(i as int).map_values(
                |s: WorkspaceSlot| "  <dim>"@ + escape_spec(display_path_spec(s.path@, home@)) + "</dim> · "@ + state_label(
                    match s.environment {
                        Some(e) => e.state,
                        None => EnvironmentState::Cold,
                    },
                ),
            ),
        decreases created.len() - i,
    {
        let slot = &created[i];
        let mut text = chars_of("  <dim>");
        let shown = display_path_in(slot.path.as_str(), home);
        push_str(&mut text, renderer.value(shown.as_str()).as_str());
        push_str(&mut text, "</dim> · ");
        let state = match &slot.environment {
            Some(e) => e.state,
            None => EnvironmentState::Cold,
        };
        push_str(&mut text, state.label());
        push_line(&mut lines, &text);
        assert(created@.take(i + 1).map_values(
            |s: WorkspaceSlot| "  <dim>"@ + escape_spec(display_path_spec(s.path@, home@)) + "</dim> · "@ + state_label(
                match s.environment {
                    Some(e) => e.state,
                    None => EnvironmentState::Cold,
                },
            ),
        ) =~= created@.take(i as int).map_values(
            |s: WorkspaceSlot| "  <dim>"@ + escape_spec(display_path_spec(s.path@, home@)) + "</dim> · "@ + state_label(
                match s.environment {
                    Some(e) => e.state,
                    None => EnvironmentState::Cold,
                },
            ),
        ).push(text@));
        i = i + 1;
    }
    assert(created@.take(created@.len() as int) =~= created@);
    assert(views(lines@) =~= warm_lines_spec(created@, home@));
    lines
}

/// What `system gc` prints: how many idle workspaces were removed, then each slot kept and
/// why.
pub open spec fn gc_lines_spec(removed: nat, skipped: Seq<GcSkipped>) -> Seq<Seq<char>> {
    seq!["<bold><green>Removed "@ + plural(removed, "idle workspace"@)] + skipped.map_values(
        |s: GcSkipped| "  <yellow>kept "@ + s.slot.id@ + "</yellow> · "@ + escape_spec(s.reason@),
    )
}

pub fn gc_lines(renderer: &Renderer, removed: usize, skipped: &Vec<GcSkipped>) -> (lines: Vec<String>)
    ensures
        views(lines@) == gc_lines_spec(removed as nat, skipped@),
{
    let mut lines: Vec<String> = Vec::new();
    let mut head = chars_of("<bold><green>Removed ");
    plural_text(&mut head, removed, "idle workspace");
    push_line(&mut lines, &head);
    let ghost first = views(lines@);
    let mut i: usize = 0;
    while i < skipped.len()
        invariant
            i <= skipped@.len(),
            views(lines@) == first + skipped@.take(i as int).map_values(
                |s: GcSkipped| "  <yellow>kept "@ + s.slot.id@ + "</yellow> · "@ + escape_spec(s.reason@),
            ),
        decreases skipped.len() - i,
    {
        let mut text = chars_of("  <yellow>kept ");
        push_str(&mut text, skipped[i].slot.id.as_str());
        push_str(&mut text, "</yellow> · ");
        push_str(&mut text, renderer.value(skipped[i].reason.as_str()).as_str());
        push_line(&mut lines, &text);
        assert(skipped@.take(i + 1).map_values(
            |s: GcSkipped| "  <yellow>kept "@ + s.slot.id@ + "</yellow> · "@ + escape_spec(s.reason@),
        ) =~= skipped@.take(i as int).map_values(
            |s: GcSkipped| "  <yellow>kept "@ + s.slot.id@ + "</yellow> · "@ + escape_spec(s.reason@),
        ).push(text@));
        i = i + 1;
    }
    assert(skipped@.take(skipped@.len() as int) =~= skipped@);
    assert(views(lines@) =~= gc_lines_spec(removed as nat, skipped@));
    lines
}


/// An ownership as text.
pub open spec fn ownership_label(o: crate::model::WorkspaceOwnership) -> Seq<char> {
    match o {
        crate::model::WorkspaceOwnership::Acre => "acre"@,
        crate::model::WorkspaceOwnership::External => "external"@,
    }
}

/// The two lines `system inspect` prints for an active workspace: its name, ownership and
/// environment state (`unknown` without one), then where it is.
pub open spec fn workspace_lines(w: crate::model::WorkspaceRecord, home: Seq<char>) -> Seq<Seq<char>> {
    seq![
        "  <blue>"@ + escape_spec(w.target.display_name@) + "</blue>  "@ + ownership_label(w.ownership) + " · "@
            + state_label(match w.environment {
            Some(e) => e.state,
            None => EnvironmentState::Unknown,
        }),
        "    <dim>"@ + escape_spec(display_path_spec(w.path@, home)) + "</dim>"@,
    ]
}

/// The line for an idle slot: its id, its environment's state (`cold` without one) and the
/// first eight characters of its fingerprint.
pub open spec fn slot_line(s: WorkspaceSlot) -> Seq<char> {
    "  "@ + s.id@ + "  "@ + match s.environment {
        Some(e) => state_label(e.state) + " · "@ + crate::commands::opened::generation(e.fingerprint@),
        None => state_label(EnvironmentState::Cold) + " · "@ + "no fingerprint"@,
    }
}

/// The line for a lease: the first eight characters of its id and its holder.
pub open spec fn lease_line(l: crate::model::WorkspaceLease) -> Seq<char> {
    "  "@ + crate::commands::opened::generation(l.id@) + "  "@ + escape_spec(l.holder@)
}

pub open spec fn all_workspace_lines(ws: Seq<crate::model::WorkspaceRecord>, home: Seq<char>) -> Seq<Seq<char>>
    decreases ws.len(),
{
    if ws.len() == 0 {
        Seq::empty()
    } else {
        all_workspace_lines(ws.drop_last(), home) + workspace_lines(ws.last(), home)
    }
}

pub open spec fn idle_slot_lines(slots: Seq<WorkspaceSlot>) -> Seq<Seq<char>>
    decreases slots.len(),
{
    if slots.len() == 0 {
        Seq::empty()
    } else {
        idle_slot_lines(slots.drop_last()) + if slots.last().status == WorkspaceStatus::Idle {
            seq![slot_line(slots.last())]
        } else {
            Seq::empty()
        }
    }
}

/// What `system inspect` prints for the repository named `name`: its active workspaces, its
/// idle slots, and its leases (`none` for an empty list of workspaces or slots).
pub open spec fn inspect_lines_spec(name: Seq<char>, state: RepositoryState, home: Seq<char>) -> Seq<Seq<char>> {
    seq!["<bold>"@ + escape_spec(name) + "</bold>"@, Seq::empty(), "Active workspaces"@] + (if state.workspaces@.len()
        == 0 {
        seq!["  <dim>none</dim>"@]
    } else {
        Seq::empty()
    }) + all_workspace_lines(state.workspaces@, home) + seq![Seq::empty(), "Warm slots"@] + (if idle_slot_lines(
        state.slots@,
    ).len() == 0 {
        seq!["  <dim>none</dim>"@]
    } else {
        Seq::empty()
    }) + idle_slot_lines(state.slots@) + seq![Seq::empty(), "Leases  "@ + decimal_spec(state.leases@.len())]
        + state.leases@.map_values(|l: crate::model::WorkspaceLease| lease_line(l))
}

fn first_eight(text: &str) -> (r: Vec<char>)
    ensures
        r@ == crate::commands::opened::generation(text@),
{
    let chars = chars_of(text);
    let n = if chars.len() < 8 { chars.len() } else { 8 };
    crate::text::slice_chars(&chars, 0, n)
}

fn push_workspaces(lines: &mut Vec<String>, renderer: &Renderer, ws: &Vec<crate::model::WorkspaceRecord>, home: &str)
    ensures
        views(final(lines)@) == views(old(lines)@) + all_workspace_lines(ws@, home@),
{
    let ghost start = views(lines@);
    let mut i: usize = 0;
    while i < ws.len()
        invariant
            i <= ws@.len(),
            views(lines@) == start + all_workspace_lines(ws@.take(i as int), home@),
        decreases ws.len() - i,
    {
        assert(ws@.take(i + 1).drop_last() =~= ws@.take(i as int));
        let w = &ws[i];
        let mut first = chars_of("  <blue>");
        push_str(&mut first, renderer.value(w.target.display_name.as_str()).as_str());
        push_str(&mut first, "</blue>  ");
        push_str(&mut first, w.ownership.label());
        push_str(&mut first, " · ");
        let state = match &w.environment {
            Some(e) => e.state,
            None => EnvironmentState::Unknown,
        };
        push_str(&mut first, state.label());
        push_line(lines, &first);
        let mut second = chars_of("    <dim>");
        let shown = display_path_in(w.path.as_str(), home);
        push_str(&mut second, renderer.value(shown.as_str()).as_str());
        push_str(&mut second, "</dim>");
        push_line(lines, &second);
        assert(views(lines@) =~= start + all_workspace_lines(ws@.take(i + 1), home@));
        i = i + 1;
    }
    assert(ws@.take(ws@.len() as int) =~= ws@);
}

fn push_idle_slots(lines: &mut Vec<String>, slots: &Vec<WorkspaceSlot>) -> (any: bool)
    ensures
        views(final(lines)@) == views(old(lines)@) + idle_slot_lines(slots@),
        any == (idle_slot_lines(slots@).len() > 0),
{
    let ghost start = views(lines@);
    let mut any = false;
    let mut i: usize = 0;
    while i < slots.len()
        invariant
            i <= slots@.len(),
            views(lines@) == start + idle_slot_lines(slots@.take(i as int)),
            any == (idle_slot_lines(slots@.take(i as int)).len() > 0),
        decreases slots.len() - i,
    {
        assert(slots@.take(i + 1).drop_last() =~= slots@.take(i as int));
        let s = &slots[i];
        if s.status == WorkspaceStatus::Idle {
            let mut text = chars_of("  ");
            push_str(&mut text, s.id.as_str());
            push_str(&mut text, "  ");
            match &s.environment {
                Some(e) => {
                    push_str(&mut text, e.state.label());
                    push_str(&mut text, " · ");
                    push_chars(&mut text, &first_eight(e.fingerprint.as_str()));
                },
                None => {
                    push_str(&mut text, "cold");
                    push_str(&mut text, " · ");
                    push_str(&mut text, "no fingerprint");
                },
            }
            assert(text@ =~= slot_line(*s));
            push_line(lines, &text);
            any = true;
        }
        assert(slots@.take(i + 1).last() == slots@[i as int]);
        assert(views(lines@) =~= start + idle_slot_lines(slots@.take(i + 1)));
        i = i + 1;
    }
    assert(slots@.take(slots@.len() as int) =~= slots@);
    any
}

fn push_leases(lines: &mut Vec<String>, renderer: &Renderer, leases: &Vec<crate::model::WorkspaceLease>)
    ensures
        views(final(lines)@) == views(old(lines)@) + leases@.map_values(|l: crate::model::WorkspaceLease| lease_line(l)),
{
    let ghost start = views(lines@);
    let mut i: usize = 0;
    while i < leases.len()
        invariant
            i <= leases@.len(),
            views(lines@) == start + leases@.take(i as int).map_values(|l: crate::model::WorkspaceLease| lease_line(l)),
        decreases leases.len() - i,
    {
        let mut text = chars_of("  ");
        push_chars(&mut text, &first_eight(leases[i].id.as_str()));
        push_str(&mut text, "  ");
        push_str(&mut text, renderer.value(leases[i].holder.as_str()).as_str());
        push_line(lines, &text);
        assert(leases@.take(i + 1).map_values(|l: crate::model::WorkspaceLease| lease_line(l)) =~= leases@.take(
            i as int,
        ).map_values(|l: crate::model::WorkspaceLease| lease_line(l)).push(lease_line(leases@[i as int])));
        i = i + 1;
    }
    assert(leases@.take(leases@.len() as int) =~= leases@);
}

/// The lines, as markup, that `system inspect` prints; see `inspect_lines_spec`.
#[verifier::rlimit(40)]
pub fn inspect_lines(renderer: &Renderer, name: &str, state: &RepositoryState, home: &str) -> (lines: Vec<String>)
    ensures
        views(lines@) == inspect_lines_spec(name@, *state, home@),
{
    let mut lines: Vec<String> = Vec::new();
    assert(views(lines@) =~= Seq::<Seq<char>>::empty());
    let mut title = chars_of("<bold>");
    push_str(&mut title, renderer.value(name).as_str());
    push_str(&mut title, "</bold>");
    push_line(&mut lines, &title);
    push_empty(&mut lines);
    push_text(&mut lines, "Active workspaces");
    if state.workspaces.len() == 0 {
        push_text(&mut lines, "  <dim>none</dim>");
    }
    push_workspaces(&mut lines, renderer, &state.workspaces, home);
    let ghost after_workspaces = views(lines@);
    push_empty(&mut lines);
    push_text(&mut lines, "Warm slots");
    let mut slot_lines: Vec<String> = Vec::new();
    let any = push_idle_slots(&mut slot_lines, &state.slots);
    assert(views(slot_lines@) =~= idle_slot_lines(state.slots@));
    if !any {
        push_text(&mut lines, "  <dim>none</dim>");
    }
    let ghost before_slots = views(lines@);
    let mut k: usize = 0;
    while k < slot_lines.len()
        invariant
            k <= slot_lines@.len(),
            views(lines@) == before_slots + views(slot_lines@).take(k as int),
        decreases slot_lines.len() - k,
    {
        let ghost b = views(lines@);
        lines.push(slot_lines[k].clone());
        assert(views(lines@) =~= b.push(slot_lines@[k as int]@));
        assert(views(slot_lines@).take(k + 1) =~= views(slot_lines@).take(k as int).push(slot_lines@[k as int]@));
        k = k + 1;
    }
    assert(views(slot_lines@).take(slot_lines@.len() as int) =~= views(slot_lines@));
    push_empty(&mut lines);
    let mut count = chars_of("Leases  ");
    push_chars(&mut count, &decimal(state.leases.len() as u64));
    push_line(&mut lines, &count);
    push_leases(&mut lines, renderer, &state.leases);
    assert(views(lines@) =~= inspect_lines_spec(name@, *state, home@));
    lines
}

} // verus!
