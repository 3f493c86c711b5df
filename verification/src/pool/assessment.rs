//! Whether a workspace may be returned to the pool: `done` refuses while it finds dirty work,
//! an in-progress Git operation, unexplained ignored files, changed seed files, another lease,
//! a process using the directory, or a lock.

use vstd::prelude::*;

use crate::git::refs::opt_view;
use crate::git::status::WorkingTreeStatus;
use crate::git::worktrees::GitWorktree;
use crate::model::{AcreConfig, RepositoryState, WorkspaceLease, WorkspaceRecord};
use crate::order::views;
use crate::pool::process::ProcessUse;

verus! {

#[derive(Debug, Clone)]
pub struct AssessOptions {
    pub allowed_session_id: Option<String>,
    pub allowed_lease_id: Option<String>,
    pub ignored_pids: Vec<u32>,
}

#[derive(Debug)]
pub struct DoneAssessment {
    pub workspace: WorkspaceRecord,
    pub status: WorkingTreeStatus,
    pub operation: Option<String>,
    pub locked: bool,
    pub lock_reason: Option<String>,
    pub new_ignored: Vec<String>,
    pub changed_seed_files: Vec<String>,
    pub leases: Vec<WorkspaceLease>,
    pub processes: Vec<ProcessUse>,
    pub safe: bool,
    pub reasons: Vec<String>,
}

/// A lease on this workspace that the caller is not itself: not the allowed lease, and not a
/// lease of the allowed session when one is named. Every other lease blocks, a lease without a
/// session included.
pub open spec fn other_holder(l: WorkspaceLease, workspace_id: Seq<char>, options: AssessOptions) -> bool {
    &&& l.workspace_id@ == workspace_id
    &&& opt_view(options.allowed_lease_id) != Some(l.id@)
    &&& !(options.allowed_session_id is Some && opt_view(options.allowed_session_id) == opt_view(l.session_id))
}

pub open spec fn other_holders(ls: Seq<WorkspaceLease>, workspace_id: Seq<char>, options: AssessOptions) -> Seq<WorkspaceLease>
    decreases ls.len(),
{
    if ls.len() == 0 {
        Seq::empty()
    } else if other_holder(ls.last(), workspace_id, options) {
        other_holders(ls.drop_last(), workspace_id, options).push(ls.last())
    } else {
        other_holders(ls.drop_last(), workspace_id, options)
    }
}

/// The ignored entries that were not there when the workspace was opened.
pub open spec fn new_entries(unknown: Seq<Seq<char>>, baseline: Seq<Seq<char>>) -> Seq<Seq<char>>
    decreases unknown.len(),
{
    if unknown.len() == 0 {
        Seq::empty()
    } else if baseline.contains(unknown.last()) {
        new_entries(unknown.drop_last(), baseline)
    } else {
        new_entries(unknown.drop_last(), baseline).push(unknown.last())
    }
}

/// What the assessment found, before it is put into words.
pub struct Findings {
    pub locked: bool,
    pub lock_reason: Option<Seq<char>>,
    pub dirty: bool,
    pub operation: Option<Seq<char>>,
    pub block_ignored: bool,
    pub new_ignored: nat,
    pub changed_seeds: nat,
    pub holders: nat,
    pub processes: nat,
}

pub open spec fn reason_if(cond: bool, text: Seq<char>) -> Seq<Seq<char>> {
    if cond {
        seq![text]
    } else {
        Seq::empty()
    }
}

pub open spec fn lock_reason_text(reason: Option<Seq<char>>) -> Seq<char> {
    match reason {
        Some(reason) => "worktree is locked: "@ + reason,
        None => "worktree is locked"@,
    }
}

pub open spec fn operation_text(op: Option<Seq<char>>) -> Seq<char> {
    match op {
        Some(op) => "a "@ + op + " operation is in progress"@,
        None => Seq::empty(),
    }
}

/// The reasons `done` refuses, in the order they are reported.
pub open spec fn refusal_reasons(f: Findings) -> Seq<Seq<char>> {
    reason_if(f.locked, lock_reason_text(f.lock_reason))
        + reason_if(f.dirty, "working tree contains tracked or untracked changes"@)
        + reason_if(f.operation is Some, operation_text(f.operation))
        + reason_if(f.block_ignored && f.new_ignored > 0, "new ignored files exist outside Acre cache roots"@)
        + reason_if(f.changed_seeds > 0, "seeded local files changed after the workspace was opened"@)
        + reason_if(f.holders > 0, "another client still holds this workspace"@)
        + reason_if(f.processes > 0, "another process is still using this workspace"@)
}

/// The findings an assessment reports.
pub open spec fn findings_of(a: DoneAssessment, config: AcreConfig) -> Findings {
    Findings {
        locked: a.locked,
        lock_reason: opt_view(a.lock_reason),
        dirty: a.status.dirty,
        operation: opt_view(a.operation),
        block_ignored: config.safety.block_unknown_ignored_files,
        new_ignored: a.new_ignored@.len(),
        changed_seeds: a.changed_seed_files@.len(),
        holders: a.leases@.len(),
        processes: a.processes@.len(),
    }
}

fn clone_text(value: &Option<String>) -> (r: Option<String>)
    ensures
        r == *value,
{
    match value {
        Some(s) => Some(s.clone()),
        None => None,
    }
}

fn push_if(out: &mut Vec<String>, cond: bool, text: &str)
    ensures
        views(final(out)@) == views(old(out)@) + reason_if(cond, text@),
{
    let ghost before = views(out@);
    if cond {
        out.push(text.to_owned());
        assert(views(out@) =~= before + seq![text@]);
    } else {
        assert(before + Seq::<Seq<char>>::empty() =~= before);
    }
}

fn push_text(out: &mut Vec<String>, text: &str)
    ensures
        views(final(out)@) == views(old(out)@).push(text@),
{
    let ghost before = views(out@);
    out.push(text.to_owned());
    assert(views(out@) =~= before.push(text@));
}

/// The ignored entries of `unknown` that are not in `baseline`, in order.
fn new_ignored_entries(unknown: &Vec<String>, baseline: &Vec<String>) -> (r: Vec<String>)
    ensures
        views(r@) == new_entries(views(unknown@), views(baseline@)),
{
    let mut new_ignored: Vec<String> = Vec::new();
    let mut i: usize = 0;
    while i < unknown.len()
        invariant
            i <= unknown@.len(),
            views(new_ignored@) == new_entries(views(unknown@.take(i as int)), views(baseline@)),
        decreases unknown.len() - i,
    {
        let entry = &unknown[i];
        proof {
            assert(views(unknown@.take(i + 1)).drop_last() =~= views(unknown@.take(i as int)));
            assert(views(unknown@.take(i + 1)).last() == entry@);
        }
        let mut in_baseline = false;
        let mut j: usize = 0;
        while j < baseline.len()
            invariant
                j <= baseline@.len(),
                in_baseline == exists|k: int| 0 <= k < j && (#[trigger] baseline@[k])@ == entry@,
            decreases baseline.len() - j,
        {
            if crate::text::str_equal(baseline[j].as_str(), entry.as_str()) {
                in_baseline = true;
            }
            j = j + 1;
        }
        proof {
            let b = views(baseline@);
            if in_baseline {
                let k = choose|k: int| 0 <= k < baseline@.len() && (#[trigger] baseline@[k])@ == entry@;
                assert(b[k] == entry@);
            } else {
                assert forall|k: int| 0 <= k < b.len() implies b[k] != entry@ by {
                    assert(b[k] == baseline@[k]@);
                }
            }
        }
        if !in_baseline {
            push_text(&mut new_ignored, entry.as_str());
        }
        i = i + 1;
    }
    assert(unknown@.take(unknown@.len() as int) =~= unknown@);
    new_ignored
}

/// The leases on `workspace_id` held by someone other than the caller.
fn other_holder_leases(leases: &Vec<WorkspaceLease>, workspace_id: &str, options: &AssessOptions) -> (r: Vec<WorkspaceLease>)
    ensures
        r@ == other_holders(leases@, workspace_id@, *options),
{
    let mut kept: Vec<WorkspaceLease> = Vec::new();
    let mut n: usize = 0;
    while n < leases.len()
        invariant
            n <= leases@.len(),
            kept@ == other_holders(leases@.take(n as int), workspace_id@, *options),
        decreases leases.len() - n,
    {
        let l = &leases[n];
        proof {
            assert(leases@.take(n + 1).drop_last() =~= leases@.take(n as int));
        }
        let same_workspace = crate::text::str_equal(l.workspace_id.as_str(), workspace_id);
        let allowed_lease = match &options.allowed_lease_id {
            Some(id) => crate::text::str_equal(id.as_str(), l.id.as_str()),
            None => false,
        };
        let same_session = match (&options.allowed_session_id, &l.session_id) {
            (Some(a), Some(b)) => crate::text::str_equal(a.as_str(), b.as_str()),
            _ => false,
        };
        if same_workspace && !allowed_lease && !same_session {
            kept.push(crate::state::leases::clone_lease(l));
        }
        n = n + 1;
    }
    assert(leases@.take(leases@.len() as int) =~= leases@);
    kept
}

/// The reasons to refuse, put into words.
fn reasons_for(
    locked: bool,
    lock_reason: &Option<String>,
    dirty: bool,
    operation: &Option<String>,
    block_ignored: bool,
    new_ignored: usize,
    changed_seeds: usize,
    holders: usize,
    processes: usize,
) -> (r: Vec<String>)
    ensures
        views(r@) == refusal_reasons(
            Findings {
                locked,
                lock_reason: opt_view(*lock_reason),
                dirty,
                operation: opt_view(*operation),
                block_ignored,
                new_ignored: new_ignored as nat,
                changed_seeds: changed_seeds as nat,
                holders: holders as nat,
                processes: processes as nat,
            },
        ),
{
    let mut reasons: Vec<String> = Vec::new();
    let lock_text = match lock_reason {
        Some(reason) => {
            let mut text = crate::text::chars_of("worktree is locked: ");
            crate::text::push_str(&mut text, reason.as_str());
            crate::text::string_from_chars(&text)
        },
        None => "worktree is locked".to_owned(),
    };
    push_if(&mut reasons, locked, lock_text.as_str());
    let ghost r1 = views(reasons@);
    push_if(&mut reasons, dirty, "working tree contains tracked or untracked changes");
    let ghost r2 = views(reasons@);
    let op_text = match operation {
        Some(op) => {
            let mut text = crate::text::chars_of("a ");
            crate::text::push_str(&mut text, op.as_str());
            crate::text::push_str(&mut text, " operation is in progress");
            crate::text::string_from_chars(&text)
        },
        None => String::new(),
    };
    push_if(&mut reasons, operation.is_some(), op_text.as_str());
    let ghost r3 = views(reasons@);
    push_if(&mut reasons, block_ignored && new_ignored > 0, "new ignored files exist outside Acre cache roots");
    let ghost r4 = views(reasons@);
    push_if(&mut reasons, changed_seeds > 0, "seeded local files changed after the workspace was opened");
    let ghost r5 = views(reasons@);
    push_if(&mut reasons, holders > 0, "another client still holds this workspace");
    let ghost r6 = views(reasons@);
    push_if(&mut reasons, processes > 0, "another process is still using this workspace");
    proof {
        assert(r1 =~= Seq::<Seq<char>>::empty() + reason_if(locked, lock_reason_text(opt_view(*lock_reason))));
    }
    reasons
}

/// Assesses whether `workspace` may be returned (the assessment carries the record). Git's
/// answers are gathered by the caller: `status` of the working tree, the in-progress
/// `operation` if any, the `registered` worktree at the workspace's path, the ignored entries
/// outside cache roots (`unknown_ignored`), the seed files that changed, and the processes
/// using the directory (consulted only when process detection is on). The workspace is safe
/// exactly when no reason to refuse is found.
pub fn assess_workspace(
    state: &RepositoryState,
    workspace: WorkspaceRecord,
    config: &AcreConfig,
    options: &AssessOptions,
    status: WorkingTreeStatus,
    operation: Option<String>,
    registered: Option<&GitWorktree>,
    unknown_ignored: Vec<String>,
    changed_seed_files: Vec<String>,
    processes: Vec<ProcessUse>,
) -> (a: DoneAssessment)
    ensures
        a.workspace == workspace,
        a.status == status,
        a.operation == operation,
        a.locked == (registered matches Some(w) && w.locked),
        a.lock_reason == match registered {
            Some(w) => if w.locked {
                w.lock_reason
            } else {
                None
            },
            None => None,
        },
        views(a.new_ignored@) == new_entries(views(unknown_ignored@), views(workspace.baseline_ignored@)),
        a.changed_seed_files@ == changed_seed_files@,
        a.leases@ == other_holders(state.leases@, workspace.id@, *options),
        a.processes@ == if config.safety.detect_processes {
            processes@
        } else {
            Seq::empty()
        },
        views(a.reasons@) == refusal_reasons(findings_of(a, *config)),
        a.safe == (a.reasons@.len() == 0),
{
    let new_ignored = new_ignored_entries(&unknown_ignored, &workspace.baseline_ignored);
    let leases = other_holder_leases(&state.leases, workspace.id.as_str(), options);
    let processes = if config.safety.detect_processes {
        processes
    } else {
        Vec::new()
    };
    let locked = match registered {
        Some(w) => w.locked,
        None => false,
    };
    let lock_reason = match registered {
        Some(w) => if w.locked {
            clone_text(&w.lock_reason)
        } else {
            None
        },
        None => None,
    };
    let reasons = reasons_for(
        locked,
        &lock_reason,
        status.dirty,
        &operation,
        config.safety.block_unknown_ignored_files,
        new_ignored.len(),
        changed_seed_files.len(),
        leases.len(),
        processes.len(),
    );
    let safe = reasons.len() == 0;
    DoneAssessment {
        workspace,
        status,
        operation,
        locked,
        lock_reason,
        new_ignored,
        changed_seed_files,
        leases,
        processes,
        safe,
        reasons,
    }
}

/// `done` goes ahead exactly when nothing is in the way: the worktree is not locked, the tree
/// is clean, no operation is in progress, no new ignored file blocks, no seed file changed, no
/// other holder remains, and no process uses the directory.
pub proof fn law_safe_exactly_when_nothing_blocks(f: Findings)
    ensures
        (refusal_reasons(f).len() == 0) <==> (!f.locked && !f.dirty && f.operation is None && !(
        f.block_ignored && f.new_ignored > 0) && f.changed_seeds == 0 && f.holders == 0 && f.processes
            == 0),
{
}

/// Another client's lease on the workspace always blocks: it is among the assessment's leases,
/// so `done` refuses.
pub proof fn law_other_holder_blocks_return(
    ls: Seq<WorkspaceLease>,
    workspace_id: Seq<char>,
    options: AssessOptions,
    k: int,
)
    requires
        0 <= k < ls.len(),
        other_holder(ls[k], workspace_id, options),
    ensures
        other_holders(ls, workspace_id, options).len() > 0,
    decreases ls.len(),
{
    if k < ls.len() - 1 {
        law_other_holder_blocks_return(ls.drop_last(), workspace_id, options, k);
    }
}

} // verus!
