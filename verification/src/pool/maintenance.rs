//! Upkeep of a repository's pool: forgetting records whose worktree Git no longer has, and
//! choosing the idle slots that garbage collection removes.

use vstd::prelude::*;

use crate::model::{AcreConfig, RepositoryState, WorkspaceRecord, WorkspaceSlot, WorkspaceStatus};
use crate::order::{lemma_less_asymmetric, lemma_less_irreflexive, lemma_less_total, lemma_less_transitive, seq_less, str_less};
use crate::util::{age_at_some_time, age_millis};

verus! {

/// What a repair did: the records recovery added (counted against an empty state) and the
/// records dropped because Git no longer registers their worktree.
#[derive(Debug)]
pub struct RepairReport {
    pub added_slots: usize,
    pub added_workspaces: usize,
    pub removed_broken_records: usize,
    pub state: RepositoryState,
}

/// A slot garbage collection left alone, and why.
#[derive(Debug)]
pub struct GcSkipped {
    pub slot: WorkspaceSlot,
    pub reason: String,
}

#[derive(Debug)]
pub struct GcReport {
    pub removed: Vec<WorkspaceSlot>,
    pub skipped: Vec<GcSkipped>,
    pub state: RepositoryState,
}

/// Git registers a worktree at canonical path `p`.
pub open spec fn registered(paths: Seq<String>, p: Seq<char>) -> bool {
    exists|i: int| 0 <= i < paths.len() && (#[trigger] paths[i])@ == p
}

/// The first `n` slots whose canonical path (`canonical[i]`) Git registers.
pub open spec fn registered_slots(slots: Seq<WorkspaceSlot>, canonical: Seq<String>, paths: Seq<String>, n: int) -> Seq<WorkspaceSlot>
    decreases n,
{
    if n <= 0 {
        Seq::empty()
    } else if registered(paths, canonical[n - 1]@) {
        registered_slots(slots, canonical, paths, n - 1).push(slots[n - 1])
    } else {
        registered_slots(slots, canonical, paths, n - 1)
    }
}

/// The first `n` workspaces whose canonical path (`canonical[i]`) Git registers.
pub open spec fn registered_workspaces(ws: Seq<WorkspaceRecord>, canonical: Seq<String>, paths: Seq<String>, n: int) -> Seq<WorkspaceRecord>
    decreases n,
{
    if n <= 0 {
        Seq::empty()
    } else if registered(paths, canonical[n - 1]@) {
        registered_workspaces(ws, canonical, paths, n - 1).push(ws[n - 1])
    } else {
        registered_workspaces(ws, canonical, paths, n - 1)
    }
}

fn is_registered(paths: &Vec<String>, p: &str) -> (r: bool)
    ensures
        r == registered(paths@, p@),
{
    let mut i: usize = 0;
    while i < paths.len()
        invariant
            i <= paths@.len(),
            forall|j: int| 0 <= j < i ==> (#[trigger] paths@[j])@ != p@,
        decreases paths.len() - i,
    {
        if crate::text::str_equal(paths[i].as_str(), p) {
            return true;
        }
        i = i + 1;
    }
    false
}

/// Drops the slots and workspaces whose worktree Git no longer registers. `slot_paths`,
/// `workspace_paths` and `worktree_paths` are the canonical paths of the slots, of the
/// workspaces and of the registered worktrees. What recovery added is counted against an
/// empty state: every slot is counted as added, and the workspaces beyond that count.
pub fn repair_records(
    state: RepositoryState,
    slot_paths: &Vec<String>,
    workspace_paths: &Vec<String>,
    worktree_paths: &Vec<String>,
) -> (report: RepairReport)
    requires
        slot_paths@.len() == state.slots@.len(),
        workspace_paths@.len() == state.workspaces@.len(),
        state.slots@.len() + state.workspaces@.len() <= usize::MAX,
    ensures
        report.state.slots@ == registered_slots(state.slots@, slot_paths@, worktree_paths@, state.slots@.len() as int),
        report.state.workspaces@ == registered_workspaces(state.workspaces@, workspace_paths@, worktree_paths@, state.workspaces@.len() as int),
        report.state.leases@ == state.leases@,
        report.removed_broken_records == state.slots@.len() + state.workspaces@.len() - report.state.slots@.len()
            - report.state.workspaces@.len(),
        report.added_slots == report.state.slots@.len(),
        report.added_workspaces == if report.state.workspaces@.len() > report.state.slots@.len() {
            report.state.workspaces@.len() - report.state.slots@.len()
        } else {
            0
        },
{
    let mut state = state;
    let old_slots = state.slots.len();
    let old_workspaces = state.workspaces.len();
    let ghost slots = state.slots@;
    let ghost ws = state.workspaces@;
    let mut kept_slots: Vec<WorkspaceSlot> = Vec::new();
    let mut rest: Vec<WorkspaceSlot> = Vec::new();
    std::mem::swap(&mut rest, &mut state.slots);
    let mut i: usize = 0;
    while rest.len() > 0
        invariant
            i <= slots.len(),
            slots.len() == old_slots,
            slot_paths@.len() == slots.len(),
            rest@ == slots.skip(i as int),
            rest@.len() == slots.len() - i,
            kept_slots@ == registered_slots(slots, slot_paths@, worktree_paths@, i as int),
            kept_slots@.len() <= i,
        decreases rest.len(),
    {
        let s = rest.remove(0);
        assert(s == slots[i as int]);
        assert(rest@ =~= slots.skip(i + 1));
        if is_registered(worktree_paths, slot_paths[i].as_str()) {
            kept_slots.push(s);
        }
        i = i + 1;
    }
    let mut kept_ws: Vec<WorkspaceRecord> = Vec::new();
    let mut rest: Vec<WorkspaceRecord> = Vec::new();
    std::mem::swap(&mut rest, &mut state.workspaces);
    let mut i: usize = 0;
    while rest.len() > 0
        invariant
            i <= ws.len(),
            ws.len() == old_workspaces,
            workspace_paths@.len() == ws.len(),
            rest@ == ws.skip(i as int),
            rest@.len() == ws.len() - i,
            kept_ws@ == registered_workspaces(ws, workspace_paths@, worktree_paths@, i as int),
            kept_ws@.len() <= i,
        decreases rest.len(),
    {
        let w = rest.remove(0);
        assert(w == ws[i as int]);
        assert(rest@ =~= ws.skip(i + 1));
        if is_registered(worktree_paths, workspace_paths[i].as_str()) {
            kept_ws.push(w);
        }
        i = i + 1;
    }
    let removed_broken_records = (old_slots - kept_slots.len()) + (old_workspaces - kept_ws.len());
    let added_slots = kept_slots.len();
    let added_workspaces = if kept_ws.len() > added_slots {
        kept_ws.len() - added_slots
    } else {
        0
    };
    state.slots = kept_slots;
    state.workspaces = kept_ws;
    RepairReport { added_slots, added_workspaces, removed_broken_records, state }
}

/// Idle slot `j` ranks ahead of idle slot `i` in garbage collection's newest-first order: it
/// was used later, or at the same time and comes first.
pub open spec fn ranks_ahead(slots: Seq<WorkspaceSlot>, j: int, i: int) -> bool {
    ||| seq_less(slots[i].last_used_at@, slots[j].last_used_at@)
    ||| (slots[j].last_used_at@ == slots[i].last_used_at@ && j < i)
}

pub open spec fn idle(slots: Seq<WorkspaceSlot>, i: int) -> bool {
    slots[i].status == WorkspaceStatus::Idle
}

/// How many of the first `n` idle slots rank ahead of slot `i`.
pub open spec fn rank_among(slots: Seq<WorkspaceSlot>, i: int, n: int) -> nat
    decreases n,
{
    if n <= 0 {
        0
    } else {
        rank_among(slots, i, n - 1) + if idle(slots, n - 1) && ranks_ahead(slots, n - 1, i) { 1nat } else { 0nat }
    }
}

/// Idle slot `i` is among the `max_slots` newest idle slots.
pub open spec fn retained_slot(slots: Seq<WorkspaceSlot>, max_slots: nat, i: int) -> bool {
    idle(slots, i) && rank_among(slots, i, slots.len() as int) < max_slots
}

/// Garbage collection takes idle slot `i` when no retained slot has its id, or when it has been
/// idle longer than the retention period (`age` milliseconds against `retention_ms`).
pub open spec fn collectable(slots: Seq<WorkspaceSlot>, max_slots: nat, age: u128, retention_ms: u128, i: int) -> bool {
    &&& idle(slots, i)
    &&& (!(exists|j: int| 0 <= j < slots.len() && #[trigger] retained_slot(slots, max_slots, j) && slots[j].id@ == slots[i].id@)
        || age > retention_ms)
}

/// The retention period in milliseconds.
pub open spec fn retention_millis(days: u64) -> u128 {
    (days * 86400000) as u128
}

/// `r` is what garbage collection removes given each slot's age: every collectable slot,
/// once, newest first.
pub open spec fn gc_selection(slots: Seq<WorkspaceSlot>, max_slots: usize, retention_days: u64, ages: Seq<u128>, r: Seq<usize>) -> bool {
    &&& forall|t: int| 0 <= t < r.len() ==> (#[trigger] r[t]) < slots.len() && collectable(
        slots,
        max_slots as nat,
        ages[r[t] as int],
        retention_millis(retention_days),
        r[t] as int,
    )
    &&& forall|i: int| 0 <= i < slots.len() && #[trigger] collectable(slots, max_slots as nat, ages[i], retention_millis(retention_days), i)
        ==> r.contains(i as usize)
    &&& forall|t: int, u: int| 0 <= t < u < r.len() ==> ranks_ahead(slots, #[trigger] r[t] as int, #[trigger] r[u] as int)
}

/// Each of `ages` is the age of the slot's last use at some instant.
pub open spec fn ages_of(slots: Seq<WorkspaceSlot>, ages: Seq<u128>) -> bool {
    &&& ages.len() == slots.len()
    &&& forall|i: int| 0 <= i < slots.len() ==> age_at_some_time(slots[i].last_used_at@, #[trigger] ages[i])
}

fn count_ahead(slots: &Vec<WorkspaceSlot>, i: usize) -> (n: usize)
    requires
        i < slots@.len(),
    ensures
        n == rank_among(slots@, i as int, slots@.len() as int),
{
    let mut n: usize = 0;
    let mut j: usize = 0;
    while j < slots.len()
        invariant
            j <= slots@.len(),
            i < slots@.len(),
            n == rank_among(slots@, i as int, j as int),
            n <= j,
        decreases slots.len() - j,
    {
        if slots[j].status == WorkspaceStatus::Idle {
            let later = str_less(slots[i].last_used_at.as_str(), slots[j].last_used_at.as_str());
            let tie = crate::text::str_equal(slots[j].last_used_at.as_str(), slots[i].last_used_at.as_str()) && j < i;
            if later || tie {
                n = n + 1;
            }
        }
        j = j + 1;
    }
    n
}

/// The idle slots garbage collection removes, newest first (ties in slot order). The
/// `max_slots` newest idle slots are retained unless idle for longer than `retention_days`;
/// `ages[i]` is how long slot `i` has been unused, in milliseconds.
pub fn gc_candidates(slots: &Vec<WorkspaceSlot>, max_slots: usize, retention_days: u64, ages: &Vec<u128>) -> (r: Vec<usize>)
    requires
        ages@.len() == slots@.len(),
    ensures
        gc_selection(slots@, max_slots, retention_days, ages@, r@),
{
    let ghost s = slots@;
    let retention_ms: u128 = retention_days as u128 * 86400000u128;
    let mut retained: Vec<bool> = Vec::new();
    let mut i: usize = 0;
    while i < slots.len()
        invariant
            i <= s.len(),
            s == slots@,
            retained@.len() == i,
            forall|t: int| 0 <= t < i ==> retained@[t] == retained_slot(s, max_slots as nat, t),
        decreases slots.len() - i,
    {
        let keep = slots[i].status == WorkspaceStatus::Idle && count_ahead(slots, i) < max_slots;
        retained.push(keep);
        i = i + 1;
    }
    let mut r: Vec<usize> = Vec::new();
    let mut i: usize = 0;
    while i < slots.len()
        invariant
            i <= s.len(),
            s == slots@,
            ages@.len() == s.len(),
            retention_ms == retention_millis(retention_days),
            retained@.len() == s.len(),
            forall|t: int| 0 <= t < s.len() ==> retained@[t] == retained_slot(s, max_slots as nat, t),
            forall|t: int| 0 <= t < r@.len() ==> (#[trigger] r@[t]) < i && collectable(
                s,
                max_slots as nat,
                ages@[r@[t] as int],
                retention_ms,
                r@[t] as int,
            ),
            forall|k: int| 0 <= k < i && #[trigger] collectable(s, max_slots as nat, ages@[k], retention_ms, k) ==> r@.contains(k as usize),
            forall|t: int, u: int| 0 <= t < u < r@.len() ==> ranks_ahead(s, #[trigger] r@[t] as int, #[trigger] r@[u] as int),
        decreases slots.len() - i,
    {
        let mut kept_by_id = false;
        let mut j: usize = 0;
        while j < slots.len()
            invariant
                j <= s.len(),
                i < s.len(),
                s == slots@,
                retained@.len() == s.len(),
                forall|t: int| 0 <= t < s.len() ==> retained@[t] == retained_slot(s, max_slots as nat, t),
                kept_by_id == exists|t: int| 0 <= t < j && #[trigger] retained_slot(s, max_slots as nat, t) && s[t].id@ == s[i as int].id@,
            decreases slots.len() - j,
        {
            if retained[j] && crate::text::str_equal(slots[j].id.as_str(), slots[i].id.as_str()) {
                kept_by_id = true;
            }
            j = j + 1;
        }
        let take = slots[i].status == WorkspaceStatus::Idle && (!kept_by_id || ages[i] > retention_ms);
        assert(take == collectable(s, max_slots as nat, ages@[i as int], retention_ms, i as int));
        if take {
            let mut k: usize = 0;
            while k < r.len() && !str_less(slots[r[k]].last_used_at.as_str(), slots[i].last_used_at.as_str())
                invariant
                    k <= r@.len(),
                    i < s.len(),
                    s == slots@,
                    forall|t: int| 0 <= t < r@.len() ==> (#[trigger] r@[t]) < i,
                    forall|t: int| 0 <= t < k ==> !seq_less(s[r@[t] as int].last_used_at@, #[trigger] s[i as int].last_used_at@),
                decreases r.len() - k,
            {
                k = k + 1;
            }
            let ghost before = r@;
            r.insert(k, i);
            proof {
                let after = r@;
                assert(after =~= before.insert(k as int, i));
                assert forall|t: int, u: int| 0 <= t < u < after.len() implies ranks_ahead(s, #[trigger] after[t] as int, #[trigger] after[u] as int) by {
                    let (x, y) = (after[t] as int, after[u] as int);
                    if u < k {
                        assert(after[t] == before[t] && after[u] == before[u]);
                    } else if u == k {
                        assert(after[t] == before[t]);
                        lemma_less_total(s[x].last_used_at@, s[i as int].last_used_at@);
                    } else if t < k {
                        assert(after[t] == before[t] && after[u] == before[u - 1]);
                    } else if t == k {
                        assert(after[u] == before[u - 1]);
                        let rk = before[k as int] as int;
                        assert(seq_less(s[rk].last_used_at@, s[i as int].last_used_at@));
                        if u - 1 > k {
                            assert(ranks_ahead(s, rk, y));
                            lemma_less_transitive(s[y].last_used_at@, s[rk].last_used_at@, s[i as int].last_used_at@);
                        }
                    } else {
                        assert(after[t] == before[t - 1] && after[u] == before[u - 1]);
                    }
                }
                assert forall|kk: int| 0 <= kk < i + 1 && #[trigger] collectable(s, max_slots as nat, ages@[kk], retention_ms, kk)
                    implies after.contains(kk as usize) by {
                    if kk < i {
                        let t = choose|t: int| 0 <= t < before.len() && before[t] == kk as usize;
                        if t < k {
                            assert(after[t] == kk as usize);
                        } else {
                            assert(after[t + 1] == kk as usize);
                        }
                    } else {
                        assert(after[k as int] == i);
                    }
                }
                assert forall|t: int| 0 <= t < after.len() implies (#[trigger] after[t]) < i + 1 && collectable(
                    s,
                    max_slots as nat,
                    ages@[after[t] as int],
                    retention_ms,
                    after[t] as int,
                ) by {
                    if t < k {
                        assert(after[t] == before[t]);
                    } else if t > k {
                        assert(after[t] == before[t - 1]);
                    }
                }
            }
        }
        i = i + 1;
    }
    r
}

/// The slots garbage collection would remove now: `gc_candidates` with each slot's age taken
/// from the clock.
pub fn gc_plan(slots: &Vec<WorkspaceSlot>, config: &AcreConfig) -> (r: Vec<usize>)
    ensures
        exists|ages: Seq<u128>| ages_of(slots@, ages) && #[trigger] gc_selection(
            slots@,
            config.pool.max_slots,
            config.pool.idle_retention_days,
            ages,
            r@,
        ),
{
    let mut ages: Vec<u128> = Vec::new();
    let mut i: usize = 0;
    while i < slots.len()
        invariant
            i <= slots@.len(),
            ages@.len() == i,
            forall|t: int| 0 <= t < i ==> age_at_some_time(slots@[t].last_used_at@, #[trigger] ages@[t]),
        decreases slots.len() - i,
    {
        let age = age_millis(slots[i].last_used_at.as_str());
        let ghost before = ages@;
        ages.push(age);
        assert forall|t: int| 0 <= t < i + 1 implies age_at_some_time(slots@[t].last_used_at@, #[trigger] ages@[t]) by {
            if t < i {
                assert(ages@[t] == before[t]);
            }
        }
        i = i + 1;
    }
    let r = gc_candidates(slots, config.pool.max_slots, config.pool.idle_retention_days, &ages);
    assert(ages_of(slots@, ages@));
    assert(gc_selection(slots@, config.pool.max_slots, config.pool.idle_retention_days, ages@, r@));
    r
}

/// The slots whose id is none of `ids`, in order.
pub open spec fn slots_not_in(slots: Seq<WorkspaceSlot>, ids: Seq<Seq<char>>) -> Seq<WorkspaceSlot>
    decreases slots.len(),
{
    if slots.len() == 0 {
        Seq::empty()
    } else if ids.contains(slots.last().id@) {
        slots_not_in(slots.drop_last(), ids)
    } else {
        slots_not_in(slots.drop_last(), ids).push(slots.last())
    }
}

/// Forgets the slots garbage collection removed.
pub fn forget_removed(state: &mut RepositoryState, removed: &Vec<WorkspaceSlot>)
    ensures
        final(state).slots@ == slots_not_in(old(state).slots@, removed@.map_values(|s: WorkspaceSlot| s.id@)),
        final(state).workspaces@ == old(state).workspaces@,
        final(state).leases@ == old(state).leases@,
        final(state).schema_version == old(state).schema_version,
        final(state).repository_id == old(state).repository_id,
        final(state).repository_common_dir == old(state).repository_common_dir,
        final(state).repository_name == old(state).repository_name,
        final(state).updated_at == old(state).updated_at,
{
    let ghost ids = removed@.map_values(|s: WorkspaceSlot| s.id@);
    let ghost all = state.slots@;
    let mut kept: Vec<WorkspaceSlot> = Vec::new();
    let mut rest: Vec<WorkspaceSlot> = Vec::new();
    assert(all.len() == state.slots.len());
    std::mem::swap(&mut rest, &mut state.slots);
    let mut i: usize = 0;
    while rest.len() > 0
        invariant
            i <= all.len(),
            all.len() <= usize::MAX,
            rest@ == all.skip(i as int),
            rest@.len() == all.len() - i,
            ids == removed@.map_values(|s: WorkspaceSlot| s.id@),
            kept@ == slots_not_in(all.take(i as int), ids),
        decreases rest.len(),
    {
        let s = rest.remove(0);
        assert(s == all[i as int]);
        assert(rest@ =~= all.skip(i + 1));
        assert(all.take(i + 1).drop_last() =~= all.take(i as int));
        let mut found = false;
        let mut j: usize = 0;
        while j < removed.len()
            invariant
                j <= removed@.len(),
                ids == removed@.map_values(|s: WorkspaceSlot| s.id@),
                found == exists|t: int| 0 <= t < j && removed@[t].id@ == s.id@,
            decreases removed.len() - j,
        {
            if crate::text::str_equal(removed[j].id.as_str(), s.id.as_str()) {
                found = true;
            }
            j = j + 1;
        }
        assert(found == ids.contains(s.id@)) by {
            if found {
                let t = choose|t: int| 0 <= t < removed@.len() && removed@[t].id@ == s.id@;
                assert(ids[t] == s.id@);
            }
            if ids.contains(s.id@) {
                let t = choose|t: int| 0 <= t < ids.len() && ids[t] == s.id@;
                assert(removed@[t].id@ == s.id@);
            }
        }
        if !found {
            kept.push(s);
        }
        i = i + 1;
    }
    assert(all.take(all.len() as int) =~= all);
    state.slots = kept;
}


/// Garbage collection never removes a slot with work in it: a dirty slot is left alone with
/// the reason `slot is dirty`; a clean one is removed.
pub fn gc_dirty_skip(slot: WorkspaceSlot, dirty: bool) -> (r: Result<WorkspaceSlot, GcSkipped>)
    ensures
        !dirty ==> r == Ok::<WorkspaceSlot, GcSkipped>(slot),
        dirty ==> (r matches Err(s) && s.slot == slot && s.reason@ == "slot is dirty"@),
{
    if dirty {
        Err(GcSkipped { slot, reason: String::from_str("slot is dirty") })
    } else {
        Ok(slot)
    }
}

} // verus!
