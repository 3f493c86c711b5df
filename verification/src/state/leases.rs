//! Leases: who is using a workspace. A session holds at most one lease per workspace and
//! holder; `done` refuses while another holder remains.

use vstd::prelude::*;

use crate::error::{AcreError, EXIT_NOT_FOUND};
use crate::git::refs::opt_view;
use crate::model::{RepositoryState, WorkspaceLease};
use crate::util::{now_iso, random_id};

verus! {

#[derive(Debug, Clone)]
pub struct AcquireLease {
    pub workspace_id: String,
    pub holder: String,
    pub pid: Option<u32>,
    pub session_id: Option<String>,
}

/// A lease, as text.
pub struct LeaseView {
    pub id: Seq<char>,
    pub workspace_id: Seq<char>,
    pub holder: Seq<char>,
    pub pid: Option<u32>,
    pub session_id: Option<Seq<char>>,
    pub acquired_at: Seq<char>,
    pub updated_at: Seq<char>,
}

pub open spec fn lease_view(l: WorkspaceLease) -> LeaseView {
    LeaseView {
        id: l.id@,
        workspace_id: l.workspace_id@,
        holder: l.holder@,
        pid: l.pid,
        session_id: opt_view(l.session_id),
        acquired_at: l.acquired_at@,
        updated_at: l.updated_at@,
    }
}

pub open spec fn leases_view(ls: Seq<WorkspaceLease>) -> Seq<LeaseView> {
    ls.map_values(|l: WorkspaceLease| lease_view(l))
}

/// A request for a lease, as text.
pub struct RequestView {
    pub workspace_id: Seq<char>,
    pub holder: Seq<char>,
    pub pid: Option<u32>,
    pub session_id: Option<Seq<char>>,
}

pub open spec fn request_view(input: AcquireLease) -> RequestView {
    RequestView {
        workspace_id: input.workspace_id@,
        holder: input.holder@,
        pid: input.pid,
        session_id: opt_view(input.session_id),
    }
}

/// `l` is the lease a session already holds for this request: same workspace, same holder,
/// same session. A request without a session never reuses a lease.
pub open spec fn reusable_for(l: LeaseView, r: RequestView) -> bool {
    &&& r.session_id is Some
    &&& l.workspace_id == r.workspace_id
    &&& l.holder == r.holder
    &&& l.session_id == r.session_id
}

/// The first lease from `i` on that the request can reuse.
pub open spec fn reusable_from(ls: Seq<LeaseView>, r: RequestView, i: int) -> Option<int>
    decreases ls.len() - i,
{
    if i < 0 || i >= ls.len() {
        None
    } else if reusable_for(ls[i], r) {
        Some(i)
    } else {
        reusable_from(ls, r, i + 1)
    }
}

/// The leases after a request and the lease it gets: the session's existing lease refreshed
/// (a new pid replaces the old one, and it is stamped `now`), or a new lease with `new_id`.
pub open spec fn acquire_spec(ls: Seq<LeaseView>, r: RequestView, now: Seq<char>, new_id: Seq<char>) -> (
    Seq<LeaseView>,
    LeaseView,
) {
    match reusable_from(ls, r, 0) {
        Some(k) => {
            let refreshed = LeaseView {
                pid: if r.pid is Some {
                    r.pid
                } else {
                    ls[k].pid
                },
                updated_at: now,
                ..ls[k]
            };
            (ls.update(k, refreshed), refreshed)
        },
        None => {
            let fresh = LeaseView {
                id: new_id,
                workspace_id: r.workspace_id,
                holder: r.holder,
                pid: r.pid,
                session_id: r.session_id,
                acquired_at: now,
                updated_at: now,
            };
            (ls.push(fresh), fresh)
        },
    }
}

/// Everything in the state but its leases is unchanged.
pub open spec fn same_but_leases(a: RepositoryState, b: RepositoryState) -> bool {
    &&& a.schema_version == b.schema_version
    &&& a.repository_id == b.repository_id
    &&& a.repository_common_dir == b.repository_common_dir
    &&& a.repository_name == b.repository_name
    &&& a.updated_at == b.updated_at
    &&& a.slots@ == b.slots@
    &&& a.workspaces@ == b.workspaces@
}

fn same_text(a: &Option<String>, b: &Option<String>) -> (r: bool)
    ensures
        r == (opt_view(*a) == opt_view(*b)),
{
    match (a, b) {
        (Some(x), Some(y)) => crate::text::str_equal(x.as_str(), y.as_str()),
        (None, None) => true,
        _ => false,
    }
}

/// A copy of `l`.
pub fn clone_lease(l: &WorkspaceLease) -> (r: WorkspaceLease)
    ensures
        r == *l,
{
    WorkspaceLease {
        id: l.id.clone(),
        workspace_id: l.workspace_id.clone(),
        holder: l.holder.clone(),
        pid: l.pid,
        session_id: match &l.session_id {
            Some(s) => Some(s.clone()),
            None => None,
        },
        acquired_at: l.acquired_at.clone(),
        updated_at: l.updated_at.clone(),
    }
}

/// Grants `input` a lease stamped `now`: the session's existing lease for the same workspace
/// and holder is refreshed, otherwise a new lease with id `new_id` is added.
pub fn acquire_lease_at(state: &mut RepositoryState, input: AcquireLease, now: String, new_id: String) -> (
    lease: WorkspaceLease)
    ensures
        (leases_view(final(state).leases@), lease_view(lease)) == acquire_spec(
            leases_view(old(state).leases@),
            request_view(input),
            now@,
            new_id@,
        ),
        same_but_leases(*final(state), *old(state)),
{
    let ghost ls = leases_view(state.leases@);
    let ghost r = request_view(input);
    let mut found: Option<usize> = None;
    if input.session_id.is_some() {
        let mut i: usize = 0;
        while found.is_none() && i < state.leases.len()
            invariant
                i <= state.leases@.len(),
                ls == leases_view(state.leases@),
                r == request_view(input),
                r.session_id is Some,
                found is None ==> reusable_from(ls, r, 0) == reusable_from(ls, r, i as int),
                found matches Some(k) ==> k < state.leases@.len() && reusable_from(ls, r, 0) == Some(
                    k as int,
                ),
            decreases state.leases.len() - i,
        {
            let l = &state.leases[i];
            if crate::text::str_equal(l.workspace_id.as_str(), input.workspace_id.as_str())
                && crate::text::str_equal(l.holder.as_str(), input.holder.as_str()) && same_text(
                &l.session_id,
                &input.session_id,
            ) {
                found = Some(i);
            }
            i = i + 1;
        }
    }
    proof {
        if input.session_id.is_none() {
            assert(forall|j: int| 0 <= j < ls.len() ==> !reusable_for(#[trigger] ls[j], r));
            lemma_no_reusable(ls, r, 0);
        }
    }
    match found {
        Some(k) => {
            let mut refreshed = clone_lease(&state.leases[k]);
            if input.pid.is_some() {
                refreshed.pid = input.pid;
            }
            refreshed.updated_at = now;
            let result = clone_lease(&refreshed);
            state.leases[k] = refreshed;
            assert(leases_view(state.leases@) =~= ls.update(k as int, lease_view(result)));
            result
        },
        None => {
            let lease = WorkspaceLease {
                id: new_id,
                workspace_id: input.workspace_id,
                holder: input.holder,
                pid: input.pid,
                session_id: input.session_id,
                acquired_at: now.clone(),
                updated_at: now,
            };
            let result = clone_lease(&lease);
            state.leases.push(lease);
            assert(leases_view(state.leases@) =~= ls.push(lease_view(result)));
            result
        },
    }
}

proof fn lemma_no_reusable(ls: Seq<LeaseView>, r: RequestView, i: int)
    requires
        0 <= i,
        forall|j: int| 0 <= j < ls.len() ==> !reusable_for(#[trigger] ls[j], r),
    ensures
        reusable_from(ls, r, i) is None,
    decreases ls.len() - i,
{
    if i < ls.len() {
        lemma_no_reusable(ls, r, i + 1);
    }
}

/// Grants `input` a lease stamped with the current time; a new lease gets a fresh random id.
/// Which time and id those are is not determined by the inputs, so the contract holds for
/// some stamp and some id.
pub fn acquire_lease(state: &mut RepositoryState, input: AcquireLease) -> (lease: WorkspaceLease)
    ensures
        exists|now: Seq<char>, new_id: Seq<char>|
            crate::util::is_millis_stamp(now) && new_id.len() == 32 && (forall|i: int|
                0 <= i < 32 ==> crate::util::is_hex_digit(#[trigger] new_id[i]))
            && (leases_view(final(state).leases@), lease_view(lease)) == #[trigger] acquire_spec(
                leases_view(old(state).leases@),
                request_view(input),
                now,
                new_id,
            ),
        same_but_leases(*final(state), *old(state)),
{
    let now = now_iso();
    let id = random_id();
    let ghost (n, d) = (now@, id@);
    let lease = acquire_lease_at(state, input, now, id);
    assert((leases_view(state.leases@), lease_view(lease)) == acquire_spec(
        leases_view(old(state).leases@),
        request_view(input),
        n,
        d,
    ));
    lease
}

/// The position of the first lease with id `lease_id`.
pub open spec fn lease_position(ls: Seq<LeaseView>, lease_id: Seq<char>, i: int) -> Option<int>
    decreases ls.len() - i,
{
    if i < 0 || i >= ls.len() {
        None
    } else if ls[i].id == lease_id {
        Some(i)
    } else {
        lease_position(ls, lease_id, i + 1)
    }
}

/// Removes and returns the lease with id `lease_id`; an unknown id is an error and changes
/// nothing.
pub fn release_lease(state: &mut RepositoryState, lease_id: &str) -> (r: Result<WorkspaceLease, AcreError>)
    ensures
        match lease_position(leases_view(old(state).leases@), lease_id@, 0) {
            Some(k) => r matches Ok(l) && lease_view(l) == leases_view(old(state).leases@)[k]
                && leases_view(final(state).leases@) == leases_view(old(state).leases@).remove(k),
            None => r matches Err(e) && e.code == "ACRE_LEASE_NOT_FOUND" && e.exit_code
                == EXIT_NOT_FOUND && final(state).leases@ == old(state).leases@
                && crate::error::detail_text(e.details@, "leaseId"@) == Some(lease_id@),
        },
        same_but_leases(*final(state), *old(state)),
{
    let ghost ls = leases_view(state.leases@);
    let mut i: usize = 0;
    while i < state.leases.len()
        invariant
            i <= state.leases@.len(),
            ls == leases_view(state.leases@),
            ls == leases_view(old(state).leases@),
            lease_position(ls, lease_id@, 0) == lease_position(ls, lease_id@, i as int),
            *state == *old(state),
        decreases state.leases.len() - i,
    {
        if crate::text::str_equal(state.leases[i].id.as_str(), lease_id) {
            let l = state.leases.remove(i);
            assert(leases_view(state.leases@) =~= ls.remove(i as int));
            return Ok(l);
        }
        i = i + 1;
    }
    let e = AcreError::new("ACRE_LEASE_NOT_FOUND", "That Acre lease no longer exists.", EXIT_NOT_FOUND).with_text("leaseId", lease_id);
    assert(e.details@.drop_first().len() == 0);
    Err(e)
}

/// A lease survives a session's release unless it belongs to that session and, when a
/// workspace is named, to that workspace.
pub open spec fn survives_session_release(
    l: LeaseView,
    session_id: Seq<char>,
    workspace_id: Option<Seq<char>>,
) -> bool {
    l.session_id != Some(session_id) || (workspace_id matches Some(w) && w != l.workspace_id)
}

pub open spec fn kept_leases(
    ls: Seq<LeaseView>,
    session_id: Seq<char>,
    workspace_id: Option<Seq<char>>,
) -> Seq<LeaseView>
    decreases ls.len(),
{
    if ls.len() == 0 {
        Seq::empty()
    } else if survives_session_release(ls.last(), session_id, workspace_id) {
        kept_leases(ls.drop_last(), session_id, workspace_id).push(ls.last())
    } else {
        kept_leases(ls.drop_last(), session_id, workspace_id)
    }
}

/// Drops the leases that `session_id` holds (only on `workspace_id`, when one is given); the
/// rest keep their order.
pub fn release_session_lease(state: &mut RepositoryState, session_id: &str, workspace_id: Option<&str>)
    ensures
        leases_view(final(state).leases@) == kept_leases(
            leases_view(old(state).leases@),
            session_id@,
            match workspace_id {
                Some(w) => Some(w@),
                None => None,
            },
        ),
        same_but_leases(*final(state), *old(state)),
{
    let ghost ls = leases_view(state.leases@);
    let ghost w = match workspace_id {
        Some(w) => Some(w@),
        None => None::<Seq<char>>,
    };
    let mut kept: Vec<WorkspaceLease> = Vec::new();
    let mut i: usize = 0;
    while i < state.leases.len()
        invariant
            i <= state.leases@.len(),
            ls == leases_view(state.leases@),
            w == match workspace_id {
                Some(w) => Some(w@),
                None => None::<Seq<char>>,
            },
            leases_view(kept@) == kept_leases(ls.take(i as int), session_id@, w),
        decreases state.leases.len() - i,
    {
        let l = &state.leases[i];
        let same_session = match &l.session_id {
            Some(s) => crate::text::str_equal(s.as_str(), session_id),
            None => false,
        };
        let other_workspace = match workspace_id {
            Some(wid) => !crate::text::str_equal(wid, l.workspace_id.as_str()),
            None => false,
        };
        proof {
            assert(ls.take(i + 1).drop_last() =~= ls.take(i as int));
            assert(ls.take(i + 1).last() == lease_view(*l));
        }
        if !same_session || other_workspace {
            let ghost before = kept@;
            kept.push(clone_lease(l));
            assert(leases_view(kept@) =~= leases_view(before).push(lease_view(*l)));
        }
        i = i + 1;
    }
    assert(ls.take(ls.len() as int) =~= ls);
    state.leases = kept;
}

/// Asking twice with the same session gives the same lease and no second one: the second
/// request refreshes what the first granted.
pub proof fn law_session_acquire_is_idempotent(
    ls: Seq<LeaseView>,
    r: RequestView,
    first_now: Seq<char>,
    first_id: Seq<char>,
    second_now: Seq<char>,
    second_id: Seq<char>,
)
    requires
        r.session_id is Some,
    ensures
        ({
            let (after_first, granted) = acquire_spec(ls, r, first_now, first_id);
            let (after_second, again) = acquire_spec(after_first, r, second_now, second_id);
            &&& after_second.len() == after_first.len()
            &&& again.id == granted.id
            &&& again.acquired_at == granted.acquired_at
        }),
{
    let (after_first, granted) = acquire_spec(ls, r, first_now, first_id);
    match reusable_from(ls, r, 0) {
        Some(k) => {
            lemma_reusable_from_finds(ls, r, 0);
            lemma_reusable_update(ls, r, 0, k, after_first[k]);
        },
        None => {
            lemma_reusable_from_finds(ls, r, 0);
            lemma_reusable_push(ls, r, 0, granted);
        },
    }
}

pub proof fn lemma_reusable_from_finds(ls: Seq<LeaseView>, r: RequestView, i: int)
    requires
        0 <= i,
    ensures
        reusable_from(ls, r, i) matches Some(k) ==> i <= k < ls.len() && reusable_for(ls[k], r)
            && forall|j: int| i <= j < k ==> !reusable_for(#[trigger] ls[j], r),
        reusable_from(ls, r, i) is None ==> forall|j: int|
            i <= j < ls.len() ==> !reusable_for(#[trigger] ls[j], r),
    decreases ls.len() - i,
{
    if i < ls.len() {
        lemma_reusable_from_finds(ls, r, i + 1);
    }
}

/// Refreshing the first reusable lease keeps it the first reusable lease.
proof fn lemma_reusable_update(ls: Seq<LeaseView>, r: RequestView, i: int, k: int, l: LeaseView)
    requires
        0 <= i <= k < ls.len(),
        forall|j: int| i <= j < k ==> !reusable_for(#[trigger] ls[j], r),
        reusable_for(l, r),
    ensures
        reusable_from(ls.update(k, l), r, i) == Some(k),
    decreases k - i,
{
    if i < k {
        lemma_reusable_update(ls, r, i + 1, k, l);
    }
}

/// A request that found nothing to reuse finds the lease it was just granted.
proof fn lemma_reusable_push(ls: Seq<LeaseView>, r: RequestView, i: int, l: LeaseView)
    requires
        0 <= i <= ls.len(),
        forall|j: int| i <= j < ls.len() ==> !reusable_for(#[trigger] ls[j], r),
        reusable_for(l, r),
    ensures
        reusable_from(ls.push(l), r, i) == Some(ls.len() as int),
    decreases ls.len() - i,
{
    if i < ls.len() {
        lemma_reusable_push(ls, r, i + 1, l);
    }
}

/// After a session releases, it holds no lease (on the named workspace, when one is named),
/// and every lease it did not hold is still there.
pub proof fn law_session_release_is_complete(
    ls: Seq<LeaseView>,
    session_id: Seq<char>,
    workspace_id: Option<Seq<char>>,
)
    ensures
        forall|i: int|
            0 <= i < kept_leases(ls, session_id, workspace_id).len()
                ==> survives_session_release(
                #[trigger] kept_leases(ls, session_id, workspace_id)[i],
                session_id,
                workspace_id,
            ),
        forall|i: int|
            0 <= i < ls.len() && survives_session_release(#[trigger] ls[i], session_id, workspace_id)
                ==> kept_leases(ls, session_id, workspace_id).contains(ls[i]),
    decreases ls.len(),
{
    if ls.len() > 0 {
        law_session_release_is_complete(ls.drop_last(), session_id, workspace_id);
        let prev = kept_leases(ls.drop_last(), session_id, workspace_id);
        let cur = kept_leases(ls, session_id, workspace_id);
        assert forall|i: int|
            0 <= i < ls.len() && survives_session_release(#[trigger] ls[i], session_id, workspace_id)
                implies cur.contains(ls[i]) by {
            if i < ls.len() - 1 {
                assert(ls.drop_last()[i] == ls[i]);
                let j = choose|j: int| 0 <= j < prev.len() && prev[j] == ls[i];
                if survives_session_release(ls.last(), session_id, workspace_id) {
                    assert(cur[j] == ls[i]);
                }
            } else {
                assert(cur[cur.len() - 1] == ls[i]);
            }
        }
    }
}

} // verus!
