//! What state a workspace's environment is in.

use vstd::prelude::*;

use crate::environment::fingerprint::EnvironmentPlan;
use crate::environment::roots::{within_root, IgnoredLayout};
use crate::model::{CloneMode, EnvironmentSnapshot, EnvironmentState};
use crate::text::clone_strings;

verus! {

/// Some directory in `present` matches `root` at some depth.
pub open spec fn root_present(present: Seq<String>, root: Seq<char>) -> bool {
    exists|i: int| 0 <= i < present.len() && within_root(#[trigger] present[i]@, root)
}

/// Ready when the plan manages no caches, or names required roots and all of them are
/// present; warm when some cache root is present; cold otherwise.
pub open spec fn environment_state(plan: EnvironmentPlan, present: Seq<String>) -> EnvironmentState {
    if plan.cache_roots@.len() == 0 || (plan.required_roots@.len() > 0 && forall|j: int|
        0 <= j < plan.required_roots@.len() ==> root_present(present, (#[trigger] plan.required_roots@[j])@)) {
        EnvironmentState::Ready
    } else if present.len() > 0 {
        EnvironmentState::Warm
    } else {
        EnvironmentState::Cold
    }
}

/// The snapshot of an environment whose ignored data is laid out as `layout`, for `plan`. No
/// caches were cloned into it.
pub fn inspect_environment(plan: &EnvironmentPlan, layout: IgnoredLayout) -> (snapshot: EnvironmentSnapshot)
    ensures
        snapshot.fingerprint == plan.fingerprint,
        snapshot.state == environment_state(*plan, layout.cache_roots@),
        snapshot.cache_roots@ == plan.cache_roots@,
        snapshot.required_roots@ == plan.required_roots@,
        snapshot.present_roots@ == layout.cache_roots@,
        snapshot.source is None,
        snapshot.cloned_files is None,
        snapshot.cloned_bytes is None,
        snapshot.clone_mode == Some(CloneMode::NotCloned),
{
    let mut all_required = true;
    let mut j: usize = 0;
    while j < plan.required_roots.len()
        invariant
            j <= plan.required_roots@.len(),
            all_required == forall|k: int|
                0 <= k < j ==> root_present(layout.cache_roots@, (#[trigger] plan.required_roots@[k])@),
        decreases plan.required_roots.len() - j,
    {
        if !layout.has_cache_root(plan.required_roots[j].as_str()) {
            all_required = false;
        }
        j = j + 1;
    }
    let state = if plan.cache_roots.len() == 0 || (plan.required_roots.len() > 0 && all_required) {
        EnvironmentState::Ready
    } else if layout.cache_roots.len() > 0 {
        EnvironmentState::Warm
    } else {
        EnvironmentState::Cold
    };
    EnvironmentSnapshot {
        fingerprint: plan.fingerprint.clone(),
        state,
        cache_roots: clone_strings(&plan.cache_roots),
        required_roots: clone_strings(&plan.required_roots),
        present_roots: layout.cache_roots,
        source: None,
        cloned_files: None,
        cloned_bytes: None,
        clone_mode: Some(CloneMode::NotCloned),
    }
}

} // verus!
