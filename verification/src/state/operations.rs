//! Pending two-phase operations, such as a `done` that resumes after the shell has moved.

use vstd::prelude::*;

use crate::model::PendingDoneOperation;

verus! {

/// What a stored pending operation reads as: a pending `done` only when its kind is `done`;
/// nothing once it was removed.
pub open spec fn pending_done_read(stored: Option<PendingDoneOperation>) -> Option<PendingDoneOperation> {
    match stored {
        Some(op) => if op.kind@ == "done"@ {
            Some(op)
        } else {
            None
        },
        None => None,
    }
}

/// A stored pending operation counts as a pending `done` only when its kind is `done`.
pub fn read_pending_done(stored: Option<PendingDoneOperation>) -> (r: Option<PendingDoneOperation>)
    ensures
        r == pending_done_read(stored),
{
    match stored {
        Some(op) => if crate::text::str_equal(op.kind.as_str(), "done") {
            Some(op)
        } else {
            None
        },
        None => None,
    }
}


/// A pending `done` saved and read back unchanged is the same operation, field by field; once
/// removed, nothing is pending.
pub proof fn law_saved_done_reads_back(op: PendingDoneOperation)
    requires
        op.kind@ == "done"@,
    ensures
        pending_done_read(Some(op)) == Some(op),
        pending_done_read(None) is None,
{
}

} // verus!
