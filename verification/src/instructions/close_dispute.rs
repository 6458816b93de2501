//! Closing a dispute.

use crate::error::InputError;
use crate::state::dispute::{Dispute, DisputeStatus};
use vstd::prelude::*;

verus! {

/// Closes the dispute at `now` with its verdict, if it can be closed: after
/// the grace period when no case was submitted, after voting when it never
/// opened, after the reveal period otherwise.
pub fn close_dispute(dispute: &mut Dispute, now: i64) -> (res: Result<(), InputError>)
    requires
        old(dispute).wf(),
    ensures
        final(dispute).wf(),
        old(dispute).status.steps_to(final(dispute).status),
        match res {
            Ok(()) => old(dispute).closable(now) && *final(dispute) == old(dispute).with_status(
                DisputeStatus::Concluded { winner: old(dispute).verdict() },
            ),
            Err(e) => !old(dispute).closable(now) && e == InputError::DisputeNotFinalizable
                && *final(dispute) == *old(dispute),
        },
{
    dispute.can_close(now)
}

} // verus!
