//! Submitting a case.

use crate::error::InputError;
use crate::pubkey::Pubkey;
use crate::state::case::Case;
use crate::state::dispute::{first_match, Dispute};
use vstd::prelude::*;

verus! {

/// Submits `payer`'s case at `now`. The payer must hold a seat they staked
/// for and must not have submitted a case before, and submission must be
/// open. Returns the seat, which identifies the case, and the case to store.
pub fn initialize_case(
    dispute: &mut Dispute,
    payer: &Pubkey,
    evidence: String,
    bump: u8,
    now: i64,
) -> (res: Result<(usize, Case), InputError>)
    requires
        old(dispute).wf(),
    ensures
        final(dispute).wf(),
        old(dispute).status.steps_to(final(dispute).status),
        match res {
            Ok((case_id, case)) => {
                &&& old(dispute).case_refusal(*payer, now) is None
                &&& case_id == first_match(old(dispute).users@, *payer, 0)
                &&& final(dispute).registers(old(dispute), case_id as int)
                &&& case.evidence == evidence
                &&& case.bump == bump
            },
            Err(e) => old(dispute).case_refusal(*payer, now) == Some(e) && *final(dispute)
                == *old(dispute),
        },
{
    match dispute.register_case(payer, now) {
        Ok(case_id) => Ok((case_id, Case { evidence, bump })),
        Err(e) => Err(e),
    }
}

} // verus!
