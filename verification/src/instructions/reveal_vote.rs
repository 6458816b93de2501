//! Revealing a committed vote.

use crate::error::InputError;
use crate::hash::{keccak_digest, keccak_hashv};
use crate::pubkey::Pubkey;
use crate::state::dispute::{first_match, Dispute, DisputeStatus};
use crate::state::tally::total;
use crate::state::voter_record::VoterRecord;
use vstd::prelude::*;

verus! {

/// Why a vote for `candidate` cannot be revealed at `now` with `digest`, if
/// it cannot: the candidate has no case, it is not the reveal period, or the
/// digest is not the commitment stored for the dispute.
pub open spec fn reveal_refusal(
    dispute: &Dispute,
    record: &VoterRecord,
    candidate: Pubkey,
    digest: Seq<u8>,
    dispute_id: u64,
    now: i64,
) -> Option<InputError> {
    if !dispute.has_case_of(candidate) {
        Some(InputError::UserDoesNotHaveCase)
    } else if !dispute.accepts_reveals(now) {
        Some(InputError::NotRevealPeriod)
    } else if !record.opens(digest, dispute_id) {
        Some(InputError::InvalidReveal)
    } else {
        None
    }
}

/// Reveals a vote for `candidate` at `now`, given the digest of the candidate
/// and the voter's salt: the voter's entry for the dispute becomes a revealed
/// vote for the candidate, and the candidate's case gets one more vote.
pub fn tally_reveal(
    dispute: &mut Dispute,
    record: &mut VoterRecord,
    candidate: Pubkey,
    digest: &[u8; 32],
    dispute_id: u64,
    now: i64,
) -> (res: Result<(), InputError>)
    requires
        old(dispute).wf(),
        old(record).wf(),
        total(old(dispute).votes@) < u64::MAX,
    ensures
        final(dispute).wf(),
        final(record).wf(),
        old(dispute).status.steps_to(final(dispute).status),
        final(record).same_stakes(old(record)),
        match res {
            Ok(()) => {
                &&& reveal_refusal(old(dispute), old(record), candidate, digest@, dispute_id, now)
                    is None
                &&& final(dispute).tallies(
                    old(dispute),
                    first_match(old(dispute).users@, candidate, 0),
                    DisputeStatus::Reveal,
                )
                &&& total(final(dispute).votes@) == total(old(dispute).votes@) + 1
                &&& final(record).claim_queue@ == old(record).revealed(candidate, dispute_id)
            },
            Err(e) => {
                &&& reveal_refusal(old(dispute), old(record), candidate, digest@, dispute_id, now)
                    == Some(e)
                &&& *final(dispute) == *old(dispute)
                &&& *final(record) == *old(record)
            },
        },
{
    if dispute.case_of(&candidate).is_none() {
        return Err(InputError::UserDoesNotHaveCase);
    }
    if !dispute.is_accepting_reveals(now) {
        return Err(InputError::NotRevealPeriod);
    }
    match record.reveal_with(digest, candidate, dispute_id) {
        Ok(()) => {},
        Err(e) => {
            return Err(e);
        },
    }
    let opened = dispute.can_reveal(now);
    let counted = dispute.vote(candidate);
    assert(opened is Ok && counted is Ok);
    Ok(())
}

/// Reveals a vote for `candidate` at `now`. It succeeds exactly when the
/// candidate has a case, it is the reveal period, and the digest of the
/// candidate and `salt` is the commitment stored for the dispute.
pub fn reveal_vote(
    dispute: &mut Dispute,
    record: &mut VoterRecord,
    candidate: Pubkey,
    salt: &String,
    dispute_id: u64,
    now: i64,
) -> (res: Result<(), InputError>)
    requires
        old(dispute).wf(),
        old(record).wf(),
        total(old(dispute).votes@) < u64::MAX,
    ensures
        final(dispute).wf(),
        final(record).wf(),
        old(dispute).status.steps_to(final(dispute).status),
        final(record).same_stakes(old(record)),
        match res {
            Ok(()) => {
                &&& reveal_refusal(
                    old(dispute),
                    old(record),
                    candidate,
                    keccak_digest(candidate@, salt@),
                    dispute_id,
                    now,
                ) is None
                &&& final(dispute).tallies(
                    old(dispute),
                    first_match(old(dispute).users@, candidate, 0),
                    DisputeStatus::Reveal,
                )
                &&& total(final(dispute).votes@) == total(old(dispute).votes@) + 1
                &&& final(record).claim_queue@ == old(record).revealed(candidate, dispute_id)
            },
            Err(e) => {
                &&& reveal_refusal(
                    old(dispute),
                    old(record),
                    candidate,
                    keccak_digest(candidate@, salt@),
                    dispute_id,
                    now,
                ) == Some(e)
                &&& *final(dispute) == *old(dispute)
                &&& *final(record) == *old(record)
            },
        },
{
    let digest = keccak_hashv(&candidate, salt);
    tally_reveal(dispute, record, candidate, &digest, dispute_id, now)
}

} // verus!
