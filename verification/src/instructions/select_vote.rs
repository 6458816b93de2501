//! Committing a vote.

use crate::error::InputError;
use crate::state::court::{Court, TokenAccounts, Transfer};
use crate::state::dispute::{Dispute, DisputeStatus};
use crate::state::voter_record::{DisputeRecord, Vote, VoterRecord};
use vstd::prelude::*;

verus! {

/// The queue entry of a voter who committed `commitment`.
pub open spec fn voter_entry(dispute: &Dispute, dispute_id: u64, commitment: [u8; 32])
    -> DisputeRecord {
    DisputeRecord {
        dispute_id,
        dispute_end_time: dispute.config.dispute_ends_at,
        user_voted_for: Vote::Secret { hash: commitment },
    }
}

/// Why a vote cannot be committed at `now`, if it cannot. The ledger is asked
/// first: a participant with a matured dispute to claim, a full queue or an
/// entry for this dispute opens no new engagement. Then the mint, the voting
/// period, the voter's reputation, escrowed and liquid together, and the
/// account for the stake.
pub open spec fn commit_refusal(
    dispute: &Dispute,
    record: &VoterRecord,
    court: &Court,
    dispute_id: u64,
    liquid_rep: u64,
    now: i64,
    accounts: &TokenAccounts,
) -> Option<InputError> {
    if record.refusal(dispute_id, now, court.max_dispute_votes) is Some {
        record.refusal(dispute_id, now, court.max_dispute_votes)
    } else if accounts.rep_mint != court.rep_mint {
        Some(InputError::ReputationMintMismatch)
    } else if !dispute.accepts_votes(now) {
        Some(InputError::DisputeNotVotable)
    } else if record.currently_staked_rep + liquid_rep < dispute.config.voter_rep_required {
        Some(InputError::UserDoesNotHaveEnoughReputation)
    } else {
        court.transfer_refusal(accounts, dispute.config.voter_rep_cost, 0)
    }
}

/// Commits a vote at `now`: the voter's ledger gets an entry holding the
/// commitment, and the voter stakes what a vote costs. `liquid_rep` is the
/// reputation the voter holds outside escrow. Returns what is to be moved
/// from the voter into the dispute's vault.
pub fn select_vote(
    dispute: &mut Dispute,
    record: &mut VoterRecord,
    court: &Court,
    dispute_id: u64,
    commitment: [u8; 32],
    liquid_rep: u64,
    now: i64,
    accounts: &TokenAccounts,
) -> (res: Result<Transfer, InputError>)
    requires
        old(dispute).wf(),
        old(record).wf(),
    ensures
        final(dispute).wf(),
        final(record).wf(),
        old(dispute).status.steps_to(final(dispute).status),
        old(record).has_matured(now) ==> res == Err::<Transfer, InputError>(
            InputError::HasUnclaimedDisputes,
        ),
        match res {
            Ok(stake) => {
                &&& commit_refusal(
                    old(dispute),
                    old(record),
                    court,
                    dispute_id,
                    liquid_rep,
                    now,
                    accounts,
                ) is None
                &&& stake == (Transfer { rep: old(dispute).config.voter_rep_cost, pay: 0 })
                &&& *final(dispute) == old(dispute).with_status(DisputeStatus::Voting)
                &&& final(record).queues(
                    old(record),
                    voter_entry(old(dispute), dispute_id, commitment),
                )
                &&& final(record).escrows_more(old(record), stake.rep, 0)
            },
            Err(e) => {
                &&& commit_refusal(
                    old(dispute),
                    old(record),
                    court,
                    dispute_id,
                    liquid_rep,
                    now,
                    accounts,
                ) == Some(e)
                &&& *final(dispute) == *old(dispute)
                &&& *final(record) == *old(record)
            },
        },
{
    match record.admission(dispute_id, now, court.max_dispute_votes) {
        Some(e) => {
            return Err(e);
        },
        None => {},
    }
    if !court.accepts_rep_mint(accounts) {
        return Err(InputError::ReputationMintMismatch);
    }
    if !dispute.is_accepting_votes(now) {
        return Err(InputError::DisputeNotVotable);
    }
    let enough = match record.currently_staked_rep.checked_add(liquid_rep) {
        Some(balance) => balance >= dispute.config.voter_rep_required,
        None => true,
    };
    if !enough {
        return Err(InputError::UserDoesNotHaveEnoughReputation);
    }
    let stake = match court.check_transfer(accounts, dispute.config.voter_rep_cost, 0) {
        Ok(stake) => stake,
        Err(e) => {
            return Err(e);
        },
    };
    let entry = DisputeRecord {
        dispute_id,
        dispute_end_time: dispute.config.dispute_ends_at,
        user_voted_for: Vote::Secret { hash: commitment },
    };
    let opened = dispute.can_vote(now);
    let queued = record.engage(entry, now, court.max_dispute_votes);
    assert(opened is Ok && queued is Ok);
    record.stake(stake.rep, 0);
    Ok(stake)
}

} // verus!
