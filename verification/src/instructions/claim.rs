//! Claiming a concluded dispute.

use crate::error::InputError;
use crate::pubkey::Pubkey;
use crate::settlement::{Settlement, Standing};
use crate::state::court::{Court, TokenAccounts};
use crate::state::dispute::Dispute;
use crate::state::voter_record::{holds, VoterRecord};
use vstd::prelude::*;

verus! {

/// Why `user` cannot claim dispute `dispute_id`, if they cannot: it is not
/// the dispute at the head of their queue, the reputation mint is not the
/// court's, the dispute is not concluded, or what they are paid cannot be
/// moved.
pub open spec fn claim_refusal(
    dispute: &Dispute,
    record: &VoterRecord,
    court: &Court,
    user: Pubkey,
    dispute_id: u64,
    accounts: &TokenAccounts,
) -> Option<InputError> {
    if !(record.head() matches Some(entry) && entry.dispute_id == dispute_id) {
        Some(InputError::CannotClaimDispute)
    } else if accounts.rep_mint != court.rep_mint {
        Some(InputError::ReputationMintMismatch)
    } else if !(dispute.status is Concluded) {
        Some(InputError::DisputeNotClaimable)
    } else {
        let payout = dispute.payout_of(
            dispute.standing_of(user, record.head()->0.user_voted_for),
        );
        court.transfer_refusal(accounts, payout.rep, payout.pay)
    }
}

/// Settles `user`'s exposure to the concluded dispute `dispute_id`, which
/// must be at the head of their queue: the entry leaves the queue, what they
/// staked leaves their escrow, and they are paid by their standing. Returns
/// the standing and what is to be moved from the dispute's vaults to the
/// user.
pub fn claim(
    dispute: &Dispute,
    record: &mut VoterRecord,
    court: &Court,
    user: &Pubkey,
    dispute_id: u64,
    accounts: &TokenAccounts,
) -> (res: Result<Settlement, InputError>)
    requires
        dispute.wf(),
        old(record).wf(),
    ensures
        final(record).wf(),
        match res {
            Ok(settlement) => {
                let entry = old(record).head()->0;
                let stake = dispute.stake_of(settlement.standing);
                &&& claim_refusal(dispute, old(record), court, *user, dispute_id, accounts) is None
                &&& settlement.standing == dispute.standing_of(*user, entry.user_voted_for)
                &&& settlement.payout == dispute.payout_of(settlement.standing)
                &&& final(record).claim_queue@ == old(record).claim_queue@.drop_last()
                &&& !holds(final(record).claim_queue@, dispute_id)
                &&& final(record).escrows_less(old(record), stake.rep, stake.pay)
            },
            Err(e) => claim_refusal(dispute, old(record), court, *user, dispute_id, accounts)
                == Some(e) && *final(record) == *old(record),
        },
{
    let vote = match record.peek() {
        Some(entry) => {
            if entry.dispute_id != dispute_id {
                return Err(InputError::CannotClaimDispute);
            }
            entry.user_voted_for
        },
        None => {
            return Err(InputError::CannotClaimDispute);
        },
    };
    if !court.accepts_rep_mint(accounts) {
        return Err(InputError::ReputationMintMismatch);
    }
    let settlement = match dispute.settle(user, &vote) {
        Ok(settlement) => settlement,
        Err(e) => {
            return Err(e);
        },
    };
    match court.check_transfer(accounts, settlement.payout.rep, settlement.payout.pay) {
        Ok(_) => {},
        Err(e) => {
            return Err(e);
        },
    }
    record.pop();
    match settlement.standing {
        Standing::WinningParty | Standing::LosingParty | Standing::RefundedParty => {
            record.release(dispute.config.rep_cost, dispute.config.pay_cost);
        },
        _ => {
            record.release(dispute.config.voter_rep_cost, 0);
        },
    }
    Ok(settlement)
}

} // verus!
