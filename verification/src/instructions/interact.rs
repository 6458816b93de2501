//! Taking a seat in a dispute during its grace period.

use crate::error::InputError;
use crate::pubkey::Pubkey;
use crate::state::court::{Court, TokenAccounts, Transfer};
use crate::state::dispute::{seat_for, Dispute};
use crate::state::voter_record::{DisputeRecord, Vote, VoterRecord};
use vstd::prelude::*;

verus! {

/// The queue entry of a party: it records the party's own seat as the case
/// backed, so that the party cannot vote in the dispute as well.
pub open spec fn party_entry(dispute: &Dispute, user: Pubkey, dispute_id: u64) -> DisputeRecord {
    DisputeRecord {
        dispute_id,
        dispute_end_time: dispute.config.dispute_ends_at,
        user_voted_for: Vote::Reveal { key: user },
    }
}

/// Why `user` cannot take a seat at `now`, if they cannot. The ledger is
/// asked first: a participant with a matured dispute to claim, a full queue
/// or an entry for this dispute opens no new engagement. Then the mint, the
/// seat, and the accounts for the stake.
pub open spec fn interact_refusal(
    dispute: &Dispute,
    record: &VoterRecord,
    court: &Court,
    user: Pubkey,
    dispute_id: u64,
    now: i64,
    accounts: &TokenAccounts,
) -> Option<InputError> {
    if record.refusal(dispute_id, now, court.max_dispute_votes) is Some {
        record.refusal(dispute_id, now, court.max_dispute_votes)
    } else if accounts.rep_mint != court.rep_mint {
        Some(InputError::ReputationMintMismatch)
    } else if dispute.seat_refusal(user, now) is Some {
        dispute.seat_refusal(user, now)
    } else {
        court.transfer_refusal(accounts, dispute.config.rep_cost, dispute.config.pay_cost)
    }
}

/// Seats `user` in the dispute at `now`: they take the first seat reserved
/// for them, else the first vacant one, stake what a party stakes, and their
/// ledger gets an entry for the dispute. Returns what is to be moved from the
/// user into the dispute's vaults.
pub fn interact(
    dispute: &mut Dispute,
    record: &mut VoterRecord,
    court: &Court,
    user: Pubkey,
    dispute_id: u64,
    now: i64,
    accounts: &TokenAccounts,
) -> (res: Result<Transfer, InputError>)
    requires
        old(dispute).wf(),
        old(record).wf(),
    ensures
        final(dispute).wf(),
        final(record).wf(),
        old(dispute).status.steps_to(final(dispute).status),
        old(record).has_matured(now) ==> res == Err::<Transfer, InputError>(
            InputError::HasUnclaimedDisputes,
        ),
        match res {
            Ok(stake) => {
                &&& interact_refusal(
                    old(dispute),
                    old(record),
                    court,
                    user,
                    dispute_id,
                    now,
                    accounts,
                ) is None
                &&& stake == (Transfer {
                    rep: old(dispute).config.rep_cost,
                    pay: old(dispute).config.pay_cost,
                })
                &&& final(dispute).seats(old(dispute), user, seat_for(old(dispute).users@, user))
                &&& final(record).queues(old(record), party_entry(old(dispute), user, dispute_id))
                &&& final(record).escrows_more(old(record), stake.rep, stake.pay)
            },
            Err(e) => {
                &&& interact_refusal(
                    old(dispute),
                    old(record),
                    court,
                    user,
                    dispute_id,
                    now,
                    accounts,
                ) == Some(e)
                &&& *final(dispute) == *old(dispute)
                &&& *final(record) == *old(record)
            },
        },
{
    match record.admission(dispute_id, now, court.max_dispute_votes) {
        Some(e) => {
            return Err(e);
        },
        None => {},
    }
    if !court.accepts_rep_mint(accounts) {
        return Err(InputError::ReputationMintMismatch);
    }
    match dispute.find_seat(&user, now) {
        Ok(_) => {},
        Err(e) => {
            return Err(e);
        },
    }
    let stake = match court.check_transfer(
        accounts,
        dispute.config.rep_cost,
        dispute.config.pay_cost,
    ) {
        Ok(stake) => stake,
        Err(e) => {
            return Err(e);
        },
    };
    let entry = DisputeRecord {
        dispute_id,
        dispute_end_time: dispute.config.dispute_ends_at,
        user_voted_for: Vote::Reveal { key: user },
    };
    let seated = dispute.take_seat(user, now);
    let queued = record.engage(entry, now, court.max_dispute_votes);
    assert(seated is Ok && queued is Ok);
    record.stake(stake.rep, stake.pay);
    Ok(stake)
}

} // verus!
