//! Opening a dispute.

use crate::error::InputError;
use crate::pubkey::Pubkey;
use crate::state::court::{Court, TokenAccounts, Transfer};
use crate::state::dispute::{Dispute, DisputeConfiguration, DisputeStatus, MAX_SEATS};
use crate::state::tally::{lemma_count_true_none, lemma_total_zero};
use vstd::prelude::*;

verus! {

/// Why `protocol` cannot open a dispute at `now`, if it cannot: it is not
/// the court's protocol, the reputation mint is not the court's, the
/// deadlines are not strictly increasing from a time yet to come, there is
/// no seat, or what the protocol adds to the pool cannot be moved.
pub open spec fn opening_refusal(
    court: &Court,
    protocol: Pubkey,
    seats: nat,
    config: &DisputeConfiguration,
    now: i64,
    accounts: &TokenAccounts,
) -> Option<InputError> {
    if protocol != court.protocol {
        Some(InputError::InvalidProtocol)
    } else if accounts.rep_mint != court.rep_mint {
        Some(InputError::ReputationMintMismatch)
    } else if now >= config.grace_ends_at || !config.deadlines_ordered() {
        Some(InputError::InvalidEndTime)
    } else if seats == 0 {
        Some(InputError::UsersEmpty)
    } else {
        court.transfer_refusal(accounts, config.protocol_rep, config.protocol_pay)
    }
}

/// Opens a dispute over the given seats in its grace period. The dispute's
/// identifier is the court's count of disputes before the call. Returns the
/// dispute and what the protocol is to move into its vaults.
pub fn initialize_dispute(
    court: &mut Court,
    protocol: &Pubkey,
    users: Vec<Option<Pubkey>>,
    config: DisputeConfiguration,
    bump: u8,
    now: i64,
    accounts: &TokenAccounts,
) -> (res: Result<(Dispute, Transfer), InputError>)
    requires
        users@.len() <= MAX_SEATS,
        old(court).num_disputes < u64::MAX,
    ensures
        match res {
            Ok((dispute, seed)) => {
                &&& opening_refusal(old(court), *protocol, users@.len(), &config, now, accounts)
                    is None
                &&& dispute.wf()
                &&& dispute.users == users
                &&& forall|i: int|
                    0 <= i < users@.len() ==> dispute.votes@[i] == 0 && !dispute.staked@[i]
                        && !dispute.has_case@[i]
                &&& dispute.status == DisputeStatus::Grace
                &&& dispute.interactions == 0
                &&& dispute.submitted_cases == 0
                &&& dispute.config == config
                &&& dispute.bump == bump
                &&& seed == (Transfer { rep: config.protocol_rep, pay: config.protocol_pay })
                &&& *final(court) == (Court {
                    num_disputes: (old(court).num_disputes + 1) as u64,
                    ..*old(court)
                })
            },
            Err(e) => opening_refusal(old(court), *protocol, users@.len(), &config, now, accounts)
                == Some(e) && *final(court) == *old(court),
        },
{
    if *protocol != court.protocol {
        return Err(InputError::InvalidProtocol);
    }
    if !court.accepts_rep_mint(accounts) {
        return Err(InputError::ReputationMintMismatch);
    }
    if now >= config.grace_ends_at || !config.has_ordered_deadlines() {
        return Err(InputError::InvalidEndTime);
    }
    if users.len() == 0 {
        return Err(InputError::UsersEmpty);
    }
    let seed = match court.check_transfer(accounts, config.protocol_rep, config.protocol_pay) {
        Ok(seed) => seed,
        Err(e) => {
            return Err(e);
        },
    };
    let len = users.len();
    let dispute = Dispute {
        users,
        votes: vec![0; len],
        staked: vec![false; len],
        has_case: vec![false; len],
        status: DisputeStatus::Grace,
        interactions: 0,
        submitted_cases: 0,
        config,
        bump,
    };
    proof {
        lemma_count_true_none(dispute.staked@);
        lemma_count_true_none(dispute.has_case@);
        lemma_total_zero(dispute.votes@);
    }
    court.num_disputes = court.num_disputes + 1;
    Ok((dispute, seed))
}

} // verus!
