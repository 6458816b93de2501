use agora_court::error::InputError;
use agora_court::instructions::{
    claim, close_dispute, initialize_case, initialize_court, initialize_dispute,
    initialize_record, interact, reveal_vote, select_vote,
};
use agora_court::pubkey::Pubkey;
use agora_court::settlement::{pool_share, Settlement, Standing};
use agora_court::state::{
    Court, Dispute, DisputeConfiguration, DisputeRecord, TokenAccounts, Transfer, Vote,
    VoterRecord,
};

fn key(byte: u8) -> Pubkey {
    Pubkey::new_from_array([byte; 32])
}

fn commitment(candidate: &Pubkey, salt: &String) -> [u8; 32] {
    anchor_lang::solana_program::keccak::hashv(&[&candidate.to_bytes(), salt.as_bytes()]).to_bytes()
}

fn court() -> Court {
    initialize_court(key(250), key(251), key(252), Some(key(253)), 5, 1)
}

fn accounts() -> TokenAccounts {
    TokenAccounts {
        rep_mint: key(252),
        rep_account: true,
        pay_account: true,
        pay_vault: true,
        pay_mint: Some(key(253)),
    }
}

fn config() -> DisputeConfiguration {
    DisputeConfiguration {
        grace_ends_at: 100,
        init_cases_ends_at: 200,
        voting_ends_at: 300,
        dispute_ends_at: 400,
        voter_rep_required: 0,
        voter_rep_cost: 10,
        rep_cost: 20,
        pay_cost: 30,
        min_votes: 1,
        protocol_pay: 7,
        protocol_rep: 9,
    }
}

struct Played {
    court: Court,
    dispute: Dispute,
    parties: Vec<VoterRecord>,
    voters: Vec<VoterRecord>,
}

fn play(config: DisputeConfiguration, votes: &[Option<u8>], close_at: i64) -> Played {
    let mut court = court();
    let (mut dispute, _) = initialize_dispute(
        &mut court,
        &key(251),
        vec![None, None, Some(key(9))],
        config,
        0,
        0,
        &accounts(),
    )
    .unwrap();
    let mut parties = Vec::new();
    for user in [1u8, 2u8] {
        let mut record = initialize_record(0);
        interact(&mut dispute, &mut record, &court, key(user), 0, 10, &accounts()).unwrap();
        parties.push(record);
    }
    for user in [1u8, 2u8] {
        initialize_case(&mut dispute, &key(user), "evidence".to_string(), 0, 150).unwrap();
    }
    let mut voters = Vec::new();
    for vote in votes {
        let mut record = initialize_record(0);
        let backed = vote.unwrap_or(1);
        let hash = commitment(&key(backed), &"salt".to_string());
        select_vote(&mut dispute, &mut record, &court, 0, hash, 0, 250, &accounts()).unwrap();
        voters.push(record);
    }
    for (i, vote) in votes.iter().enumerate() {
        if let Some(backed) = vote {
            reveal_vote(&mut dispute, &mut voters[i], key(*backed), &"salt".to_string(), 0, 350)
                .unwrap();
        }
    }
    close_dispute(&mut dispute, close_at).unwrap();
    Played { court, dispute, parties, voters }
}

fn paid(standing: Standing, rep: u64, pay: u64) -> Result<Settlement, InputError> {
    Ok(Settlement { standing, payout: Transfer { rep, pay } })
}

#[test]
fn the_winning_party_gets_its_stake_back() {
    let mut played = play(config(), &[Some(1), None, None], 401);
    let record = &mut played.parties[0];
    assert_eq!((record.currently_staked_rep, record.currently_staked_pay), (20, 30));
    assert_eq!(
        claim(&played.dispute, record, &played.court, &key(1), 0, &accounts()),
        paid(Standing::WinningParty, 20, 30)
    );
    assert!(record.claim_queue.is_empty());
    assert_eq!((record.currently_staked_rep, record.currently_staked_pay), (0, 0));
}

#[test]
fn a_losing_party_forfeits_its_stake() {
    let mut played = play(config(), &[Some(1), None, None], 401);
    let record = &mut played.parties[1];
    assert_eq!(
        claim(&played.dispute, record, &played.court, &key(2), 0, &accounts()),
        paid(Standing::LosingParty, 0, 0)
    );
    assert!(record.claim_queue.is_empty());
    assert_eq!((record.currently_staked_rep, record.currently_staked_pay), (0, 0));
}

#[test]
fn the_only_winning_voter_takes_the_whole_pool() {
    let mut played = play(config(), &[Some(1), None, None], 401);
    let record = &mut played.voters[0];
    assert_eq!(
        claim(&played.dispute, record, &played.court, &key(101), 0, &accounts()),
        paid(Standing::WinningVoter, 10 + 20 + 9, 30 + 7)
    );
    assert!(record.claim_queue.is_empty());
    assert_eq!(record.currently_staked_rep, 0);
}

#[test]
fn a_voter_who_never_revealed_forfeits_the_stake() {
    let mut played = play(config(), &[Some(1), None, None], 401);
    let record = &mut played.voters[1];
    assert_eq!(
        claim(&played.dispute, record, &played.court, &key(102), 0, &accounts()),
        paid(Standing::LosingVoter, 0, 0)
    );
    assert!(record.claim_queue.is_empty());
    assert_eq!(record.currently_staked_rep, 0);
}

#[test]
fn winning_voters_share_the_pool_equally() {
    let mut played = play(config(), &[Some(2), Some(1), Some(2)], 401);
    assert_eq!(played.dispute.votes, vec![1, 2, 0]);
    for voter in [0usize, 2] {
        assert_eq!(
            claim(
                &played.dispute,
                &mut played.voters[voter],
                &played.court,
                &key(100),
                0,
                &accounts()
            ),
            paid(Standing::WinningVoter, 10 + (20 + 10 + 9) / 2, (30 + 7) / 2)
        );
    }
    assert_eq!(
        claim(&played.dispute, &mut played.voters[1], &played.court, &key(100), 0, &accounts()),
        paid(Standing::LosingVoter, 0, 0)
    );
    assert_eq!(
        claim(&played.dispute, &mut played.parties[1], &played.court, &key(2), 0, &accounts()),
        paid(Standing::WinningParty, 20, 30)
    );
    assert_eq!(
        claim(&played.dispute, &mut played.parties[0], &played.court, &key(1), 0, &accounts()),
        paid(Standing::LosingParty, 0, 0)
    );
}

#[test]
fn no_more_is_paid_than_was_staked_and_seeded() {
    let mut played = play(config(), &[Some(2), Some(1), Some(2), Some(2), None], 401);
    let staked_rep = 2 * 20 + 5 * 10;
    let staked_pay = 2 * 30;
    let mut paid_rep = 0;
    let mut paid_pay = 0;
    for (user, record) in [1u8, 2u8].iter().zip(played.parties.iter_mut()) {
        let settlement =
            claim(&played.dispute, record, &played.court, &key(*user), 0, &accounts()).unwrap();
        paid_rep += settlement.payout.rep;
        paid_pay += settlement.payout.pay;
    }
    for record in played.voters.iter_mut() {
        let settlement =
            claim(&played.dispute, record, &played.court, &key(100), 0, &accounts()).unwrap();
        paid_rep += settlement.payout.rep;
        paid_pay += settlement.payout.pay;
    }
    assert_eq!(paid_rep, 20 + 3 * (10 + (20 + 10 + 9) / 3));
    assert_eq!(paid_pay, 30 + 3 * ((30 + 7) / 3));
    assert!(paid_rep <= staked_rep + 9);
    assert!(paid_pay <= staked_pay + 7);
}

#[test]
fn everyone_is_refunded_when_nobody_wins() {
    let mut played = play(config(), &[Some(1), Some(2)], 401);
    assert_eq!(played.dispute.votes, vec![1, 1, 0]);
    for (user, record) in [1u8, 2u8].iter().zip(played.parties.iter_mut()) {
        assert_eq!(
            claim(&played.dispute, record, &played.court, &key(*user), 0, &accounts()),
            paid(Standing::RefundedParty, 20, 30)
        );
        assert_eq!((record.currently_staked_rep, record.currently_staked_pay), (0, 0));
    }
    for record in played.voters.iter_mut() {
        assert_eq!(
            claim(&played.dispute, record, &played.court, &key(100), 0, &accounts()),
            paid(Standing::RefundedVoter, 10, 0)
        );
        assert_eq!(record.currently_staked_rep, 0);
    }
}

#[test]
fn a_reserved_seat_that_never_staked_is_no_party() {
    let played = play(config(), &[Some(1)], 401);
    assert!(!played.dispute.holds_stake(&key(9)));
    assert!(played.dispute.holds_stake(&key(2)));
    assert_eq!(
        played.dispute.settle(&key(9), &Vote::Reveal { key: key(1) }).map(|s| s.standing),
        Ok(Standing::WinningVoter)
    );
    assert_eq!(
        played.dispute.settle(&key(9), &Vote::Reveal { key: key(2) }).map(|s| s.standing),
        Ok(Standing::LosingVoter)
    );
}

#[test]
fn only_the_head_of_the_queue_is_claimed() {
    let played = play(config(), &[Some(1)], 401);
    let mut record = initialize_record(0);
    let entry = |dispute_id, dispute_end_time| DisputeRecord {
        dispute_id,
        dispute_end_time,
        user_voted_for: Vote::Reveal { key: key(1) },
    };
    assert_eq!(
        claim(&played.dispute, &mut record, &played.court, &key(1), 0, &accounts()),
        Err(InputError::CannotClaimDispute)
    );
    record.push(entry(0, 400), 5).unwrap();
    record.push(entry(5, 300), 5).unwrap();
    let before = record.clone();
    assert_eq!(
        claim(&played.dispute, &mut record, &played.court, &key(1), 0, &accounts()),
        Err(InputError::CannotClaimDispute)
    );
    assert_eq!(record, before);
    record.pop();
    assert!(claim(&played.dispute, &mut record, &played.court, &key(1), 0, &accounts()).is_ok());
}

#[test]
fn a_dispute_is_claimed_once() {
    let mut played = play(config(), &[Some(1)], 401);
    let record = &mut played.parties[0];
    claim(&played.dispute, record, &played.court, &key(1), 0, &accounts()).unwrap();
    assert_eq!(
        claim(&played.dispute, record, &played.court, &key(1), 0, &accounts()),
        Err(InputError::CannotClaimDispute)
    );
}

#[test]
fn an_open_dispute_cannot_be_claimed() {
    let mut court = court();
    let (mut dispute, _) =
        initialize_dispute(&mut court, &key(251), vec![None], config(), 0, 0, &accounts())
            .unwrap();
    let mut record = initialize_record(0);
    interact(&mut dispute, &mut record, &court, key(1), 0, 10, &accounts()).unwrap();
    let before = record.clone();
    assert_eq!(
        claim(&dispute, &mut record, &court, &key(1), 0, &accounts()),
        Err(InputError::DisputeNotClaimable)
    );
    assert_eq!(record, before);
    assert_eq!(
        dispute.settle(&key(1), &Vote::Reveal { key: key(1) }),
        Err(InputError::DisputeNotClaimable)
    );
}

#[test]
fn a_dispute_closed_early_refunds_at_once() {
    let mut court = court();
    let (mut dispute, _) =
        initialize_dispute(&mut court, &key(251), vec![None, None], config(), 0, 0, &accounts())
            .unwrap();
    let mut record = initialize_record(0);
    interact(&mut dispute, &mut record, &court, key(1), 0, 10, &accounts()).unwrap();
    close_dispute(&mut dispute, 101).unwrap();
    assert_eq!(
        claim(&dispute, &mut record, &court, &key(1), 0, &accounts()),
        paid(Standing::RefundedParty, 20, 30)
    );
}

#[test]
fn a_payout_needs_its_accounts() {
    let mut played = play(config(), &[Some(1)], 401);
    let record = &mut played.parties[0];
    let before = record.clone();
    let missing = TokenAccounts { rep_account: false, ..accounts() };
    assert_eq!(
        claim(&played.dispute, record, &played.court, &key(1), 0, &missing),
        Err(InputError::ReputationAtaMissing)
    );
    let missing = TokenAccounts { pay_account: false, ..accounts() };
    assert_eq!(
        claim(&played.dispute, record, &played.court, &key(1), 0, &missing),
        Err(InputError::PaymentAtaMissing)
    );
    let wrong = TokenAccounts { pay_mint: Some(key(3)), ..accounts() };
    assert_eq!(
        claim(&played.dispute, record, &played.court, &key(1), 0, &wrong),
        Err(InputError::ProtocolMintMismatch)
    );
    let wrong = TokenAccounts { rep_mint: key(3), ..accounts() };
    assert_eq!(
        claim(&played.dispute, record, &played.court, &key(1), 0, &wrong),
        Err(InputError::ReputationMintMismatch)
    );
    assert_eq!(*record, before);
}

#[test]
fn a_forfeit_needs_no_accounts() {
    let mut played = play(config(), &[Some(1)], 401);
    let none = TokenAccounts {
        rep_mint: key(252),
        rep_account: false,
        pay_account: false,
        pay_vault: false,
        pay_mint: None,
    };
    assert_eq!(
        claim(&played.dispute, &mut played.parties[1], &played.court, &key(2), 0, &none),
        paid(Standing::LosingParty, 0, 0)
    );
}

#[test]
fn a_share_is_the_pool_divided_and_rounded_down() {
    assert_eq!(pool_share(1, 20, 0, 10, 9, 1), 29);
    assert_eq!(pool_share(1, 20, 1, 10, 9, 2), 19);
    assert_eq!(pool_share(3, 7, 2, 5, 1, 4), 8);
    assert_eq!(pool_share(0, 0, 0, 0, 0, 3), 0);
    assert_eq!(pool_share(0, 0, 0, 0, 2, 3), 0);
}

#[test]
fn a_share_stops_at_the_largest_amount() {
    assert_eq!(pool_share(u64::MAX, u64::MAX, 0, 0, 0, 1), u64::MAX);
    assert_eq!(pool_share(u64::MAX, u64::MAX, u64::MAX, u64::MAX, u64::MAX, u64::MAX), u64::MAX);
    assert_eq!(pool_share(u64::MAX, u64::MAX, 0, 0, 0, u64::MAX), u64::MAX);
    assert_eq!(pool_share(u64::MAX, 1, 0, 0, 0, 2), u64::MAX / 2);
    assert_eq!(pool_share(u64::MAX, 2, 0, 0, 1, 2), u64::MAX);
    assert_eq!(pool_share(u64::MAX, 2, 0, 0, 0, 3), 12297829382473034410);
}

#[test]
fn a_large_stake_and_share_stop_at_the_largest_amount() {
    let mut rich = config();
    rich.voter_rep_cost = u64::MAX;
    rich.rep_cost = u64::MAX;
    let mut played = play(rich, &[Some(1)], 401);
    assert_eq!(
        claim(&played.dispute, &mut played.voters[0], &played.court, &key(100), 0, &accounts()),
        paid(Standing::WinningVoter, u64::MAX, 37)
    );
}
