use agora_court::error::InputError;
use agora_court::instructions::{
    edit_court, initialize_case, initialize_court, initialize_dispute, initialize_record,
    interact,
};
use agora_court::pubkey::Pubkey;
use agora_court::state::{
    Case, Court, Dispute, DisputeConfiguration, DisputeRecord, DisputeStatus, TokenAccounts,
    Vote,
};

fn key(byte: u8) -> Pubkey {
    Pubkey::new_from_array([byte; 32])
}

fn court(max_dispute_votes: u16) -> Court {
    initialize_court(key(250), key(251), key(252), Some(key(253)), max_dispute_votes, 1)
}

fn accounts() -> TokenAccounts {
    TokenAccounts {
        rep_mint: key(252),
        rep_account: true,
        pay_account: true,
        pay_vault: true,
        pay_mint: Some(key(253)),
    }
}

fn config() -> DisputeConfiguration {
    DisputeConfiguration {
        grace_ends_at: 100,
        init_cases_ends_at: 200,
        voting_ends_at: 300,
        dispute_ends_at: 400,
        voter_rep_required: 0,
        voter_rep_cost: 10,
        rep_cost: 20,
        pay_cost: 30,
        min_votes: 1,
        protocol_pay: 0,
        protocol_rep: 0,
    }
}

fn open(court: &mut Court, seats: Vec<Option<Pubkey>>) -> Dispute {
    initialize_dispute(court, &key(251), seats, config(), 0, 0, &accounts()).unwrap().0
}

#[test]
fn a_court_starts_without_disputes() {
    let court = court(5);
    assert_eq!(
        court,
        Court {
            edit_authority: key(250),
            protocol: key(251),
            rep_mint: key(252),
            pay_mint: Some(key(253)),
            num_disputes: 0,
            max_dispute_votes: 5,
            bump: 1,
        }
    );
}

#[test]
fn the_edit_authority_edits_the_court() {
    let mut court = court(5);
    open(&mut court, vec![None]);
    assert_eq!(edit_court(&mut court, &key(250), 9, key(1), key(2), key(3), None), Ok(()));
    assert_eq!(
        court,
        Court {
            edit_authority: key(1),
            protocol: key(2),
            rep_mint: key(3),
            pay_mint: None,
            num_disputes: 1,
            max_dispute_votes: 9,
            bump: 1,
        }
    );
}

#[test]
fn nobody_else_edits_the_court() {
    let mut court = court(5);
    let before = court;
    assert_eq!(
        edit_court(&mut court, &key(251), 9, key(1), key(2), key(3), None),
        Err(InputError::InvalidEditAuthority)
    );
    assert_eq!(court, before);
}

#[test]
fn a_party_takes_the_first_vacant_seat_and_stakes() {
    let mut court = court(5);
    let mut dispute = open(&mut court, vec![Some(key(9)), None, None]);
    let mut record = initialize_record(4);
    let stake = interact(&mut dispute, &mut record, &court, key(1), 0, 10, &accounts()).unwrap();
    assert_eq!((stake.rep, stake.pay), (20, 30));
    assert_eq!(dispute.users, vec![Some(key(9)), Some(key(1)), None]);
    assert_eq!(dispute.staked, vec![false, true, false]);
    assert_eq!(dispute.interactions, 1);
    assert_eq!(dispute.status, DisputeStatus::Grace);
    assert_eq!(
        record.claim_queue,
        vec![DisputeRecord {
            dispute_id: 0,
            dispute_end_time: 400,
            user_voted_for: Vote::Reveal { key: key(1) },
        }]
    );
    assert_eq!((record.currently_staked_rep, record.currently_staked_pay), (20, 30));
    assert_eq!(record.bump, 4);
}

#[test]
fn a_party_takes_the_seat_reserved_for_them() {
    let mut court = court(5);
    let mut dispute = open(&mut court, vec![None, Some(key(9)), None]);
    let mut record = initialize_record(0);
    interact(&mut dispute, &mut record, &court, key(9), 0, 10, &accounts()).unwrap();
    assert_eq!(dispute.users, vec![None, Some(key(9)), None]);
    assert_eq!(dispute.staked, vec![false, true, false]);
    assert_eq!(dispute.seat_of(&key(9)), Some(1));
    assert_eq!(dispute.vacant_seat(), Some(0));
}

#[test]
fn a_stranger_finds_no_seat_when_all_are_reserved() {
    let mut court = court(5);
    let mut dispute = open(&mut court, vec![Some(key(8)), Some(key(9))]);
    let mut record = initialize_record(0);
    let before = (dispute.clone(), record.clone());
    assert_eq!(
        interact(&mut dispute, &mut record, &court, key(1), 0, 10, &accounts()),
        Err(InputError::UserNotAuthorized)
    );
    assert_eq!((dispute, record), before);
}

#[test]
fn seats_are_taken_only_in_the_grace_period() {
    let mut court = court(5);
    let mut dispute = open(&mut court, vec![None, None]);
    let mut record = initialize_record(0);
    assert_eq!(
        interact(&mut dispute, &mut record, &court, key(1), 0, 100, &accounts()),
        Err(InputError::InteractionPeriodEnded)
    );
    interact(&mut dispute, &mut record, &court, key(1), 0, 99, &accounts()).unwrap();
    dispute.can_add_case(101).unwrap();
    let mut late = initialize_record(0);
    assert_eq!(
        interact(&mut dispute, &mut late, &court, key(2), 0, 50, &accounts()),
        Err(InputError::InteractionPeriodEnded)
    );
}

#[test]
fn no_seat_is_left_when_all_have_staked() {
    let mut court = court(5);
    let mut dispute = open(&mut court, vec![None]);
    let mut first = initialize_record(0);
    interact(&mut dispute, &mut first, &court, key(1), 0, 10, &accounts()).unwrap();
    let mut second = initialize_record(0);
    assert_eq!(
        interact(&mut dispute, &mut second, &court, key(2), 0, 20, &accounts()),
        Err(InputError::InteractionsFulfilled)
    );
    assert!(second.claim_queue.is_empty());
}

#[test]
fn a_party_stakes_once() {
    let mut court = court(5);
    let mut dispute = open(&mut court, vec![None, None]);
    let mut record = initialize_record(0);
    interact(&mut dispute, &mut record, &court, key(1), 0, 10, &accounts()).unwrap();
    let before = (dispute.clone(), record.clone());
    assert_eq!(
        interact(&mut dispute, &mut record, &court, key(1), 0, 20, &accounts()),
        Err(InputError::AlreadyEngaged)
    );
    assert_eq!((dispute.clone(), record), before);
    let mut fresh = initialize_record(0);
    assert_eq!(
        interact(&mut dispute, &mut fresh, &court, key(1), 0, 20, &accounts()),
        Err(InputError::AlreadyEngaged)
    );
    assert_eq!(dispute.interactions, 1);
}

#[test]
fn a_party_with_a_matured_dispute_cannot_take_a_seat() {
    let mut court = court(5);
    let mut dispute = open(&mut court, vec![None]);
    let mut record = initialize_record(0);
    record
        .push(
            DisputeRecord {
                dispute_id: 42,
                dispute_end_time: 5,
                user_voted_for: Vote::Secret { hash: [0; 32] },
            },
            5,
        )
        .unwrap();
    let before = (dispute.clone(), record.clone());
    assert_eq!(
        interact(&mut dispute, &mut record, &court, key(1), 0, 10, &accounts()),
        Err(InputError::HasUnclaimedDisputes)
    );
    assert_eq!((dispute.clone(), record.clone()), before);
    assert!(interact(&mut dispute, &mut record, &court, key(1), 0, 5, &accounts()).is_ok());
}

#[test]
fn a_party_with_a_full_queue_cannot_take_a_seat() {
    let mut court = court(0);
    let mut dispute = open(&mut court, vec![None]);
    let mut record = initialize_record(0);
    assert_eq!(
        interact(&mut dispute, &mut record, &court, key(1), 0, 10, &accounts()),
        Err(InputError::MaxDisputesReached)
    );
}

#[test]
fn a_stake_needs_its_accounts() {
    let mut court = court(5);
    let mut dispute = open(&mut court, vec![None]);
    let mut record = initialize_record(0);
    let before = (dispute.clone(), record.clone());
    let mut missing = accounts();
    missing.rep_account = false;
    assert_eq!(
        interact(&mut dispute, &mut record, &court, key(1), 0, 10, &missing),
        Err(InputError::ReputationAtaMissing)
    );
    for broken in [
        TokenAccounts { pay_account: false, ..accounts() },
        TokenAccounts { pay_vault: false, ..accounts() },
        TokenAccounts { pay_mint: None, ..accounts() },
    ] {
        assert_eq!(
            interact(&mut dispute, &mut record, &court, key(1), 0, 10, &broken),
            Err(InputError::PaymentAtaMissing)
        );
    }
    let wrong = TokenAccounts { pay_mint: Some(key(1)), ..accounts() };
    assert_eq!(
        interact(&mut dispute, &mut record, &court, key(1), 0, 10, &wrong),
        Err(InputError::ProtocolMintMismatch)
    );
    let wrong = TokenAccounts { rep_mint: key(1), ..accounts() };
    assert_eq!(
        interact(&mut dispute, &mut record, &court, key(1), 0, 10, &wrong),
        Err(InputError::ReputationMintMismatch)
    );
    assert_eq!((dispute, record), before);
}

#[test]
fn a_court_without_payments_takes_no_payment_stake() {
    let mut court = initialize_court(key(250), key(251), key(252), None, 5, 1);
    let mut dispute = open(&mut court, vec![None]);
    let mut record = initialize_record(0);
    assert_eq!(
        interact(&mut dispute, &mut record, &court, key(1), 0, 10, &accounts()),
        Err(InputError::PaymentAtaMissing)
    );
}

#[test]
fn a_case_marks_the_seat_of_its_party() {
    let mut court = court(5);
    let mut dispute = open(&mut court, vec![None, None]);
    for user in [1u8, 2u8] {
        let mut record = initialize_record(0);
        interact(&mut dispute, &mut record, &court, key(user), 0, 10, &accounts()).unwrap();
    }
    let (case_id, case) =
        initialize_case(&mut dispute, &key(2), "it was them".to_string(), 6, 50).unwrap();
    assert_eq!(case_id, 1);
    assert_eq!(case, Case { evidence: "it was them".to_string(), bump: 6 });
    assert_eq!(dispute.has_case, vec![false, true]);
    assert_eq!(dispute.submitted_cases, 1);
    assert_eq!(dispute.status, DisputeStatus::Waiting);
    assert_eq!(dispute.case_of(&key(2)), Some(1));
    assert_eq!(dispute.case_of(&key(1)), None);
}

#[test]
fn a_party_submits_one_case() {
    let mut court = court(5);
    let mut dispute = open(&mut court, vec![None]);
    let mut record = initialize_record(0);
    interact(&mut dispute, &mut record, &court, key(1), 0, 10, &accounts()).unwrap();
    initialize_case(&mut dispute, &key(1), "first".to_string(), 0, 50).unwrap();
    let before = dispute.clone();
    assert_eq!(
        initialize_case(&mut dispute, &key(1), "second".to_string(), 0, 60).unwrap_err(),
        InputError::UserAlreadyProvidedCase
    );
    assert_eq!(dispute, before);
}

#[test]
fn a_case_needs_a_staked_seat() {
    let mut court = court(5);
    let mut dispute = open(&mut court, vec![Some(key(8)), None]);
    let mut record = initialize_record(0);
    interact(&mut dispute, &mut record, &court, key(1), 0, 10, &accounts()).unwrap();
    let before = dispute.clone();
    assert_eq!(
        initialize_case(&mut dispute, &key(8), "reserved".to_string(), 0, 150).unwrap_err(),
        InputError::UserDoesNotHaveCase
    );
    assert_eq!(
        initialize_case(&mut dispute, &key(3), "stranger".to_string(), 0, 150).unwrap_err(),
        InputError::UserDoesNotHaveCase
    );
    assert_eq!(dispute, before);
}

#[test]
fn a_case_needs_open_submission() {
    let mut court = court(5);
    let mut dispute = open(&mut court, vec![None, None]);
    let mut record = initialize_record(0);
    interact(&mut dispute, &mut record, &court, key(1), 0, 10, &accounts()).unwrap();
    let before = dispute.clone();
    assert_eq!(
        initialize_case(&mut dispute, &key(1), "early".to_string(), 0, 50).unwrap_err(),
        InputError::CasesNoLongerAccepted
    );
    assert_eq!(
        initialize_case(&mut dispute, &key(1), "late".to_string(), 0, 200).unwrap_err(),
        InputError::CasesNoLongerAccepted
    );
    assert_eq!(dispute, before);
    assert!(initialize_case(&mut dispute, &key(1), "on time".to_string(), 0, 199).is_ok());
}

#[test]
fn stored_sizes_grow_with_seats_and_evidence() {
    assert_eq!(Dispute::get_size(&vec![]), 149);
    assert_eq!(Dispute::get_size(&vec![None]), 192);
    assert_eq!(Dispute::get_size(&vec![None, Some(key(1)), None]), 278);
    assert_eq!(Case::get_size(&String::new()), 13);
    assert_eq!(Case::get_size(&"four".to_string()), 17);
    assert_eq!(Case::get_size(&"s\u{e9}same".to_string()), 20);
    assert_eq!(Court::SIZE, 148);
    assert_eq!(DisputeConfiguration::SIZE, 88);
    assert_eq!(DisputeStatus::SIZE, 34);
    assert_eq!(DisputeRecord::SIZE, 49);
}
