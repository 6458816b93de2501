//! Opening a participant's ledger.

use crate::state::voter_record::VoterRecord;
use vstd::prelude::*;

verus! {

/// A new ledger with nothing in escrow and nothing to settle.
pub fn initialize_record(bump: u8) -> (record: VoterRecord)
    ensures
        record.wf(),
        record.claim_queue@.len() == 0,
        record.currently_staked_rep == 0,
        record.currently_staked_pay == 0,
        record.bump == bump,
{
    VoterRecord {
        claim_queue: Vec::new(),
        currently_staked_rep: 0,
        currently_staked_pay: 0,
        bump,
    }
}

} // verus!
