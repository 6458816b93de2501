//! Opening a court.

use crate::pubkey::Pubkey;
use crate::state::court::Court;
use vstd::prelude::*;

verus! {

/// A new court without disputes.
pub fn initialize_court(
    authority: Pubkey,
    protocol: Pubkey,
    rep_mint: Pubkey,
    pay_mint: Option<Pubkey>,
    max_dispute_votes: u16,
    bump: u8,
) -> (court: Court)
    ensures
        court == (Court {
            edit_authority: authority,
            protocol,
            rep_mint,
            pay_mint,
            num_disputes: 0,
            max_dispute_votes,
            bump,
        }),
{
    Court {
        edit_authority: authority,
        protocol,
        rep_mint,
        pay_mint,
        num_disputes: 0,
        max_dispute_votes,
        bump,
    }
}

} // verus!
