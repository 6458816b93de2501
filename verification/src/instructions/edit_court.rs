//! Editing a court.

use crate::error::InputError;
use crate::pubkey::Pubkey;
use crate::state::court::Court;
use vstd::prelude::*;

verus! {

/// Hands the court to a new authority and protocol with new mints and a new
/// queue bound, on behalf of `authority`, who must be the court's edit
/// authority.
pub fn edit_court(
    court: &mut Court,
    authority: &Pubkey,
    max_dispute_votes: u16,
    transfer_authority: Pubkey,
    transfer_protocol: Pubkey,
    rep_mint: Pubkey,
    pay_mint: Option<Pubkey>,
) -> (res: Result<(), InputError>)
    ensures
        match res {
            Ok(()) => old(court).edit_authority == *authority && *final(court) == old(court).edited(
                max_dispute_votes,
                transfer_authority,
                transfer_protocol,
                rep_mint,
                pay_mint,
            ),
            Err(e) => old(court).edit_authority != *authority && e
                == InputError::InvalidEditAuthority && *final(court) == *old(court),
        },
{
    if court.edit_authority != *authority {
        return Err(InputError::InvalidEditAuthority);
    }
    court.edit(max_dispute_votes, transfer_authority, transfer_protocol, rep_mint, &pay_mint);
    Ok(())
}

} // verus!
