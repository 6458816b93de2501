//! A court: the scope that owns disputes and fixes how many of them a
//! participant may be exposed to at once.

use crate::error::InputError;
use crate::pubkey::{same_key, Pubkey};
use vstd::prelude::*;

verus! {

/// One court.
#[derive(Clone, Copy, Debug, PartialEq, Eq)]
pub struct Court {
    /// Who may edit the court.
    pub edit_authority: Pubkey,
    /// Who may open disputes in the court.
    pub protocol: Pubkey,
    /// Mint of the reputation token.
    pub rep_mint: Pubkey,
    /// Mint of the payment token, if the court takes payments.
    pub pay_mint: Option<Pubkey>,
    /// Number of disputes opened so far; the next dispute's identifier.
    pub num_disputes: u64,
    /// Most entries a participant's claim queue may hold.
    pub max_dispute_votes: u16,
    /// Address seed of the stored record.
    pub bump: u8,
}

/// The token accounts a caller supplied with an operation.
#[derive(Clone, Copy, Debug, PartialEq, Eq)]
pub struct TokenAccounts {
    /// Mint of the supplied reputation accounts.
    pub rep_mint: Pubkey,
    /// Whether the caller's reputation account was supplied.
    pub rep_account: bool,
    /// Whether the caller's payment account was supplied.
    pub pay_account: bool,
    /// Whether the dispute's payment vault was supplied.
    pub pay_vault: bool,
    /// Mint of the supplied payment accounts, if one was supplied.
    pub pay_mint: Option<Pubkey>,
}

/// Amounts to move between a participant and a dispute's vaults.
#[derive(Clone, Copy, Debug, PartialEq, Eq, Structural)]
pub struct Transfer {
    /// Reputation tokens.
    pub rep: u64,
    /// Payment tokens.
    pub pay: u64,
}

impl Court {
    /// Stored size in bytes.
    pub const SIZE: usize = 148;

    /// The court after an edit.
    pub open spec fn edited(
        self,
        votes: u16,
        authority: Pubkey,
        protocol: Pubkey,
        rep_mint: Pubkey,
        pay_mint: Option<Pubkey>,
    ) -> Court {
        Court {
            max_dispute_votes: votes,
            edit_authority: authority,
            protocol,
            rep_mint,
            pay_mint,
            ..self
        }
    }

    /// Replaces the queue bound, the authorities and the mints; the count of
    /// disputes stays.
    pub fn edit(
        &mut self,
        votes: u16,
        authority: Pubkey,
        protocol: Pubkey,
        rep_mint: Pubkey,
        pay_mint: &Option<Pubkey>,
    )
        ensures
            *final(self) == old(self).edited(votes, authority, protocol, rep_mint, *pay_mint),
    {
        self.max_dispute_votes = votes;
        self.edit_authority = authority;
        self.protocol = protocol;
        self.rep_mint = rep_mint;
        self.pay_mint = *pay_mint;
    }

    /// Why moving `rep` reputation and `pay` payment tokens cannot go ahead
    /// with the supplied accounts, if it cannot: a reputation amount needs
    /// the reputation account; a payment amount needs the payment account,
    /// the vault and a mint, and the mint must be the court's.
    pub open spec fn transfer_refusal(&self, accounts: &TokenAccounts, rep: u64, pay: u64)
        -> Option<InputError> {
        if rep > 0 && !accounts.rep_account {
            Some(InputError::ReputationAtaMissing)
        } else if pay > 0 && !(accounts.pay_account && accounts.pay_vault && self.pay_mint is Some
            && accounts.pay_mint is Some) {
            Some(InputError::PaymentAtaMissing)
        } else if pay > 0 && accounts.pay_mint != self.pay_mint {
            Some(InputError::ProtocolMintMismatch)
        } else {
            None
        }
    }

    /// Checks that `rep` reputation and `pay` payment tokens can be moved
    /// with the supplied accounts.
    pub fn check_transfer(&self, accounts: &TokenAccounts, rep: u64, pay: u64) -> (res: Result<
        Transfer,
        InputError,
    >)
        ensures
            match res {
                Ok(transfer) => self.transfer_refusal(accounts, rep, pay) is None && transfer
                    == (Transfer { rep, pay }),
                Err(e) => self.transfer_refusal(accounts, rep, pay) == Some(e),
            },
    {
        if rep > 0 && !accounts.rep_account {
            return Err(InputError::ReputationAtaMissing);
        }
        if pay > 0 {
            if !(accounts.pay_account && accounts.pay_vault && self.pay_mint.is_some()
                && accounts.pay_mint.is_some()) {
                return Err(InputError::PaymentAtaMissing);
            }
            if !same_key(&accounts.pay_mint, &self.pay_mint) {
                return Err(InputError::ProtocolMintMismatch);
            }
        }
        Ok(Transfer { rep, pay })
    }

    /// Whether the supplied reputation accounts are of the court's mint.
    pub fn accepts_rep_mint(&self, accounts: &TokenAccounts) -> (same: bool)
        ensures
            same == (accounts.rep_mint == self.rep_mint),
    {
        accounts.rep_mint == self.rep_mint
    }
}

} // verus!
