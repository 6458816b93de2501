//! Vote commitments: the digest that hides a candidate behind a salt. A
//! voter commits the digest of the candidate's identifier and a salt of their
//! choosing, and reveals both later.

use crate::pubkey::Pubkey;
use vstd::prelude::*;

verus! {

/// The Keccak-256 digest of the candidate's thirty-two bytes followed by the
/// UTF-8 bytes of the salt.
pub uninterp spec fn keccak_digest(candidate: Seq<u8>, salt: Seq<char>) -> Seq<u8>;

/// Calls `keccak::hashv` of `solana_program`, as `anchor_lang` exports it, on
/// the two slices `[candidate, salt]`. Trusted: the call hashes the
/// concatenation of the slices with Keccak-256 and depends on nothing else,
/// so its result is the digest named above.
#[verifier::external_body]
pub(crate) fn keccak_hashv(candidate: &Pubkey, salt: &String) -> (digest: [u8; 32])
    ensures
        digest@ == keccak_digest(candidate@, salt@),
{
    anchor_lang::solana_program::keccak::hashv(&[candidate.bytes.as_ref(), salt.as_bytes()])
        .to_bytes()
}

} // verus!
