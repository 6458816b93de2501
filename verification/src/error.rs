//! Rejections returned by the engine's operations.

use vstd::prelude::*;

verus! {

/// Why an operation was rejected. A rejected operation changes no record.
#[derive(Clone, Copy, Debug, PartialEq, Eq, Structural)]
pub enum InputError {
    /// The deadlines are not strictly increasing, or the first has passed.
    InvalidEndTime,
    /// The participant holds no staked seat, or the candidate no case.
    UserDoesNotHaveCase,
    /// Votes cannot be cast now.
    DisputeNotVotable,
    /// The dispute cannot be closed now.
    DisputeNotFinalizable,
    /// The dispute has not been concluded.
    DisputeNotClaimable,
    /// Case submission is closed, or not yet open.
    CasesNoLongerAccepted,
    /// A dispute needs at least one seat.
    UsersEmpty,
    /// The participant already holds an entry for this dispute.
    AlreadyEngaged,
    /// The participant's reputation is below what voting requires.
    UserDoesNotHaveEnoughReputation,
    /// The participant has a matured dispute that is not yet claimed.
    HasUnclaimedDisputes,
    /// The participant's claim queue is full.
    MaxDisputesReached,
    /// The dispute is not the one at the head of the claim queue.
    CannotClaimDispute,
    /// The participant already submitted a case.
    UserAlreadyProvidedCase,
    /// The grace period is over.
    InteractionPeriodEnded,
    /// Every seat has been taken.
    InteractionsFulfilled,
    /// A reputation amount is due but no reputation account was supplied.
    ReputationAtaMissing,
    /// A payment amount is due but a payment account, vault or mint is missing.
    PaymentAtaMissing,
    /// The supplied payment mint is not the court's.
    ProtocolMintMismatch,
    /// The supplied reputation mint is not the court's.
    ReputationMintMismatch,
    /// No seat is reserved for the participant and none is vacant.
    UserNotAuthorized,
    /// The caller is not the court's protocol.
    InvalidProtocol,
    /// The caller may not edit the court.
    InvalidEditAuthority,
    /// Votes cannot be revealed now.
    NotRevealPeriod,
    /// The revealed candidate and salt do not match a stored commitment.
    InvalidReveal,
}

} // verus!
