//! Dispute resolution engine: lifecycle state machine, commit-reveal voting
//! and per-participant claim settlement.

pub mod error;
pub mod hash;
pub mod instructions;
pub mod pubkey;
pub mod settlement;
pub mod state;
pub mod ticker;
