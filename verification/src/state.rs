//! The records the engine keeps: courts, disputes, cases and stake ledgers.

pub mod case;
pub mod court;
pub mod dispute;
pub mod tally;
pub mod voter_record;

pub use case::Case;
pub use court::{Court, TokenAccounts, Transfer};
pub use dispute::{Dispute, DisputeConfiguration, DisputeStatus};
pub use voter_record::{DisputeRecord, Vote, VoterRecord};
