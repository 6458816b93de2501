//! The operations callers invoke. Each checks everything before it changes
//! anything: a rejected operation leaves every record as it was.

pub mod claim;
pub mod close_dispute;
pub mod edit_court;
pub mod initialize_case;
pub mod initialize_court;
pub mod initialize_dispute;
pub mod initialize_record;
pub mod interact;
pub mod reveal_vote;
pub mod select_vote;

pub use claim::claim;
pub use close_dispute::close_dispute;
pub use edit_court::edit_court;
pub use initialize_case::initialize_case;
pub use initialize_court::initialize_court;
pub use initialize_dispute::initialize_dispute;
pub use initialize_record::initialize_record;
pub use interact::interact;
pub use reveal_vote::{reveal_vote, tally_reveal};
pub use select_vote::select_vote;
