//! A case: the evidence one party submitted for its seat.

use vstd::prelude::*;
use vstd::utf8::encode_utf8;

verus! {

/// The evidence of one party. The votes for the case are tallied in the
/// dispute, at the party's seat.
#[derive(Clone, Debug, PartialEq, Eq)]
pub struct Case {
    /// What the party submitted; never changed afterwards.
    pub evidence: String,
    /// Address seed of the stored record.
    pub bump: u8,
}

impl Case {
    /// Bytes a stored case with this evidence takes.
    pub fn get_size(evidence: &String) -> (size: usize)
        requires
            8 + 4 + encode_utf8(evidence@).len() + 1 <= usize::MAX,
        ensures
            size == 8 + 4 + encode_utf8(evidence@).len() + 1,
    {
        8 + (4 + evidence.as_str().len()) + 1
    }
}

} // verus!
