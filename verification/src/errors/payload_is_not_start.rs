//! The error for a payload that starts no new unit where the start of one
//! was asked for.
use vstd::prelude::*;
use vstd::string::StringExecFns;

verus! {

/// The start of a new payload unit was asked of a payload that holds none.
#[derive(Debug, Clone, Copy, PartialEq, Eq, Structural)]
pub struct PayloadIsNotStart;

impl PayloadIsNotStart {
    /// What went wrong, in words.
    pub open spec fn message_text(self) -> Seq<char> {
        "payload does not contain the start of a new partial payload"@
    }

    /// Says in words what went wrong.
    pub fn message(&self) -> (r: String)
        ensures
            r@ == self.message_text(),
    {
        String::from_str("payload does not contain the start of a new partial payload")
    }
}

} // verus!
