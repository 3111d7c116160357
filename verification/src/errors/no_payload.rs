//! The error for a packet without a payload where one was asked for.
use vstd::prelude::*;
use vstd::string::StringExecFns;

verus! {

/// The payload of a packet was asked for, but the packet has none.
#[derive(Debug, Clone, Copy, PartialEq, Eq, Structural)]
pub struct NoPayload;

impl NoPayload {
    /// What went wrong, in words.
    pub open spec fn message_text(self) -> Seq<char> {
        "no payload found in packet"@
    }

    /// Says in words what went wrong.
    pub fn message(&self) -> (r: String)
        ensures
            r@ == self.message_text(),
    {
        String::from_str("no payload found in packet")
    }
}

} // verus!
