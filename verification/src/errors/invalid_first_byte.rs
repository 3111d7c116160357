//! The error for a packet that does not begin with the sync byte.
use crate::text::{decimal, decimal_digits};
use vstd::prelude::*;
use vstd::string::StringExecFns;

verus! {

/// A byte string was to be decoded as a packet, but its first byte is not the
/// sync byte.
#[derive(Debug, Clone, Copy, PartialEq, Eq, Structural)]
pub struct InvalidFirstByte {
    /// The byte that was found in place of the sync byte.
    pub byte: u8,
}

impl InvalidFirstByte {
    /// What went wrong, in words.
    pub open spec fn message_text(self) -> Seq<char> {
        "invalid first byte for packet: ["@ + decimal_digits(self.byte as nat) + "]"@
    }

    /// Says in words what went wrong.
    pub fn message(&self) -> (r: String)
        ensures
            r@ == self.message_text(),
    {
        let mut text = String::from_str("invalid first byte for packet: [");
        text.append(decimal(self.byte as usize).as_str());
        text.append("]");
        text
    }
}

} // verus!
