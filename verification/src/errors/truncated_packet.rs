//! The error for a packet that ends before the sections it announces do.
use crate::text::{decimal, decimal_digits};
use vstd::prelude::*;
use vstd::string::StringExecFns;

verus! {

/// A section of a packet needs more bytes than the packet has left for it.
#[derive(Debug, Clone, Copy, PartialEq, Eq, Structural)]
pub struct TruncatedPacket {
    /// The number of bytes that the section needs, counted from its first
    /// byte.
    pub needed: usize,
    /// The number of bytes that the packet holds from the first byte of the
    /// section on.
    pub available: usize,
}

impl TruncatedPacket {
    /// What went wrong, in words.
    pub open spec fn message_text(self) -> Seq<char> {
        "packet ends too early: ["@ + decimal_digits(self.needed as nat)
            + "] bytes are needed where ["@ + decimal_digits(self.available as nat)
            + "] are left"@
    }

    /// Says in words what went wrong.
    pub fn message(&self) -> (r: String)
        ensures
            r@ == self.message_text(),
    {
        let mut text = String::from_str("packet ends too early: [");
        text.append(decimal(self.needed).as_str());
        text.append("] bytes are needed where [");
        text.append(decimal(self.available).as_str());
        text.append("] are left");
        text
    }
}

} // verus!
