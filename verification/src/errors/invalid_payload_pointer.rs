//! The error for a payload pointer that points past the end of its packet.
use crate::text::{decimal, decimal_digits};
use vstd::prelude::*;
use vstd::string::StringExecFns;

verus! {

/// The payload pointer of a packet is larger than the number of bytes that
/// were left in the packet when the pointer was read.
#[derive(Debug, Clone, Copy, PartialEq, Eq, Structural)]
pub struct InvalidPayloadPointer {
    /// The payload pointer as it stands in the packet.
    pub pointer: u8,
    /// The number of bytes from the pointer byte to the end of the packet, the
    /// pointer byte included.
    pub remainder: u8,
}

impl InvalidPayloadPointer {
    /// What went wrong, in words.
    pub open spec fn message_text(self) -> Seq<char> {
        "payload pointer ["@ + decimal_digits(self.pointer as nat)
            + "] is too large for packet remainder ["@ + decimal_digits(self.remainder as nat)
            + "]"@
    }

    /// Says in words what went wrong.
    pub fn message(&self) -> (r: String)
        ensures
            r@ == self.message_text(),
    {
        let mut text = String::from_str("payload pointer [");
        text.append(decimal(self.pointer as usize).as_str());
        text.append("] is too large for packet remainder [");
        text.append(decimal(self.remainder as usize).as_str());
        text.append("]");
        text
    }
}

} // verus!
