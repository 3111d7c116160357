//! The errors that decoding a transport stream can end in.
use crate::errors::invalid_first_byte::InvalidFirstByte;
use crate::errors::invalid_payload_pointer::InvalidPayloadPointer;
use crate::errors::truncated_packet::TruncatedPacket;
use vstd::prelude::*;

pub mod invalid_first_byte;
pub mod invalid_payload_pointer;
pub mod no_payload;
pub mod no_sync_byte_found;
pub mod payload_is_not_start;
pub mod truncated_packet;

verus! {

/// The ways in which the bytes of a packet can fail to be one.
#[derive(Debug, Clone, Copy, PartialEq, Eq, Structural)]
pub enum PacketError {
    /// The packet does not begin with the sync byte.
    InvalidFirstByte(InvalidFirstByte),
    /// The packet ends before its adaptation field does, or before the
    /// payload that its header announces begins.
    TruncatedPacket(TruncatedPacket),
    /// The payload pointer points past the end of the packet.
    InvalidPayloadPointer(InvalidPayloadPointer),
}

impl PacketError {
    /// What went wrong, in words.
    pub open spec fn message_text(self) -> Seq<char> {
        match self {
            PacketError::InvalidFirstByte(e) => e.message_text(),
            PacketError::TruncatedPacket(e) => e.message_text(),
            PacketError::InvalidPayloadPointer(e) => e.message_text(),
        }
    }

    /// Says in words what went wrong.
    pub fn message(&self) -> (r: String)
        ensures
            r@ == self.message_text(),
    {
        match self {
            PacketError::InvalidFirstByte(e) => e.message(),
            PacketError::TruncatedPacket(e) => e.message(),
            PacketError::InvalidPayloadPointer(e) => e.message(),
        }
    }
}

} // verus!
