//! A transport stream packet and the sections it is made of.
use crate::errors::invalid_first_byte::InvalidFirstByte;
use crate::errors::invalid_payload_pointer::InvalidPayloadPointer;
use crate::errors::truncated_packet::TruncatedPacket;
use crate::errors::PacketError;
use crate::packet::adaptation_field::{
    adaptation_field, adaptation_field_needs, AdaptationField, AdaptationFieldView,
};
use crate::packet::header::{header_fields, TSHeader, TSHeaderView, SYNC_BYTE};
use crate::packet::payload::{payload_of, pointer_out_of_range, TSPayload, TSPayloadView};
use vstd::prelude::*;
use vstd::slice::{slice_subrange, slice_to_vec};

pub mod adaptation_field;
pub mod header;
pub mod payload;

verus! {

/// Every transport stream packet is 188 bytes long.
pub const PACKET_SIZE: usize = 188;

/// The header takes the first 4 bytes of a packet.
pub const HEADER_SIZE: u8 = 4;

/// What a packet holds.
pub struct TSPacketView {
    /// The header.
    pub header: TSHeaderView,
    /// The adaptation field, where the header announces one.
    pub adaptation_field: Option<AdaptationFieldView>,
    /// The payload, where the header announces one.
    pub payload: Option<TSPayloadView>,
}

impl TSPacketView {
    /// Whether the packet holds the sections that its header announces, and
    /// no others.
    pub open spec fn sections_match_header(self) -> bool {
        &&& self.adaptation_field is Some <==> self.header.has_adaptation_field()
        &&& self.payload is Some <==> self.header.has_payload()
    }
}

/// The header that the first four bytes of a packet hold.
pub open spec fn packet_header(bytes: Seq<u8>) -> TSHeaderView {
    header_fields(bytes.subrange(0, HEADER_SIZE as int))
}

/// What a packet holds behind its header.
pub open spec fn behind_header(bytes: Seq<u8>) -> Seq<u8> {
    bytes.subrange(HEADER_SIZE as int, bytes.len() as int)
}

/// The adaptation field of a packet, where its header announces one.
pub open spec fn packet_adaptation_field(bytes: Seq<u8>) -> Option<AdaptationFieldView> {
    if packet_header(bytes).has_adaptation_field() {
        Some(adaptation_field(behind_header(bytes)))
    } else {
        None
    }
}

/// Where in a packet the payload begins: behind the header and, where there
/// is one, behind the adaptation field, which takes as many bytes as its
/// length byte declares, whatever its parts take of them.
pub open spec fn payload_offset(bytes: Seq<u8>) -> int {
    HEADER_SIZE + match packet_adaptation_field(bytes) {
        Some(field) => field.size(),
        None => 0,
    }
}

/// The number of bytes that must follow the header for the payload to have
/// a place to begin: those of the adaptation field and, where a unit
/// starts, the payload pointer.
pub open spec fn payload_needs(bytes: Seq<u8>) -> int {
    payload_offset(bytes) - HEADER_SIZE + if packet_header(bytes).pusi {
        1int
    } else {
        0
    }
}

/// What a packet holds from the begin of its payload on.
pub open spec fn payload_bytes(bytes: Seq<u8>) -> Seq<u8> {
    bytes.subrange(payload_offset(bytes), bytes.len() as int)
}

/// What the bytes of a packet decode to. The stages come in order and the
/// first that fails decides: the header, which wants the sync byte; the
/// adaptation field, where the header announces one, which must not end
/// behind the packet; the payload, where the header announces one, which
/// must begin within the packet and whose pointer must not point behind it.
pub open spec fn decode_packet(bytes: Seq<u8>) -> Result<TSPacketView, PacketError>
    recommends
        bytes.len() == PACKET_SIZE,
{
    let header = packet_header(bytes);
    let rest = behind_header(bytes);
    if bytes[0] != SYNC_BYTE {
        Err(PacketError::InvalidFirstByte(InvalidFirstByte { byte: bytes[0] }))
    } else if header.has_adaptation_field() && adaptation_field_needs(rest) > rest.len() {
        Err(
            PacketError::TruncatedPacket(
                TruncatedPacket {
                    needed: adaptation_field_needs(rest) as usize,
                    available: rest.len() as usize,
                },
            ),
        )
    } else if !header.has_payload() {
        Ok(
            TSPacketView {
                header,
                adaptation_field: packet_adaptation_field(bytes),
                payload: None,
            },
        )
    } else if payload_needs(bytes) > rest.len() {
        Err(
            PacketError::TruncatedPacket(
                TruncatedPacket {
                    needed: payload_needs(bytes) as usize,
                    available: rest.len() as usize,
                },
            ),
        )
    } else if pointer_out_of_range(header.pusi, payload_bytes(bytes)) {
        Err(
            PacketError::InvalidPayloadPointer(
                InvalidPayloadPointer {
                    pointer: payload_bytes(bytes)[0],
                    remainder: payload_bytes(bytes).len() as u8,
                },
            ),
        )
    } else {
        Ok(
            TSPacketView {
                header,
                adaptation_field: packet_adaptation_field(bytes),
                payload: Some(
                    payload_of(header.pusi, header.continuity_counter, payload_bytes(bytes)),
                ),
            },
        )
    }
}

/// What a packet decodes to holds the sections that its header announces
/// and no others, and its payload is all that the packet holds behind the
/// header and the adaptation field, but for the payload pointer.
pub proof fn lemma_decode_packet(bytes: Seq<u8>)
    requires
        bytes.len() == PACKET_SIZE,
        decode_packet(bytes) is Ok,
    ensures
        decode_packet(bytes)->Ok_0.sections_match_header(),
        decode_packet(bytes)->Ok_0.header == packet_header(bytes),
        bytes[0] == SYNC_BYTE,
        decode_packet(bytes)->Ok_0.payload is Some ==> HEADER_SIZE <= payload_offset(bytes)
            <= PACKET_SIZE && payload_offset(bytes) + (if packet_header(bytes).pusi {
            1int
        } else {
            0
        }) + decode_packet(bytes)->Ok_0.payload->0.data.len() == PACKET_SIZE,
        decode_packet(bytes)->Ok_0.payload is Some ==> decode_packet(
            bytes,
        )->Ok_0.payload->0.continuity_counter == packet_header(bytes).continuity_counter
            && decode_packet(bytes)->Ok_0.payload->0.is_start() == packet_header(bytes).pusi,
{
}

/// One packet of a transport stream: a header, and the adaptation field and
/// the payload that the header announces.
#[derive(Debug)]
pub struct TSPacket {
    /// The header of the packet.
    header: TSHeader,
    /// The adaptation field. `None` where the adaptation field control of
    /// the header announces none.
    adaptation_field: Option<AdaptationField>,
    /// The payload. `None` where the adaptation field control of the header
    /// announces none.
    payload: Option<TSPayload>,
}

impl View for TSPacket {
    type V = TSPacketView;

    closed spec fn view(&self) -> TSPacketView {
        TSPacketView {
            header: self.header@,
            adaptation_field: match self.adaptation_field {
                Some(field) => Some(field@),
                None => None,
            },
            payload: match self.payload {
                Some(payload) => Some(payload@),
                None => None,
            },
        }
    }
}

impl TSPacket {
    #[verifier::type_invariant]
    spec fn sections_match_header(&self) -> bool {
        self@.sections_match_header()
    }

    /// Decodes the 188 bytes of a packet. Stops at the first stage that
    /// fails, and hands out no part of a packet then.
    pub fn from_bytes(buf: &[u8]) -> (r: Result<TSPacket, PacketError>)
        requires
            buf@.len() == PACKET_SIZE,
        ensures
            match r {
                Ok(packet) => decode_packet(buf@) == Ok::<TSPacketView, PacketError>(packet@)
                    && packet@.sections_match_header(),
                Err(e) => decode_packet(buf@) == Err::<TSPacketView, PacketError>(e),
            },
    {
        let header = match TSHeader::from_bytes(slice_subrange(buf, 0, HEADER_SIZE as usize)) {
            Ok(header) => header,
            Err(e) => {
                return Err(PacketError::InvalidFirstByte(e));
            },
        };
        // The adaptation field, where there is one, comes right behind the
        // header, and the payload right behind the adaptation field.
        let mut read_idx: usize = HEADER_SIZE as usize;
        let available: usize = PACKET_SIZE - HEADER_SIZE as usize;
        let adaptation_field = if header.has_adaptation_field() {
            match AdaptationField::from_bytes(slice_subrange(buf, read_idx, PACKET_SIZE)) {
                Ok(field) => {
                    read_idx += field.size();
                    Some(field)
                },
                Err(e) => {
                    return Err(PacketError::TruncatedPacket(e));
                },
            }
        } else {
            None
        };
        let payload = if header.has_payload() {
            let needed: usize = read_idx - HEADER_SIZE as usize + if header.pusi() {
                1
            } else {
                0
            };
            if needed > available {
                return Err(PacketError::TruncatedPacket(TruncatedPacket { needed, available }));
            }
            let payload_data = slice_to_vec(slice_subrange(buf, read_idx, PACKET_SIZE));
            match TSPayload::try_from_bytes(
                header.pusi(),
                header.continuity_counter(),
                payload_data,
            ) {
                Ok(payload) => Some(payload),
                Err(e) => {
                    return Err(PacketError::InvalidPayloadPointer(e));
                },
            }
        } else {
            None
        };
        Ok(TSPacket { header, adaptation_field, payload })
    }

    /// The header of the packet.
    pub fn header(&self) -> (r: TSHeader)
        ensures
            r@ == self@.header,
    {
        self.header
    }

    /// Whether the packet holds an adaptation field.
    pub fn has_adaptation_field(&self) -> (r: bool)
        ensures
            r == self@.header.has_adaptation_field(),
            r == self@.adaptation_field is Some,
    {
        proof {
            use_type_invariant(self);
        }
        self.header.has_adaptation_field()
    }

    /// Whether the packet holds a payload.
    pub fn has_payload(&self) -> (r: bool)
        ensures
            r == self@.header.has_payload(),
            r == self@.payload is Some,
    {
        proof {
            use_type_invariant(self);
        }
        self.header.has_payload()
    }

    /// The adaptation field of the packet, if it holds one.
    pub fn adaptation_field(&self) -> (r: Option<AdaptationField>)
        ensures
            match r {
                Some(field) => self@.adaptation_field == Some(field@),
                None => self@.adaptation_field is None,
            },
    {
        match &self.adaptation_field {
            Some(field) => Some(field.clone()),
            None => None,
        }
    }

    /// The payload of the packet, if it holds one.
    pub fn payload(&self) -> (r: Option<TSPayload>)
        ensures
            match r {
                Some(payload) => self@.payload == Some(payload@),
                None => self@.payload is None,
            },
    {
        match &self.payload {
            Some(payload) => Some(payload.clone()),
            None => None,
        }
    }
}

} // verus!
