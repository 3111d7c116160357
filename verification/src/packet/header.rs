//! The header of a transport stream packet.
use crate::bits::{bit_field, lemma_be_value_4};
use crate::errors::invalid_first_byte::InvalidFirstByte;
use crate::text::{bool_str, bool_text, decimal, decimal_digits};
use crate::{AdaptationFieldControl, TransportScramblingControl};
use vstd::arithmetic::power2::lemma2_to64;
use vstd::prelude::*;
use vstd::string::StringExecFns;

verus! {

/// Every transport stream packet starts with this byte.
pub const SYNC_BYTE: u8 = 0x47;

/// What a header says, field by field.
pub struct TSHeaderView {
    /// The transport error indicator.
    pub tei: bool,
    /// The payload unit start indicator.
    pub pusi: bool,
    /// The transport priority.
    pub transport_priority: bool,
    /// The packet identifier.
    pub pid: u16,
    /// The transport scrambling control.
    pub tsc: TransportScramblingControl,
    /// The adaptation field control.
    pub adaptation_field_control: AdaptationFieldControl,
    /// The continuity counter.
    pub continuity_counter: u8,
}

/// The fields that the four bytes of a header hold. After the sync byte come,
/// most significant bit first: one bit each for the transport error
/// indicator, the payload unit start indicator and the transport priority,
/// thirteen bits of packet identifier, two bits of scrambling control, two
/// bits of adaptation field control and four bits of continuity counter.
pub open spec fn header_fields(bytes: Seq<u8>) -> TSHeaderView
    recommends
        bytes.len() == 4,
{
    TSHeaderView {
        tei: bit_field(bytes, 8, 1) == 1,
        pusi: bit_field(bytes, 9, 1) == 1,
        transport_priority: bit_field(bytes, 10, 1) == 1,
        pid: bit_field(bytes, 11, 13) as u16,
        tsc: TransportScramblingControl::of_bits(bit_field(bytes, 24, 2) as int),
        adaptation_field_control: AdaptationFieldControl::of_bits(bit_field(bytes, 26, 2) as int),
        continuity_counter: bit_field(bytes, 28, 4) as u8,
    }
}

/// The four bytes that spell out `fields` behind a sync byte. Of a packet
/// identifier only the low thirteen bits have a place in them, and of a
/// continuity counter the low four.
pub open spec fn header_bytes(fields: TSHeaderView) -> Seq<u8> {
    seq![
        SYNC_BYTE,
        ((if fields.tei { 128int } else { 0 }) + (if fields.pusi { 64int } else { 0 }) + (
        if fields.transport_priority { 32int } else { 0 }) + (fields.pid as int / 256) % 32) as u8,
        (fields.pid as int % 256) as u8,
        (fields.tsc.bits() * 64 + fields.adaptation_field_control.bits() * 16
            + fields.continuity_counter as int % 16) as u8,
    ]
}

/// The header of a transport stream packet.
#[derive(Clone, Copy, Debug)]
pub struct TSHeader {
    /// Set when a demodulator could not correct the errors of the packet.
    tei: bool,
    /// Set when the payload of the packet holds the first byte of a payload
    /// unit.
    pusi: bool,
    /// Set when the packet has priority over the others of its identifier.
    transport_priority: bool,
    /// The packet identifier: it names the stream that the packet belongs to.
    pid: u16,
    /// Whether the payload is scrambled, and with which key.
    tsc: TransportScramblingControl,
    /// Which of adaptation field and payload the packet holds.
    adaptation_field_control: AdaptationFieldControl,
    /// Counts the packets of one identifier that hold a payload.
    continuity_counter: u8,
}

impl View for TSHeader {
    type V = TSHeaderView;

    closed spec fn view(&self) -> TSHeaderView {
        TSHeaderView {
            tei: self.tei,
            pusi: self.pusi,
            transport_priority: self.transport_priority,
            pid: self.pid,
            tsc: self.tsc,
            adaptation_field_control: self.adaptation_field_control,
            continuity_counter: self.continuity_counter,
        }
    }
}

impl TSHeaderView {
    /// The fields in words, one to a line.
    pub open spec fn description(self) -> Seq<char> {
        "\nTEI: "@ + bool_text(self.tei) + "\nPUSI: "@ + bool_text(self.pusi)
            + "\nTransport Priority: "@ + bool_text(self.transport_priority) + "\nPID: "@
            + decimal_digits(self.pid as nat) + "\nTransport Scrambling Control: "@
            + self.tsc.name_text() + "\nAdaptation Field Control: "@
            + self.adaptation_field_control.name_text() + "\nContinuity Counter: "@
            + decimal_digits(self.continuity_counter as nat)
    }

    /// Whether a packet with this header holds an adaptation field.
    pub open spec fn has_adaptation_field(self) -> bool {
        self.adaptation_field_control == AdaptationFieldControl::AdaptationField
            || self.adaptation_field_control == AdaptationFieldControl::AdaptationAndPayload
    }

    /// Whether a packet with this header holds a payload.
    pub open spec fn has_payload(self) -> bool {
        self.adaptation_field_control == AdaptationFieldControl::Payload
            || self.adaptation_field_control == AdaptationFieldControl::AdaptationAndPayload
    }

    /// Whether every field is in the range that the four header bytes have
    /// room for.
    pub open spec fn fits(self) -> bool {
        self.pid < 0x2000 && self.continuity_counter < 16
    }
}

impl TSHeader {
    /// Makes a header of the given fields. `tsc` and `adaptation_field_control`
    /// are the values of their two-bit fields.
    pub fn new(
        tei: bool,
        pusi: bool,
        transport_priority: bool,
        pid: u16,
        tsc: u8,
        adaptation_field_control: u8,
        continuity_counter: u8,
    ) -> (header: Self)
        requires
            tsc <= 3,
            adaptation_field_control <= 3,
        ensures
            header@ == (TSHeaderView {
                tei,
                pusi,
                transport_priority,
                pid,
                tsc: TransportScramblingControl::of_bits(tsc as int),
                adaptation_field_control: AdaptationFieldControl::of_bits(
                    adaptation_field_control as int,
                ),
                continuity_counter,
            }),
    {
        TSHeader {
            tei,
            pusi,
            transport_priority,
            pid,
            tsc: match tsc {
                0 => TransportScramblingControl::NoScrambling,
                1 => TransportScramblingControl::Reserved,
                2 => TransportScramblingControl::EvenKey,
                _ => TransportScramblingControl::OddKey,
            },
            adaptation_field_control: match adaptation_field_control {
                0 => AdaptationFieldControl::Reserved,
                1 => AdaptationFieldControl::Payload,
                2 => AdaptationFieldControl::AdaptationField,
                _ => AdaptationFieldControl::AdaptationAndPayload,
            },
            continuity_counter,
        }
    }

    /// Decodes the four bytes of a header. Fails if and only if the first of
    /// them is not the sync byte.
    pub fn from_bytes(buf: &[u8]) -> (r: Result<TSHeader, InvalidFirstByte>)
        requires
            buf@.len() == 4,
        ensures
            match r {
                Ok(header) => buf@[0] == SYNC_BYTE && header@ == header_fields(buf@),
                Err(e) => buf@[0] != SYNC_BYTE && e.byte == buf@[0],
            },
    {
        if buf[0] != SYNC_BYTE {
            return Err(InvalidFirstByte { byte: buf[0] });
        }
        let b1 = buf[1];
        let b2 = buf[2];
        let b3 = buf[3];
        proof {
            lemma_header_fields(buf@);
            lemma_header_masks(b1, b2, b3);
        }
        Ok(
            TSHeader::new(
                b1 & 0x80 != 0,
                b1 & 0x40 != 0,
                b1 & 0x20 != 0,
                (((b1 & 0x1f) as u16) << 8) | (b2 as u16),
                b3 >> 6,
                (b3 >> 4) & 0x03,
                b3 & 0x0f,
            ),
        )
    }

    /// Encodes the header as the four bytes that `from_bytes` decodes. A
    /// packet identifier is cut to its low thirteen bits and a continuity
    /// counter to its low four.
    pub fn to_bytes(&self) -> (bytes: Vec<u8>)
        ensures
            bytes@ == header_bytes(self@),
    {
        let pid = self.pid;
        let continuity_counter = self.continuity_counter;
        let tei: u8 = if self.tei { 0x80 } else { 0 };
        let pusi: u8 = if self.pusi { 0x40 } else { 0 };
        let priority: u8 = if self.transport_priority { 0x20 } else { 0 };
        assert((pid >> 8) & 0x1f < 32 && pid & 0xff < 256 && ((pid >> 8) & 0x1f) == (pid / 256)
            % 32 && pid & 0xff == pid % 256) by (bit_vector);
        let pid_high: u8 = ((pid >> 8) & 0x1f) as u8;
        let pid_low: u8 = (pid & 0xff) as u8;
        let tsc: u8 = match self.tsc {
            TransportScramblingControl::NoScrambling => 0,
            TransportScramblingControl::Reserved => 1,
            TransportScramblingControl::EvenKey => 2,
            TransportScramblingControl::OddKey => 3,
        };
        let afc: u8 = match self.adaptation_field_control {
            AdaptationFieldControl::Reserved => 0,
            AdaptationFieldControl::Payload => 1,
            AdaptationFieldControl::AdaptationField => 2,
            AdaptationFieldControl::AdaptationAndPayload => 3,
        };
        let cc: u8 = continuity_counter & 0x0f;
        assert((tei | pusi | priority | pid_high) == tei + pusi + priority + pid_high)
            by (bit_vector)
            requires
                tei == 0 || tei == 0x80,
                pusi == 0 || pusi == 0x40,
                priority == 0 || priority == 0x20,
                pid_high < 32,
        ;
        assert(cc == continuity_counter % 16 && ((tsc << 6) | (afc << 4) | cc) == tsc * 64 + afc
            * 16 + cc) by (bit_vector)
            requires
                cc == continuity_counter & 0x0f,
                tsc <= 3,
                afc <= 3,
        ;
        let mut bytes: Vec<u8> = Vec::new();
        bytes.push(SYNC_BYTE);
        bytes.push(tei | pusi | priority | pid_high);
        bytes.push(pid_low);
        bytes.push((tsc << 6) | (afc << 4) | cc);
        assert(bytes@ =~= header_bytes(self@));
        bytes
    }

    /// Writes the fields out in words, one to a line.
    pub fn describe(&self) -> (r: String)
        ensures
            r@ == self@.description(),
    {
        let mut text = String::from_str("\nTEI: ");
        text.append(bool_str(self.tei));
        text.append("\nPUSI: ");
        text.append(bool_str(self.pusi));
        text.append("\nTransport Priority: ");
        text.append(bool_str(self.transport_priority));
        text.append("\nPID: ");
        text.append(decimal(self.pid as usize).as_str());
        text.append("\nTransport Scrambling Control: ");
        text.append(self.tsc.name());
        text.append("\nAdaptation Field Control: ");
        text.append(self.adaptation_field_control.name());
        text.append("\nContinuity Counter: ");
        text.append(decimal(self.continuity_counter as usize).as_str());
        text
    }

    /// Whether the transport error indicator is set.
    pub fn tei(&self) -> (r: bool)
        ensures
            r == self@.tei,
    {
        self.tei
    }

    /// Whether the payload unit start indicator is set.
    pub fn pusi(&self) -> (r: bool)
        ensures
            r == self@.pusi,
    {
        self.pusi
    }

    /// Whether the transport priority is set.
    pub fn transport_priority(&self) -> (r: bool)
        ensures
            r == self@.transport_priority,
    {
        self.transport_priority
    }

    /// The packet identifier.
    pub fn pid(&self) -> (r: u16)
        ensures
            r == self@.pid,
    {
        self.pid
    }

    /// The transport scrambling control.
    pub fn tsc(&self) -> (r: TransportScramblingControl)
        ensures
            r == self@.tsc,
    {
        self.tsc
    }

    /// The adaptation field control.
    pub fn adaptation_field_control(&self) -> (r: AdaptationFieldControl)
        ensures
            r == self@.adaptation_field_control,
    {
        self.adaptation_field_control
    }

    /// Whether a packet with this header holds an adaptation field.
    pub fn has_adaptation_field(&self) -> (r: bool)
        ensures
            r == self@.has_adaptation_field(),
    {
        match self.adaptation_field_control {
            AdaptationFieldControl::AdaptationField
            | AdaptationFieldControl::AdaptationAndPayload => true,
            _ => false,
        }
    }

    /// Whether a packet with this header holds a payload.
    pub fn has_payload(&self) -> (r: bool)
        ensures
            r == self@.has_payload(),
    {
        match self.adaptation_field_control {
            AdaptationFieldControl::Payload | AdaptationFieldControl::AdaptationAndPayload => true,
            _ => false,
        }
    }

    /// The continuity counter.
    pub fn continuity_counter(&self) -> (r: u8)
        ensures
            r == self@.continuity_counter,
    {
        self.continuity_counter
    }
}

/// What the masks and shifts of the decoder compute, as quotients and
/// remainders.
proof fn lemma_header_masks(b1: u8, b2: u8, b3: u8)
    by (bit_vector)
    ensures
        (b1 & 0x80 != 0) == (b1 / 128 == 1),
        (b1 & 0x40 != 0) == ((b1 / 64) % 2 == 1),
        (b1 & 0x20 != 0) == ((b1 / 32) % 2 == 1),
        (((b1 & 0x1f) as u16) << 8) | (b2 as u16) == (b1 as u16 % 32) * 256 + b2 as u16,
        b3 >> 6 == b3 / 64,
        b3 >> 6 <= 3,
        (b3 >> 4) & 0x03 == (b3 / 16) % 4,
        (b3 >> 4) & 0x03 <= 3,
        b3 & 0x0f == b3 % 16,
{
}

/// Decoding a header and encoding its fields again gives back the bytes that
/// were decoded: nothing that a header holds is lost in its fields.
pub proof fn lemma_decode_then_encode(bytes: Seq<u8>)
    requires
        bytes.len() == 4,
        bytes[0] == SYNC_BYTE,
    ensures
        header_bytes(header_fields(bytes)) == bytes,
{
    lemma_header_fields(bytes);
    let fields = header_fields(bytes);
    let b1 = bytes[1] as int;
    let b3 = bytes[3] as int;
    assert(fields.tsc.bits() == b3 / 64);
    assert(fields.adaptation_field_control.bits() == (b3 / 16) % 4);
    assert(header_bytes(fields) =~= bytes);
}

/// Encoding the fields of a header and decoding the bytes again gives back
/// the fields, provided each of them fits its place in the header.
pub proof fn lemma_encode_then_decode(fields: TSHeaderView)
    requires
        fields.fits(),
    ensures
        header_bytes(fields).len() == 4,
        header_bytes(fields)[0] == SYNC_BYTE,
        header_fields(header_bytes(fields)) == fields,
{
    let bytes = header_bytes(fields);
    lemma_header_fields(bytes);
    let tsc = fields.tsc.bits();
    let afc = fields.adaptation_field_control.bits();
    assert(TransportScramblingControl::of_bits(tsc) == fields.tsc);
    assert(AdaptationFieldControl::of_bits(afc) == fields.adaptation_field_control);
    assert(bytes[3] as int == tsc * 64 + afc * 16 + fields.continuity_counter as int);
}

/// The fields of a header in terms of its single bytes.
pub proof fn lemma_header_fields(bytes: Seq<u8>)
    requires
        bytes.len() == 4,
    ensures
        header_fields(bytes).tei == (bytes[1] as int / 128 == 1),
        header_fields(bytes).pusi == ((bytes[1] as int / 64) % 2 == 1),
        header_fields(bytes).transport_priority == ((bytes[1] as int / 32) % 2 == 1),
        header_fields(bytes).pid == (bytes[1] as int % 32) * 256 + bytes[2] as int,
        header_fields(bytes).tsc == TransportScramblingControl::of_bits(bytes[3] as int / 64),
        header_fields(bytes).adaptation_field_control == AdaptationFieldControl::of_bits(
            (bytes[3] as int / 16) % 4,
        ),
        header_fields(bytes).continuity_counter == bytes[3] as int % 16,
{
    lemma_be_value_4(bytes);
    lemma2_to64();
    lemma_word_fields(bytes[0], bytes[1], bytes[2], bytes[3]);
}

/// The fields of the 32-bit number that four bytes spell out, in terms of the
/// single bytes.
proof fn lemma_word_fields(b0: u8, b1: u8, b2: u8, b3: u8)
    by (bit_vector)
    ensures
        ({
            let w = b0 as u32 * 0x100_0000u32 + b1 as u32 * 0x1_0000u32 + b2 as u32 * 0x100u32
                + b3 as u32;
            &&& (w / 0x80_0000) % 2 == b1 as u32 / 128
            &&& (w / 0x40_0000) % 2 == (b1 as u32 / 64) % 2
            &&& (w / 0x20_0000) % 2 == (b1 as u32 / 32) % 2
            &&& (w / 0x100) % 0x2000 == (b1 as u32 % 32) * 256 + b2 as u32
            &&& (w / 0x40) % 4 == b3 as u32 / 64
            &&& (w / 0x10) % 4 == (b3 as u32 / 16) % 4
            &&& (w / 1) % 16 == b3 as u32 % 16
        }),
{
}

} // verus!
