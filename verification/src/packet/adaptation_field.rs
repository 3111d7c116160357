//! The adaptation field of a transport stream packet.
use crate::bits::{be_value, bit_field, lemma_be_value_1, lemma_be_value_6};
use crate::errors::truncated_packet::TruncatedPacket;
use vstd::arithmetic::power2::{lemma2_to64, lemma2_to64_rest};
use vstd::prelude::*;
use vstd::slice::{slice_subrange, slice_to_vec};

verus! {

/// A program clock reference takes 6 bytes, be it a PCR or an OPCR.
pub const PCR_SIZE: u8 = 6;

/// The splice countdown takes 1 byte.
pub const SPLICE_COUNTDOWN_SIZE: u8 = 1;

/// The length of the transport private data takes 1 byte.
pub const TRANSPORT_PRIVATE_DATA_LENGTH_LENGTH: u8 = 1;

/// An adaptation field whose length byte is 0 stands for 1 byte of stuffing.
pub const STUFFING_ADAPTATION_FIELD_LENGTH: u8 = 1;

/// What an adaptation field with data holds.
pub struct DataAdaptationFieldView {
    /// The length byte: the number of bytes of the field that follow it.
    pub adaptation_field_length: u8,
    /// The discontinuity indicator.
    pub discontinuity_indicator: bool,
    /// The random access indicator.
    pub random_access_indicator: bool,
    /// The elementary stream priority indicator.
    pub elementary_stream_priority_indicator: bool,
    /// Whether a program clock reference is present.
    pub pcr_flag: bool,
    /// Whether an original program clock reference is present.
    pub opcr_flag: bool,
    /// Whether a splice countdown is present.
    pub splicing_point_flag: bool,
    /// Whether transport private data are present.
    pub transport_private_data_flag: bool,
    /// Whether an adaptation field extension is present.
    pub adaptation_field_extension_flag: bool,
    /// The program clock reference.
    pub pcr: Option<u64>,
    /// The original program clock reference.
    pub opcr: Option<u64>,
    /// The splice countdown.
    pub splice_countdown: Option<i8>,
    /// The length of the transport private data.
    pub transport_private_data_length: Option<u8>,
    /// The transport private data.
    pub transport_private_data: Option<Seq<u8>>,
}

impl DataAdaptationFieldView {
    /// The number of bytes that the parts of the field take which are
    /// present: the length byte, the flags, and each optional part.
    pub open spec fn consumed(self) -> int {
        2 + (if self.pcr is Some { 6int } else { 0 }) + (if self.opcr is Some { 6int } else { 0 })
            + (if self.splice_countdown is Some { 1int } else { 0 }) + (
        if self.transport_private_data_length is Some { 1int } else { 0 }) + (
        match self.transport_private_data {
            Some(data) => data.len() as int,
            None => 0,
        })
    }

    /// Whether the parts that are present take no more room than the length
    /// byte declares. What they leave of it is stuffing.
    pub open spec fn within_declared_length(self) -> bool {
        self.consumed() <= self.adaptation_field_length + 1
    }
}

/// What an optional byte string holds.
pub open spec fn optional_bytes(bytes: Option<Vec<u8>>) -> Option<Seq<u8>> {
    match bytes {
        Some(data) => Some(data@),
        None => None,
    }
}

/// Flag `k` of an adaptation field with data, `bytes` being the field from
/// its length byte on. The flags are the bits of the byte behind the length
/// byte, flag 0 being the most significant.
pub open spec fn flag(bytes: Seq<u8>, k: nat) -> bool
    recommends
        bytes.len() >= 2,
        k < 8,
{
    bit_field(bytes.subrange(1, 2), k, 1) == 1
}

/// The 27 MHz clock value that the 6 bytes of a clock reference stand for:
/// 300 times the base, which is the first 34 bits, plus the extension, which
/// is the last 9 bits. The bits between them are reserved.
pub open spec fn clock_reference(field: Seq<u8>) -> nat
    recommends
        field.len() == 6,
{
    bit_field(field, 0, 34) * 300 + bit_field(field, 39, 9)
}

/// The 6 bytes of the clock reference with the given base, reserved bits and
/// extension.
pub open spec fn clock_reference_bytes(base: nat, reserved: nat, extension: nat) -> Seq<u8>
    recommends
        base < 0x4_0000_0000,
        reserved < 32,
        extension < 512,
{
    let word = base * 0x4000 + reserved * 512 + extension;
    seq![
        (word / 0x100_0000_0000) as u8,
        (word / 0x1_0000_0000 % 256) as u8,
        (word / 0x100_0000 % 256) as u8,
        (word / 0x1_0000 % 256) as u8,
        (word / 0x100 % 256) as u8,
        (word % 256) as u8,
    ]
}

/// The number that a byte stands for when it is read as a signed one.
pub open spec fn signed_byte(byte: u8) -> i8 {
    if byte < 128 {
        byte as i8
    } else {
        (byte - 256) as i8
    }
}

/// Where the original program clock reference stands in the field, if it is
/// present.
pub open spec fn opcr_offset(bytes: Seq<u8>) -> int {
    2 + if flag(bytes, 3) { 6int } else { 0 }
}

/// Where the splice countdown stands in the field, if it is present.
pub open spec fn splice_offset(bytes: Seq<u8>) -> int {
    opcr_offset(bytes) + if flag(bytes, 4) { 6int } else { 0 }
}

/// Where the length of the transport private data stands in the field, if
/// they are present.
pub open spec fn private_data_offset(bytes: Seq<u8>) -> int {
    splice_offset(bytes) + if flag(bytes, 5) { 1int } else { 0 }
}

/// The number of bytes that the parts take which the flags of the field
/// announce, `bytes` being the field from its length byte on: the length
/// byte, the flags, and every optional part. Where `bytes` end before the
/// length of the private data, that length counts for nothing.
pub open spec fn bytes_needed(bytes: Seq<u8>) -> int {
    if bytes.len() < 2 {
        2
    } else if !flag(bytes, 6) {
        private_data_offset(bytes)
    } else if private_data_offset(bytes) < bytes.len() {
        private_data_offset(bytes) + 1 + bytes[private_data_offset(bytes)]
    } else {
        private_data_offset(bytes) + 1
    }
}

/// The adaptation field with data that `bytes` hold, `bytes` being the field
/// from its length byte on.
pub open spec fn data_adaptation_field(bytes: Seq<u8>) -> DataAdaptationFieldView
    recommends
        bytes_needed(bytes) <= bytes.len(),
{
    let opcr_at = opcr_offset(bytes);
    let splice_at = splice_offset(bytes);
    let private_at = private_data_offset(bytes);
    DataAdaptationFieldView {
        adaptation_field_length: bytes[0],
        discontinuity_indicator: flag(bytes, 0),
        random_access_indicator: flag(bytes, 1),
        elementary_stream_priority_indicator: flag(bytes, 2),
        pcr_flag: flag(bytes, 3),
        opcr_flag: flag(bytes, 4),
        splicing_point_flag: flag(bytes, 5),
        transport_private_data_flag: flag(bytes, 6),
        adaptation_field_extension_flag: flag(bytes, 7),
        pcr: if flag(bytes, 3) {
            Some(clock_reference(bytes.subrange(2, 8)) as u64)
        } else {
            None
        },
        opcr: if flag(bytes, 4) {
            Some(clock_reference(bytes.subrange(opcr_at, opcr_at + 6)) as u64)
        } else {
            None
        },
        splice_countdown: if flag(bytes, 5) {
            Some(signed_byte(bytes[splice_at]))
        } else {
            None
        },
        transport_private_data_length: if flag(bytes, 6) {
            Some(bytes[private_at])
        } else {
            None
        },
        transport_private_data: if flag(bytes, 6) {
            Some(bytes.subrange(private_at + 1, private_at + 1 + bytes[private_at]))
        } else {
            None
        },
    }
}

/// An adaptation field that holds data: flags, and the parts that the flags
/// announce.
#[derive(Debug)]
pub struct DataAdaptationField {
    /// The number of bytes of the field that follow its length byte.
    adaptation_field_length: u8,
    /// Set when the packet is in a discontinuity state with respect to the
    /// continuity counter or the program clock reference.
    discontinuity_indicator: bool,
    /// Set when the stream can be decoded without errors from here on.
    random_access_indicator: bool,
    /// Set when the stream is to be given priority.
    elementary_stream_priority_indicator: bool,
    /// Set when a program clock reference is present.
    pcr_flag: bool,
    /// Set when an original program clock reference is present.
    opcr_flag: bool,
    /// Set when a splice countdown is present.
    splicing_point_flag: bool,
    /// Set when transport private data are present.
    transport_private_data_flag: bool,
    /// Set when an adaptation field extension is present.
    adaptation_field_extension_flag: bool,
    /// The program clock reference, where `pcr_flag` announces one.
    pcr: Option<u64>,
    /// The original program clock reference, where `opcr_flag` announces one.
    opcr: Option<u64>,
    /// The number of packets until a splicing point, which may be negative.
    splice_countdown: Option<i8>,
    /// The length of the transport private data.
    transport_private_data_length: Option<u8>,
    /// The transport private data.
    transport_private_data: Option<Vec<u8>>,
}

impl View for DataAdaptationField {
    type V = DataAdaptationFieldView;

    closed spec fn view(&self) -> DataAdaptationFieldView {
        DataAdaptationFieldView {
            adaptation_field_length: self.adaptation_field_length,
            discontinuity_indicator: self.discontinuity_indicator,
            random_access_indicator: self.random_access_indicator,
            elementary_stream_priority_indicator: self.elementary_stream_priority_indicator,
            pcr_flag: self.pcr_flag,
            opcr_flag: self.opcr_flag,
            splicing_point_flag: self.splicing_point_flag,
            transport_private_data_flag: self.transport_private_data_flag,
            adaptation_field_extension_flag: self.adaptation_field_extension_flag,
            pcr: self.pcr,
            opcr: self.opcr,
            splice_countdown: self.splice_countdown,
            transport_private_data_length: self.transport_private_data_length,
            transport_private_data: optional_bytes(self.transport_private_data),
        }
    }
}

impl Clone for DataAdaptationField {
    fn clone(&self) -> (copy: Self)
        ensures
            copy@ == self@,
    {
        DataAdaptationField {
            adaptation_field_length: self.adaptation_field_length,
            discontinuity_indicator: self.discontinuity_indicator,
            random_access_indicator: self.random_access_indicator,
            elementary_stream_priority_indicator: self.elementary_stream_priority_indicator,
            pcr_flag: self.pcr_flag,
            opcr_flag: self.opcr_flag,
            splicing_point_flag: self.splicing_point_flag,
            transport_private_data_flag: self.transport_private_data_flag,
            adaptation_field_extension_flag: self.adaptation_field_extension_flag,
            pcr: self.pcr,
            opcr: self.opcr,
            splice_countdown: self.splice_countdown,
            transport_private_data_length: self.transport_private_data_length,
            transport_private_data: match &self.transport_private_data {
                Some(data) => Some(slice_to_vec(data.as_slice())),
                None => None,
            },
        }
    }
}

impl DataAdaptationField {
    /// Makes an adaptation field of the given parts, as they stand.
    pub fn new(
        adaptation_field_length: u8,
        discontinuity_indicator: bool,
        random_access_indicator: bool,
        elementary_stream_priority_indicator: bool,
        pcr_flag: bool,
        opcr_flag: bool,
        splicing_point_flag: bool,
        transport_private_data_flag: bool,
        adaptation_field_extension_flag: bool,
        pcr: Option<u64>,
        opcr: Option<u64>,
        splice_countdown: Option<i8>,
        transport_private_data_length: Option<u8>,
        transport_private_data: Option<Vec<u8>>,
    ) -> (field: Self)
        ensures
            field@ == (DataAdaptationFieldView {
                adaptation_field_length,
                discontinuity_indicator,
                random_access_indicator,
                elementary_stream_priority_indicator,
                pcr_flag,
                opcr_flag,
                splicing_point_flag,
                transport_private_data_flag,
                adaptation_field_extension_flag,
                pcr,
                opcr,
                splice_countdown,
                transport_private_data_length,
                transport_private_data: optional_bytes(transport_private_data),
            }),
    {
        Self {
            adaptation_field_length,
            discontinuity_indicator,
            random_access_indicator,
            elementary_stream_priority_indicator,
            pcr_flag,
            opcr_flag,
            splicing_point_flag,
            transport_private_data_flag,
            adaptation_field_extension_flag,
            pcr,
            opcr,
            splice_countdown,
            transport_private_data_length,
            transport_private_data,
        }
    }

    /// Decodes an adaptation field with data, `buf` being what the packet
    /// holds from the length byte of the field on. Fails if and only if `buf`
    /// ends before the parts do that the flags announce. The length byte is
    /// not held against the parts: `within_declared_length` does that.
    pub fn from_bytes(buf: &[u8]) -> (r: Result<DataAdaptationField, TruncatedPacket>)
        ensures
            match r {
                Ok(field) => bytes_needed(buf@) <= buf@.len() && field@ == data_adaptation_field(
                    buf@,
                ) && field@.consumed() == bytes_needed(buf@),
                Err(e) => bytes_needed(buf@) > buf@.len() && e.needed == bytes_needed(buf@)
                    && e.available == buf@.len(),
            },
    {
        let available = buf.len();
        if available < 2 {
            return Err(TruncatedPacket { needed: 2, available });
        }
        let adaptation_field_length = buf[0];
        let flags = buf[1];
        proof {
            lemma_flags(buf@);
        }
        let pcr_flag = flags & 0x10 != 0;
        let opcr_flag = flags & 0x08 != 0;
        let splicing_point_flag = flags & 0x04 != 0;
        let transport_private_data_flag = flags & 0x02 != 0;
        let adaptation_field_extension_flag = flags & 0x01 != 0;

        // Where the parts end, before anything is read of them.
        let mut needed: usize = 2;
        if pcr_flag {
            needed += PCR_SIZE as usize;
        }
        if opcr_flag {
            needed += PCR_SIZE as usize;
        }
        if splicing_point_flag {
            needed += SPLICE_COUNTDOWN_SIZE as usize;
        }
        if transport_private_data_flag {
            if needed < available {
                needed += TRANSPORT_PRIVATE_DATA_LENGTH_LENGTH as usize + buf[needed] as usize;
            } else {
                needed += TRANSPORT_PRIVATE_DATA_LENGTH_LENGTH as usize;
            }
        }
        if needed > available {
            return Err(TruncatedPacket { needed, available });
        }
        let mut read_idx: usize = 2;
        let pcr = Self::read_pcr_data(pcr_flag, buf, &mut read_idx);
        let opcr = Self::read_pcr_data(opcr_flag, buf, &mut read_idx);
        let splice_countdown = match Self::read_data_conditionally(
            splicing_point_flag,
            buf,
            &mut read_idx,
            SPLICE_COUNTDOWN_SIZE as usize,
        ) {
            Some(bytes) => Some(to_signed(bytes[0])),
            None => None,
        };
        let mut transport_private_data: Option<Vec<u8>> = None;
        let transport_private_data_length = match Self::read_data_conditionally(
            transport_private_data_flag,
            buf,
            &mut read_idx,
            TRANSPORT_PRIVATE_DATA_LENGTH_LENGTH as usize,
        ) {
            Some(bytes) => {
                let length = bytes[0];
                transport_private_data = Some(Self::read_data(buf, &mut read_idx, length as usize));
                Some(length)
            },
            None => None,
        };
        Ok(
            DataAdaptationField {
                adaptation_field_length,
                discontinuity_indicator: flags & 0x80 != 0,
                random_access_indicator: flags & 0x40 != 0,
                elementary_stream_priority_indicator: flags & 0x20 != 0,
                pcr_flag,
                opcr_flag,
                splicing_point_flag,
                transport_private_data_flag,
                adaptation_field_extension_flag,
                pcr,
                opcr,
                splice_countdown,
                transport_private_data_length,
                transport_private_data,
            },
        )
    }

    /// The number of bytes of the field that follow its length byte.
    pub fn adaptation_field_length(&self) -> (r: u8)
        ensures
            r == self@.adaptation_field_length,
    {
        self.adaptation_field_length
    }

    /// Whether the discontinuity indicator is set.
    pub fn discontinuity_indicator(&self) -> (r: bool)
        ensures
            r == self@.discontinuity_indicator,
    {
        self.discontinuity_indicator
    }

    /// Whether the random access indicator is set.
    pub fn random_access_indicator(&self) -> (r: bool)
        ensures
            r == self@.random_access_indicator,
    {
        self.random_access_indicator
    }

    /// Whether the elementary stream priority indicator is set.
    pub fn elementary_stream_priority_indicator(&self) -> (r: bool)
        ensures
            r == self@.elementary_stream_priority_indicator,
    {
        self.elementary_stream_priority_indicator
    }

    /// Whether a program clock reference is present.
    pub fn pcr_flag(&self) -> (r: bool)
        ensures
            r == self@.pcr_flag,
    {
        self.pcr_flag
    }

    /// Whether an original program clock reference is present.
    pub fn opcr_flag(&self) -> (r: bool)
        ensures
            r == self@.opcr_flag,
    {
        self.opcr_flag
    }

    /// Whether a splice countdown is present.
    pub fn splicing_point_flag(&self) -> (r: bool)
        ensures
            r == self@.splicing_point_flag,
    {
        self.splicing_point_flag
    }

    /// Whether transport private data are present.
    pub fn transport_private_data_flag(&self) -> (r: bool)
        ensures
            r == self@.transport_private_data_flag,
    {
        self.transport_private_data_flag
    }

    /// Whether an adaptation field extension is present.
    pub fn adaptation_extension_field_flag(&self) -> (r: bool)
        ensures
            r == self@.adaptation_field_extension_flag,
    {
        self.adaptation_field_extension_flag
    }

    /// The program clock reference, if there is one.
    pub fn pcr(&self) -> (r: Option<u64>)
        ensures
            r == self@.pcr,
    {
        self.pcr
    }

    /// The original program clock reference, if there is one.
    pub fn opcr(&self) -> (r: Option<u64>)
        ensures
            r == self@.opcr,
    {
        self.opcr
    }

    /// The splice countdown, if there is one.
    pub fn splice_countdown(&self) -> (r: Option<i8>)
        ensures
            r == self@.splice_countdown,
    {
        self.splice_countdown
    }

    /// The length of the transport private data, if there are any.
    pub fn transport_private_data_length(&self) -> (r: Option<u8>)
        ensures
            r == self@.transport_private_data_length,
    {
        self.transport_private_data_length
    }

    /// The transport private data, if there are any.
    pub fn transport_private_data(&self) -> (r: &Option<Vec<u8>>)
        ensures
            optional_bytes(*r) == self@.transport_private_data,
    {
        &self.transport_private_data
    }

    /// Whether the parts that are present take no more room than the length
    /// byte declares.
    pub fn within_declared_length(&self) -> (r: bool)
        ensures
            r == self@.within_declared_length(),
    {
        let mut fixed: usize = 2;
        if self.pcr.is_some() {
            fixed += PCR_SIZE as usize;
        }
        if self.opcr.is_some() {
            fixed += PCR_SIZE as usize;
        }
        if self.splice_countdown.is_some() {
            fixed += SPLICE_COUNTDOWN_SIZE as usize;
        }
        if self.transport_private_data_length.is_some() {
            fixed += TRANSPORT_PRIVATE_DATA_LENGTH_LENGTH as usize;
        }
        let declared: usize = self.adaptation_field_length as usize + 1;
        if fixed > declared {
            return false;
        }
        match &self.transport_private_data {
            Some(data) => data.len() <= declared - fixed,
            None => true,
        }
    }

    /// Reads `read_size` bytes at `read_idx` where `flag` is set, and moves
    /// `read_idx` behind them. Reads nothing where it is not.
    fn read_data_conditionally(flag: bool, buf: &[u8], read_idx: &mut usize, read_size: usize) -> (r:
        Option<Vec<u8>>)
        requires
            flag ==> *old(read_idx) + read_size <= buf@.len(),
        ensures
            flag ==> *final(read_idx) == *old(read_idx) + read_size && r is Some && r->0@
                == buf@.subrange(*old(read_idx) as int, *old(read_idx) + read_size),
            !flag ==> *final(read_idx) == *old(read_idx) && r is None,
    {
        if !flag {
            return None;
        }
        Some(Self::read_data(buf, read_idx, read_size))
    }

    /// Reads `read_size` bytes at `read_idx` and moves `read_idx` behind them.
    fn read_data(buf: &[u8], read_idx: &mut usize, read_size: usize) -> (r: Vec<u8>)
        requires
            *old(read_idx) + read_size <= buf@.len(),
        ensures
            *final(read_idx) == *old(read_idx) + read_size,
            r@ == buf@.subrange(*old(read_idx) as int, *old(read_idx) + read_size),
    {
        let start = *read_idx;
        assert(start + read_size <= buf.len());
        let end = start + read_size;
        *read_idx = end;
        slice_to_vec(slice_subrange(buf, start, end))
    }

    /// Reads a clock reference at `read_idx` where `flag` is set, and moves
    /// `read_idx` behind its 6 bytes. Reads nothing where it is not.
    pub fn read_pcr_data(flag: bool, buf: &[u8], read_idx: &mut usize) -> (r: Option<u64>)
        requires
            flag ==> *old(read_idx) + 6 <= buf@.len(),
        ensures
            flag ==> *final(read_idx) == *old(read_idx) + 6 && r == Some(
                clock_reference(buf@.subrange(*old(read_idx) as int, *old(read_idx) + 6)) as u64,
            ),
            !flag ==> *final(read_idx) == *old(read_idx) && r is None,
    {
        let field = match Self::read_data_conditionally(flag, buf, read_idx, PCR_SIZE as usize) {
            Some(bytes) => bytes,
            None => {
                return None;
            },
        };
        let b0 = field[0] as u64;
        let b1 = field[1] as u64;
        let b2 = field[2] as u64;
        let b3 = field[3] as u64;
        let b4 = field[4] as u64;
        let b5 = field[5] as u64;
        proof {
            lemma_clock_reference(field@);
        }
        assert(((b0 << 26) | (b1 << 18) | (b2 << 10) | (b3 << 2) | (b4 >> 6)) == b0 * 0x400_0000
            + b1 * 0x4_0000 + b2 * 0x400 + b3 * 4 + b4 / 64 && (((b4 & 1) << 8) | b5) == (b4 % 2)
            * 256 + b5) by (bit_vector)
            requires
                b0 < 256,
                b1 < 256,
                b2 < 256,
                b3 < 256,
                b4 < 256,
                b5 < 256,
        ;
        // The first 34 bits are the base, which counts in units of 300; the
        // last 9 bits are the extension. The bits between them are reserved.
        let base: u64 = (b0 << 26) | (b1 << 18) | (b2 << 10) | (b3 << 2) | (b4 >> 6);
        let extension: u64 = ((b4 & 1) << 8) | b5;
        Some(base * 300 + extension)
    }
}

/// Reads a byte as a signed number.
fn to_signed(byte: u8) -> (r: i8)
    ensures
        r == signed_byte(byte),
{
    if byte < 128 {
        byte as i8
    } else {
        (byte as i16 - 256) as i8
    }
}

/// An adaptation field whose length byte is 0: it stands for one byte of
/// stuffing, the length byte itself.
#[derive(Clone, Copy, Debug)]
pub struct StuffingAdaptationField {
    /// The number of stuffing bytes, which is always 1.
    adaptation_field_length: u8,
}

impl View for StuffingAdaptationField {
    type V = u8;

    /// The number of stuffing bytes that the field stands for.
    closed spec fn view(&self) -> u8 {
        self.adaptation_field_length
    }
}

impl StuffingAdaptationField {
    /// Makes a stuffing adaptation field.
    pub fn new() -> (field: StuffingAdaptationField)
        ensures
            field@ == STUFFING_ADAPTATION_FIELD_LENGTH,
    {
        StuffingAdaptationField { adaptation_field_length: STUFFING_ADAPTATION_FIELD_LENGTH }
    }

    /// The number of stuffing bytes that the field stands for.
    pub fn adaptation_field_length(&self) -> (r: u8)
        ensures
            r == self@,
    {
        self.adaptation_field_length
    }
}

/// What an adaptation field holds.
pub enum AdaptationFieldView {
    /// Flags, and the parts that the flags announce.
    Data(DataAdaptationFieldView),
    /// Stuffing of the given number of bytes.
    Stuffing(u8),
}

impl AdaptationFieldView {
    /// The number of bytes that the field takes in its packet, the length
    /// byte included: what the length byte declares and the length byte
    /// itself, or the one byte of a stuffing field.
    pub open spec fn size(self) -> int {
        match self {
            AdaptationFieldView::Data(field) => field.adaptation_field_length + 1,
            AdaptationFieldView::Stuffing(length) => length as int,
        }
    }
}

/// The adaptation field that `bytes` hold, `bytes` being what a packet holds
/// from the length byte of the field on: stuffing where the length byte is 0,
/// else a field with data.
pub open spec fn adaptation_field(bytes: Seq<u8>) -> AdaptationFieldView
    recommends
        bytes.len() > 0,
        bytes[0] != 0 ==> bytes_needed(bytes) <= bytes.len(),
{
    if bytes[0] == 0 {
        AdaptationFieldView::Stuffing(STUFFING_ADAPTATION_FIELD_LENGTH)
    } else {
        AdaptationFieldView::Data(data_adaptation_field(bytes))
    }
}

/// The number of bytes that decoding an adaptation field reads of `bytes`:
/// the length byte alone where it is 0 or missing, else as many as the parts
/// take that the flags announce.
pub open spec fn adaptation_field_needs(bytes: Seq<u8>) -> int {
    if bytes.len() == 0 || bytes[0] == 0 {
        1
    } else {
        bytes_needed(bytes)
    }
}

/// An adaptation field is either full of data or a single byte of stuffing.
/// The second is a field in its own right, since the header announces it, but
/// nothing that works on the data of a field has a meaning for it.
#[derive(Debug)]
pub enum AdaptationField {
    /// A field with flags and the parts that they announce.
    Data(DataAdaptationField),
    /// A field of one byte of stuffing.
    Stuffing(StuffingAdaptationField),
}

impl View for AdaptationField {
    type V = AdaptationFieldView;

    open spec fn view(&self) -> AdaptationFieldView {
        match self {
            AdaptationField::Data(field) => AdaptationFieldView::Data(field@),
            AdaptationField::Stuffing(field) => AdaptationFieldView::Stuffing(field@),
        }
    }
}

impl Clone for AdaptationField {
    fn clone(&self) -> (copy: Self)
        ensures
            copy@ == self@,
    {
        match self {
            AdaptationField::Data(field) => AdaptationField::Data(field.clone()),
            AdaptationField::Stuffing(field) => AdaptationField::Stuffing(*field),
        }
    }
}

impl AdaptationField {
    /// Decodes an adaptation field, `buf` being what the packet holds from
    /// the length byte of the field on. Fails if and only if `buf` ends
    /// before the field does: before the length byte, or before the parts
    /// that the flags of a field with data announce.
    pub fn from_bytes(buf: &[u8]) -> (r: Result<AdaptationField, TruncatedPacket>)
        ensures
            match r {
                Ok(field) => adaptation_field_needs(buf@) <= buf@.len() && field@
                    == adaptation_field(buf@),
                Err(e) => adaptation_field_needs(buf@) > buf@.len() && e.needed
                    == adaptation_field_needs(buf@) && e.available == buf@.len(),
            },
    {
        if buf.len() == 0 {
            return Err(TruncatedPacket { needed: 1, available: 0 });
        }
        if buf[0] == 0 {
            return Ok(AdaptationField::Stuffing(StuffingAdaptationField::new()));
        }
        match DataAdaptationField::from_bytes(buf) {
            Ok(field) => Ok(AdaptationField::Data(field)),
            Err(e) => Err(e),
        }
    }

    /// The number of bytes that the field takes in its packet, the length
    /// byte included.
    pub fn size(&self) -> (r: usize)
        ensures
            r == self@.size(),
    {
        match self {
            AdaptationField::Data(field) => field.adaptation_field_length() as usize + 1,
            AdaptationField::Stuffing(field) => field.adaptation_field_length() as usize,
        }
    }
}

/// A clock reference with base `base` and extension `extension` decodes to
/// 300 times the base plus the extension, whatever its reserved bits hold.
pub proof fn lemma_clock_reference_value(base: nat, reserved: nat, extension: nat)
    requires
        base < 0x4_0000_0000,
        reserved < 32,
        extension < 512,
    ensures
        clock_reference_bytes(base, reserved, extension).len() == 6,
        bit_field(clock_reference_bytes(base, reserved, extension), 0, 34) == base,
        bit_field(clock_reference_bytes(base, reserved, extension), 39, 9) == extension,
        clock_reference(clock_reference_bytes(base, reserved, extension)) == base * 300
            + extension,
{
    let field = clock_reference_bytes(base, reserved, extension);
    lemma_be_value_6(field);
    lemma2_to64();
    lemma2_to64_rest();
    let word = base * 0x4000 + reserved * 512 + extension;
    lemma_word48_parts(base as u64, reserved as u64, extension as u64);
    lemma_word48_bytes(word as u64);
    assert(be_value(field) == word);
}

/// A 48-bit number is the sum of its six bytes, each with its weight.
proof fn lemma_word48_bytes(w: u64)
    by (bit_vector)
    requires
        w < 0x1_0000_0000_0000,
    ensures
        w / 0x100_0000_0000 < 256,
        (w / 0x100_0000_0000) * 0x100_0000_0000 + (w / 0x1_0000_0000 % 256) * 0x1_0000_0000 + (w
            / 0x100_0000 % 256) * 0x100_0000 + (w / 0x1_0000 % 256) * 0x1_0000 + (w / 0x100 % 256)
            * 0x100 + w % 256 == w,
{
}

/// The base and the extension in the 48-bit number that is made of them.
proof fn lemma_word48_parts(base: u64, reserved: u64, extension: u64)
    by (bit_vector)
    requires
        base < 0x4_0000_0000,
        reserved < 32,
        extension < 512,
    ensures
        base * 0x4000 + reserved * 512 + extension < 0x1_0000_0000_0000,
        ((base * 0x4000 + reserved * 512 + extension) / 0x4000) % 0x4_0000_0000 == base,
        ((base * 0x4000 + reserved * 512 + extension) / 1) % 512 == extension,
{
}

/// The flags of an adaptation field in terms of the masks that pick them out
/// of the flags byte.
pub proof fn lemma_flags(bytes: Seq<u8>)
    requires
        bytes.len() >= 2,
    ensures
        flag(bytes, 0) == (bytes[1] & 0x80 != 0),
        flag(bytes, 1) == (bytes[1] & 0x40 != 0),
        flag(bytes, 2) == (bytes[1] & 0x20 != 0),
        flag(bytes, 3) == (bytes[1] & 0x10 != 0),
        flag(bytes, 4) == (bytes[1] & 0x08 != 0),
        flag(bytes, 5) == (bytes[1] & 0x04 != 0),
        flag(bytes, 6) == (bytes[1] & 0x02 != 0),
        flag(bytes, 7) == (bytes[1] & 0x01 != 0),
{
    lemma_be_value_1(bytes.subrange(1, 2));
    lemma2_to64();
    let f = bytes[1];
    assert(((f / 128) % 2 == 1) == (f & 0x80 != 0) && ((f / 64) % 2 == 1) == (f & 0x40 != 0) && ((f
        / 32) % 2 == 1) == (f & 0x20 != 0) && ((f / 16) % 2 == 1) == (f & 0x10 != 0) && ((f / 8) % 2
        == 1) == (f & 0x08 != 0) && ((f / 4) % 2 == 1) == (f & 0x04 != 0) && ((f / 2) % 2 == 1) == (
    f & 0x02 != 0) && ((f / 1) % 2 == 1) == (f & 0x01 != 0)) by (bit_vector);
}

/// The base and the extension of a clock reference as numbers made of its
/// single bytes.
pub proof fn lemma_clock_reference(field: Seq<u8>)
    requires
        field.len() == 6,
    ensures
        bit_field(field, 0, 34) == field[0] * 0x400_0000 + field[1] * 0x4_0000 + field[2] * 0x400
            + field[3] * 4 + field[4] / 64,
        bit_field(field, 39, 9) == (field[4] % 2) * 256 + field[5],
        clock_reference(field) <= u64::MAX,
{
    lemma_be_value_6(field);
    lemma2_to64();
    lemma2_to64_rest();
    lemma_word48_fields(field[0], field[1], field[2], field[3], field[4], field[5]);
}

/// The base and the extension in the 48-bit number that six bytes spell out.
proof fn lemma_word48_fields(b0: u8, b1: u8, b2: u8, b3: u8, b4: u8, b5: u8)
    by (bit_vector)
    ensures
        ({
            let w = b0 as u64 * 0x100_0000_0000u64 + b1 as u64 * 0x1_0000_0000u64 + b2 as u64
                * 0x100_0000u64 + b3 as u64 * 0x1_0000u64 + b4 as u64 * 0x100u64 + b5 as u64;
            &&& (w / 0x4000) % 0x4_0000_0000 == b0 as u64 * 0x400_0000u64 + b1 as u64 * 0x4_0000u64
                + b2 as u64 * 0x400u64 + b3 as u64 * 4u64 + b4 as u64 / 64
            &&& (w / 1) % 512 == (b4 as u64 % 2) * 256 + b5 as u64
        }),
{
}

} // verus!
