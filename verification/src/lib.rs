//! Reads MPEG transport streams: decodes the fixed-size packets of a stream and
//! puts the payloads that span several packets back together.
use vstd::prelude::*;

pub mod bits;
pub mod errors;
pub mod helpers;
pub mod packet;
pub mod reader;
pub mod text;

verus! {

/// Says whether the payload of a packet is scrambled, and with which key.
#[derive(Clone, Copy, Debug, PartialEq, Eq, Structural)]
pub enum TransportScramblingControl {
    /// The payload is not scrambled.
    NoScrambling,
    /// Reserved for future use.
    Reserved,
    /// The payload is scrambled with the even key.
    EvenKey,
    /// The payload is scrambled with the odd key.
    OddKey,
}

impl TransportScramblingControl {
    /// The name of the variant.
    pub open spec fn name_text(self) -> Seq<char> {
        match self {
            TransportScramblingControl::NoScrambling => "NoScrambling"@,
            TransportScramblingControl::Reserved => "Reserved"@,
            TransportScramblingControl::EvenKey => "EvenKey"@,
            TransportScramblingControl::OddKey => "OddKey"@,
        }
    }

    /// The name of the variant.
    pub fn name(&self) -> (r: &'static str)
        ensures
            r@ == self.name_text(),
    {
        match self {
            TransportScramblingControl::NoScrambling => "NoScrambling",
            TransportScramblingControl::Reserved => "Reserved",
            TransportScramblingControl::EvenKey => "EvenKey",
            TransportScramblingControl::OddKey => "OddKey",
        }
    }

    /// The variant that a two-bit field of value `bits` stands for.
    pub open spec fn of_bits(bits: int) -> Self {
        if bits == 0 {
            TransportScramblingControl::NoScrambling
        } else if bits == 1 {
            TransportScramblingControl::Reserved
        } else if bits == 2 {
            TransportScramblingControl::EvenKey
        } else {
            TransportScramblingControl::OddKey
        }
    }

    /// The value of the two-bit field that stands for this variant.
    pub open spec fn bits(self) -> int {
        match self {
            TransportScramblingControl::NoScrambling => 0,
            TransportScramblingControl::Reserved => 1,
            TransportScramblingControl::EvenKey => 2,
            TransportScramblingControl::OddKey => 3,
        }
    }
}

/// Says which of the two sections that may follow the header a packet holds.
#[derive(Clone, Copy, Debug, PartialEq, Eq, Structural)]
pub enum AdaptationFieldControl {
    /// Reserved for future use: neither section is present.
    Reserved,
    /// A payload only.
    Payload,
    /// An adaptation field only.
    AdaptationField,
    /// An adaptation field followed by a payload.
    AdaptationAndPayload,
}

impl AdaptationFieldControl {
    /// The name of the variant.
    pub open spec fn name_text(self) -> Seq<char> {
        match self {
            AdaptationFieldControl::Reserved => "Reserved"@,
            AdaptationFieldControl::Payload => "Payload"@,
            AdaptationFieldControl::AdaptationField => "AdaptationField"@,
            AdaptationFieldControl::AdaptationAndPayload => "AdaptationAndPayload"@,
        }
    }

    /// The name of the variant.
    pub fn name(&self) -> (r: &'static str)
        ensures
            r@ == self.name_text(),
    {
        match self {
            AdaptationFieldControl::Reserved => "Reserved",
            AdaptationFieldControl::Payload => "Payload",
            AdaptationFieldControl::AdaptationField => "AdaptationField",
            AdaptationFieldControl::AdaptationAndPayload => "AdaptationAndPayload",
        }
    }

    /// The variant that a two-bit field of value `bits` stands for.
    pub open spec fn of_bits(bits: int) -> Self {
        if bits == 0 {
            AdaptationFieldControl::Reserved
        } else if bits == 1 {
            AdaptationFieldControl::Payload
        } else if bits == 2 {
            AdaptationFieldControl::AdaptationField
        } else {
            AdaptationFieldControl::AdaptationAndPayload
        }
    }

    /// The value of the two-bit field that stands for this variant.
    pub open spec fn bits(self) -> int {
        match self {
            AdaptationFieldControl::Reserved => 0,
            AdaptationFieldControl::Payload => 1,
            AdaptationFieldControl::AdaptationField => 2,
            AdaptationFieldControl::AdaptationAndPayload => 3,
        }
    }
}

} // verus!
