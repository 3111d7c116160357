//! The payload of a transport stream packet.
use crate::errors::invalid_payload_pointer::InvalidPayloadPointer;
use crate::errors::payload_is_not_start::PayloadIsNotStart;
use vstd::prelude::*;
use vstd::slice::{slice_subrange, slice_to_vec};

verus! {

/// What a payload holds.
pub struct TSPayloadView {
    /// The bytes of the payload, without the payload pointer.
    pub data: Seq<u8>,
    /// The payload pointer, where the payload starts a new unit: the number
    /// of bytes of `data` that still belong to the unit before.
    pub start_index: Option<u8>,
    /// The continuity counter of the packet that the payload came in.
    pub continuity_counter: u8,
}

impl TSPayloadView {
    /// Whether a new unit starts in this payload.
    pub open spec fn is_start(self) -> bool {
        self.start_index is Some
    }

    /// The number of bytes of `data` that belong to the unit that was under
    /// way when the payload arrived: all of them where no new unit starts,
    /// else as many as the payload pointer says, and never more than there
    /// are.
    pub open spec fn split(self) -> int {
        match self.start_index {
            Some(index) => if index as int <= self.data.len() {
                index as int
            } else {
                self.data.len() as int
            },
            None => self.data.len() as int,
        }
    }

    /// The bytes that belong to the unit that was under way when the payload
    /// arrived.
    pub open spec fn current_data(self) -> Seq<u8> {
        self.data.subrange(0, self.split())
    }

    /// The bytes that belong to the unit that starts in this payload.
    pub open spec fn start_data(self) -> Seq<u8> {
        self.data.subrange(self.split(), self.data.len() as int)
    }
}

/// The payload that `bytes` hold, the bytes being what is left of a packet
/// behind its header and adaptation field. Where `pusi` says that a unit
/// starts, the first byte is the payload pointer and the data come after it.
pub open spec fn payload_of(pusi: bool, continuity_counter: u8, bytes: Seq<u8>) -> TSPayloadView
    recommends
        pusi ==> bytes.len() > 0,
{
    if pusi {
        TSPayloadView {
            data: bytes.subrange(1, bytes.len() as int),
            start_index: Some(bytes[0]),
            continuity_counter,
        }
    } else {
        TSPayloadView { data: bytes, start_index: None, continuity_counter }
    }
}

/// Whether the payload pointer that `bytes` start with points past the end
/// of the packet, `bytes` being all that is left of it.
pub open spec fn pointer_out_of_range(pusi: bool, bytes: Seq<u8>) -> bool {
    pusi && bytes.len() > 0 && bytes[0] as int > bytes.len()
}

/// The payload of a transport stream packet.
#[derive(Debug)]
pub struct TSPayload {
    /// The bytes of the payload, without the payload pointer.
    data: Vec<u8>,
    /// Where in `data` a new unit starts. `None` where none does.
    start_index: Option<u8>,
    /// The continuity counter of the packet that the payload came in, so
    /// that payloads can be put in order without their packets.
    continuity_counter: u8,
}

impl View for TSPayload {
    type V = TSPayloadView;

    closed spec fn view(&self) -> TSPayloadView {
        TSPayloadView {
            data: self.data@,
            start_index: self.start_index,
            continuity_counter: self.continuity_counter,
        }
    }
}

impl Clone for TSPayload {
    fn clone(&self) -> (copy: Self)
        ensures
            copy@ == self@,
    {
        TSPayload {
            data: slice_to_vec(self.data.as_slice()),
            start_index: self.start_index,
            continuity_counter: self.continuity_counter,
        }
    }
}

impl TSPayload {
    /// Makes a payload of the bytes that a packet has left behind its header
    /// and adaptation field. The payload pointer is taken as it stands.
    pub fn from_bytes(pusi: bool, continuity_counter: u8, payload_data: Vec<u8>) -> (payload:
        TSPayload)
        requires
            pusi ==> payload_data@.len() > 0,
        ensures
            payload@ == payload_of(pusi, continuity_counter, payload_data@),
    {
        if pusi {
            let mut data = payload_data;
            let start_index = data.remove(0);
            assert(data@ =~= payload_data@.subrange(1, payload_data@.len() as int));
            TSPayload { data, start_index: Some(start_index), continuity_counter }
        } else {
            TSPayload { data: payload_data, start_index: None, continuity_counter }
        }
    }

    /// Makes a payload as `from_bytes` does, unless the payload pointer is
    /// larger than the number of bytes handed in: such a pointer is refused.
    pub fn try_from_bytes(pusi: bool, continuity_counter: u8, payload_data: Vec<u8>) -> (r: Result<
        TSPayload,
        InvalidPayloadPointer,
    >)
        requires
            pusi ==> payload_data@.len() > 0,
        ensures
            match r {
                Ok(payload) => !pointer_out_of_range(pusi, payload_data@) && payload@
                    == payload_of(pusi, continuity_counter, payload_data@),
                Err(e) => pointer_out_of_range(pusi, payload_data@) && e.pointer == payload_data@[0]
                    && e.remainder == payload_data@.len(),
            },
    {
        if pusi {
            let pointer = payload_data[0];
            let remainder = payload_data.len();
            if pointer as usize > remainder {
                return Err(InvalidPayloadPointer { pointer, remainder: remainder as u8 });
            }
        }
        Ok(TSPayload::from_bytes(pusi, continuity_counter, payload_data))
    }

    /// The bytes of the payload, without the payload pointer.
    pub fn data(&self) -> (r: &Vec<u8>)
        ensures
            r@ == self@.data,
    {
        &self.data
    }

    /// The continuity counter of the packet that the payload came in.
    pub fn continuity_counter(&self) -> (r: u8)
        ensures
            r == self@.continuity_counter,
    {
        self.continuity_counter
    }

    /// The payload pointer, where a new unit starts in this payload.
    pub fn start_index(&self) -> (r: Option<u8>)
        ensures
            r == self@.start_index,
    {
        self.start_index
    }

    /// Whether a new unit starts in this payload.
    pub fn is_start(&self) -> (r: bool)
        ensures
            r == self@.is_start(),
    {
        self.start_index.is_some()
    }

    /// The number of bytes of the payload that belong to the unit that was
    /// under way when it arrived.
    fn split(&self) -> (r: usize)
        ensures
            r == self@.split(),
            r <= self@.data.len(),
    {
        match self.start_index {
            Some(index) => if index as usize <= self.data.len() {
                index as usize
            } else {
                self.data.len()
            },
            None => self.data.len(),
        }
    }

    /// The bytes that belong to the unit that was under way when the payload
    /// arrived: those before the payload pointer, or all of them where no
    /// new unit starts.
    pub fn get_current_data(&self) -> (r: Vec<u8>)
        ensures
            r@ == self@.current_data(),
    {
        let split = self.split();
        slice_to_vec(slice_subrange(self.data.as_slice(), 0, split))
    }

    /// The bytes that belong to the unit that starts in this payload: those
    /// from the payload pointer on. Fails if and only if no unit starts here.
    pub fn get_start_data(&self) -> (r: Result<Vec<u8>, PayloadIsNotStart>)
        ensures
            match r {
                Ok(data) => self@.is_start() && data@ == self@.start_data(),
                Err(_) => !self@.is_start(),
            },
    {
        if self.start_index.is_none() {
            return Err(PayloadIsNotStart);
        }
        let split = self.split();
        Ok(slice_to_vec(slice_subrange(self.data.as_slice(), split, self.data.len())))
    }
}

} // verus!
