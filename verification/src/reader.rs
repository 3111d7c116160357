//! Reads the packets of a transport stream, and the payload units that they
//! carry, out of the bytes of the stream.
use crate::errors::no_sync_byte_found::NoSyncByteFound;
use crate::errors::PacketError;
use crate::helpers::tracked_payload::{
    added, after_unit, anchored, complete_unit, has_complete_unit, lemma_after_unit_anchored,
    TrackedPayload, TrackedPayloadView,
};
use crate::packet::header::SYNC_BYTE;
use crate::packet::{decode_packet, TSPacket, TSPacketView, PACKET_SIZE};
use vstd::prelude::*;
use vstd::slice::{slice_subrange, slice_to_vec};
use vstd::string::StringExecFns;

verus! {

/// The state of a reader.
pub struct TSReaderView {
    /// The name of the source, which serves to tell readers apart.
    pub filename: Seq<char>,
    /// The bytes of the stream, as far as the reader was given them.
    pub source: Seq<u8>,
    /// The number of bytes at the begin of `source` that the reader has
    /// given up: it has read them and holds them no longer.
    pub released: int,
    /// The offset in `source` of the next byte to be read.
    pub position: int,
    /// The offset in `source` at which the first packet begins.
    pub sync_alignment: int,
    /// The number of packets that have been read.
    pub packets_read: int,
    /// The packet identifiers that packets are handed out for. All of them
    /// are where it is empty.
    pub tracked_pids: Seq<u16>,
    /// The payloads that wait for their unit to be complete, one entry for
    /// each packet identifier under which a unit has begun.
    pub tracked_payloads: Seq<TrackedPayloadView>,
}

impl TSReaderView {
    /// Whether the state is one that a reader can be in: it has read whole
    /// packets only, from the first confirmed packet boundary on, and none
    /// behind the end of the source; and it has given up no byte that it
    /// has yet to read.
    pub open spec fn wf(self) -> bool {
        &&& is_alignment(self.source, self.sync_alignment)
        &&& 0 <= self.packets_read
        &&& self.position == self.sync_alignment + PACKET_SIZE * self.packets_read
        &&& 0 <= self.released <= self.position <= self.source.len() <= u64::MAX
        &&& trackers_wf(self.tracked_payloads)
    }
}

/// Whether `trackers` are what a reader can keep: for no packet identifier
/// more than one entry, and in every entry at least one payload, the first
/// of which starts a unit.
pub open spec fn trackers_wf(trackers: Seq<TrackedPayloadView>) -> bool {
    &&& forall|i: int|
        0 <= i < trackers.len() ==> (#[trigger] trackers[i]).payloads.len() > 0 && anchored(
            trackers[i].payloads,
        )
    &&& forall|i: int, j: int|
        0 <= i < j < trackers.len() ==> (#[trigger] trackers[i]).pid != (#[trigger] trackers[j]).pid
}

/// Whether a packet boundary is confirmed at `offset`: a sync byte stands
/// there, and another one a packet length behind it. This does not rule out
/// that both are payload bytes which only happen to have that value.
pub open spec fn sync_confirmed(source: Seq<u8>, offset: int) -> bool {
    &&& 0 <= offset
    &&& offset + PACKET_SIZE < source.len()
    &&& source[offset] == SYNC_BYTE
    &&& source[offset + PACKET_SIZE] == SYNC_BYTE
}

/// Whether `offset` is where the packets of `source` are taken to begin: the
/// first offset at which a packet boundary is confirmed.
pub open spec fn is_alignment(source: Seq<u8>, offset: int) -> bool {
    &&& sync_confirmed(source, offset)
    &&& forall|k: int| 0 <= k < offset ==> !sync_confirmed(source, k)
}

/// Whether packets of identifier `pid` are handed out where `tracked_pids`
/// are the ones asked for: always where none was asked for.
pub open spec fn accepts(tracked_pids: Seq<u16>, pid: u16) -> bool {
    tracked_pids.len() == 0 || tracked_pids.contains(pid)
}

/// `pids` without every occurrence of `pid`, the others in their order.
pub open spec fn without(pids: Seq<u16>, pid: u16) -> Seq<u16>
    decreases pids.len(),
{
    if pids.len() == 0 {
        pids
    } else if pids.last() == pid {
        without(pids.drop_last(), pid)
    } else {
        without(pids.drop_last(), pid).push(pids.last())
    }
}

/// Where reading a packet ends, and in what.
pub struct PacketScan {
    /// The offset in the source behind the last packet that was read.
    pub position: int,
    /// The packet that is handed out; `Ok(None)` where the source has no
    /// whole packet left; the error of the packet that could not be decoded.
    pub result: Result<Option<TSPacketView>, PacketError>,
}

/// The bytes of the packet that begins at `position`.
pub open spec fn frame(source: Seq<u8>, position: int) -> Seq<u8> {
    source.subrange(position, position + PACKET_SIZE)
}

/// What asking for the next packet comes to, `position` being where the
/// reader stands in `source`. Packets are read one after the other. The
/// first that cannot be decoded ends the reading with its error, the first
/// whose identifier is asked for ends it as the packet handed out, and the
/// others are passed over. Fewer bytes than a packet has are the end of the
/// stream, and nothing is read of them.
pub open spec fn next_packet_from(source: Seq<u8>, position: int, tracked_pids: Seq<u16>) -> PacketScan
    decreases source.len() - position,
{
    if position < 0 || position + PACKET_SIZE > source.len() {
        PacketScan { position, result: Ok(None) }
    } else {
        match decode_packet(frame(source, position)) {
            Err(e) => PacketScan { position: position + PACKET_SIZE, result: Err(e) },
            Ok(packet) => if accepts(tracked_pids, packet.header.pid) {
                PacketScan { position: position + PACKET_SIZE, result: Ok(Some(packet)) }
            } else {
                next_packet_from(source, position + PACKET_SIZE, tracked_pids)
            },
        }
    }
}

/// Where the packet begins that comes `k` packets behind the one at
/// `position`.
pub open spec fn nth_frame(position: int, k: int) -> int {
    position + PACKET_SIZE * k
}

/// Whether the packet at `position` is read and not handed out: it can be
/// decoded, and its identifier is not asked for.
pub open spec fn passed_over(source: Seq<u8>, position: int, tracked_pids: Seq<u16>) -> bool {
    match decode_packet(frame(source, position)) {
        Ok(packet) => !accepts(tracked_pids, packet.header.pid),
        Err(_) => false,
    }
}

/// What the result of asking for a packet holds.
pub open spec fn packet_result_view(r: Result<Option<TSPacket>, PacketError>) -> Result<
    Option<TSPacketView>,
    PacketError,
> {
    match r {
        Ok(Some(packet)) => Ok(Some(packet@)),
        Ok(None) => Ok(None),
        Err(e) => Err(e),
    }
}

/// Reading a packet ends on a packet boundary at or behind the place where
/// it began, and within the source.
pub proof fn lemma_next_packet_position(source: Seq<u8>, position: int, tracked_pids: Seq<u16>)
    requires
        0 <= position <= source.len(),
    ensures
        position <= next_packet_from(source, position, tracked_pids).position <= source.len(),
        (next_packet_from(source, position, tracked_pids).position - position) % (
        PACKET_SIZE as int) == 0,
        next_packet_from(source, position, tracked_pids).result is Ok && next_packet_from(
            source,
            position,
            tracked_pids,
        ).result->Ok_0 is Some ==> position < next_packet_from(
            source,
            position,
            tracked_pids,
        ).position,
    decreases source.len() - position,
{
    if position + PACKET_SIZE <= source.len() {
        match decode_packet(frame(source, position)) {
            Err(e) => {},
            Ok(packet) => {
                if !accepts(tracked_pids, packet.header.pid) {
                    lemma_next_packet_position(source, position + PACKET_SIZE, tracked_pids);
                }
            },
        }
    }
}

/// Once the end of the stream has been met, it is met again on every
/// further call, at the same place: asking for a packet there reads
/// nothing and hands out nothing.
pub proof fn lemma_end_of_stream_stays(source: Seq<u8>, position: int, tracked_pids: Seq<u16>)
    requires
        0 <= position <= source.len(),
        next_packet_from(source, position, tracked_pids).result == Ok::<
            Option<TSPacketView>,
            PacketError,
        >(None),
    ensures
        next_packet_from(
            source,
            next_packet_from(source, position, tracked_pids).position,
            tracked_pids,
        ) == next_packet_from(source, position, tracked_pids),
    decreases source.len() - position,
{
    if position + PACKET_SIZE <= source.len() {
        match decode_packet(frame(source, position)) {
            Err(e) => {},
            Ok(packet) => {
                if !accepts(tracked_pids, packet.header.pid) {
                    lemma_end_of_stream_stays(source, position + PACKET_SIZE, tracked_pids);
                }
            },
        }
    }
}

/// The index of the first of `trackers` that is kept for `pid`, or their
/// number where none is.
pub open spec fn pid_index(trackers: Seq<TrackedPayloadView>, pid: u16) -> int
    decreases trackers.len(),
{
    if trackers.len() == 0 {
        0
    } else if trackers[0].pid == pid {
        0
    } else {
        1 + pid_index(trackers.drop_first(), pid)
    }
}

/// What is tracked once the payload of `packet` has arrived, and the unit
/// that it has made complete, if it has.
pub struct Tracking {
    /// What is tracked once the payload is taken in.
    pub trackers: Seq<TrackedPayloadView>,
    /// The unit that the payload has made complete.
    pub unit: Option<Seq<u8>>,
}

/// What taking in `packet` comes to where `trackers` are kept. A packet
/// without payload changes nothing. Where payloads are kept for the
/// identifier of the packet, its payload joins them, and where that makes a
/// whole unit the unit is handed out and only what belongs to the next one
/// is kept. Where none are kept for the identifier, the payload is the first
/// to be kept for it if it starts a unit; if it does not, it is dropped,
/// since there is no unit that it could belong to.
pub open spec fn track(trackers: Seq<TrackedPayloadView>, packet: TSPacketView) -> Tracking {
    let pid = packet.header.pid;
    let index = pid_index(trackers, pid);
    match packet.payload {
        None => Tracking { trackers, unit: None },
        Some(payload) => if index < trackers.len() {
            let payloads = added(trackers[index].payloads, payload);
            if has_complete_unit(payloads) {
                Tracking {
                    trackers: trackers.update(
                        index,
                        TrackedPayloadView { pid, payloads: after_unit(payloads) },
                    ),
                    unit: Some(complete_unit(payloads)),
                }
            } else {
                Tracking {
                    trackers: trackers.update(index, TrackedPayloadView { pid, payloads }),
                    unit: None,
                }
            }
        } else if payload.is_start() {
            Tracking {
                trackers: trackers.push(TrackedPayloadView { pid, payloads: seq![payload] }),
                unit: None,
            }
        } else {
            Tracking { trackers, unit: None }
        },
    }
}

/// Taking in a packet leaves what is kept in order: one entry for each
/// packet identifier, each of them beginning with the start of a unit.
pub proof fn lemma_track_keeps_order(trackers: Seq<TrackedPayloadView>, packet: TSPacketView)
    requires
        trackers_wf(trackers),
    ensures
        trackers_wf(track(trackers, packet).trackers),
{
    let pid = packet.header.pid;
    let index = pid_index(trackers, pid);
    let after = track(trackers, packet).trackers;
    lemma_pid_index(trackers, pid);
    if packet.payload is Some {
        let payload = packet.payload->0;
        if index < trackers.len() {
            let payloads = added(trackers[index].payloads, payload);
            assert(payloads[0] == trackers[index].payloads[0]);
            if has_complete_unit(payloads) {
                lemma_after_unit_anchored(payloads);
            }
            assert forall|i: int| 0 <= i < after.len() implies (#[trigger] after[i]).payloads.len()
                > 0 && anchored(after[i].payloads) by {
                if i != index {
                    assert(after[i] == trackers[i]);
                }
            }
            assert forall|i: int, j: int| 0 <= i < j < after.len() implies (#[trigger] after[i]).pid
                != (#[trigger] after[j]).pid by {
                assert(after[i].pid == trackers[i].pid);
                assert(after[j].pid == trackers[j].pid);
            }
        } else if payload.is_start() {
            assert forall|i: int| 0 <= i < after.len() implies (#[trigger] after[i]).payloads.len()
                > 0 && anchored(after[i].payloads) by {
                if i < trackers.len() {
                    assert(after[i] == trackers[i]);
                }
            }
            assert forall|i: int, j: int| 0 <= i < j < after.len() implies (#[trigger] after[i]).pid
                != (#[trigger] after[j]).pid by {
                assert(after[i] == trackers[i]);
                if j < trackers.len() {
                    assert(after[j] == trackers[j]);
                }
            }
        }
    }
}

/// What reading a packet ends in, in terms of the single packets of the
/// stream. Every packet that is passed over can be decoded and has an
/// identifier that is not asked for. A packet that is handed out is what the
/// last packet read decodes to, and its identifier is asked for; an error is
/// the one that decoding the last packet read ends in; and the reading ends
/// without either only where no whole packet is left.
pub proof fn lemma_next_packet_from(source: Seq<u8>, position: int, tracked_pids: Seq<u16>)
    requires
        0 <= position <= source.len(),
    ensures
        ({
            let scan = next_packet_from(source, position, tracked_pids);
            let last = scan.position - PACKET_SIZE;
            &&& match scan.result {
                Ok(Some(packet)) => position <= last && decode_packet(frame(source, last)) == Ok::<
                    TSPacketView,
                    PacketError,
                >(packet) && accepts(tracked_pids, packet.header.pid),
                Ok(None) => scan.position + PACKET_SIZE > source.len(),
                Err(e) => position <= last && decode_packet(frame(source, last)) == Err::<
                    TSPacketView,
                    PacketError,
                >(e),
            }
            &&& forall|k: int|
                0 <= k && nth_frame(position, k) < (if scan.result == Ok::<
                    Option<TSPacketView>,
                    PacketError,
                >(None) {
                    scan.position
                } else {
                    last
                }) ==> passed_over(source, #[trigger] nth_frame(position, k), tracked_pids)
        }),
    decreases source.len() - position,
{
    let scan = next_packet_from(source, position, tracked_pids);
    let last = scan.position - PACKET_SIZE;
    let bound = if scan.result == Ok::<Option<TSPacketView>, PacketError>(None) {
        scan.position
    } else {
        last
    };
    if position + PACKET_SIZE <= source.len() {
        match decode_packet(frame(source, position)) {
            Err(e) => {},
            Ok(packet) => {
                if !accepts(tracked_pids, packet.header.pid) {
                    lemma_next_packet_from(source, position + PACKET_SIZE, tracked_pids);
                    assert forall|k: int| 0 <= k && nth_frame(position, k) < bound implies passed_over(
                        source,
                        #[trigger] nth_frame(position, k),
                        tracked_pids,
                    ) by {
                        if k > 0 {
                            assert(nth_frame(position, k) == nth_frame(
                                position + PACKET_SIZE,
                                k - 1,
                            ));
                        }
                    }
                }
            },
        }
    }
}

/// Where reading a payload unit ends, and in what.
pub struct PayloadScan {
    /// The offset in the source behind the last packet that was read.
    pub position: int,
    /// What is tracked when the reading ends.
    pub trackers: Seq<TrackedPayloadView>,
    /// The unit that is handed out; `Ok(None)` where the stream has ended
    /// before a unit was complete; the error of the packet that could not
    /// be decoded.
    pub result: Result<Option<Seq<u8>>, PacketError>,
}

/// What asking for the next payload unit comes to, `position` being where
/// the reader stands in `source` and `trackers` what it keeps. Packets are
/// read one after the other, and the payload of each one whose identifier
/// is asked for is taken in. The first unit that a payload makes complete
/// ends the reading. So does a packet that cannot be decoded, with its
/// error, and so does the end of the stream.
pub open spec fn next_payload_from(
    source: Seq<u8>,
    position: int,
    tracked_pids: Seq<u16>,
    trackers: Seq<TrackedPayloadView>,
) -> PayloadScan
    decreases source.len() - position,
{
    if position < 0 || position + PACKET_SIZE > source.len() {
        PayloadScan { position, trackers, result: Ok(None) }
    } else {
        match decode_packet(frame(source, position)) {
            Err(e) => PayloadScan { position: position + PACKET_SIZE, trackers, result: Err(e) },
            Ok(packet) => if !accepts(tracked_pids, packet.header.pid) {
                next_payload_from(source, position + PACKET_SIZE, tracked_pids, trackers)
            } else {
                match track(trackers, packet).unit {
                    Some(unit) => PayloadScan {
                        position: position + PACKET_SIZE,
                        trackers: track(trackers, packet).trackers,
                        result: Ok(Some(unit)),
                    },
                    None => next_payload_from(
                        source,
                        position + PACKET_SIZE,
                        tracked_pids,
                        track(trackers, packet).trackers,
                    ),
                }
            },
        }
    }
}

impl TSReaderView {
    /// What asking for the next packet comes to in this state.
    pub open spec fn packet_scan(self) -> PacketScan {
        next_packet_from(self.source, self.position, self.tracked_pids)
    }

    /// The state that asking for the next packet leaves: the reader stands
    /// behind the last packet that it has read, and has counted every one.
    pub open spec fn after_packet(self) -> TSReaderView {
        TSReaderView {
            position: self.packet_scan().position,
            packets_read: self.packets_read + (self.packet_scan().position - self.position) / (
            PACKET_SIZE as int),
            ..self
        }
    }

    /// What asking for the next payload unit comes to in this state.
    pub open spec fn payload_scan(self) -> PayloadScan {
        next_payload_from(self.source, self.position, self.tracked_pids, self.tracked_payloads)
    }

    /// The state that asking for the next payload unit leaves: the reader
    /// stands behind the last packet that it has read, has counted every
    /// one, and keeps the payloads that still wait for their unit.
    pub open spec fn after_payload(self) -> TSReaderView {
        TSReaderView {
            position: self.payload_scan().position,
            packets_read: self.packets_read + (self.payload_scan().position - self.position) / (
            PACKET_SIZE as int),
            tracked_payloads: self.payload_scan().trackers,
            ..self
        }
    }
}

/// What the result of asking for a payload unit holds.
pub open spec fn payload_result_view(r: Result<Option<Vec<u8>>, PacketError>) -> Result<
    Option<Seq<u8>>,
    PacketError,
> {
    match r {
        Ok(Some(unit)) => Ok(Some(unit@)),
        Ok(None) => Ok(None),
        Err(e) => Err(e),
    }
}

/// What `pid_index` finds: the first of `trackers` that is kept for `pid`.
pub proof fn lemma_pid_index(trackers: Seq<TrackedPayloadView>, pid: u16)
    ensures
        0 <= pid_index(trackers, pid) <= trackers.len(),
        pid_index(trackers, pid) < trackers.len() ==> trackers[pid_index(trackers, pid)].pid == pid,
        forall|j: int| 0 <= j < pid_index(trackers, pid) ==> (#[trigger] trackers[j]).pid != pid,
    decreases trackers.len(),
{
    if trackers.len() > 0 && trackers[0].pid != pid {
        let back = trackers.drop_first();
        lemma_pid_index(back, pid);
        assert forall|j: int| 0 <= j < pid_index(trackers, pid) implies (
        #[trigger] trackers[j]).pid != pid by {
            if j > 0 {
                assert(back[j - 1] == trackers[j]);
            }
        }
    }
}

/// Reading a payload unit goes packet by packet: it is what reading the
/// next packet comes to, followed, where a packet is handed out and its
/// payload completes no unit, by reading a payload unit from there.
pub proof fn lemma_next_payload_by_packet(
    source: Seq<u8>,
    position: int,
    tracked_pids: Seq<u16>,
    trackers: Seq<TrackedPayloadView>,
)
    requires
        0 <= position <= source.len(),
    ensures
        next_payload_from(source, position, tracked_pids, trackers) == ({
            let scan = next_packet_from(source, position, tracked_pids);
            match scan.result {
                Err(e) => PayloadScan { position: scan.position, trackers, result: Err(e) },
                Ok(None) => PayloadScan { position: scan.position, trackers, result: Ok(None) },
                Ok(Some(packet)) => match track(trackers, packet).unit {
                    Some(unit) => PayloadScan {
                        position: scan.position,
                        trackers: track(trackers, packet).trackers,
                        result: Ok(Some(unit)),
                    },
                    None => next_payload_from(
                        source,
                        scan.position,
                        tracked_pids,
                        track(trackers, packet).trackers,
                    ),
                },
            }
        }),
    decreases source.len() - position,
{
    if position + PACKET_SIZE <= source.len() {
        match decode_packet(frame(source, position)) {
            Err(e) => {},
            Ok(packet) => {
                if !accepts(tracked_pids, packet.header.pid) {
                    lemma_next_payload_by_packet(
                        source,
                        position + PACKET_SIZE,
                        tracked_pids,
                        trackers,
                    );
                }
            },
        }
    }
}

/// Once the stream has ended before a unit was complete, it ends so again
/// on every further call: asking for a payload unit there reads nothing,
/// hands out nothing and keeps what is kept.
pub proof fn lemma_end_of_payloads_stays(
    source: Seq<u8>,
    position: int,
    tracked_pids: Seq<u16>,
    trackers: Seq<TrackedPayloadView>,
)
    requires
        0 <= position <= source.len(),
        next_payload_from(source, position, tracked_pids, trackers).result == Ok::<
            Option<Seq<u8>>,
            PacketError,
        >(None),
    ensures
        next_payload_from(
            source,
            next_payload_from(source, position, tracked_pids, trackers).position,
            tracked_pids,
            next_payload_from(source, position, tracked_pids, trackers).trackers,
        ) == next_payload_from(source, position, tracked_pids, trackers),
    decreases source.len() - position,
{
    if position + PACKET_SIZE <= source.len() {
        match decode_packet(frame(source, position)) {
            Err(e) => {},
            Ok(packet) => {
                if !accepts(tracked_pids, packet.header.pid) {
                    lemma_end_of_payloads_stays(
                        source,
                        position + PACKET_SIZE,
                        tracked_pids,
                        trackers,
                    );
                } else if track(trackers, packet).unit is None {
                    lemma_end_of_payloads_stays(
                        source,
                        position + PACKET_SIZE,
                        tracked_pids,
                        track(trackers, packet).trackers,
                    );
                }
            },
        }
    }
}

/// What `without` keeps: every packet identifier but the one taken out. So
/// the packets of that one are handed out afterwards only if nothing is
/// asked for any more, and those of every other one as before, unless the
/// one taken out was the last to be asked for.
pub proof fn lemma_without(pids: Seq<u16>, pid: u16)
    ensures
        forall|other: u16| #[trigger]
            without(pids, pid).contains(other) <==> pids.contains(other) && other != pid,
        without(pids, pid).len() <= pids.len(),
        !pids.contains(pid) ==> without(pids, pid) == pids,
    decreases pids.len(),
{
    if pids.len() > 0 {
        let front = pids.drop_last();
        lemma_without(front, pid);
        assert forall|other: u16| #[trigger]
            without(pids, pid).contains(other) <==> pids.contains(other) && other != pid by {
            if pids.contains(other) {
                let i = choose|i: int| 0 <= i < pids.len() && pids[i] == other;
                if i < front.len() {
                    assert(front[i] == other);
                    assert(front.contains(other));
                }
            }
            if front.contains(other) {
                let i = choose|i: int| 0 <= i < front.len() && front[i] == other;
                assert(pids[i] == other);
            }
            if pids.last() != pid {
                let kept = without(front, pid);
                let all = kept.push(pids.last());
                assert(all[kept.len() as int] == pids.last());
                if kept.contains(other) {
                    let i = choose|i: int| 0 <= i < kept.len() && kept[i] == other;
                    assert(all[i] == other);
                }
                if all.contains(other) {
                    let i = choose|i: int| 0 <= i < all.len() && all[i] == other;
                    if i < kept.len() {
                        assert(kept[i] == other);
                    }
                }
            }
        }
        if !pids.contains(pid) {
            assert(pids.last() == pids[pids.len() - 1]);
            assert forall|i: int| 0 <= i < front.len() implies front[i] != pid by {
                assert(pids[i] == front[i]);
            }
            assert(!front.contains(pid));
            assert(without(pids, pid) =~= pids);
        }
    }
}

/// The alignment of a source is that of every source that begins with it:
/// bytes that follow later change nothing in where the first packet begins.
pub proof fn lemma_alignment_of_prefix(source: Seq<u8>, more: Seq<u8>, offset: int)
    requires
        is_alignment(source, offset),
    ensures
        is_alignment(source + more, offset),
{
    let longer = source + more;
    assert forall|k: int| 0 <= k <= offset implies sync_confirmed(longer, k) == sync_confirmed(
        source,
        k,
    ) by {
        assert(longer[k] == source[k]);
        assert(longer[k + PACKET_SIZE] == source[k + PACKET_SIZE]);
    }
}

/// Reading a packet from a source that has grown ends as it did before,
/// unless it ended for want of bytes: then it goes on from where it had
/// stopped. So a reader hands out the same packets whether it is given the
/// stream at once or in pieces.
pub proof fn lemma_next_packet_of_prefix(
    source: Seq<u8>,
    more: Seq<u8>,
    position: int,
    tracked_pids: Seq<u16>,
)
    requires
        0 <= position <= source.len(),
    ensures
        next_packet_from(source + more, position, tracked_pids) == (if next_packet_from(
            source,
            position,
            tracked_pids,
        ).result == Ok::<Option<TSPacketView>, PacketError>(None) {
            next_packet_from(
                source + more,
                next_packet_from(source, position, tracked_pids).position,
                tracked_pids,
            )
        } else {
            next_packet_from(source, position, tracked_pids)
        }),
    decreases source.len() - position,
{
    if position + PACKET_SIZE <= source.len() {
        assert(frame(source + more, position) =~= frame(source, position));
        match decode_packet(frame(source, position)) {
            Err(e) => {},
            Ok(packet) => {
                if !accepts(tracked_pids, packet.header.pid) {
                    lemma_next_packet_of_prefix(
                        source,
                        more,
                        position + PACKET_SIZE,
                        tracked_pids,
                    );
                }
            },
        }
    }
}

/// Reading a payload unit from a source that has grown ends as it did
/// before, unless it ended for want of bytes: then it goes on from where it
/// had stopped, with what was kept there. So a reader hands out the same
/// units whether it is given the stream at once or in pieces.
pub proof fn lemma_next_payload_of_prefix(
    source: Seq<u8>,
    more: Seq<u8>,
    position: int,
    tracked_pids: Seq<u16>,
    trackers: Seq<TrackedPayloadView>,
)
    requires
        0 <= position <= source.len(),
    ensures
        next_payload_from(source + more, position, tracked_pids, trackers) == (
        if next_payload_from(source, position, tracked_pids, trackers).result == Ok::<
            Option<Seq<u8>>,
            PacketError,
        >(None) {
            next_payload_from(
                source + more,
                next_payload_from(source, position, tracked_pids, trackers).position,
                tracked_pids,
                next_payload_from(source, position, tracked_pids, trackers).trackers,
            )
        } else {
            next_payload_from(source, position, tracked_pids, trackers)
        }),
    decreases source.len() - position,
{
    if position + PACKET_SIZE <= source.len() {
        assert(frame(source + more, position) =~= frame(source, position));
        match decode_packet(frame(source, position)) {
            Err(e) => {},
            Ok(packet) => {
                if !accepts(tracked_pids, packet.header.pid) {
                    lemma_next_payload_of_prefix(
                        source,
                        more,
                        position + PACKET_SIZE,
                        tracked_pids,
                        trackers,
                    );
                } else if track(trackers, packet).unit is None {
                    lemma_next_payload_of_prefix(
                        source,
                        more,
                        position + PACKET_SIZE,
                        tracked_pids,
                        track(trackers, packet).trackers,
                    );
                }
            },
        }
    }
}

/// A source has one alignment at most: of two offsets at which a packet
/// boundary is confirmed, only the smaller one can be the first.
pub proof fn lemma_alignment_is_unique(source: Seq<u8>, first: int, second: int)
    requires
        is_alignment(source, first),
        is_alignment(source, second),
    ensures
        first == second,
{
}

/// Asking for a packet once the stream has ended changes nothing and ends
/// the same way: however often it is asked, the reader stays where it is and
/// hands out nothing.
pub proof fn lemma_no_packet_after_the_end(state: TSReaderView)
    requires
        state.wf(),
        state.packet_scan().result == Ok::<Option<TSPacketView>, PacketError>(None),
    ensures
        state.after_packet().wf(),
        state.after_packet().packet_scan().result == Ok::<Option<TSPacketView>, PacketError>(None),
        state.after_packet().after_packet() == state.after_packet(),
{
    lemma_next_packet_position(state.source, state.position, state.tracked_pids);
    lemma_end_of_stream_stays(state.source, state.position, state.tracked_pids);
    lemma_packet_count(state, state.packet_scan().position);
}

/// Asking for a payload unit once the stream has ended changes nothing and
/// ends the same way.
pub proof fn lemma_no_payload_after_the_end(state: TSReaderView)
    requires
        state.wf(),
        state.payload_scan().result == Ok::<Option<Seq<u8>>, PacketError>(None),
    ensures
        state.after_payload().payload_scan().result == Ok::<Option<Seq<u8>>, PacketError>(None),
        state.after_payload().after_payload() == state.after_payload(),
{
    lemma_end_of_payloads_stays(
        state.source,
        state.position,
        state.tracked_pids,
        state.tracked_payloads,
    );
}

/// A reader that stands on a packet boundary has read as many packets as
/// lie between the first packet and the place where it stands.
proof fn lemma_packet_count(state: TSReaderView, position: int)
    requires
        state.wf(),
        state.position <= position,
        (position - state.position) % (PACKET_SIZE as int) == 0,
    ensures
        position == state.sync_alignment + PACKET_SIZE * (state.packets_read + (position
            - state.position) / (PACKET_SIZE as int)),
{
}

/// A stretch of the source that is made of whole packets holds as many of
/// them as its length says.
proof fn lemma_whole_packets(length: int, count: int)
    requires
        length == PACKET_SIZE * count,
    ensures
        length / (PACKET_SIZE as int) == count,
        length % (PACKET_SIZE as int) == 0,
{
}

/// Reads a transport stream packet by packet. The bytes of the stream can
/// be handed to the reader all at once or piece by piece, as they arrive,
/// and the reader can be told to give up those that it has read.
pub struct TSReader {
    /// The name of the source.
    filename: String,
    /// The bytes of the stream that the reader has given up.
    released: Ghost<Seq<u8>>,
    /// The bytes of the stream that the reader holds: those that it was
    /// given and has not given up.
    held: Vec<u8>,
    /// The offset in `held` of the next byte to be read.
    position: usize,
    /// The offset of the first confirmed sync byte: every packet begins a
    /// multiple of the packet size behind it.
    sync_alignment: u64,
    /// The number of packets that have been read.
    packets_read: u64,
    /// The packet identifiers that packets and payloads are handed out for.
    /// Where it is empty they are handed out for every identifier, at the
    /// price of keeping more unfinished payloads.
    tracked_pids: Vec<u16>,
    /// The payloads that wait for their unit to be complete.
    tracked_payloads: Vec<TrackedPayload>,
}

/// Looks for the place where the packets of `source` begin: the first sync
/// byte that is followed by another one a packet length later. Finds none
/// if and only if `source` holds no such pair.
pub fn find_alignment(source: &[u8]) -> (r: Option<usize>)
    ensures
        match r {
            Some(offset) => is_alignment(source@, offset as int),
            None => forall|k: int| !sync_confirmed(source@, k),
        },
{
    let length = source.len();
    let mut offset: usize = 0;
    while offset < length && length - offset > PACKET_SIZE
        invariant
            length == source@.len(),
            offset <= length,
            forall|k: int| 0 <= k < offset ==> !sync_confirmed(source@, k),
        decreases length - offset,
    {
        // A sync byte counts only if the byte one packet later is one too.
        // Where it is not, the search goes on with the very next byte.
        if source[offset] == SYNC_BYTE && source[offset + PACKET_SIZE] == SYNC_BYTE {
            return Some(offset);
        }
        offset += 1;
    }
    None
}

/// What every one of `trackers` holds.
pub open spec fn tracker_views(trackers: Seq<TrackedPayload>) -> Seq<TrackedPayloadView> {
    Seq::new(trackers.len(), |i: int| trackers[i]@)
}

impl View for TSReader {
    type V = TSReaderView;

    closed spec fn view(&self) -> TSReaderView {
        TSReaderView {
            filename: self.filename@,
            source: self.released@ + self.held@,
            released: self.released@.len() as int,
            position: self.released@.len() + self.position,
            sync_alignment: self.sync_alignment as int,
            packets_read: self.packets_read as int,
            tracked_pids: self.tracked_pids@,
            tracked_payloads: tracker_views(self.tracked_payloads@),
        }
    }
}

impl TSReader {
    /// Makes a reader of the bytes of a stream, or of the bytes that it
    /// begins with. Looks for the first sync byte that is followed by
    /// another one a packet length later, and takes it for the begin of the
    /// first packet. Fails if and only if the source holds no such pair.
    pub fn new(filename: &str, source: Vec<u8>) -> (r: Result<Self, NoSyncByteFound>)
        ensures
            match r {
                Ok(reader) => {
                    &&& reader@.wf()
                    &&& is_alignment(source@, reader@.sync_alignment)
                    &&& reader@ == (TSReaderView {
                        filename: filename@,
                        source: source@,
                        released: 0,
                        position: reader@.sync_alignment,
                        sync_alignment: reader@.sync_alignment,
                        packets_read: 0,
                        tracked_pids: Seq::empty(),
                        tracked_payloads: Seq::empty(),
                    })
                },
                Err(_) => forall|k: int| !sync_confirmed(source@, k),
            },
    {
        let offset = match find_alignment(source.as_slice()) {
            Some(offset) => offset,
            None => {
                return Err(NoSyncByteFound);
            },
        };
        assert(source@.len() <= u64::MAX) by {
            assert(source@.len() == source.len());
        }
        let reader = TSReader {
            filename: String::from_str(filename),
            released: Ghost(Seq::empty()),
            held: source,
            position: offset,
            sync_alignment: offset as u64,
            packets_read: 0,
            tracked_pids: Vec::new(),
            tracked_payloads: Vec::new(),
        };
        assert(reader@.tracked_payloads =~= Seq::<TrackedPayloadView>::empty());
        assert(reader@.source =~= source@);
        Ok(reader)
    }

    /// Whether packets of identifier `pid` are handed out.
    pub fn is_tracked(&self, pid: u16) -> (r: bool)
        ensures
            r == accepts(self@.tracked_pids, pid),
    {
        let count = self.tracked_pids.len();
        if count == 0 {
            return true;
        }
        let mut idx: usize = 0;
        while idx < count
            invariant
                idx <= count,
                count == self.tracked_pids@.len(),
                forall|j: int| 0 <= j < idx ==> self.tracked_pids@[j] != pid,
            decreases count - idx,
        {
            if self.tracked_pids[idx] == pid {
                return true;
            }
            idx += 1;
        }
        false
    }

    /// Reads packets until one can be handed out: the next one whose packet
    /// identifier is asked for. `Ok(None)` says that the stream has ended:
    /// fewer bytes are left than a packet has. A packet that cannot be
    /// decoded ends the call with its error; it counts as read, and the next
    /// call goes on behind it.
    #[verifier::rlimit(40)]
    pub fn next_packet(&mut self) -> (r: Result<Option<TSPacket>, PacketError>)
        requires
            old(self)@.wf(),
        ensures
            final(self)@.wf(),
            packet_result_view(r) == old(self)@.packet_scan().result,
            final(self)@ == old(self)@.after_packet(),
    {
        let ghost scan = next_packet_from(self@.source, self@.position, self@.tracked_pids);
        loop
            invariant
                self@.wf(),
                self@ == (TSReaderView {
                    position: self@.position,
                    packets_read: self@.packets_read,
                    ..old(self)@
                }),
                old(self)@.position <= self@.position,
                self@.position - old(self)@.position == PACKET_SIZE * (self@.packets_read - old(
                    self,
                )@.packets_read),
                scan == next_packet_from(self@.source, self@.position, self@.tracked_pids),
                scan == next_packet_from(
                    old(self)@.source,
                    old(self)@.position,
                    old(self)@.tracked_pids,
                ),
            decreases self@.source.len() - self@.position,
        {
            proof {
                lemma_whole_packets(
                    self@.position - old(self)@.position,
                    self@.packets_read - old(self)@.packets_read,
                );
            }
            let length = self.held.len();
            if length - self.position < PACKET_SIZE {
                return Ok(None);
            }
            let start = self.position;
            assert(self.held@.subrange(start as int, start + PACKET_SIZE) =~= frame(
                self@.source,
                self@.position,
            ));
            let result = TSPacket::from_bytes(
                slice_subrange(self.held.as_slice(), start, start + PACKET_SIZE),
            );
            self.position = start + PACKET_SIZE;
            self.packets_read += 1;
            proof {
                lemma_whole_packets(
                    self@.position - old(self)@.position,
                    self@.packets_read - old(self)@.packets_read,
                );
            }
            let packet = match result {
                Ok(packet) => packet,
                Err(e) => {
                    return Err(e);
                },
            };
            // Packets that were not asked for are read and passed over.
            if self.is_tracked(packet.header().pid()) {
                return Ok(Some(packet));
            }
        }
    }

    /// Reads the next packet as `next_packet` does, and hands out nothing
    /// where `next_packet` fails.
    pub fn next_packet_unchecked(&mut self) -> (r: Option<TSPacket>)
        requires
            old(self)@.wf(),
        ensures
            final(self)@.wf(),
            match old(self)@.packet_scan().result {
                Ok(Some(packet)) => r is Some && r->0@ == packet,
                _ => r is None,
            },
            final(self)@ == old(self)@.after_packet(),
    {
        match self.next_packet() {
            Ok(packet) => packet,
            Err(_) => None,
        }
    }

    /// Takes in the payload of a packet, and hands out the unit that it has
    /// made complete, if it has.
    pub fn add_tracked_payload(&mut self, packet: &TSPacket) -> (r: Option<Vec<u8>>)
        ensures
            match r {
                Some(unit) => track(old(self)@.tracked_payloads, packet@).unit == Some(unit@),
                None => track(old(self)@.tracked_payloads, packet@).unit is None,
            },
            final(self)@ == (TSReaderView {
                tracked_payloads: track(old(self)@.tracked_payloads, packet@).trackers,
                ..old(self)@
            }),
            old(self)@.wf() ==> final(self)@.wf(),
    {
        proof {
            if self@.wf() {
                lemma_track_keeps_order(self@.tracked_payloads, packet@);
            }
        }
        let payload = match packet.payload() {
            Some(payload) => payload,
            None => {
                return None;
            },
        };
        let pid = packet.header().pid();
        let ghost before = tracker_views(self.tracked_payloads@);
        // Is anything kept for this packet identifier yet?
        let count = self.tracked_payloads.len();
        let mut index: usize = 0;
        while index < count && self.tracked_payloads[index].pid() != pid
            invariant
                index <= count,
                count == self.tracked_payloads@.len(),
                before == tracker_views(self.tracked_payloads@),
                forall|j: int| 0 <= j < index ==> (#[trigger] before[j]).pid != pid,
            decreases count - index,
        {
            index += 1;
        }
        proof {
            lemma_pid_index(before, pid);
        }
        if index < count {
            assert(before[index as int].pid == pid);
            assert(pid_index(before, pid) == index);
            let tracker = &mut self.tracked_payloads[index];
            assert(tracker@ == before[index as int]);
            let unit = tracker.add_and_get_complete(&payload);
            assert(tracker_views(self.tracked_payloads@) =~= before.update(
                index as int,
                self.tracked_payloads@[index as int]@,
            ));
            return unit;
        }
        // One packet alone never holds a unit that is known to be whole:
        // only the start of the next unit shows where a unit ends. So there
        // is nothing to hand out when the first payload arrives.
        if payload.is_start() {
            let mut tracker = TrackedPayload::new(pid);
            tracker.add(&payload);
            self.tracked_payloads.push(tracker);
            assert(tracker@.payloads =~= seq![payload@]);
            assert(tracker_views(self.tracked_payloads@) =~= track(before, packet@).trackers);
        }
        None
    }

    /// Reads packets until the payload of one makes a unit complete, and
    /// hands out that unit. `Ok(None)` says that the stream has ended before
    /// a unit was complete. A packet that cannot be decoded ends the call
    /// with its error.
    #[verifier::rlimit(40)]
    pub fn next_payload(&mut self) -> (r: Result<Option<Vec<u8>>, PacketError>)
        requires
            old(self)@.wf(),
        ensures
            final(self)@.wf(),
            payload_result_view(r) == old(self)@.payload_scan().result,
            final(self)@ == old(self)@.after_payload(),
    {
        let ghost scan = next_payload_from(
            self@.source,
            self@.position,
            self@.tracked_pids,
            self@.tracked_payloads,
        );
        loop
            invariant
                self@.wf(),
                self@ == (TSReaderView {
                    position: self@.position,
                    packets_read: self@.packets_read,
                    tracked_payloads: self@.tracked_payloads,
                    ..old(self)@
                }),
                old(self)@.position <= self@.position,
                self@.position - old(self)@.position == PACKET_SIZE * (self@.packets_read - old(
                    self,
                )@.packets_read),
                scan == next_payload_from(
                    self@.source,
                    self@.position,
                    self@.tracked_pids,
                    self@.tracked_payloads,
                ),
                scan == next_payload_from(
                    old(self)@.source,
                    old(self)@.position,
                    old(self)@.tracked_pids,
                    old(self)@.tracked_payloads,
                ),
            decreases self@.source.len() - self@.position,
        {
            proof {
                lemma_next_payload_by_packet(
                    self@.source,
                    self@.position,
                    self@.tracked_pids,
                    self@.tracked_payloads,
                );
                lemma_next_packet_position(self@.source, self@.position, self@.tracked_pids);
            }
            let ghost before = self@;
            let result = self.next_packet();
            proof {
                lemma_whole_packets(
                    self@.position - before.position,
                    self@.packets_read - before.packets_read,
                );
                lemma_whole_packets(
                    self@.position - old(self)@.position,
                    self@.packets_read - old(self)@.packets_read,
                );
            }
            let possible_packet = match result {
                Ok(packet) => packet,
                Err(e) => {
                    return Err(e);
                },
            };
            let packet = match possible_packet {
                Some(packet) => packet,
                None => {
                    return Ok(None);
                },
            };
            // Take in the payload of the packet, and see whether it has made
            // a unit complete.
            let payload = self.add_tracked_payload(&packet);
            if payload.is_some() {
                return Ok(payload);
            }
        }
    }

    /// Reads the next payload unit as `next_payload` does, and hands out
    /// nothing where `next_payload` fails.
    pub fn next_payload_unchecked(&mut self) -> (r: Option<Vec<u8>>)
        requires
            old(self)@.wf(),
        ensures
            final(self)@.wf(),
            match old(self)@.payload_scan().result {
                Ok(Some(unit)) => r is Some && r->0@ == unit,
                _ => r is None,
            },
            final(self)@ == old(self)@.after_payload(),
    {
        match self.next_payload() {
            Ok(payload) => payload,
            Err(_) => None,
        }
    }

    /// Hands the reader the bytes that follow in the stream on those it was
    /// given before. What was the end of the stream is its end no longer:
    /// the next call for a packet goes on where the last one stopped.
    pub fn push_bytes(&mut self, bytes: &[u8])
        requires
            old(self)@.wf(),
            old(self)@.source.len() + bytes@.len() <= u64::MAX,
        ensures
            final(self)@.wf(),
            final(self)@ == (TSReaderView { source: old(self)@.source + bytes@, ..old(self)@ }),
    {
        proof {
            lemma_alignment_of_prefix(self@.source, bytes@, self@.sync_alignment);
        }
        let mut more = slice_to_vec(bytes);
        self.held.append(&mut more);
        assert(self@.source =~= old(self)@.source + bytes@);
    }

    /// Gives up the bytes that have been read. Nothing changes in what the
    /// reader hands out afterwards; it holds fewer bytes.
    pub fn release(&mut self)
        requires
            old(self)@.wf(),
        ensures
            final(self)@.wf(),
            final(self)@ == (TSReaderView { released: old(self)@.position, ..old(self)@ }),
    {
        let rest = self.held.split_off(self.position);
        self.released = Ghost(self.released@ + self.held@);
        self.held = rest;
        self.position = 0;
        assert(self@.source =~= old(self)@.source);
    }

    /// The number of bytes that the reader holds: those that it was given
    /// and has not given up.
    pub fn held(&self) -> (r: usize)
        ensures
            r == self@.source.len() - self@.released,
    {
        self.held.len()
    }

    /// The name of the source, as it was given when the reader was made.
    pub fn filename(&self) -> (r: &str)
        ensures
            r@ == self@.filename,
    {
        self.filename.as_str()
    }

    /// The offset in the source of the first sync byte that was confirmed:
    /// where the first packet begins.
    pub fn sync_byte_alignment(&self) -> (r: u64)
        ensures
            r == self@.sync_alignment,
    {
        self.sync_alignment
    }

    /// The number of packets that have been read so far, those that were
    /// not handed out included.
    pub fn packets_read(&self) -> (r: u64)
        ensures
            r == self@.packets_read,
    {
        self.packets_read
    }

    /// Asks for the packets of one more packet identifier. Once one is asked
    /// for, packets are handed out for none but those asked for.
    pub fn add_tracked_pid(&mut self, pid: u16)
        ensures
            final(self)@ == (TSReaderView {
                tracked_pids: old(self)@.tracked_pids.push(pid),
                ..old(self)@
            }),
    {
        self.tracked_pids.push(pid);
    }

    /// Asks no longer for the packets of `pid`. When the last one asked for
    /// is taken back, packets are handed out for every identifier again.
    pub fn remove_tracked_pid(&mut self, pid: u16)
        ensures
            final(self)@ == (TSReaderView {
                tracked_pids: without(old(self)@.tracked_pids, pid),
                ..old(self)@
            }),
    {
        let mut kept: Vec<u16> = Vec::new();
        let count = self.tracked_pids.len();
        let mut idx: usize = 0;
        assert(self.tracked_pids@.subrange(0, 0) =~= Seq::<u16>::empty());
        while idx < count
            invariant
                idx <= count,
                count == self.tracked_pids@.len(),
                kept@ == without(self.tracked_pids@.subrange(0, idx as int), pid),
            decreases count - idx,
        {
            assert(self.tracked_pids@.subrange(0, idx + 1).drop_last()
                =~= self.tracked_pids@.subrange(0, idx as int));
            if self.tracked_pids[idx] != pid {
                kept.push(self.tracked_pids[idx]);
            }
            idx += 1;
        }
        assert(self.tracked_pids@.subrange(0, count as int) =~= self.tracked_pids@);
        self.tracked_pids = kept;
    }
}

} // verus!
