//! The payloads of one packet identifier that wait for their unit to be
//! complete.
use crate::errors::no_payload::NoPayload;
use crate::packet::payload::{TSPayload, TSPayloadView};
use crate::packet::TSPacket;
use vstd::prelude::*;

verus! {

/// What is tracked for one packet identifier.
pub struct TrackedPayloadView {
    /// The packet identifier that the payloads came under.
    pub pid: u16,
    /// The payloads, in the order in which they arrived.
    pub payloads: Seq<TSPayloadView>,
}

/// Whether the first of `payloads`, if there is one, starts a unit. Payloads
/// that arrive before any unit has started are not kept, so this holds of
/// everything that is tracker.
pub open spec fn anchored(payloads: Seq<TSPayloadView>) -> bool {
    payloads.len() > 0 ==> payloads[0].is_start()
}

/// `payloads` after `payload` has arrived: it is dropped where no unit has
/// started yet and it starts none, and put at the end in every other case.
pub open spec fn added(payloads: Seq<TSPayloadView>, payload: TSPayloadView) -> Seq<
    TSPayloadView,
> {
    if !payload.is_start() && payloads.len() == 0 {
        payloads
    } else {
        payloads.push(payload)
    }
}

/// The index of the last of `payloads` that starts a unit, or -1 where none
/// does.
pub open spec fn last_start(payloads: Seq<TSPayloadView>) -> int
    decreases payloads.len(),
{
    if payloads.len() == 0 {
        -1
    } else if payloads.last().is_start() {
        payloads.len() - 1
    } else {
        last_start(payloads.drop_last())
    }
}

/// The index of the first of `payloads` that starts a unit, or their number
/// where none does.
pub open spec fn first_start(payloads: Seq<TSPayloadView>) -> int
    decreases payloads.len(),
{
    if payloads.len() == 0 {
        0
    } else if payloads[0].is_start() {
        0
    } else {
        1 + first_start(payloads.drop_first())
    }
}

/// Whether `payloads` hold a whole unit: behind the first start a second
/// one has arrived, so the unit that began at the first has ended.
pub open spec fn has_complete_unit(payloads: Seq<TSPayloadView>) -> bool {
    first_start(payloads) < last_start(payloads)
}

/// The bytes of `payloads` one after the other.
pub open spec fn joined(payloads: Seq<TSPayloadView>) -> Seq<u8>
    decreases payloads.len(),
{
    if payloads.len() == 0 {
        Seq::empty()
    } else {
        joined(payloads.drop_last()) + payloads.last().data
    }
}

/// The unit that `payloads` hold: what the payload of the first start holds
/// from its pointer on, all of every payload between the first and the last
/// start, and what the payload of the last start holds before its pointer.
pub open spec fn complete_unit(payloads: Seq<TSPayloadView>) -> Seq<u8>
    recommends
        has_complete_unit(payloads),
{
    let first = first_start(payloads);
    let last = last_start(payloads);
    payloads[first].start_data() + joined(payloads.subrange(first + 1, last))
        + payloads[last].current_data()
}

/// What stays of `payloads` when their unit has been taken out: the payload
/// of the last start, which holds the begin of the next unit, with what came
/// behind it, and what came before the first start.
pub open spec fn after_unit(payloads: Seq<TSPayloadView>) -> Seq<TSPayloadView>
    recommends
        has_complete_unit(payloads),
{
    payloads.subrange(0, first_start(payloads)) + payloads.subrange(
        last_start(payloads),
        payloads.len() as int,
    )
}

/// What `first_start` finds: a payload that starts a unit and has none
/// before it that does, or nothing where no payload starts one.
pub proof fn lemma_first_start(payloads: Seq<TSPayloadView>)
    ensures
        0 <= first_start(payloads) <= payloads.len(),
        first_start(payloads) < payloads.len() ==> payloads[first_start(payloads)].is_start(),
        forall|j: int| 0 <= j < first_start(payloads) ==> !(#[trigger] payloads[j]).is_start(),
        anchored(payloads) && payloads.len() > 0 ==> first_start(payloads) == 0,
    decreases payloads.len(),
{
    if payloads.len() > 0 && !payloads[0].is_start() {
        let back = payloads.drop_first();
        lemma_first_start(back);
        assert forall|j: int| 0 <= j < first_start(payloads) implies !(
        #[trigger] payloads[j]).is_start() by {
            if j > 0 {
                assert(back[j - 1] == payloads[j]);
            }
        }
    }
}

/// The index that `first_start` gives is the only one with its property.
pub proof fn lemma_first_start_is(payloads: Seq<TSPayloadView>, i: int)
    requires
        0 <= i <= payloads.len(),
        i < payloads.len() ==> payloads[i].is_start(),
        forall|j: int| 0 <= j < i ==> !(#[trigger] payloads[j]).is_start(),
    ensures
        first_start(payloads) == i,
{
    lemma_first_start(payloads);
}

/// What `last_start` finds: a payload that starts a unit and has none behind
/// it that does, or nothing where no payload starts one.
pub proof fn lemma_last_start(payloads: Seq<TSPayloadView>)
    ensures
        -1 <= last_start(payloads) < payloads.len(),
        last_start(payloads) >= 0 ==> payloads[last_start(payloads)].is_start(),
        forall|j: int| last_start(payloads) < j < payloads.len() ==> !(#[trigger] payloads[j]).is_start(),
    decreases payloads.len(),
{
    if payloads.len() > 0 && !payloads.last().is_start() {
        let front = payloads.drop_last();
        lemma_last_start(front);
        assert forall|j: int| last_start(payloads) < j < payloads.len() implies !(
        #[trigger] payloads[j]).is_start() by {
            if j < front.len() {
                assert(front[j] == payloads[j]);
            }
        }
    }
}

/// The index that `last_start` gives is the only one with its property.
pub proof fn lemma_last_start_is(payloads: Seq<TSPayloadView>, i: int)
    requires
        0 <= i < payloads.len(),
        payloads[i].is_start(),
        forall|j: int| i < j < payloads.len() ==> !(#[trigger] payloads[j]).is_start(),
    ensures
        last_start(payloads) == i,
{
    lemma_last_start(payloads);
}

/// Taking a unit out leaves the payloads anchored, and leaves at least the
/// payload in which the next unit starts: what is kept never begins with a
/// payload that belongs to no unit.
pub proof fn lemma_after_unit_anchored(payloads: Seq<TSPayloadView>)
    requires
        anchored(payloads),
        has_complete_unit(payloads),
    ensures
        after_unit(payloads).len() > 0,
        anchored(after_unit(payloads)),
{
    lemma_first_start(payloads);
    lemma_last_start(payloads);
    assert(after_unit(payloads)[0] == payloads[last_start(payloads)]);
}

/// What came out of `joined` so far, with one more payload.
proof fn lemma_joined_step(payloads: Seq<TSPayloadView>, from: int, to: int)
    requires
        0 <= from <= to < payloads.len(),
    ensures
        joined(payloads.subrange(from, to + 1)) == joined(payloads.subrange(from, to))
            + payloads[to].data,
{
    assert(payloads.subrange(from, to + 1).drop_last() =~= payloads.subrange(from, to));
}

/// What every one of `payloads` holds.
pub open spec fn views(payloads: Seq<TSPayload>) -> Seq<TSPayloadView> {
    Seq::new(payloads.len(), |i: int| payloads[i]@)
}

/// The payloads of one packet identifier that have arrived since the last
/// unit was complete.
#[derive(Debug)]
pub struct TrackedPayload {
    /// The packet identifier that the payloads came under.
    pid: u16,
    /// The payloads, in the order in which they arrived.
    payloads: Vec<TSPayload>,
}

impl View for TrackedPayload {
    type V = TrackedPayloadView;

    closed spec fn view(&self) -> TrackedPayloadView {
        TrackedPayloadView { pid: self.pid, payloads: views(self.payloads@) }
    }
}

impl TrackedPayload {
    /// Starts tracking for `pid`, with no payloads yet.
    pub fn new(pid: u16) -> (tracker: Self)
        ensures
            tracker@.pid == pid,
            tracker@.payloads == Seq::<TSPayloadView>::empty(),
    {
        let tracker = TrackedPayload { pid, payloads: Vec::new() };
        assert(tracker@.payloads =~= Seq::<TSPayloadView>::empty());
        tracker
    }

    /// Starts tracking for the packet identifier of `packet`, with the
    /// payload of `packet` as the first to arrive. Fails if and only if the
    /// packet has no payload.
    pub fn from_packet(packet: &TSPacket) -> (r: Result<Self, NoPayload>)
        ensures
            match r {
                Ok(tracker) => packet@.payload is Some && tracker@.pid == packet@.header.pid
                    && tracker@.payloads == added(Seq::empty(), packet@.payload->0) && anchored(
                    tracker@.payloads,
                ),
                Err(_) => packet@.payload is None,
            },
    {
        let payload = match packet.payload() {
            Some(payload) => payload,
            None => {
                return Err(NoPayload);
            },
        };
        let mut tracker = TrackedPayload::new(packet.header().pid());
        tracker.add(&payload);
        Ok(tracker)
    }

    /// Takes in a payload that has arrived. While no unit has started it is
    /// dropped unless it starts one: without the begin of its unit nothing
    /// can be made of it.
    pub fn add(&mut self, payload: &TSPayload)
        ensures
            final(self)@.pid == old(self)@.pid,
            final(self)@.payloads == added(old(self)@.payloads, payload@),
            anchored(old(self)@.payloads) ==> anchored(final(self)@.payloads),
    {
        if !payload.is_start() && self.payloads.is_empty() {
            return ;
        }
        let ghost before = self.payloads@;
        let copy = payload.clone();
        assert(views(before.push(copy)) =~= views(before).push(payload@));
        self.payloads.push(copy);
    }

    /// Takes in a payload that has arrived and hands out the unit that it
    /// has made complete, if it has.
    pub fn add_and_get_complete(&mut self, payload: &TSPayload) -> (r: Option<Vec<u8>>)
        ensures
            final(self)@.pid == old(self)@.pid,
            anchored(old(self)@.payloads) ==> anchored(final(self)@.payloads),
            match r {
                Some(unit) => has_complete_unit(added(old(self)@.payloads, payload@)) && unit@
                    == complete_unit(added(old(self)@.payloads, payload@)) && final(self)@.payloads
                    == after_unit(added(old(self)@.payloads, payload@)),
                None => !has_complete_unit(added(old(self)@.payloads, payload@))
                    && final(self)@.payloads == added(old(self)@.payloads, payload@),
            },
    {
        self.add(payload);
        self.get_completed()
    }

    /// Hands out the unit that the payloads hold, if they hold a whole one,
    /// and keeps what belongs to the next: the payload of the last start and
    /// what came behind it. Leaves everything as it is where no unit is
    /// complete.
    pub fn get_completed(&mut self) -> (r: Option<Vec<u8>>)
        ensures
            final(self)@.pid == old(self)@.pid,
            anchored(old(self)@.payloads) ==> anchored(final(self)@.payloads),
            match r {
                Some(unit) => has_complete_unit(old(self)@.payloads) && unit@ == complete_unit(
                    old(self)@.payloads,
                ) && final(self)@.payloads == after_unit(old(self)@.payloads),
                None => !has_complete_unit(old(self)@.payloads) && final(self)@.payloads == old(
                    self,
                )@.payloads,
            },
    {
        let ghost before = views(self.payloads@);
        let count = self.payloads.len();
        // The first payload that starts a unit.
        let mut first: usize = 0;
        while first < count && !self.payloads[first].is_start()
            invariant
                first <= count,
                count == self.payloads@.len(),
                before == views(self.payloads@),
                forall|j: int| 0 <= j < first ==> !(#[trigger] before[j]).is_start(),
            decreases count - first,
        {
            first += 1;
        }
        // The last payload that starts a unit stands right before `end`.
        let mut end: usize = count;
        while end > 0 && !self.payloads[end - 1].is_start()
            invariant
                end <= count,
                count == self.payloads@.len(),
                before == views(self.payloads@),
                forall|j: int| end <= j < count ==> !(#[trigger] before[j]).is_start(),
            decreases end,
        {
            end -= 1;
        }
        proof {
            lemma_first_start(before);
            lemma_first_start_is(before, first as int);
            lemma_last_start(before);
            if end > 0 {
                lemma_last_start_is(before, end - 1);
            }
        }
        // With one start only, nothing says yet where its unit ends.
        if end == 0 || first >= end - 1 {
            return None;
        }
        let last: usize = end - 1;
        let mut unit: Vec<u8> = match self.payloads[first].get_start_data() {
            Ok(data) => data,
            Err(_) => Vec::new(),
        };
        let mut idx: usize = first + 1;
        assert(before.subrange(first + 1, first + 1) =~= Seq::<TSPayloadView>::empty());
        while idx < last
            invariant
                first < idx <= last < count,
                count == self.payloads@.len(),
                before == views(self.payloads@),
                unit@ == before[first as int].start_data() + joined(
                    before.subrange(first + 1, idx as int),
                ),
            decreases last - idx,
        {
            let mut piece = slice_copy(self.payloads[idx].data());
            proof {
                lemma_joined_step(before, first + 1, idx as int);
            }
            unit.append(&mut piece);
            idx += 1;
        }
        let mut piece = self.payloads[last].get_current_data();
        unit.append(&mut piece);
        // What has been handed out goes; the payload of the last start
        // stays, for the unit that begins in it.
        let mut rest = self.payloads.split_off(last);
        self.payloads.truncate(first);
        self.payloads.append(&mut rest);
        assert(views(self.payloads@) =~= after_unit(before));
        Some(unit)
    }

    /// The packet identifier that the payloads came under.
    pub fn pid(&self) -> (r: u16)
        ensures
            r == self@.pid,
    {
        self.pid
    }

    /// The payloads that are tracked, in the order in which they arrived.
    pub fn payloads(&self) -> (r: &Vec<TSPayload>)
        ensures
            views(r@) == self@.payloads,
    {
        &self.payloads
    }
}

/// A copy of `bytes`.
fn slice_copy(bytes: &Vec<u8>) -> (copy: Vec<u8>)
    ensures
        copy@ == bytes@,
{
    vstd::slice::slice_to_vec(bytes.as_slice())
}

} // verus!
