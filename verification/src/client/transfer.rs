//! Messages in pieces: responses being joined and requests being sent.

use crate::client::apdu;
use crate::client::apdu::{AbortReason, Packet, PacketView, MAX_SEGMENTS};
use crate::client::split;
use crate::octets::push_all;
use vstd::prelude::*;

verus! {

// ---------------------------------------------------------------------------
// Responses
// ---------------------------------------------------------------------------

/// A response arriving in pieces.
pub struct Reassembly {
    /// What has arrived.
    pub data: Vec<u8>,
    /// The last segment accepted in order, or `None` before any. With a window of
    /// one, every decision is made against this.
    pub last_in_order: Option<u8>,
    /// Kept so a timeout can re-send it: a lost ack stalls the device silently,
    /// waiting on permission it will never get.
    pub last_ack: Option<Packet>,
    /// Accepted so far, to enforce [`MAX_SEGMENTS`].
    pub segments: usize,
}

/// A [`Reassembly`] as values.
#[verifier::ext_equal]
pub struct ReassemblyView {
    pub data: Seq<u8>,
    pub last_in_order: Option<u8>,
    pub last_ack: Option<PacketView>,
    pub segments: nat,
}

/// What an optional packet says.
pub open spec fn ack_view(packet: Option<Packet>) -> Option<PacketView> {
    match packet {
        Some(packet) => Some(packet@),
        None => None,
    }
}

impl View for Reassembly {
    type V = ReassemblyView;

    open spec fn view(&self) -> ReassemblyView {
        ReassemblyView {
            data: self.data@,
            last_in_order: self.last_in_order,
            last_ack: ack_view(self.last_ack),
            segments: self.segments as nat,
        }
    }
}

/// What an arriving segment means for its transfer.
pub enum SegmentOutcome {
    /// Take it and ask for the next.
    Accepted(u8),
    /// Already had it, so our acknowledgement was lost. Repeat it.
    Repeat,
    /// A gap. Name the last in-order segment so the peer resumes from there.
    Missing(u8),
    /// The last segment: acknowledge it and hand over the whole response.
    Complete(u8, Vec<u8>),
    /// The transfer cannot be followed.
    Abandon(AbortReason),
}

/// A [`SegmentOutcome`] as values.
pub enum OutcomeView {
    Accepted(u8),
    Repeat,
    Missing(u8),
    Complete(u8, Seq<u8>),
    Abandon(AbortReason),
}

impl View for SegmentOutcome {
    type V = OutcomeView;

    open spec fn view(&self) -> OutcomeView {
        match *self {
            SegmentOutcome::Accepted(sequence) => OutcomeView::Accepted(sequence),
            SegmentOutcome::Repeat => OutcomeView::Repeat,
            SegmentOutcome::Missing(last) => OutcomeView::Missing(last),
            SegmentOutcome::Complete(sequence, data) => OutcomeView::Complete(sequence, data@),
            SegmentOutcome::Abandon(reason) => OutcomeView::Abandon(reason),
        }
    }
}

/// A transfer of which nothing has arrived.
pub open spec fn nothing_arrived() -> ReassemblyView {
    ReassemblyView { data: Seq::empty(), last_in_order: None, last_ack: None, segments: 0 }
}

/// The sequence number that follows one.
pub open spec fn following(sequence: u8) -> u8 {
    if sequence == 255 {
        0
    } else {
        (sequence + 1) as u8
    }
}

/// What a segment means, and what the transfer is after it.
///
/// With a granted window of one the rules collapse to three cases: the
/// segment awaited, the one just taken (our ack was lost), or a gap. A transfer that
/// does not start at its first segment, or is longer than this client takes, is
/// given up.
pub open spec fn taken(
    before: ReassemblyView,
    sequence: u8,
    more_follows: bool,
    data: Seq<u8>,
) -> (OutcomeView, ReassemblyView) {
    let extended = ReassemblyView {
        data: before.data + data,
        segments: before.segments + 1,
        last_in_order: Some(sequence),
        ..before
    };
    if before.last_in_order is None && sequence != 0 {
        (OutcomeView::Abandon(AbortReason::InvalidApduInThisState), before)
    } else if before.last_in_order == Some(sequence) {
        (OutcomeView::Repeat, before)
    } else if before.last_in_order is Some && sequence != following(
        before.last_in_order->Some_0,
    ) {
        (OutcomeView::Missing(before.last_in_order->Some_0), before)
    } else if before.segments >= MAX_SEGMENTS {
        (OutcomeView::Abandon(AbortReason::BufferOverflow), before)
    } else if more_follows {
        (OutcomeView::Accepted(sequence), extended)
    } else {
        (
            OutcomeView::Complete(sequence, extended.data),
            ReassemblyView { data: Seq::empty(), ..extended },
        )
    }
}

impl Reassembly {
    /// A transfer of which nothing has arrived.
    pub fn new() -> (transfer: Reassembly)
        ensures
            transfer@ == nothing_arrived(),
    {
        let transfer = Reassembly {
            data: Vec::new(),
            last_in_order: None,
            last_ack: None,
            segments: 0,
        };
        proof {
            assert(transfer@ =~= nothing_arrived());
        }
        transfer
    }

    /// Take one segment.
    pub fn take(&mut self, sequence: u8, more_follows: bool, service_data: &Vec<u8>) -> (outcome:
        SegmentOutcome)
        ensures
            (outcome@, final(self)@) == taken(
                old(self)@,
                sequence,
                more_follows,
                service_data@,
            ),
    {
        match self.last_in_order {
            None => {
                // Guessing where a transfer started would be worse than saying we
                // cannot follow it.
                if sequence != 0 {
                    return SegmentOutcome::Abandon(AbortReason::InvalidApduInThisState);
                }
            },
            Some(last) => {
                if sequence == last {
                    return SegmentOutcome::Repeat;
                }
                let next: u8 = if last == 255 {
                    0
                } else {
                    last + 1
                };
                if sequence != next {
                    return SegmentOutcome::Missing(last);
                }
            },
        }
        if self.segments >= MAX_SEGMENTS {
            return SegmentOutcome::Abandon(AbortReason::BufferOverflow);
        }
        push_all(&mut self.data, service_data.as_slice());
        self.segments += 1;
        self.last_in_order = Some(sequence);
        if more_follows {
            SegmentOutcome::Accepted(sequence)
        } else {
            let mut data: Vec<u8> = Vec::new();
            std::mem::swap(&mut data, &mut self.data);
            proof {
                assert(self.data@ =~= Seq::<u8>::empty());
            }
            SegmentOutcome::Complete(sequence, data)
        }
    }
}

/// The transfer after the first pieces of a message arrived in order.
pub open spec fn arrived(data: Seq<u8>, size: nat, count: int) -> ReassemblyView
    decreases count,
{
    if count <= 0 {
        nothing_arrived()
    } else {
        taken(
            arrived(data, size, count - 1),
            (count - 1) as u8,
            true,
            split::piece(data, size, count - 1),
        ).1
    }
}

proof fn lemma_arrived(data: Seq<u8>, size: nat, count: int)
    requires
        0 <= count <= MAX_SEGMENTS,
    ensures
        arrived(data, size, count).data == split::joined(data, size, count),
        arrived(data, size, count).segments == count,
        arrived(data, size, count).last_in_order == if count == 0 {
            None
        } else {
            Some((count - 1) as u8)
        },
    decreases count,
{
    if count > 0 {
        lemma_arrived(data, size, count - 1);
    } else {
        assert(arrived(data, size, count).data =~= split::joined(data, size, count));
    }
}

/// A message cut in pieces and sent in order, all but the last with more to follow,
/// is handed over as it was, where it takes no more pieces than this client accepts.
pub proof fn law_joining_undoes_cutting(data: Seq<u8>, size: nat)
    requires
        size > 0,
        0 < split::piece_count(data.len(), size) <= MAX_SEGMENTS,
    ensures
        ({
            let last = split::piece_count(data.len(), size) - 1;
            taken(
                arrived(data, size, last),
                last as u8,
                false,
                split::piece(data, size, last),
            ).0 == OutcomeView::Complete(last as u8, data)
        }),
{
    let count = split::piece_count(data.len(), size) as int;
    lemma_arrived(data, size, count - 1);
    split::law_pieces_make_the_whole(data, size);
}

/// A segment that arrives twice changes nothing.
pub proof fn law_a_repeated_segment_adds_nothing(
    before: ReassemblyView,
    more_follows: bool,
    data: Seq<u8>,
)
    requires
        before.last_in_order is Some,
    ensures
        taken(before, before.last_in_order->Some_0, more_follows, data) == (
            OutcomeView::Repeat,
            before,
        ),
{
}

/// A segment out of turn adds nothing: the peer is told how far it got.
pub proof fn law_a_gap_adds_nothing(
    before: ReassemblyView,
    sequence: u8,
    more_follows: bool,
    data: Seq<u8>,
)
    requires
        before.last_in_order matches Some(last) && sequence != last && sequence != following(last),
    ensures
        taken(before, sequence, more_follows, data) == (
            OutcomeView::Missing(before.last_in_order->Some_0),
            before,
        ),
{
}

/// A transfer never holds more than the segments this client accepts.
pub proof fn law_transfers_are_bounded(
    before: ReassemblyView,
    sequence: u8,
    more_follows: bool,
    data: Seq<u8>,
)
    requires
        before.segments <= MAX_SEGMENTS,
    ensures
        taken(before, sequence, more_follows, data).1.segments <= MAX_SEGMENTS,
{
}

// ---------------------------------------------------------------------------
// Requests
// ---------------------------------------------------------------------------

/// A request being sent in pieces.
pub struct OutboundSegments {
    /// Framed up front, so a retransmission re-sends rather than building again.
    pub frames: Vec<Packet>,
    /// Acknowledged up to and counting this one, or `None` before the peer speaks.
    pub acked: Option<u8>,
    /// From the peer's first SegmentAck. One until then: nothing says a second
    /// segment would be looked at.
    pub window: u8,
}

/// An [`OutboundSegments`] as values.
#[verifier::ext_equal]
pub struct OutboundView {
    pub frames: Seq<PacketView>,
    pub acked: Option<u8>,
    pub window: u8,
}

impl View for OutboundSegments {
    type V = OutboundView;

    open spec fn view(&self) -> OutboundView {
        OutboundView {
            frames: apdu::packets_view(self.frames@),
            acked: self.acked,
            window: self.window,
        }
    }
}

impl OutboundView {
    /// Whether the request has pieces, no more than this client sends, and only
    /// pieces it has were acknowledged.
    pub open spec fn wf(self) -> bool {
        &&& 0 < self.frames.len() <= MAX_SEGMENTS
        &&& self.acked matches Some(acked) ==> acked < self.frames.len()
    }

    /// The first piece that was not acknowledged.
    pub open spec fn first_open(self) -> int {
        match self.acked {
            Some(acked) => acked + 1,
            None => 0,
        }
    }

    /// One past the last piece that may be under way.
    pub open spec fn last_open(self) -> int {
        let reach = self.first_open() + if self.window == 0 {
            1
        } else {
            self.window as int
        };
        if reach < self.frames.len() {
            reach
        } else {
            self.frames.len() as int
        }
    }

    /// The pieces that may be under way.
    pub open spec fn open_frames(self) -> Seq<PacketView> {
        self.frames.subrange(self.first_open(), self.last_open())
    }

    /// Whether every piece was acknowledged.
    pub open spec fn is_done(self) -> bool {
        self.acked matches Some(acked) && acked + 1 >= self.frames.len()
    }

    /// What is left after an acknowledgement. A window is never zero, or the transfer
    /// would stall with nothing to prompt it.
    pub open spec fn acknowledged(self, sequence: u8, window: u8) -> OutboundView {
        OutboundView {
            acked: Some(sequence),
            window: if window == 0 {
                1
            } else {
                window
            },
            ..self
        }
    }
}

impl OutboundSegments {
    fn next_unsent(&self) -> (index: usize)
        requires
            self@.wf(),
        ensures
            index == self@.first_open(),
    {
        match self.acked {
            Some(acked) => acked as usize + 1,
            None => 0,
        }
    }

    /// What may be in flight now: everything after the last acknowledged segment, up
    /// to the peer's window.
    pub fn window_after_ack(&self) -> (window: (usize, usize))
        requires
            self@.wf(),
        ensures
            window.0 == self@.first_open(),
            window.1 == self@.last_open(),
    {
        let first = self.next_unsent();
        let size: usize = if self.window == 0 {
            1
        } else {
            self.window as usize
        };
        let reach: usize = first + size;
        let last: usize = if reach < self.frames.len() {
            reach
        } else {
            self.frames.len()
        };
        (first, last)
    }

    /// Every segment acknowledged, so the peer now owes us the response.
    pub fn all_acked(&self) -> (done: bool)
        requires
            self@.wf(),
        ensures
            done == self@.is_done(),
    {
        match self.acked {
            Some(acked) => acked as usize + 1 >= self.frames.len(),
            None => false,
        }
    }

    /// The pieces that may be under way.
    pub fn in_flight(&self) -> (frames: Vec<Packet>)
        requires
            self@.wf(),
        ensures
            apdu::packets_view(frames@) == self@.open_frames(),
    {
        let (first, last) = self.window_after_ack();
        let mut frames: Vec<Packet> = Vec::new();
        let mut i: usize = first;
        while i < last
            invariant
                first <= i <= last,
                last <= self.frames@.len(),
                frames@.len() == i - first,
                forall|k: int|
                    0 <= k < frames@.len() ==> (#[trigger] frames@[k])@ == self.frames@[first
                        + k]@,
            decreases last - i,
        {
            frames.push(self.frames[i].duplicate());
            i += 1;
        }
        proof {
            assert(apdu::packets_view(frames@) =~= self@.open_frames());
        }
        frames
    }

    /// Note how far the peer got.
    pub fn acknowledge(&mut self, sequence_number: u8, window_size: u8)
        requires
            old(self)@.wf(),
            sequence_number < old(self)@.frames.len(),
        ensures
            final(self)@ == old(self)@.acknowledged(sequence_number, window_size),
            final(self)@.wf(),
    {
        self.acked = Some(sequence_number);
        self.window = if window_size == 0 {
            1
        } else {
            window_size
        };
    }
}

/// No more pieces are under way than the peer said it looks at, and at least one is
/// until all were acknowledged.
pub proof fn law_windows_are_respected(outbound: OutboundView)
    requires
        outbound.wf(),
    ensures
        outbound.window > 0 ==> outbound.open_frames().len() <= outbound.window,
        !outbound.is_done() ==> outbound.open_frames().len() > 0,
        outbound.is_done() ==> outbound.open_frames().len() == 0,
{
}

/// An acknowledgement moves the window behind what it names.
pub proof fn law_acknowledgements_move_the_window(
    outbound: OutboundView,
    sequence: u8,
    window: u8,
)
    requires
        outbound.wf(),
        sequence < outbound.frames.len(),
    ensures
        outbound.acknowledged(sequence, window).wf(),
        outbound.acknowledged(sequence, window).first_open() == sequence + 1,
        outbound.acknowledged(sequence, window).is_done() == (sequence + 1
            == outbound.frames.len()),
{
}

} // verus!
