//! Requests too large for one message.

use crate::client::apdu;
use crate::client::apdu::{
    build_confirmed_frame, build_request_segment_frame, AbortReason, ConfirmedServiceChoice,
    Packet, PacketView, MAX_SEGMENTS, SEGMENTED_REQUEST_HEADER,
};
use crate::client::error::{ClientError, ClientErrorView};
use crate::client::target;
use crate::client::target::{peer_limits, BacnetTarget, TargetView};
use crate::octets::push_all;
use vstd::prelude::*;

verus! {

/// How a request will go out.
pub enum RequestFrames {
    /// Fits one APDU, the common case.
    Whole(Packet),
    /// Every segment, in order.
    Segmented(Vec<Packet>),
}

/// A [`RequestFrames`] as values.
pub enum RequestFramesView {
    Whole(PacketView),
    Segmented(Seq<PacketView>),
}

impl View for RequestFrames {
    type V = RequestFramesView;

    open spec fn view(&self) -> RequestFramesView {
        match *self {
            RequestFrames::Whole(packet) => RequestFramesView::Whole(packet@),
            RequestFrames::Segmented(packets) => RequestFramesView::Segmented(
                apdu::packets_view(packets@),
            ),
        }
    }
}

/// How many pieces of a size hold a message.
pub open spec fn piece_count(length: nat, size: nat) -> nat {
    if size == 0 {
        0
    } else {
        ((length + size - 1) / size as int) as nat
    }
}

/// One piece of a message cut into pieces of a size.
pub open spec fn piece(data: Seq<u8>, size: nat, index: int) -> Seq<u8> {
    data.subrange(
        index * size,
        if (index + 1) * size < data.len() {
            (index + 1) * size
        } else {
            data.len() as int
        },
    )
}

/// What pieces hold together, up to one.
pub open spec fn joined(data: Seq<u8>, size: nat, count: int) -> Seq<u8>
    decreases count,
{
    if count <= 0 {
        Seq::empty()
    } else {
        joined(data, size, count - 1) + piece(data, size, count - 1)
    }
}

/// The data one segment of a request can hold.
pub open spec fn segment_payload(target: TargetView) -> nat {
    (target::limits_of(target.capabilities).max_apdu - SEGMENTED_REQUEST_HEADER) as nat
}

/// The segment of a request with an index.
pub open spec fn segment_at(
    target: TargetView,
    invoke_id: u8,
    service_choice: ConfirmedServiceChoice,
    data: Seq<u8>,
    index: int,
) -> PacketView {
    let size = segment_payload(target);
    apdu::request_segment(
        target,
        invoke_id,
        service_choice,
        index as u8,
        index != piece_count(data.len(), size) - 1,
        piece(data, size, index),
    )
}

/// How a request goes out, or why it cannot: whole where it fits, refused where the
/// peer takes no segments or would need too many, and cut in pieces otherwise.
pub open spec fn split(
    target: TargetView,
    invoke_id: u8,
    service_choice: ConfirmedServiceChoice,
    data: Seq<u8>,
) -> Result<RequestFramesView, ClientErrorView> {
    let limits = target::limits_of(target.capabilities);
    let count = piece_count(data.len(), segment_payload(target));
    if data.len() + SEGMENTED_REQUEST_HEADER <= limits.max_apdu {
        Ok(
            RequestFramesView::Whole(
                apdu::whole_request(target, invoke_id, service_choice, data),
            ),
        )
    } else if !limits.accepts_segments {
        Err(ClientErrorView::Abort(AbortReason::SegmentationNotSupported))
    } else if count > MAX_SEGMENTS {
        Err(ClientErrorView::Abort(AbortReason::ApduTooLong))
    } else {
        Ok(
            RequestFramesView::Segmented(
                Seq::new(
                    count,
                    |index: int| segment_at(target, invoke_id, service_choice, data, index),
                ),
            ),
        )
    }
}

/// The pieces of a request, put together in order, are the request.
pub proof fn law_pieces_make_the_whole(data: Seq<u8>, size: nat)
    requires
        size > 0,
    ensures
        joined(data, size, piece_count(data.len(), size) as int) == data,
{
    let count = piece_count(data.len(), size) as int;
    lemma_piece_count(data.len(), size);
    lemma_joined(data, size, count);
    if count == 0 {
        assert(joined(data, size, count) =~= data);
    } else {
        assert(data.subrange(0, data.len() as int) =~= data);
    }
}

/// Every piece holds something, and no more than its size.
pub proof fn law_pieces_fit(data: Seq<u8>, size: nat, index: int)
    requires
        size > 0,
        0 <= index < piece_count(data.len(), size),
    ensures
        0 < piece(data, size, index).len() <= size,
{
    lemma_piece_count(data.len(), size);
    lemma_step_within(data.len(), size, index);
}

/// A request that does not fit whole has a piece at least.
pub proof fn lemma_segments_fit(target: TargetView, length: nat)
    requires
        length + SEGMENTED_REQUEST_HEADER > target::limits_of(target.capabilities).max_apdu,
    ensures
        piece_count(length, segment_payload(target)) > 0,
{
    lemma_piece_count(length, segment_payload(target));
    if piece_count(length, segment_payload(target)) == 0 {
        assert(0 * segment_payload(target) == 0) by (nonlinear_arith);
    }
}

proof fn lemma_piece_count(length: nat, size: nat)
    requires
        size > 0,
    ensures
        ({
            let count = piece_count(length, size) as int;
            &&& (count - 1) * size < length || count == 0 && length == 0
            &&& length <= count * size
            &&& count >= 0
        }),
{
    let count = piece_count(length, size) as int;
    let top = length + size - 1;
    vstd::arithmetic::div_mod::lemma_fundamental_div_mod(top, size as int);
    vstd::arithmetic::div_mod::lemma_mod_bound(top, size as int);
    vstd::arithmetic::div_mod::lemma_div_pos_is_pos(top, size as int);
    assert(size * count == count * size) by (nonlinear_arith);
    assert((count - 1) * size == count * size - size) by (nonlinear_arith);
    if length == 0 {
        if count >= 1 {
            assert(count * size >= size) by (nonlinear_arith)
                requires
                    count >= 1,
                    size > 0,
            ;
        }
    }
}

proof fn lemma_step_within(length: nat, size: nat, index: int)
    requires
        size > 0,
        0 <= index < piece_count(length, size),
    ensures
        0 <= index * size < length,
        (index + 1) * size == index * size + size,
        index + 1 == piece_count(length, size) ==> (index + 1) * size >= length,
        index + 1 < piece_count(length, size) ==> (index + 1) * size < length,
{
    let count = piece_count(length, size) as int;
    lemma_piece_count(length, size);
    assert(index * size <= (count - 1) * size) by (nonlinear_arith)
        requires
            index <= count - 1,
            size > 0,
    ;
    assert(0 <= index * size) by (nonlinear_arith)
        requires
            0 <= index,
            size > 0,
    ;
    assert((index + 1) * size == index * size + size) by (nonlinear_arith);
    if index + 1 < count {
        assert((index + 1) * size <= (count - 1) * size) by (nonlinear_arith)
            requires
                index + 1 <= count - 1,
                size > 0,
        ;
    }
}

proof fn lemma_joined(data: Seq<u8>, size: nat, count: int)
    requires
        size > 0,
        0 <= count <= piece_count(data.len(), size),
    ensures
        count > 0 ==> joined(data, size, count) == data.subrange(
            0,
            if count * size < data.len() {
                count * size
            } else {
                data.len() as int
            },
        ),
        count > 0 && count == piece_count(data.len(), size) ==> joined(data, size, count)
            == data.subrange(0, data.len() as int),
    decreases count,
{
    if count > 0 {
        lemma_step_within(data.len(), size, count - 1);
        lemma_joined(data, size, count - 1);
        if count - 1 > 0 {
            lemma_step_within(data.len(), size, count - 2);
        }
        let reach = if count * size < data.len() {
            count * size
        } else {
            data.len() as int
        };
        let before = (count - 1) * size;
        assert(0 * size == 0) by (nonlinear_arith);
        assert(count - 1 + 1 == count);
        assert(before < data.len());
        assert(piece(data, size, count - 1) == data.subrange(before, reach));
        if count == 1 {
            assert(joined(data, size, 0) =~= data.subrange(0, 0));
        }
        assert(joined(data, size, count - 1) == data.subrange(0, before));
        assert(joined(data, size, count) =~= data.subrange(0, reach));
    }
}

/// Decide whether a request needs segmenting, and build its frames.
///
/// Returns an Abort because that is what the exchange would produce anyway, without
/// spending a round trip to learn it.
pub fn split_request(
    target: &BacnetTarget,
    invoke_id: u8,
    service_choice: ConfirmedServiceChoice,
    service_data: Vec<u8>,
) -> (frames: Result<RequestFrames, ClientError>)
    ensures
        match (frames, split(target@, invoke_id, service_choice, service_data@)) {
            (Ok(frames), Ok(stated)) => frames@ == stated,
            (Err(error), Err(stated)) => error@ == stated,
            _ => false,
        },
{
    let limits = peer_limits(target);
    // Sized on the segmented header, two bytes longer, to keep a request that only
    // just fits off the boundary.
    if service_data.len() <= limits.max_apdu - SEGMENTED_REQUEST_HEADER {
        return Ok(
            RequestFrames::Whole(
                build_confirmed_frame(target, invoke_id, service_choice, service_data),
            ),
        );
    }
    if !limits.accepts_segments {
        return Err(ClientError::Abort(AbortReason::SegmentationNotSupported));
    }
    let payload: usize = limits.max_apdu - SEGMENTED_REQUEST_HEADER;
    let ghost data = service_data@;
    let ghost size = segment_payload(target@);
    let ghost total = piece_count(data.len(), size) as int;
    proof {
        lemma_piece_count(data.len(), size);
    }
    if service_data.len() > payload * MAX_SEGMENTS {
        proof {
            assert(total > 64) by (nonlinear_arith)
                requires
                    data.len() > size * 64,
                    data.len() <= total * size,
                    size > 0,
            ;
        }
        return Err(ClientError::Abort(AbortReason::ApduTooLong));
    }
    proof {
        assert(total <= 64) by (nonlinear_arith)
            requires
                data.len() <= size * 64,
                (total - 1) * size < data.len(),
                size > 0,
        ;
    }
    let mut frames: Vec<Packet> = Vec::new();
    let mut start: usize = 0;
    let mut index: u8 = 0;
    while start < service_data.len()
        invariant
            service_data@ == data,
            size == payload,
            0 < size <= 1470,
            segment_payload(target@) == size,
            total == piece_count(data.len(), size),
            0 < total <= 64,
            0 <= index <= total,
            index < total ==> start == index * size,
            index == total ==> start == data.len(),
            start <= data.len(),
            frames@.len() == index,
            forall|i: int|
                0 <= i < index ==> (#[trigger] frames@[i])@ == segment_at(
                    target@,
                    invoke_id,
                    service_choice,
                    data,
                    i,
                ),
        decreases total - index,
    {
        proof {
            lemma_step_within(data.len(), size, index as int);
        }
        let end: usize = if service_data.len() - start > payload {
            start + payload
        } else {
            service_data.len()
        };
        let mut chunk: Vec<u8> = Vec::new();
        push_all(&mut chunk, vstd::slice::slice_subrange(service_data.as_slice(), start, end));
        proof {
            assert(chunk@ =~= piece(data, size, index as int));
        }
        frames.push(
            build_request_segment_frame(
                target,
                invoke_id,
                service_choice,
                index,
                end != service_data.len(),
                chunk,
            ),
        );
        start = end;
        index += 1;
    }
    let result = RequestFrames::Segmented(frames);
    proof {
        let stated = Seq::new(
            total as nat,
            |i: int| segment_at(target@, invoke_id, service_choice, data, i),
        );
        assert(index == total) by {
            if index < total {
                lemma_step_within(data.len(), size, index as int);
            }
        }
        assert(apdu::packets_view(frames@) =~= stated);
    }
    Ok(result)
}

} // verus!
