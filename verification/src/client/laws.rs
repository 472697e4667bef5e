//! What a client can be relied on for, from a request that a caller asks for to the
//! answer it gets.

use crate::address::SocketAddress;
use crate::client::apdu::{
    AbortReason, Apdu, ApduView, ConfirmedServiceChoice, PacketView, RejectReason,
};
use crate::client::conduct;
use crate::client::conduct::{
    ActionView, ActiveDiscovery, CovKey, EndpointCommand, EndpointView, Incoming, PendingView,
    Step, TransactionKey,
};
use crate::client::error::{ClientErrorView, ErrorClass, ErrorCode};
use crate::client::split;
use crate::client::split::RequestFramesView;
use crate::client::target;
use crate::client::target::{
    BacnetTarget, DeviceCapabilities, MaxApduSize, MaxSegments, NetworkAddress,
    NetworkAddressView, Segmentation, TargetView,
};
use crate::client::transfer;
use crate::cov::engine::CovNotification;
use vstd::prelude::*;

verus! {

// ---------------------------------------------------------------------------
// What goes out
// ---------------------------------------------------------------------------

/// Whether a packet is sent towards a route: a router forwards it to the station that
/// the route names, through as many routers as it takes, and a packet without a route
/// names nobody.
pub open spec fn is_routed(packet: PacketView, route: Option<NetworkAddressView>) -> bool {
    match route {
        Some(station) => {
            &&& packet.destination == Some(station)
            &&& packet.hop_count == Some(255u8)
        },
        None => packet.destination is None && packet.hop_count is None,
    }
}

/// Whether a device said that it splits its answers. One that said nothing is taken to.
pub open spec fn may_split_answers(capabilities: Option<DeviceCapabilities>) -> bool {
    match capabilities {
        None => true,
        Some(said) => said.segmentation == Segmentation::Both || said.segmentation
            == Segmentation::Transmit,
    }
}

/// Whether a device said that it takes split requests. One that said nothing is taken
/// to.
pub open spec fn may_take_pieces(capabilities: Option<DeviceCapabilities>) -> bool {
    match capabilities {
        None => true,
        Some(said) => said.segmentation == Segmentation::Both || said.segmentation
            == Segmentation::Receive,
    }
}

/// Whether a message of so many octets is within what a device said it takes. Every
/// device takes fifty, and none is sent more than 1476.
pub open spec fn is_within(capabilities: Option<DeviceCapabilities>, octets: nat) -> bool {
    &&& octets <= 1476
    &&& capabilities matches Some(said) ==> octets <= said.max_apdu || octets <= 50
}

/// What a packet of a request says: the request, in the name of this client, to be
/// answered, towards the target's own route.
pub open spec fn asks(
    packet: PacketView,
    target: TargetView,
    invoke_id: u8,
    service_choice: ConfirmedServiceChoice,
) -> bool {
    &&& packet.expecting_reply
    &&& is_routed(packet, target.route)
    &&& packet.apdu is ConfirmedRequest
    &&& packet.apdu->ConfirmedRequest_invoke_id == invoke_id
    &&& packet.apdu->ConfirmedRequest_service_choice == service_choice
    &&& packet.apdu->ConfirmedRequest_segmented_response_accepted == may_split_answers(
        target.capabilities,
    )
    &&& packet.apdu->ConfirmedRequest_max_segments == MaxSegments::SixtyFour
    &&& packet.apdu->ConfirmedRequest_max_response_size == MaxApduSize::Up1476
}

/// The service data of the packets of a request, put together.
pub open spec fn carried(packets: Seq<PacketView>) -> Seq<u8>
    decreases packets.len(),
{
    if packets.len() == 0 {
        Seq::empty()
    } else {
        carried(packets.drop_last()) + packets.last().apdu->ConfirmedRequest_service_data
    }
}

/// Every packet of a request, whole or one segment of many, is the request: it names
/// the target's own route as its destination, and the service, the number and what this
/// client takes in answer are the same in each.
pub proof fn law_every_packet_names_its_target(
    target: TargetView,
    invoke_id: u8,
    service_choice: ConfirmedServiceChoice,
    data: Seq<u8>,
)
    ensures
        match split::split(target, invoke_id, service_choice, data) {
            Ok(RequestFramesView::Whole(packet)) => asks(packet, target, invoke_id, service_choice),
            Ok(RequestFramesView::Segmented(packets)) => forall|i: int|
                0 <= i < packets.len() ==> asks(
                    #[trigger] packets[i],
                    target,
                    invoke_id,
                    service_choice,
                ),
            Err(_) => true,
        },
{
}

/// What goes out carries the whole request and nothing else, in order, and no message
/// is larger than its target takes. A whole one says that it is whole; segments are
/// counted from zero, and all but the last say that more follow.
pub proof fn law_requests_arrive_whole(
    target: TargetView,
    invoke_id: u8,
    service_choice: ConfirmedServiceChoice,
    data: Seq<u8>,
)
    ensures
        match split::split(target, invoke_id, service_choice, data) {
            Ok(RequestFramesView::Whole(packet)) => {
                &&& packet.apdu->ConfirmedRequest_service_data == data
                &&& !packet.apdu->ConfirmedRequest_segmented
                &&& !packet.apdu->ConfirmedRequest_more_follows
                &&& packet.apdu->ConfirmedRequest_sequence_number is None
                &&& packet.apdu->ConfirmedRequest_proposed_window_size is None
                &&& is_within(target.capabilities, data.len() + 6)
            },
            Ok(RequestFramesView::Segmented(packets)) => {
                &&& 1 < packets.len() <= 64
                &&& carried(packets) == data
                &&& forall|i: int|
                    0 <= i < packets.len() ==> {
                        let message = (#[trigger] packets[i]).apdu;
                        &&& message->ConfirmedRequest_segmented
                        &&& message->ConfirmedRequest_more_follows == (i < packets.len() - 1)
                        &&& message->ConfirmedRequest_sequence_number == Some(i as u8)
                        &&& message->ConfirmedRequest_proposed_window_size == Some(16u8)
                        &&& message->ConfirmedRequest_service_data.len() > 0
                        &&& is_within(
                            target.capabilities,
                            message->ConfirmedRequest_service_data.len() + 6,
                        )
                    }
            },
            Err(_) => true,
        },
{
    let size = split::segment_payload(target);
    if let Ok(RequestFramesView::Segmented(packets)) = split::split(
        target,
        invoke_id,
        service_choice,
        data,
    ) {
        let count = split::piece_count(data.len(), size) as int;
        assert(size > 0);
        lemma_carried(packets, target, invoke_id, service_choice, data, count);
        assert(packets.take(count) =~= packets);
        split::law_pieces_make_the_whole(data, size);
        split::lemma_segments_fit(target, data.len());
        assert(data.len() > size);
        assert(count > 1) by {
            if count == 1 {
                split::law_pieces_fit(data, size, 0);
                assert(split::joined(data, size, 0) =~= Seq::<u8>::empty());
                assert(split::joined(data, size, 1) =~= split::piece(data, size, 0));
            }
        }
        assert forall|i: int| 0 <= i < packets.len() implies {
            let message = (#[trigger] packets[i]).apdu;
            &&& message->ConfirmedRequest_service_data.len() > 0
            &&& is_within(
                target.capabilities,
                message->ConfirmedRequest_service_data.len() + 6,
            )
        } by {
            split::law_pieces_fit(data, size, i);
        }
    }
}

proof fn lemma_carried(
    packets: Seq<PacketView>,
    target: TargetView,
    invoke_id: u8,
    service_choice: ConfirmedServiceChoice,
    data: Seq<u8>,
    count: int,
)
    requires
        0 <= count <= packets.len(),
        forall|i: int|
            0 <= i < packets.len() ==> (#[trigger] packets[i]).apdu->ConfirmedRequest_service_data
                == split::piece(data, split::segment_payload(target), i),
    ensures
        carried(packets.take(count)) == split::joined(
            data,
            split::segment_payload(target),
            count,
        ),
    decreases count,
{
    if count > 0 {
        lemma_carried(packets, target, invoke_id, service_choice, data, count - 1);
        assert(packets.take(count).drop_last() =~= packets.take(count - 1));
        assert(packets.take(count).last() == packets[count - 1]);
    } else {
        assert(carried(packets.take(count)) =~= Seq::<u8>::empty());
    }
}

/// A request that is within a size its target takes goes out whole. One that is not is
/// refused where the target takes no pieces, and where it would need more than
/// sixty-four of them; any other goes out in pieces.
pub proof fn law_requests_are_refused_only_where_they_must_be(
    target: TargetView,
    invoke_id: u8,
    service_choice: ConfirmedServiceChoice,
    data: Seq<u8>,
    standard: nat,
)
    ensures
        target.capabilities is None && data.len() + 6 <= 1476 ==> split::split(
            target,
            invoke_id,
            service_choice,
            data,
        ) matches Ok(RequestFramesView::Whole(_)),
        data.len() + 6 <= 50 ==> split::split(
            target,
            invoke_id,
            service_choice,
            data,
        ) matches Ok(RequestFramesView::Whole(_)),
        (standard == 50 || standard == 128 || standard == 206 || standard == 480 || standard == 1024
            || standard == 1476) && data.len() + 6 <= standard && (
        target.capabilities matches Some(said) && standard <= said.max_apdu) ==> split::split(
            target,
            invoke_id,
            service_choice,
            data,
        ) matches Ok(RequestFramesView::Whole(_)),
        may_take_pieces(target.capabilities) && data.len() <= 64 * 44 ==> split::split(
            target,
            invoke_id,
            service_choice,
            data,
        ) is Ok,
        !is_within(target.capabilities, data.len() + 6) && !may_take_pieces(target.capabilities)
            ==> split::split(target, invoke_id, service_choice, data) == Err::<
            RequestFramesView,
            ClientErrorView,
        >(ClientErrorView::Abort(AbortReason::SegmentationNotSupported)),
        may_take_pieces(target.capabilities) && split::split(
            target,
            invoke_id,
            service_choice,
            data,
        ) is Err ==> split::split(target, invoke_id, service_choice, data) == Err::<
            RequestFramesView,
            ClientErrorView,
        >(ClientErrorView::Abort(AbortReason::ApduTooLong)),
        may_take_pieces(target.capabilities) && data.len() > 64 * 1470 ==> split::split(
            target,
            invoke_id,
            service_choice,
            data,
        ) is Err,
{
    let payload = split::segment_payload(target);
    let count = split::piece_count(data.len(), payload) as int;
    lemma_count(data.len(), payload);
    if data.len() <= 64 * 44 {
        assert(count <= 64) by (nonlinear_arith)
            requires
                payload >= 44,
                data.len() <= 64 * 44,
                (count - 1) * payload < data.len() || count == 0,
        ;
    }
    if data.len() > 64 * 1470 {
        assert(count > 64) by (nonlinear_arith)
            requires
                0 < payload <= 1470,
                data.len() > 64 * 1470,
                data.len() <= count * payload,
        ;
    }
}

proof fn lemma_count(length: nat, size: nat)
    requires
        size > 0,
    ensures
        ({
            let count = split::piece_count(length, size) as int;
            &&& (count - 1) * size < length || count == 0
            &&& length <= count * size
        }),
{
    let top = length + size - 1;
    let count = split::piece_count(length, size) as int;
    vstd::arithmetic::div_mod::lemma_fundamental_div_mod(top, size as int);
    vstd::arithmetic::div_mod::lemma_mod_bound(top, size as int);
    vstd::arithmetic::div_mod::lemma_div_pos_is_pos(top, size as int);
    assert(size * count == count * size) by (nonlinear_arith);
    assert((count - 1) * size == count * size - size) by (nonlinear_arith);
}

/// Whether a step sends a request and waits for its answer: one packet goes to the
/// target's address, in the name of a number that is free towards it, and the
/// transaction is held with the packet to be repeated, all its retries and the moment
/// the first of them is due.
pub open spec fn sends_request(
    before: EndpointView,
    step: Step,
    target: TargetView,
    service_choice: ConfirmedServiceChoice,
    data: Seq<u8>,
    response: u64,
    now: u64,
    action: ActionView,
) -> bool {
    &&& action is Send
    &&& action->Send_peer == target.address
    &&& action->Send_transaction is Some
    &&& {
        let key = action->Send_transaction->Some_0;
        let packet = action->Send_packet;
        let held = step.endpoint.pending[key];
        &&& key.peer == target.address
        &&& asks(packet, target, key.invoke_id, service_choice)
        &&& !packet.apdu->ConfirmedRequest_segmented
            ==> packet.apdu->ConfirmedRequest_service_data == data && held.outbound is None
        &&& packet.apdu->ConfirmedRequest_segmented ==> {
            &&& packet.apdu->ConfirmedRequest_sequence_number == Some(0u8)
            &&& packet.apdu->ConfirmedRequest_service_data.is_prefix_of(data)
            &&& held.outbound is Some
            &&& held.outbound->Some_0.frames[0] == packet
            &&& carried(held.outbound->Some_0.frames) == data
            &&& held.outbound->Some_0.acked is None
        }
        &&& step.endpoint.pending.dom().contains(key)
        &&& held.service_choice == service_choice
        &&& held.response == response
        &&& held.frame == Some(packet)
        &&& held.reassembly is None
        &&& held.retries_remaining == before.retries
        &&& now + before.timeout <= u64::MAX ==> held.deadline == now + before.timeout
    }
}

/// A caller that asks for a service has its request sent to the target it named, or
/// hears at once why not. Either is all that is done.
pub proof fn law_a_request_goes_to_its_target(
    endpoint: EndpointView,
    target: BacnetTarget,
    service_choice: ConfirmedServiceChoice,
    service_data: Vec<u8>,
    response: u64,
    now: u64,
    closed: Seq<u64>,
)
    ensures
        ({
            let step = endpoint.commanded(
                EndpointCommand::Confirmed { target, service_choice, service_data, response },
                now,
                closed,
            );
            &&& closed.contains(response) ==> step.endpoint == endpoint && step.actions.len() == 0
            &&& !closed.contains(response) ==> {
                &&& step.actions.len() == 1
                &&& match step.actions[0] {
                    ActionView::Answer { response: told, result } => {
                        &&& told == response
                        &&& result == Err::<Seq<u8>, ClientErrorView>(
                            ClientErrorView::TooManyTransactions,
                        ) || result == Err::<Seq<u8>, ClientErrorView>(
                            ClientErrorView::Abort(AbortReason::SegmentationNotSupported),
                        ) || result == Err::<Seq<u8>, ClientErrorView>(
                            ClientErrorView::Abort(AbortReason::ApduTooLong),
                        )
                    },
                    action => sends_request(
                        endpoint,
                        step,
                        target@,
                        service_choice,
                        service_data@,
                        response,
                        now,
                        action,
                    ),
                }
            }
        }),
{
    lemma_requested(
        endpoint,
        target@,
        service_choice,
        service_data@,
        response,
        now,
        closed,
    );
}

proof fn lemma_requested(
    endpoint: EndpointView,
    target: TargetView,
    service_choice: ConfirmedServiceChoice,
    data: Seq<u8>,
    response: u64,
    now: u64,
    closed: Seq<u64>,
)
    ensures
        ({
            let step = endpoint.requested(target, service_choice, data, response, now, closed);
            &&& closed.contains(response) ==> step.endpoint == endpoint && step.actions.len() == 0
            &&& !closed.contains(response) ==> {
                &&& step.actions.len() == 1
                &&& match step.actions[0] {
                    ActionView::Answer { response: told, result } => {
                        &&& told == response
                        &&& result == Err::<Seq<u8>, ClientErrorView>(
                            ClientErrorView::TooManyTransactions,
                        ) || result == Err::<Seq<u8>, ClientErrorView>(
                            ClientErrorView::Abort(AbortReason::SegmentationNotSupported),
                        ) || result == Err::<Seq<u8>, ClientErrorView>(
                            ClientErrorView::Abort(AbortReason::ApduTooLong),
                        )
                    },
                    action => sends_request(
                        endpoint,
                        step,
                        target,
                        service_choice,
                        data,
                        response,
                        now,
                        action,
                    ),
                }
            }
        }),
{
    let (current, reserved) = endpoint.without_cancelled(closed).reserved(target.address, now);
    if let Some(invoke_id) = reserved {
        law_every_packet_names_its_target(target, invoke_id, service_choice, data);
        law_requests_arrive_whole(target, invoke_id, service_choice, data);
        if let Ok(RequestFramesView::Segmented(packets)) = split::split(
            target,
            invoke_id,
            service_choice,
            data,
        ) {
            lemma_first_is_prefix(packets);
        }
    }
}

proof fn lemma_first_is_prefix(packets: Seq<PacketView>)
    requires
        packets.len() > 0,
    ensures
        packets[0].apdu->ConfirmedRequest_service_data.is_prefix_of(carried(packets)),
    decreases packets.len(),
{
    let first = packets[0].apdu->ConfirmedRequest_service_data;
    if packets.len() == 1 {
        assert(packets.drop_last() =~= Seq::<PacketView>::empty());
        assert(carried(packets.drop_last()) =~= Seq::<u8>::empty());
        assert(carried(packets) =~= first);
    } else {
        lemma_first_is_prefix(packets.drop_last());
        let before = carried(packets.drop_last());
        assert(first =~= before.subrange(0, first.len() as int));
        assert(first =~= carried(packets).subrange(0, first.len() as int));
    }
}

/// A caller is told that there are too many requests only where every number towards
/// that peer is in use or held back.
pub proof fn law_a_free_number_is_found(
    endpoint: EndpointView,
    target: BacnetTarget,
    service_choice: ConfirmedServiceChoice,
    service_data: Vec<u8>,
    response: u64,
    now: u64,
    closed: Seq<u64>,
    invoke_id: u8,
)
    requires
        !closed.contains(response),
        ({
            let key = TransactionKey { peer: target.address, invoke_id };
            &&& !endpoint.pending.dom().contains(key)
            &&& endpoint.quarantined.dom().contains(key) ==> endpoint.quarantined[key] <= now
        }),
    ensures
        endpoint.commanded(
            EndpointCommand::Confirmed { target, service_choice, service_data, response },
            now,
            closed,
        ).actions[0] != (ActionView::Answer {
            response,
            result: Err(ClientErrorView::TooManyTransactions),
        }),
{
    let open = endpoint.without_cancelled(closed);
    conduct::law_reserved_numbers_are_free(open, target.address, now);
    let current = EndpointView { quarantined: open.held_back(now), ..open };
    assert(current.is_free(target.address, invoke_id));
    lemma_requested(endpoint, target@, service_choice, service_data@, response, now, closed);
    if let Some(number) = open.reserved(target.address, now).1 {
        if let Err(error) = split::split(target@, number, service_choice, service_data@) {
            assert(error != ClientErrorView::TooManyTransactions);
        }
    }
}

/// A request never goes out under a number that another request to that peer still
/// waits under, or that is held back.
pub proof fn law_a_request_gets_a_number_of_its_own(
    endpoint: EndpointView,
    target: BacnetTarget,
    service_choice: ConfirmedServiceChoice,
    service_data: Vec<u8>,
    response: u64,
    now: u64,
    closed: Seq<u64>,
)
    requires
        !closed.contains(response),
    ensures
        endpoint.commanded(
            EndpointCommand::Confirmed { target, service_choice, service_data, response },
            now,
            closed,
        ).actions[0] matches ActionView::Send { transaction: Some(key), .. } ==> {
            &&& endpoint.pending.dom().contains(key) ==> closed.contains(
                endpoint.pending[key].response,
            )
            &&& endpoint.quarantined.dom().contains(key) ==> endpoint.quarantined[key] <= now
        },
{
    let open = endpoint.without_cancelled(closed);
    conduct::law_reserved_numbers_are_free(open, target.address, now);
}

/// Other requests go on as they were when one more is made, but for those whose callers
/// are gone.
pub proof fn law_a_request_leaves_others_alone(
    endpoint: EndpointView,
    target: BacnetTarget,
    service_choice: ConfirmedServiceChoice,
    service_data: Vec<u8>,
    response: u64,
    now: u64,
    closed: Seq<u64>,
    other: TransactionKey,
)
    requires
        !closed.contains(response),
        endpoint.pending.dom().contains(other),
        !closed.contains(endpoint.pending[other].response),
    ensures
        ({
            let step = endpoint.commanded(
                EndpointCommand::Confirmed { target, service_choice, service_data, response },
                now,
                closed,
            );
            &&& step.endpoint.pending.dom().contains(other)
            &&& step.endpoint.pending[other] == endpoint.pending[other]
        }),
{
    let open = endpoint.without_cancelled(closed);
    conduct::law_reserved_numbers_are_free(open, target.address, now);
}

/// A subscription is a SubscribeCOV request to its target, and from that moment on what
/// the device says of the object reaches whoever subscribed last.
pub proof fn law_a_subscription_is_asked_for_and_heard(
    endpoint: EndpointView,
    target: BacnetTarget,
    key: CovKey,
    service_data: Vec<u8>,
    sink: u64,
    response: u64,
    now: u64,
    closed: Seq<u64>,
    notification: CovNotification,
    source: SocketAddress,
    then: u64,
)
    requires
        !closed.contains(response),
        !closed.contains(sink),
        notification.initiating_device.instance == key.device,
        notification.monitored_object == key.object,
    ensures
        ({
            let step = endpoint.commanded(
                EndpointCommand::SubscribeCov { target, key, service_data, sink, response },
                now,
                closed,
            );
            &&& step.actions.len() > 0
            &&& match step.actions.last() {
                ActionView::Answer { response: told, result } => told == response && result is Err,
                action => sends_request(
                    endpoint,
                    step,
                    target@,
                    ConfirmedServiceChoice::SubscribeCOV,
                    service_data@,
                    response,
                    now,
                    action,
                ),
            }
            &&& forall|i: int|
                0 <= i < step.actions.len() - 1 ==> (#[trigger] step.actions[i]) == (
                ActionView::Close { sink: endpoint.subscribers[key] })
            &&& endpoint.subscribers.dom().contains(key) ==> step.actions.len() == 2
            &&& !endpoint.subscribers.dom().contains(key) ==> step.actions.len() == 1
            &&& step.endpoint.received(
                source,
                Incoming::Unconfirmed { device: false, notification: Some(notification) },
                then,
            ).actions == seq![ActionView::Notify { sink, notification }]
        }),
{
    let registered = EndpointView {
        subscribers: endpoint.subscribers.insert(key, sink),
        ..endpoint
    };
    lemma_requested(
        registered,
        target@,
        ConfirmedServiceChoice::SubscribeCOV,
        service_data@,
        response,
        now,
        closed,
    );
    let step = endpoint.commanded(
        EndpointCommand::SubscribeCov { target, key, service_data, sink, response },
        now,
        closed,
    );
    assert(step.endpoint.subscribers.dom().contains(key));
    assert(step.endpoint.received(
        source,
        Incoming::Unconfirmed { device: false, notification: Some(notification) },
        then,
    ).actions =~= seq![ActionView::Notify { sink, notification }]);
}

// ---------------------------------------------------------------------------
// What comes back
// ---------------------------------------------------------------------------

/// An acknowledgement in one message that comes from the peer a request went to, under
/// its number and for its service, ends the transaction: the caller gets the data as it
/// came, and nothing more is said.
pub proof fn law_an_acknowledgement_reaches_its_caller(
    endpoint: EndpointView,
    key: TransactionKey,
    sequence_number: Option<u8>,
    proposed_window_size: Option<u8>,
    more_follows: bool,
    service_data: Vec<u8>,
    route: Option<NetworkAddress>,
    now: u64,
)
    requires
        endpoint.pending.dom().contains(key),
    ensures
        endpoint.received(
            key.peer,
            Incoming::Application {
                apdu: Apdu::ComplexAck {
                    segmented: false,
                    more_follows,
                    invoke_id: key.invoke_id,
                    sequence_number,
                    proposed_window_size,
                    service_choice: endpoint.pending[key].service_choice,
                    service_data,
                },
                route,
                notification: None,
            },
            now,
        ) == (Step {
            endpoint: EndpointView { pending: endpoint.pending.remove(key), ..endpoint },
            actions: seq![
                ActionView::Answer {
                    response: endpoint.pending[key].response,
                    result: Ok(service_data@),
                },
            ],
        }),
{
}

/// A bare acknowledgement ends its transaction with nothing, and an error, a reject and
/// an abort end it with what they name. Only an acknowledgement or an error for the
/// service that was asked for counts.
pub proof fn law_refusals_reach_their_caller(
    endpoint: EndpointView,
    key: TransactionKey,
    class: u32,
    code: u32,
    rejected: RejectReason,
    aborted: AbortReason,
    server: bool,
    other: u8,
    service_choice: ConfirmedServiceChoice,
    route: Option<NetworkAddress>,
    now: u64,
)
    requires
        endpoint.pending.dom().contains(key),
        service_choice != endpoint.pending[key].service_choice,
    ensures
        ({
            let asked = endpoint.pending[key];
            let ended = |result: Result<Seq<u8>, ClientErrorView>|
                Step {
                    endpoint: EndpointView { pending: endpoint.pending.remove(key), ..endpoint },
                    actions: seq![ActionView::Answer { response: asked.response, result }],
                };
            let hears = |apdu: Apdu|
                endpoint.received(
                    key.peer,
                    Incoming::Application { apdu, route, notification: None },
                    now,
                );
            let invoke_id = key.invoke_id;
            &&& hears(
                Apdu::SimpleAck { invoke_id, service_choice: asked.service_choice.code() },
            ) == ended(Ok(Seq::<u8>::empty()))
            &&& hears(
                Apdu::Error {
                    invoke_id,
                    service_choice: asked.service_choice,
                    error_class: class,
                    error_code: code,
                },
            ) == ended(
                Err(
                    ClientErrorView::PropertyError {
                        class: ErrorClass { number: class },
                        code: ErrorCode { number: code },
                    },
                ),
            )
            &&& hears(Apdu::Reject { invoke_id, reject_reason: rejected }) == ended(
                Err(ClientErrorView::Rejected(rejected)),
            )
            &&& hears(Apdu::Abort { server, invoke_id, abort_reason: aborted }) == ended(
                Err(ClientErrorView::Abort(aborted)),
            )
            &&& other != asked.service_choice.code() ==> {
                let step = hears(Apdu::SimpleAck { invoke_id, service_choice: other });
                step.endpoint == endpoint && step.actions.len() == 0
            }
            &&& {
                let step = hears(
                    Apdu::Error {
                        invoke_id,
                        service_choice,
                        error_class: class,
                        error_code: code,
                    },
                );
                step.endpoint == endpoint && step.actions.len() == 0
            }
        }),
{
    let asked = endpoint.pending[key];
    assert(Seq::<u8>::empty() =~= Seq::<u8>::empty());
}

/// What comes under a number that no request to that peer waits under changes nothing
/// and reaches nobody.
pub proof fn law_unasked_answers_are_dropped(
    endpoint: EndpointView,
    source: SocketAddress,
    apdu: Apdu,
    route: Option<NetworkAddress>,
    now: u64,
)
    requires
        !(apdu is ConfirmedRequest),
        !(apdu is UnconfirmedRequest),
        forall|key: TransactionKey|
            key.peer == source ==> !#[trigger] endpoint.pending.dom().contains(key),
    ensures
        ({
            let step = endpoint.received(
                source,
                Incoming::Application { apdu, route, notification: None },
                now,
            );
            &&& step.endpoint == endpoint
            &&& step.actions.len() == 0
        }),
{
    let message = apdu@;
    if let Some(invoke_id) = conduct::answered_id(message) {
        let key = TransactionKey { peer: source, invoke_id };
        assert(!endpoint.pending.dom().contains(key));
    }
}

/// A reply that a device asks for goes back the way its notification came, under its
/// number: an acknowledgement of the service where it could be read, a reject where it
/// could not, and an abort where it came in pieces. The subscriber to the object hears
/// of what could be read.
pub proof fn law_notifications_are_answered_for_what_they_are(
    endpoint: EndpointView,
    source: SocketAddress,
    apdu: Apdu,
    route: Option<NetworkAddress>,
    notification: Option<CovNotification>,
    now: u64,
)
    requires
        apdu matches Apdu::ConfirmedRequest { service_choice, .. } && service_choice
            == ConfirmedServiceChoice::ConfirmedCovNotification,
    ensures
        ({
            let step = endpoint.received(
                source,
                Incoming::Application { apdu, route, notification },
                now,
            );
            let reply = step.actions.last();
            let invoke_id = apdu->ConfirmedRequest_invoke_id;
            &&& reply is Send
            &&& reply->Send_peer == source
            &&& !reply->Send_packet.expecting_reply
            &&& is_routed(reply->Send_packet, target::route_view(route))
            &&& if apdu->ConfirmedRequest_segmented {
                reply->Send_packet.apdu == (ApduView::Abort {
                    server: true,
                    invoke_id,
                    abort_reason: AbortReason::SegmentationNotSupported,
                }) && step.actions.len() == 1
            } else {
                match notification {
                    None => reply->Send_packet.apdu == (ApduView::Reject {
                        invoke_id,
                        reject_reason: RejectReason::InvalidTag,
                    }) && step.actions.len() == 1,
                    Some(said) => {
                        let key = CovKey {
                            device: said.initiating_device.instance,
                            object: said.monitored_object,
                        };
                        &&& reply->Send_packet.apdu == (ApduView::SimpleAck {
                            invoke_id,
                            service_choice: 1,
                        })
                        &&& endpoint.subscribers.dom().contains(key) ==> {
                            &&& step.actions.len() == 2
                            &&& step.actions[0] == (ActionView::Notify {
                                sink: endpoint.subscribers[key],
                                notification: said,
                            })
                        }
                        &&& !endpoint.subscribers.dom().contains(key) ==> step.actions.len() == 1
                    },
                }
            }
        }),
{
}

/// A device that announces itself is offered to everybody who collects devices, and a
/// router to everybody who collects routers; nobody else hears of either.
pub proof fn law_announcements_reach_every_collector(
    endpoint: EndpointView,
    source: SocketAddress,
    now: u64,
    i: int,
)
    ensures
        ({
            let heard = endpoint.received(
                source,
                Incoming::Unconfirmed { device: true, notification: None },
                now,
            );
            let routed = endpoint.received(
                source,
                Incoming::NetworkMessage { router: true },
                now,
            );
            &&& heard.endpoint == endpoint && routed.endpoint == endpoint
            &&& heard.actions.len() == endpoint.devices.len()
            &&& 0 <= i < endpoint.devices.len() ==> heard.actions[i] == (ActionView::Offer {
                sink: endpoint.devices[i].sink,
            })
            &&& routed.actions.len() == endpoint.routers.len()
            &&& 0 <= i < endpoint.routers.len() ==> routed.actions[i] == (ActionView::Offer {
                sink: endpoint.routers[i].sink,
            })
            &&& endpoint.received(
                source,
                Incoming::NetworkMessage { router: false },
                now,
            ).actions.len() == 0
            &&& endpoint.received(
                source,
                Incoming::Unconfirmed { device: false, notification: None },
                now,
            ).actions.len() == 0
        }),
{
}

/// A discovery sends its frame where it is told to, and collects until its time is up,
/// beside those that were under way.
pub proof fn law_a_discovery_collects_for_its_time(
    endpoint: EndpointView,
    frame: Vec<u8>,
    destination: SocketAddress,
    sink: u64,
    now: u64,
    closed: Seq<u64>,
)
    requires
        !closed.contains(sink),
        now + endpoint.timeout <= u64::MAX,
    ensures
        ({
            let devices = endpoint.commanded(
                EndpointCommand::DiscoverDevices { frame, destination, sink },
                now,
                closed,
            );
            let routers = endpoint.commanded(
                EndpointCommand::DiscoverRouters { frame, destination, sink },
                now,
                closed,
            );
            let sent = seq![ActionView::Discover { destination, frame: frame@, sink }];
            let collecting = ActiveDiscovery { sink, deadline: (now + endpoint.timeout) as u64 };
            &&& devices.actions == sent
            &&& devices.endpoint == (EndpointView {
                devices: endpoint.devices.push(collecting),
                ..endpoint
            })
            &&& routers.actions == sent
            &&& routers.endpoint == (EndpointView {
                routers: endpoint.routers.push(collecting),
                ..endpoint
            })
        }),
{
}

// ---------------------------------------------------------------------------
// When time passes
// ---------------------------------------------------------------------------

/// What the deadlines leave of a transaction, whatever order they are looked at in: one
/// that is not due is as it was; one that is due and has retries left waits a whole
/// timeout more with one retry less; one that has none left is over, its number held
/// back for as long as all its attempts together, and so is one whose caller is gone.
pub proof fn law_deadlines_move_what_is_due(
    endpoint: EndpointView,
    order: Seq<TransactionKey>,
    now: u64,
    closed: Seq<u64>,
    key: TransactionKey,
)
    requires
        endpoint.lists_due(order, now),
        endpoint.pending.dom().contains(key),
    ensures
        ({
            let after = endpoint.deadlines_passed(order, now, closed).endpoint;
            let held = endpoint.pending[key];
            if held.deadline > now {
                after.pending.dom().contains(key) && after.pending[key] == held
            } else if closed.contains(held.response) {
                !after.pending.dom().contains(key)
            } else if held.retries_remaining == 0 {
                &&& !after.pending.dom().contains(key)
                &&& after.quarantined.dom().contains(key)
                &&& now + endpoint.timeout * (endpoint.retries + 1) <= u64::MAX
                    ==> after.quarantined[key] == now + endpoint.timeout * (endpoint.retries + 1)
            } else {
                &&& after.pending.dom().contains(key)
                &&& after.pending[key].retries_remaining == held.retries_remaining - 1
                &&& now + endpoint.timeout <= u64::MAX ==> after.pending[key].deadline == now
                    + endpoint.timeout
                &&& after.pending[key] == (PendingView {
                    retries_remaining: after.pending[key].retries_remaining,
                    deadline: after.pending[key].deadline,
                    ..held
                })
            }
        }),
{
    let start = endpoint.discoveries_closed(now).endpoint;
    assert(order.contains(key) == endpoint.is_due(key, now));
    lemma_all_timed_out(start, order, now, closed, key);
    let after = endpoint.deadlines_passed(order, now, closed).endpoint;
    assert(after == start.all_timed_out(order, now, closed).endpoint);
    let held = endpoint.pending[key];
    assert(start.pending[key] == held);
    if held.deadline <= now && !closed.contains(held.response) && held.retries_remaining == 0 {
        let alone = start.timed_out(key, now, closed).endpoint;
        assert(alone.quarantined.dom().contains(key));
        assert(after.quarantined.dom().contains(key));
    }
}

proof fn lemma_all_timed_out(
    start: EndpointView,
    order: Seq<TransactionKey>,
    now: u64,
    closed: Seq<u64>,
    key: TransactionKey,
)
    requires
        order.no_duplicates(),
        start.pending.dom().contains(key),
    ensures
        ({
            let after = start.all_timed_out(order, now, closed).endpoint;
            let alone = start.timed_out(key, now, closed).endpoint;
            &&& after.timeout == start.timeout && after.retries == start.retries
            &&& !order.contains(key) ==> after.pending.dom().contains(key) && after.pending[key]
                == start.pending[key]
            &&& order.contains(key) ==> {
                &&& after.pending.dom().contains(key) == alone.pending.dom().contains(key)
                &&& after.pending.dom().contains(key) ==> after.pending[key] == alone.pending[key]
                &&& start.pending[key].retries_remaining == 0 && !closed.contains(
                    start.pending[key].response,
                ) ==> after.quarantined.dom().contains(key) && after.quarantined[key]
                    == conduct::later(now, start.budget())
            }
        }),
    decreases order.len(),
{
    if order.len() > 0 {
        let shorter = order.drop_last();
        let last = order.last();
        assert forall|i: int, j: int|
            0 <= i < shorter.len() && 0 <= j < shorter.len() && i != j implies shorter[i]
            != shorter[j] by {
            assert(order[i] != order[j]);
        }
        lemma_all_timed_out(start, shorter, now, closed, key);
        let before = start.all_timed_out(shorter, now, closed).endpoint;
        assert(!shorter.contains(last)) by {
            if shorter.contains(last) {
                let i = shorter.index_of(last);
                assert(order[i] == order[order.len() - 1]);
            }
        }
        if order.contains(key) && key != last {
            let i = order.index_of(key);
            assert(shorter[i] == key);
        }
        if shorter.contains(key) {
            let i = shorter.index_of(key);
            assert(order[i] == key);
        }
        assert(order[order.len() - 1] == last);
    }
}

/// A deadline that passes with retries left repeats what the peer has not answered: the
/// request as it went out, the pieces under way, or the acknowledgement the peer waits
/// for. With none left, the caller hears that it took too long.
pub proof fn law_unanswered_requests_are_repeated(
    endpoint: EndpointView,
    key: TransactionKey,
    now: u64,
    closed: Seq<u64>,
)
    requires
        endpoint.pending.dom().contains(key),
        !closed.contains(endpoint.pending[key].response),
    ensures
        ({
            let held = endpoint.pending[key];
            let step = endpoint.timed_out(key, now, closed);
            let repeats = |packet: PacketView|
                seq![ActionView::Send { peer: key.peer, packet, transaction: Some(key) }];
            &&& held.retries_remaining == 0 ==> step.actions == seq![
                ActionView::Answer {
                    response: held.response,
                    result: Err(ClientErrorView::Timeout),
                },
            ]
            &&& held.retries_remaining > 0 && held.reassembly is None && held.outbound is None
                && held.frame is Some ==> step.actions == repeats(held.frame->Some_0)
            &&& held.retries_remaining > 0 && held.reassembly is Some
                && held.reassembly->Some_0.last_ack is Some ==> step.actions == repeats(
                held.reassembly->Some_0.last_ack->Some_0,
            )
            &&& held.retries_remaining > 0 && held.reassembly is None && held.outbound is Some
                && held.outbound->Some_0.wf() ==> {
                let sent = held.outbound->Some_0;
                let first = match sent.acked {
                    Some(acked) => acked + 1,
                    None => 0,
                };
                forall|i: int|
                    0 <= i < step.actions.len() ==> (#[trigger] step.actions[i]) == (
                    ActionView::Send {
                        peer: key.peer,
                        packet: sent.frames[first + i],
                        transaction: Some(key),
                    })
            }
        }),
{
    let held = endpoint.pending[key];
    let step = endpoint.timed_out(key, now, closed);
    if held.retries_remaining > 0 {
        if held.reassembly is None && held.outbound is None && held.frame is Some {
            assert(step.actions =~= seq![
                ActionView::Send {
                    peer: key.peer,
                    packet: held.frame->Some_0,
                    transaction: Some(key),
                },
            ]);
        }
        if held.reassembly is Some && held.reassembly->Some_0.last_ack is Some {
            assert(step.actions =~= seq![
                ActionView::Send {
                    peer: key.peer,
                    packet: held.reassembly->Some_0.last_ack->Some_0,
                    transaction: Some(key),
                },
            ]);
        }
    }
}

/// A request that is never answered goes out once for each retry after the first time,
/// and no more: each deadline takes one retry away, until none is left.
pub proof fn law_attempts_are_counted(
    endpoint: EndpointView,
    key: TransactionKey,
    now: u64,
    closed: Seq<u64>,
)
    requires
        endpoint.pending.dom().contains(key),
        !closed.contains(endpoint.pending[key].response),
    ensures
        ({
            let after = endpoint.timed_out(key, now, closed).endpoint;
            if endpoint.pending[key].retries_remaining == 0 {
                !after.pending.dom().contains(key)
            } else {
                &&& after.pending.dom().contains(key)
                &&& after.pending[key].retries_remaining + 1
                    == endpoint.pending[key].retries_remaining
                &&& after.pending[key].frame == endpoint.pending[key].frame
                &&& after.pending[key].response == endpoint.pending[key].response
            }
        }),
{
}

/// Collections end when their time is up, and go on until then.
pub proof fn law_collections_end_on_time(
    endpoint: EndpointView,
    now: u64,
    discovery: ActiveDiscovery,
)
    ensures
        ({
            let step = endpoint.discoveries_closed(now);
            &&& step.endpoint.devices.contains(discovery) == (endpoint.devices.contains(discovery)
                && now < discovery.deadline)
            &&& step.endpoint.routers.contains(discovery) == (endpoint.routers.contains(discovery)
                && now < discovery.deadline)
            &&& (endpoint.devices.contains(discovery) || endpoint.routers.contains(discovery))
                && discovery.deadline <= now ==> step.actions.contains(
                ActionView::Close { sink: discovery.sink },
            )
            &&& step.endpoint.pending == endpoint.pending
        }),
{
    let late = |discovery: ActiveDiscovery| discovery.deadline <= now;
    let open = |discovery: ActiveDiscovery| discovery.deadline > now;
    let shut = |discovery: ActiveDiscovery| ActionView::Close { sink: discovery.sink };
    let step = endpoint.discoveries_closed(now);
    lemma_filtered(endpoint.devices, open, discovery);
    lemma_filtered(endpoint.routers, open, discovery);
    lemma_filtered(endpoint.devices, late, discovery);
    lemma_filtered(endpoint.routers, late, discovery);
    if discovery.deadline <= now {
        if endpoint.devices.contains(discovery) {
            let i = endpoint.devices.filter(late).index_of(discovery);
            assert(step.actions[i] == shut(discovery));
        }
        if endpoint.routers.contains(discovery) {
            let i = endpoint.routers.filter(late).index_of(discovery);
            let offset = EndpointView::closings(endpoint.devices, now).len();
            assert(step.actions[offset + i] == shut(discovery));
        }
    }
}

proof fn lemma_filtered<T>(items: Seq<T>, kept: spec_fn(T) -> bool, item: T)
    ensures
        items.filter(kept).contains(item) == (items.contains(item) && kept(item)),
    decreases items.len(),
{
    reveal(Seq::filter);
    if items.len() > 0 {
        let shorter = items.drop_last();
        lemma_filtered(shorter, kept, item);
        let before = shorter.filter(kept);
        assert(items =~= shorter.push(items.last()));
        if items.contains(item) {
            let i = items.index_of(item);
            if i < shorter.len() {
                assert(shorter[i] == item);
            }
        }
        if shorter.contains(item) {
            let i = shorter.index_of(item);
            assert(items[i] == item);
        }
        assert(items[items.len() - 1] == items.last());
        if kept(items.last()) {
            let all = before.push(items.last());
            assert(items.filter(kept) == all);
            if before.contains(item) {
                assert(all[before.index_of(item)] == item);
            }
            assert(all[before.len() as int] == items.last());
            if all.contains(item) {
                let i = all.index_of(item);
                if i < before.len() {
                    assert(before[i] == item);
                }
            }
        }
    }
}

// ---------------------------------------------------------------------------
// Messages in pieces
// ---------------------------------------------------------------------------

/// A segment of the answer to a request, as it arrives.
pub open spec fn answer_segment(
    endpoint: EndpointView,
    key: TransactionKey,
    sequence_number: Option<u8>,
    more_follows: bool,
    service_data: Vec<u8>,
    proposed_window_size: Option<u8>,
    route: Option<NetworkAddress>,
) -> Incoming {
    Incoming::Application {
        apdu: Apdu::ComplexAck {
            segmented: true,
            more_follows,
            invoke_id: key.invoke_id,
            sequence_number,
            proposed_window_size,
            service_choice: endpoint.pending[key].service_choice,
            service_data,
        },
        route,
        notification: None,
    }
}

/// Whether an action acknowledges a segment to the peer it came from, back the way it
/// came: it names the segment, and grants the peer one more at a time.
pub open spec fn acknowledges(
    action: ActionView,
    key: TransactionKey,
    sequence: u8,
    negative: bool,
    route: Option<NetworkAddress>,
) -> bool {
    &&& action is Send
    &&& action->Send_peer == key.peer
    &&& !action->Send_packet.expecting_reply
    &&& is_routed(action->Send_packet, target::route_view(route))
    &&& action->Send_packet.apdu == (ApduView::SegmentAck {
        negative,
        server: false,
        invoke_id: key.invoke_id,
        sequence_number: sequence,
        window_size: 1,
    })
}

/// Whether a step gives a transfer up: the peer is told to stop, and the caller why.
pub open spec fn gives_up(
    endpoint: EndpointView,
    step: Step,
    key: TransactionKey,
    reason: AbortReason,
    route: Option<NetworkAddress>,
) -> bool {
    &&& step.actions.len() == 2
    &&& step.actions[0] is Send
    &&& step.actions[0]->Send_peer == key.peer
    &&& is_routed(step.actions[0]->Send_packet, target::route_view(route))
    &&& step.actions[0]->Send_packet.apdu == (ApduView::Abort {
        server: false,
        invoke_id: key.invoke_id,
        abort_reason: reason,
    })
    &&& step.actions[1] == (ActionView::Answer {
        response: endpoint.pending[key].response,
        result: Err(ClientErrorView::Abort(reason)),
    })
    &&& step.endpoint == (EndpointView { pending: endpoint.pending.remove(key), ..endpoint })
}

/// What becomes of a segment of an answer, by its number and by what has come before.
///
/// The first one is zero, and each that follows is one more, past 255 zero again. The
/// one that is due is acknowledged and added to what came before; with nothing more to
/// follow, the caller gets it all. One out of turn is asked for again by naming the last
/// in order. A transfer that does not start at its start, has no numbers, or has more
/// than sixty-four segments is given up.
pub proof fn law_answers_are_put_together_in_order(
    endpoint: EndpointView,
    key: TransactionKey,
    sequence_number: Option<u8>,
    more_follows: bool,
    service_data: Vec<u8>,
    proposed_window_size: Option<u8>,
    route: Option<NetworkAddress>,
    now: u64,
)
    requires
        endpoint.pending.dom().contains(key),
    ensures
        ({
            let held = endpoint.pending[key];
            let step = endpoint.received(
                key.peer,
                answer_segment(
                    endpoint,
                    key,
                    sequence_number,
                    more_follows,
                    service_data,
                    proposed_window_size,
                    route,
                ),
                now,
            );
            let before = match held.reassembly {
                Some(reassembly) => reassembly.data,
                None => Seq::empty(),
            };
            let count = match held.reassembly {
                Some(reassembly) => reassembly.segments,
                None => 0,
            };
            let last = match held.reassembly {
                Some(reassembly) => reassembly.last_in_order,
                None => None,
            };
            match sequence_number {
                None => gives_up(endpoint, step, key, AbortReason::InvalidApduInThisState, route),
                Some(sequence) => {
                    let due = match last {
                        Some(last) => (last + 1) % 256,
                        None => 0,
                    };
                    if sequence == due && count >= 64 {
                        gives_up(endpoint, step, key, AbortReason::BufferOverflow, route)
                    } else if sequence == due && more_follows {
                        let after = step.endpoint.pending[key];
                        &&& step.actions.len() == 1
                        &&& acknowledges(step.actions[0], key, sequence, false, route)
                        &&& step.endpoint.pending.dom().contains(key)
                        &&& after.reassembly is Some
                        &&& after.reassembly->Some_0.data == before + service_data@
                        &&& after.reassembly->Some_0.segments == count + 1
                        &&& after.reassembly->Some_0.last_in_order == Some(sequence)
                        &&& after.response == held.response
                        &&& after.retries_remaining == endpoint.retries
                        &&& now + endpoint.timeout <= u64::MAX ==> after.deadline == now
                            + endpoint.timeout
                    } else if sequence == due {
                        &&& step.actions.len() == 2
                        &&& acknowledges(step.actions[0], key, sequence, false, route)
                        &&& step.actions[1] == (ActionView::Answer {
                            response: held.response,
                            result: Ok(before + service_data@),
                        })
                        &&& step.endpoint == (EndpointView {
                            pending: endpoint.pending.remove(key),
                            ..endpoint
                        })
                    } else {
                        match last {
                            None => gives_up(
                                endpoint,
                                step,
                                key,
                                AbortReason::InvalidApduInThisState,
                                route,
                            ),
                            Some(last) => {
                                let after = step.endpoint.pending[key];
                                &&& step.endpoint.pending.dom().contains(key)
                                &&& after.reassembly is Some
                                &&& after.reassembly->Some_0.data == before
                                &&& after.reassembly->Some_0.last_in_order == Some(last)
                                &&& sequence != last ==> step.actions.len() == 1 && acknowledges(
                                    step.actions[0],
                                    key,
                                    last,
                                    true,
                                    route,
                                )
                                &&& sequence == last ==> step.actions == match
                                    held.reassembly->Some_0.last_ack {
                                    Some(ack) => seq![
                                        ActionView::Send {
                                            peer: key.peer,
                                            packet: ack,
                                            transaction: Some(key),
                                        },
                                    ],
                                    None => Seq::empty(),
                                }
                            },
                        }
                    }
                },
            }
        }),
{
    let held = endpoint.pending[key];
    let step = endpoint.received(
        key.peer,
        answer_segment(
            endpoint,
            key,
            sequence_number,
            more_follows,
            service_data,
            proposed_window_size,
            route,
        ),
        now,
    );
    let before = match held.reassembly {
        Some(reassembly) => reassembly,
        None => transfer::nothing_arrived(),
    };
    if let Some(sequence) = sequence_number {
        assert(before.data + service_data@ =~= before.data + service_data@);
        if before.last_in_order == Some(sequence) {
            if let Some(ack) = before.last_ack {
                assert(step.actions =~= seq![
                    ActionView::Send { peer: key.peer, packet: ack, transaction: Some(key) },
                ]);
            } else {
                assert(step.actions =~= Seq::<ActionView>::empty());
            }
        }
    }
}

/// A peer that says how far a request in pieces got is sent what follows: the pieces
/// behind the one it names, as many as it looks at, and one at least. Once it names the
/// last, nothing is left to send, and its answer is awaited.
pub proof fn law_pieces_follow_their_acknowledgement(
    endpoint: EndpointView,
    key: TransactionKey,
    negative: bool,
    server: bool,
    sequence_number: u8,
    window_size: u8,
    route: Option<NetworkAddress>,
    now: u64,
    i: int,
)
    requires
        endpoint.pending.dom().contains(key),
        endpoint.pending[key].outbound is Some,
        endpoint.pending[key].outbound->Some_0.wf(),
    ensures
        ({
            let held = endpoint.pending[key];
            let frames = held.outbound->Some_0.frames;
            let step = endpoint.received(
                key.peer,
                Incoming::Application {
                    apdu: Apdu::SegmentAck {
                        negative,
                        server,
                        invoke_id: key.invoke_id,
                        sequence_number,
                        window_size,
                    },
                    route,
                    notification: None,
                },
                now,
            );
            let left = frames.len() - sequence_number - 1;
            let after = step.endpoint.pending[key];
            if left < 0 {
                step.endpoint == endpoint && step.actions.len() == 0
            } else {
                &&& step.actions.len() == if window_size == 0 && left > 0 {
                    1
                } else if window_size < left {
                    window_size as int
                } else {
                    left
                }
                &&& 0 <= i < step.actions.len() ==> step.actions[i] == (ActionView::Send {
                    peer: key.peer,
                    packet: frames[sequence_number + 1 + i],
                    transaction: Some(key),
                })
                &&& step.endpoint.pending.dom().contains(key)
                &&& left == 0 ==> after.outbound is None && after.frame is None
                &&& left > 0 ==> {
                    &&& after.outbound is Some
                    &&& after.outbound->Some_0.frames == frames
                    &&& after.outbound->Some_0.acked == Some(sequence_number)
                    &&& after.frame == Some(frames[sequence_number + 1])
                }
                &&& after.response == held.response
                &&& after.service_choice == held.service_choice
                &&& after.retries_remaining == endpoint.retries
                &&& now + endpoint.timeout <= u64::MAX ==> after.deadline == now + endpoint.timeout
            }
        }),
{
}

/// When the endpoint stops, everybody who waits is told why: what the system said of the
/// socket, or that the endpoint is closed.
pub proof fn law_nobody_is_left_waiting(
    endpoint: EndpointView,
    order: Seq<TransactionKey>,
    failure: Option<&str>,
    key: TransactionKey,
    discovery: ActiveDiscovery,
)
    requires
        order.contains(key),
    ensures
        ({
            let told = endpoint.failures(order, conduct::stopped_by(failure));
            let error = match failure {
                Some(text) => ClientErrorView::Io(text@),
                None => ClientErrorView::EndpointClosed,
            };
            &&& told.contains(
                ActionView::Answer { response: endpoint.pending[key].response, result: Err(error) },
            )
            &&& endpoint.devices.contains(discovery) || endpoint.routers.contains(discovery)
                ==> told.contains(ActionView::Fail { sink: discovery.sink, error })
            &&& told.len() == order.len() + endpoint.devices.len() + endpoint.routers.len()
        }),
{
    let error = conduct::stopped_by(failure);
    let told = endpoint.failures(order, error);
    let i = order.index_of(key);
    assert(told[i] == endpoint.failure(key, error));
    if endpoint.devices.contains(discovery) {
        let i = endpoint.devices.index_of(discovery);
        assert(told[order.len() + i] == (ActionView::Fail { sink: discovery.sink, error }));
    }
    if endpoint.routers.contains(discovery) {
        let i = endpoint.routers.index_of(discovery);
        assert(told[order.len() + endpoint.devices.len() + i] == (ActionView::Fail {
            sink: discovery.sink,
            error,
        }));
    }
}

/// The confirmed services, by rising number.
pub open spec fn numbered_services() -> Seq<(u8, ConfirmedServiceChoice)> {
    seq![
        (0u8, ConfirmedServiceChoice::AcknowledgeAlarm),
        (1u8, ConfirmedServiceChoice::ConfirmedCovNotification),
        (2u8, ConfirmedServiceChoice::ConfirmedEventNotification),
        (3u8, ConfirmedServiceChoice::GetAlarmSummary),
        (4u8, ConfirmedServiceChoice::GetEnrollmentSummary),
        (5u8, ConfirmedServiceChoice::SubscribeCOV),
        (6u8, ConfirmedServiceChoice::AtomicReadFile),
        (7u8, ConfirmedServiceChoice::AtomicWriteFile),
        (8u8, ConfirmedServiceChoice::AddListElement),
        (9u8, ConfirmedServiceChoice::RemoveListElement),
        (10u8, ConfirmedServiceChoice::CreateObject),
        (11u8, ConfirmedServiceChoice::DeleteObject),
        (12u8, ConfirmedServiceChoice::ReadProperty),
        (14u8, ConfirmedServiceChoice::ReadPropertyMultiple),
        (15u8, ConfirmedServiceChoice::WriteProperty),
        (16u8, ConfirmedServiceChoice::WritePropertyMultiple),
        (17u8, ConfirmedServiceChoice::DeviceCommunicationControl),
        (18u8, ConfirmedServiceChoice::ConfirmedPrivateTransfer),
        (19u8, ConfirmedServiceChoice::ConfirmedTextMessage),
        (20u8, ConfirmedServiceChoice::ReinitializeDevice),
        (21u8, ConfirmedServiceChoice::VtOpen),
        (22u8, ConfirmedServiceChoice::VtClose),
        (23u8, ConfirmedServiceChoice::VtData),
        (26u8, ConfirmedServiceChoice::ReadRange),
        (27u8, ConfirmedServiceChoice::LifeSafetyOperation),
        (28u8, ConfirmedServiceChoice::SubscribeCOVProperty),
        (29u8, ConfirmedServiceChoice::GetEventInformation),
    ]
}

/// Every service has the number that the standard gives it, and no other service has
/// that number.
pub proof fn law_services_have_their_numbers(
    service: ConfirmedServiceChoice,
    other: ConfirmedServiceChoice,
)
    ensures
        exists|i: int|
            0 <= i < numbered_services().len() && #[trigger] numbered_services()[i] == (
                service.code(),
                service,
            ),
        service.code() == other.code() ==> service == other,
{
    let i: int = if service.code() < 13 {
        service.code() as int
    } else if service.code() < 26 {
        service.code() - 1
    } else {
        service.code() - 3
    };
    assert(numbered_services()[i] == (service.code(), service));
}

} // verus!
