//! What peers say to each other.

use crate::client::target;
use crate::client::target::{
    duplicate_route, peer_limits, BacnetTarget, MaxApduSize, MaxSegments,
    NetworkAddress, NetworkAddressView, TargetView,
};
use crate::octets;
use vstd::prelude::*;

verus! {

/// The confirmed services.
#[derive(Debug, Clone, Copy, PartialEq, Eq, Structural)]
pub enum ConfirmedServiceChoice {
    AcknowledgeAlarm,
    ConfirmedCovNotification,
    ConfirmedEventNotification,
    GetAlarmSummary,
    GetEnrollmentSummary,
    SubscribeCOV,
    AtomicReadFile,
    AtomicWriteFile,
    AddListElement,
    RemoveListElement,
    CreateObject,
    DeleteObject,
    ReadProperty,
    ReadPropertyMultiple,
    WriteProperty,
    WritePropertyMultiple,
    DeviceCommunicationControl,
    ConfirmedPrivateTransfer,
    ConfirmedTextMessage,
    ReinitializeDevice,
    VtOpen,
    VtClose,
    VtData,
    ReadRange,
    LifeSafetyOperation,
    SubscribeCOVProperty,
    GetEventInformation,
}

impl ConfirmedServiceChoice {
    /// The number of a service on the wire.
    pub open spec fn code(self) -> u8 {
        match self {
            ConfirmedServiceChoice::AcknowledgeAlarm => 0,
            ConfirmedServiceChoice::ConfirmedCovNotification => 1,
            ConfirmedServiceChoice::ConfirmedEventNotification => 2,
            ConfirmedServiceChoice::GetAlarmSummary => 3,
            ConfirmedServiceChoice::GetEnrollmentSummary => 4,
            ConfirmedServiceChoice::SubscribeCOV => 5,
            ConfirmedServiceChoice::AtomicReadFile => 6,
            ConfirmedServiceChoice::AtomicWriteFile => 7,
            ConfirmedServiceChoice::AddListElement => 8,
            ConfirmedServiceChoice::RemoveListElement => 9,
            ConfirmedServiceChoice::CreateObject => 10,
            ConfirmedServiceChoice::DeleteObject => 11,
            ConfirmedServiceChoice::ReadProperty => 12,
            ConfirmedServiceChoice::ReadPropertyMultiple => 14,
            ConfirmedServiceChoice::WriteProperty => 15,
            ConfirmedServiceChoice::WritePropertyMultiple => 16,
            ConfirmedServiceChoice::DeviceCommunicationControl => 17,
            ConfirmedServiceChoice::ConfirmedPrivateTransfer => 18,
            ConfirmedServiceChoice::ConfirmedTextMessage => 19,
            ConfirmedServiceChoice::ReinitializeDevice => 20,
            ConfirmedServiceChoice::VtOpen => 21,
            ConfirmedServiceChoice::VtClose => 22,
            ConfirmedServiceChoice::VtData => 23,
            ConfirmedServiceChoice::ReadRange => 26,
            ConfirmedServiceChoice::LifeSafetyOperation => 27,
            ConfirmedServiceChoice::SubscribeCOVProperty => 28,
            ConfirmedServiceChoice::GetEventInformation => 29,
        }
    }

    /// The number of a service on the wire.
    pub fn number(self) -> (number: u8)
        ensures
            number == self.code(),
    {
        match self {
            ConfirmedServiceChoice::AcknowledgeAlarm => 0,
            ConfirmedServiceChoice::ConfirmedCovNotification => 1,
            ConfirmedServiceChoice::ConfirmedEventNotification => 2,
            ConfirmedServiceChoice::GetAlarmSummary => 3,
            ConfirmedServiceChoice::GetEnrollmentSummary => 4,
            ConfirmedServiceChoice::SubscribeCOV => 5,
            ConfirmedServiceChoice::AtomicReadFile => 6,
            ConfirmedServiceChoice::AtomicWriteFile => 7,
            ConfirmedServiceChoice::AddListElement => 8,
            ConfirmedServiceChoice::RemoveListElement => 9,
            ConfirmedServiceChoice::CreateObject => 10,
            ConfirmedServiceChoice::DeleteObject => 11,
            ConfirmedServiceChoice::ReadProperty => 12,
            ConfirmedServiceChoice::ReadPropertyMultiple => 14,
            ConfirmedServiceChoice::WriteProperty => 15,
            ConfirmedServiceChoice::WritePropertyMultiple => 16,
            ConfirmedServiceChoice::DeviceCommunicationControl => 17,
            ConfirmedServiceChoice::ConfirmedPrivateTransfer => 18,
            ConfirmedServiceChoice::ConfirmedTextMessage => 19,
            ConfirmedServiceChoice::ReinitializeDevice => 20,
            ConfirmedServiceChoice::VtOpen => 21,
            ConfirmedServiceChoice::VtClose => 22,
            ConfirmedServiceChoice::VtData => 23,
            ConfirmedServiceChoice::ReadRange => 26,
            ConfirmedServiceChoice::LifeSafetyOperation => 27,
            ConfirmedServiceChoice::SubscribeCOVProperty => 28,
            ConfirmedServiceChoice::GetEventInformation => 29,
        }
    }
}

/// The unconfirmed services, as far as a client tells them apart.
#[derive(Debug, Clone, Copy, PartialEq, Eq, Structural)]
pub enum UnconfirmedServiceChoice {
    IAm,
    UnconfirmedCOVNotification,
    WhoIs,
    /// Any other, by its number.
    Other(u8),
}

/// Why a transaction was aborted.
#[derive(Debug, Clone, Copy, PartialEq, Eq, Structural)]
pub enum AbortReason {
    Other,
    BufferOverflow,
    InvalidApduInThisState,
    PreemptedByHigherPriorityTask,
    SegmentationNotSupported,
    SecurityError,
    InsufficientSecurity,
    WindowSizeOutOfRange,
    ApplicationExceededReplyTime,
    OutOfResources,
    TsmTimeout,
    ApduTooLong,
    /// Any other, by its number.
    Reserved(u8),
}

/// Why a request was rejected.
#[derive(Debug, Clone, Copy, PartialEq, Eq, Structural)]
pub enum RejectReason {
    Other,
    BufferOverflow,
    InconsistentParameters,
    InvalidParameterDataType,
    InvalidTag,
    MissingRequiredParameter,
    ParameterOutOfRange,
    TooManyArguments,
    UndefinedEnumeration,
    UnrecognizedService,
    /// Any other, by its number.
    Reserved(u8),
}

/// One application message.
#[derive(Debug, Clone, PartialEq, Eq)]
pub enum Apdu {
    /// A request that is answered.
    ConfirmedRequest {
        segmented: bool,
        more_follows: bool,
        segmented_response_accepted: bool,
        max_segments: MaxSegments,
        max_response_size: MaxApduSize,
        invoke_id: u8,
        sequence_number: Option<u8>,
        proposed_window_size: Option<u8>,
        service_choice: ConfirmedServiceChoice,
        service_data: Vec<u8>,
    },
    /// A request that is not.
    UnconfirmedRequest { service_choice: UnconfirmedServiceChoice, service_data: Vec<u8> },
    /// Done.
    SimpleAck { invoke_id: u8, service_choice: u8 },
    /// Done, with what was asked for, or a piece of it.
    ComplexAck {
        segmented: bool,
        more_follows: bool,
        invoke_id: u8,
        sequence_number: Option<u8>,
        proposed_window_size: Option<u8>,
        service_choice: ConfirmedServiceChoice,
        service_data: Vec<u8>,
    },
    /// How far a split message got.
    SegmentAck {
        negative: bool,
        server: bool,
        invoke_id: u8,
        sequence_number: u8,
        window_size: u8,
    },
    /// The service failed.
    Error {
        invoke_id: u8,
        service_choice: ConfirmedServiceChoice,
        error_class: u32,
        error_code: u32,
    },
    /// The request made no sense.
    Reject { invoke_id: u8, reject_reason: RejectReason },
    /// The transaction is over.
    Abort { server: bool, invoke_id: u8, abort_reason: AbortReason },
}

/// An [`Apdu`] with its octets as a sequence.
#[verifier::ext_equal]
pub enum ApduView {
    ConfirmedRequest {
        segmented: bool,
        more_follows: bool,
        segmented_response_accepted: bool,
        max_segments: MaxSegments,
        max_response_size: MaxApduSize,
        invoke_id: u8,
        sequence_number: Option<u8>,
        proposed_window_size: Option<u8>,
        service_choice: ConfirmedServiceChoice,
        service_data: Seq<u8>,
    },
    UnconfirmedRequest { service_choice: UnconfirmedServiceChoice, service_data: Seq<u8> },
    SimpleAck { invoke_id: u8, service_choice: u8 },
    ComplexAck {
        segmented: bool,
        more_follows: bool,
        invoke_id: u8,
        sequence_number: Option<u8>,
        proposed_window_size: Option<u8>,
        service_choice: ConfirmedServiceChoice,
        service_data: Seq<u8>,
    },
    SegmentAck {
        negative: bool,
        server: bool,
        invoke_id: u8,
        sequence_number: u8,
        window_size: u8,
    },
    Error {
        invoke_id: u8,
        service_choice: ConfirmedServiceChoice,
        error_class: u32,
        error_code: u32,
    },
    Reject { invoke_id: u8, reject_reason: RejectReason },
    Abort { server: bool, invoke_id: u8, abort_reason: AbortReason },
}

impl View for Apdu {
    type V = ApduView;

    open spec fn view(&self) -> ApduView {
        match *self {
            Apdu::ConfirmedRequest {
                segmented,
                more_follows,
                segmented_response_accepted,
                max_segments,
                max_response_size,
                invoke_id,
                sequence_number,
                proposed_window_size,
                service_choice,
                service_data,
            } => ApduView::ConfirmedRequest {
                segmented,
                more_follows,
                segmented_response_accepted,
                max_segments,
                max_response_size,
                invoke_id,
                sequence_number,
                proposed_window_size,
                service_choice,
                service_data: service_data@,
            },
            Apdu::UnconfirmedRequest { service_choice, service_data } => {
                ApduView::UnconfirmedRequest { service_choice, service_data: service_data@ }
            },
            Apdu::SimpleAck { invoke_id, service_choice } => ApduView::SimpleAck {
                invoke_id,
                service_choice,
            },
            Apdu::ComplexAck {
                segmented,
                more_follows,
                invoke_id,
                sequence_number,
                proposed_window_size,
                service_choice,
                service_data,
            } => ApduView::ComplexAck {
                segmented,
                more_follows,
                invoke_id,
                sequence_number,
                proposed_window_size,
                service_choice,
                service_data: service_data@,
            },
            Apdu::SegmentAck { negative, server, invoke_id, sequence_number, window_size } => {
                ApduView::SegmentAck { negative, server, invoke_id, sequence_number, window_size }
            },
            Apdu::Error { invoke_id, service_choice, error_class, error_code } => {
                ApduView::Error { invoke_id, service_choice, error_class, error_code }
            },
            Apdu::Reject { invoke_id, reject_reason } => ApduView::Reject {
                invoke_id,
                reject_reason,
            },
            Apdu::Abort { server, invoke_id, abort_reason } => ApduView::Abort {
                server,
                invoke_id,
                abort_reason,
            },
        }
    }
}

impl Apdu {
    /// This message once more.
    pub fn duplicate(&self) -> (copy: Apdu)
        ensures
            copy@ == self@,
    {
        match self {
            Apdu::ConfirmedRequest {
                segmented,
                more_follows,
                segmented_response_accepted,
                max_segments,
                max_response_size,
                invoke_id,
                sequence_number,
                proposed_window_size,
                service_choice,
                service_data,
            } => Apdu::ConfirmedRequest {
                segmented: *segmented,
                more_follows: *more_follows,
                segmented_response_accepted: *segmented_response_accepted,
                max_segments: *max_segments,
                max_response_size: *max_response_size,
                invoke_id: *invoke_id,
                sequence_number: *sequence_number,
                proposed_window_size: *proposed_window_size,
                service_choice: *service_choice,
                service_data: service_data.clone(),
            },
            Apdu::UnconfirmedRequest { service_choice, service_data } => Apdu::UnconfirmedRequest {
                service_choice: *service_choice,
                service_data: service_data.clone(),
            },
            Apdu::SimpleAck { invoke_id, service_choice } => Apdu::SimpleAck {
                invoke_id: *invoke_id,
                service_choice: *service_choice,
            },
            Apdu::ComplexAck {
                segmented,
                more_follows,
                invoke_id,
                sequence_number,
                proposed_window_size,
                service_choice,
                service_data,
            } => Apdu::ComplexAck {
                segmented: *segmented,
                more_follows: *more_follows,
                invoke_id: *invoke_id,
                sequence_number: *sequence_number,
                proposed_window_size: *proposed_window_size,
                service_choice: *service_choice,
                service_data: service_data.clone(),
            },
            Apdu::SegmentAck { negative, server, invoke_id, sequence_number, window_size } => {
                Apdu::SegmentAck {
                    negative: *negative,
                    server: *server,
                    invoke_id: *invoke_id,
                    sequence_number: *sequence_number,
                    window_size: *window_size,
                }
            },
            Apdu::Error { invoke_id, service_choice, error_class, error_code } => Apdu::Error {
                invoke_id: *invoke_id,
                service_choice: *service_choice,
                error_class: *error_class,
                error_code: *error_code,
            },
            Apdu::Reject { invoke_id, reject_reason } => Apdu::Reject {
                invoke_id: *invoke_id,
                reject_reason: *reject_reason,
            },
            Apdu::Abort { server, invoke_id, abort_reason } => Apdu::Abort {
                server: *server,
                invoke_id: *invoke_id,
                abort_reason: *abort_reason,
            },
        }
    }
}

/// A message with what its network header says.
#[derive(Debug, Clone, PartialEq, Eq)]
pub struct Packet {
    /// Whether an answer is expected.
    pub expecting_reply: bool,
    /// Where a router forwards it to.
    pub destination: Option<NetworkAddress>,
    /// How many routers may forward it.
    pub hop_count: Option<u8>,
    /// The message.
    pub apdu: Apdu,
}

/// A [`Packet`] as values.
#[verifier::ext_equal]
pub struct PacketView {
    pub expecting_reply: bool,
    pub destination: Option<NetworkAddressView>,
    pub hop_count: Option<u8>,
    pub apdu: ApduView,
}

impl View for Packet {
    type V = PacketView;

    open spec fn view(&self) -> PacketView {
        PacketView {
            expecting_reply: self.expecting_reply,
            destination: target::route_view(self.destination),
            hop_count: self.hop_count,
            apdu: self.apdu@,
        }
    }
}

/// What packets say.
pub open spec fn packets_view(packets: Seq<Packet>) -> Seq<PacketView> {
    packets.map_values(|packet: Packet| packet@)
}

impl Packet {
    /// This packet once more.
    pub fn duplicate(&self) -> (copy: Packet)
        ensures
            copy@ == self@,
    {
        Packet {
            expecting_reply: self.expecting_reply,
            destination: duplicate_route(&self.destination),
            hop_count: self.hop_count,
            apdu: self.apdu.duplicate(),
        }
    }
}

// ---------------------------------------------------------------------------
// What this client sends
// ---------------------------------------------------------------------------

/// Segments this client accepts in one reassembled response, sent in every
/// request's `max_segments` so a device is told before it starts. Sixty-four at a
/// 1476-byte APDU is about 94 KB.
pub fn max_segments_accepted() -> (segments: MaxSegments)
    ensures
        segments == MaxSegments::SixtyFour,
{
    MaxSegments::SixtyFour
}

/// The count behind [`max_segments_accepted`], bounding a reassembly buffer and
/// refusing an outbound request that cannot fit.
pub const MAX_SEGMENTS: usize = 64;

/// The window granted to a device sending us segments.
///
/// One, so every segment is acknowledged before the next. Costs a round trip per
/// segment, but the only gap that can exist is the next one. The actual size is
/// left to the receiver, so a device proposing sixteen is told one and must
/// honour it.
pub const GRANTED_WINDOW: u8 = 1;

/// Proposed when this client is the sender; the peer's first SegmentAck carries
/// what it will actually accept.
pub const PROPOSED_WINDOW: u8 = 16;

/// PDU type, segments/size, invoke ID, sequence, window, service choice.
pub const SEGMENTED_REQUEST_HEADER: usize = 6;

/// A request's packet, routed if the target is behind a router.
pub open spec fn request_packet(route: Option<NetworkAddressView>, apdu: ApduView) -> PacketView {
    PacketView {
        expecting_reply: true,
        destination: route,
        hop_count: if route is Some {
            Some(255u8)
        } else {
            None
        },
        apdu,
    }
}

/// A reply's packet, sent back the way its cause came.
pub open spec fn reply_packet(route: Option<NetworkAddressView>, apdu: ApduView) -> PacketView {
    PacketView { expecting_reply: false, ..request_packet(route, apdu) }
}

/// The request as one message.
pub open spec fn whole_request(
    target: TargetView,
    invoke_id: u8,
    service_choice: ConfirmedServiceChoice,
    service_data: Seq<u8>,
) -> PacketView {
    request_packet(
        target.route,
        ApduView::ConfirmedRequest {
            segmented: false,
            more_follows: false,
            segmented_response_accepted: target::limits_of(target.capabilities).sends_segments,
            max_segments: MaxSegments::SixtyFour,
            max_response_size: MaxApduSize::Up1476,
            invoke_id,
            sequence_number: None,
            proposed_window_size: None,
            service_choice,
            service_data,
        },
    )
}

/// One piece of a request.
pub open spec fn request_segment(
    target: TargetView,
    invoke_id: u8,
    service_choice: ConfirmedServiceChoice,
    sequence_number: u8,
    more_follows: bool,
    chunk: Seq<u8>,
) -> PacketView {
    request_packet(
        target.route,
        ApduView::ConfirmedRequest {
            segmented: true,
            more_follows,
            segmented_response_accepted: target::limits_of(target.capabilities).sends_segments,
            max_segments: MaxSegments::SixtyFour,
            max_response_size: MaxApduSize::Up1476,
            invoke_id,
            sequence_number: Some(sequence_number),
            proposed_window_size: Some(PROPOSED_WINDOW),
            service_choice,
            service_data: chunk,
        },
    )
}

/// Wrap a request, routed if the target is behind a router.
fn wrap_request(target: &BacnetTarget, apdu: Apdu) -> (packet: Packet)
    ensures
        packet@ == request_packet(target@.route, apdu@),
{
    Packet {
        expecting_reply: true,
        destination: duplicate_route(&target.route),
        hop_count: if target.route.is_some() {
            Some(255)
        } else {
            None
        },
        apdu,
    }
}

/// The largest APDU this client accepts.
///
/// `max-APDU-length-accepted` in a request is the *requester's* own limit, so it is
/// ours to state, not the peer's: with reassembly a larger APDU means fewer
/// segments.
pub fn our_max_apdu() -> (size: MaxApduSize)
    ensures
        size == MaxApduSize::Up1476,
{
    MaxApduSize::Up1476
}

/// The request as one message.
pub fn build_confirmed_frame(
    target: &BacnetTarget,
    invoke_id: u8,
    service_choice: ConfirmedServiceChoice,
    service_data: Vec<u8>,
) -> (packet: Packet)
    ensures
        packet@ == whole_request(target@, invoke_id, service_choice, service_data@),
{
    let limits = peer_limits(target);
    wrap_request(
        target,
        Apdu::ConfirmedRequest {
            segmented: false,
            more_follows: false,
            segmented_response_accepted: limits.sends_segments,
            max_segments: max_segments_accepted(),
            max_response_size: our_max_apdu(),
            invoke_id,
            sequence_number: None,
            proposed_window_size: None,
            service_choice,
            service_data,
        },
    )
}

/// One segment of a request too large to send whole.
pub fn build_request_segment_frame(
    target: &BacnetTarget,
    invoke_id: u8,
    service_choice: ConfirmedServiceChoice,
    sequence_number: u8,
    more_follows: bool,
    chunk: Vec<u8>,
) -> (packet: Packet)
    ensures
        packet@ == request_segment(
            target@,
            invoke_id,
            service_choice,
            sequence_number,
            more_follows,
            chunk@,
        ),
{
    let limits = peer_limits(target);
    wrap_request(
        target,
        Apdu::ConfirmedRequest {
            segmented: true,
            more_follows,
            segmented_response_accepted: limits.sends_segments,
            max_segments: max_segments_accepted(),
            max_response_size: our_max_apdu(),
            invoke_id,
            sequence_number: Some(sequence_number),
            proposed_window_size: Some(PROPOSED_WINDOW),
            service_choice,
            service_data: chunk,
        },
    )
}

/// Build a reply (SimpleAck/Reject/...) addressed back at `route`, the network-layer
/// source echoed from the request that prompted it: absent for a peer on the same
/// IP subnet, since only a routed request carries one.
pub fn build_response_frame(apdu: Apdu, route: &Option<NetworkAddress>) -> (packet: Packet)
    ensures
        packet@ == reply_packet(target::route_view(*route), apdu@),
{
    Packet {
        expecting_reply: false,
        destination: duplicate_route(route),
        hop_count: if route.is_some() {
            Some(255)
        } else {
            None
        },
        apdu,
    }
}

/// The acknowledgement of a segment.
///
/// It says that this client, which made the request, is the client half.
pub open spec fn segment_ack(
    invoke_id: u8,
    sequence_number: u8,
    negative: bool,
    route: Option<NetworkAddressView>,
) -> PacketView {
    reply_packet(
        route,
        ApduView::SegmentAck {
            negative,
            server: false,
            invoke_id,
            sequence_number,
            window_size: GRANTED_WINDOW,
        },
    )
}

/// What tells a peer to stop.
pub open spec fn abort_notice(
    invoke_id: u8,
    abort_reason: AbortReason,
    route: Option<NetworkAddressView>,
) -> PacketView {
    reply_packet(route, ApduView::Abort { server: false, invoke_id, abort_reason })
}

/// Acknowledge a segment, or ask for one again.
pub fn segment_ack_frame(
    invoke_id: u8,
    sequence_number: u8,
    negative: bool,
    route: &Option<NetworkAddress>,
) -> (packet: Packet)
    ensures
        packet@ == segment_ack(invoke_id, sequence_number, negative, target::route_view(*route)),
{
    build_response_frame(
        Apdu::SegmentAck {
            negative,
            server: false,
            invoke_id,
            sequence_number,
            window_size: GRANTED_WINDOW,
        },
        route,
    )
}

/// Tell a peer to stop a transfer this client will not finish.
pub fn abort_frame(invoke_id: u8, abort_reason: AbortReason, route: &Option<NetworkAddress>) -> (
    packet: Packet)
    ensures
        packet@ == abort_notice(invoke_id, abort_reason, target::route_view(*route)),
{
    build_response_frame(Apdu::Abort { server: false, invoke_id, abort_reason }, route)
}

/// The first octet of every BACnet/IP frame.
pub const BVLC_BACNET_IP: u8 = 0x81;

/// The function of a frame for one receiver.
pub const BVLC_ORIGINAL_UNICAST: u8 = 0x0a;

/// What a network header and a message are in a unicast BACnet/IP frame.
pub open spec fn unicast_frame(npdu: Seq<u8>, apdu: Seq<u8>) -> Seq<u8> {
    seq![BVLC_BACNET_IP, BVLC_ORIGINAL_UNICAST] + octets::be_bytes(
        ((npdu.len() + apdu.len() + 4) % 0x10000) as nat,
        2,
    ) + npdu + apdu
}

/// Wrap a network header and a message in a unicast BACnet/IP header: what it is,
/// then the two low octets of the length of the whole frame.
pub fn wrap_unicast(npdu: &Vec<u8>, apdu: &Vec<u8>) -> (frame: Vec<u8>)
    requires
        npdu@.len() + apdu@.len() + 4 <= usize::MAX,
    ensures
        frame@ == seq![BVLC_BACNET_IP, BVLC_ORIGINAL_UNICAST] + octets::be_bytes(
            ((npdu@.len() + apdu@.len() + 4) % 0x10000) as nat,
            2,
        ) + npdu@ + apdu@,
        frame@ == unicast_frame(npdu@, apdu@),
{
    let total_length: usize = npdu.len() + apdu.len() + 4;
    let mut frame: Vec<u8> = Vec::new();
    frame.push(BVLC_BACNET_IP);
    frame.push(BVLC_ORIGINAL_UNICAST);
    octets::push_be(&mut frame, (total_length % 0x10000) as u64, 2);
    octets::push_all(&mut frame, npdu.as_slice());
    octets::push_all(&mut frame, apdu.as_slice());
    proof {
        assert(frame@ =~= seq![BVLC_BACNET_IP, BVLC_ORIGINAL_UNICAST] + octets::be_bytes(
            ((npdu@.len() + apdu@.len() + 4) % 0x10000) as nat,
            2,
        ) + npdu@ + apdu@);
    }
    frame
}

} // verus!
