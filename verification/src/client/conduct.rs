//! What one endpoint holds, and what becomes of it.
//!
//! Callers, and those who collect discoveries or notifications, are known here by
//! numbers.

use crate::address::SocketAddress;
use crate::client::apdu;
use crate::client::apdu::{
    AbortReason, Apdu, ApduView, ConfirmedServiceChoice, Packet, PacketView, RejectReason,
    MAX_SEGMENTS,
};
use crate::client::error;
use crate::client::error::{ClientError, ClientErrorView};
use crate::client::split;
use crate::client::split::RequestFramesView;
use crate::client::target;
use crate::client::target::{BacnetTarget, NetworkAddress, NetworkAddressView, TargetView};
use crate::client::transfer;
use crate::client::transfer::{
    OutboundSegments, OutboundView, OutcomeView, Reassembly, ReassemblyView,
};
use crate::cov::engine::CovNotification;
use crate::object::identifier::ObjectIdentifier;
use crate::table::Key;
use vstd::prelude::*;

verus! {

// ---------------------------------------------------------------------------
// What an endpoint holds
// ---------------------------------------------------------------------------

/// What one outstanding transaction is identified by.
///
/// The peer is half the key because a transaction is between a pair of devices: an invoke ID need only be unique among the requests one
/// device has outstanding *to one other device*. Keying on the number alone would
/// make the 256 available IDs a budget for the whole network rather than for each
/// peer.
#[derive(Debug, Clone, Copy, PartialEq, Eq, Structural)]
pub struct TransactionKey {
    /// The peer.
    pub peer: SocketAddress,
    /// The number the request went out with.
    pub invoke_id: u8,
}

impl Key for TransactionKey {
    fn is_same(&self, other: &TransactionKey) -> (same: bool) {
        *self == *other
    }
}

/// What a notification is routed by: the device that says it sent it, and the object
/// it says the notification is about.
///
/// Deliberately not the subscriber process identifier. That number is chosen by the
/// subscriber and echoed by the device, so two subscriptions that happen to pick the
/// same number would be indistinguishable.
#[derive(Debug, Clone, Copy, PartialEq, Eq, Structural)]
pub struct CovKey {
    /// The device's instance number.
    pub device: u32,
    /// The monitored object.
    pub object: ObjectIdentifier,
}

impl Key for CovKey {
    fn is_same(&self, other: &CovKey) -> (same: bool) {
        *self == *other
    }
}

/// A request that waits for its answer.
pub struct PendingTransaction {
    /// The service asked for.
    pub service_choice: ConfirmedServiceChoice,
    /// What a retransmission repeats; nothing once every piece was acknowledged.
    pub frame: Option<Packet>,
    /// Retransmissions left.
    pub retries_remaining: u8,
    /// When the next one is due.
    pub deadline: u64,
    /// Who waits.
    pub response: u64,
    /// Set when a device answers with a segmented ComplexAck.
    pub reassembly: Option<Reassembly>,
    /// Set when the request was too large for one APDU, cleared once every segment is
    /// acknowledged.
    pub outbound: Option<OutboundSegments>,
}

/// A [`PendingTransaction`] as values.
#[verifier::ext_equal]
pub struct PendingView {
    pub service_choice: ConfirmedServiceChoice,
    pub frame: Option<PacketView>,
    pub retries_remaining: u8,
    pub deadline: u64,
    pub response: u64,
    pub reassembly: Option<ReassemblyView>,
    pub outbound: Option<OutboundView>,
}

impl View for PendingTransaction {
    type V = PendingView;

    open spec fn view(&self) -> PendingView {
        PendingView {
            service_choice: self.service_choice,
            frame: transfer::ack_view(self.frame),
            retries_remaining: self.retries_remaining,
            deadline: self.deadline,
            response: self.response,
            reassembly: match self.reassembly {
                Some(reassembly) => Some(reassembly@),
                None => None,
            },
            outbound: match self.outbound {
                Some(outbound) => Some(outbound@),
                None => None,
            },
        }
    }
}

impl PendingView {
    /// Whether a request under way in pieces is in order.
    pub open spec fn wf(self) -> bool {
        self.outbound matches Some(outbound) ==> outbound.wf()
    }
}

/// One in-progress discovery: responses are forwarded to `sink` until `deadline`,
/// when the sink is closed.
#[derive(Debug, Clone, Copy, PartialEq, Eq, Structural)]
pub struct ActiveDiscovery {
    /// Who collects.
    pub sink: u64,
    /// When the collection ends.
    pub deadline: u64,
}

/// What an endpoint holds.
#[verifier::ext_equal]
pub struct EndpointView {
    pub pending: Map<TransactionKey, PendingView>,
    pub quarantined: Map<TransactionKey, u64>,
    pub devices: Seq<ActiveDiscovery>,
    pub routers: Seq<ActiveDiscovery>,
    pub subscribers: Map<CovKey, u64>,
    pub next_invoke_id: u8,
    pub timeout: u64,
    pub retries: u8,
}

/// What the task that owns the socket is told to do.
pub enum Action {
    /// Send a packet. Where it belongs to a transaction and the socket refuses it, the
    /// transaction fails.
    Send { peer: SocketAddress, packet: Packet, transaction: Option<TransactionKey> },
    /// Send a frame that a discovery starts with; where the socket refuses it, the
    /// discovery ends.
    Discover { destination: SocketAddress, frame: Vec<u8>, sink: u64 },
    /// Tell a caller how its request ended.
    Answer { response: u64, result: Result<Vec<u8>, ClientError> },
    /// Hand the discovered device or router at hand to a collector.
    Offer { sink: u64 },
    /// Hand a notification to its subscriber.
    Notify { sink: u64, notification: CovNotification },
    /// Tell a collector that it ended early.
    Fail { sink: u64, error: ClientError },
    /// Let a collector go.
    Close { sink: u64 },
}

/// An [`Action`] as values.
#[verifier::ext_equal]
pub enum ActionView {
    Send { peer: SocketAddress, packet: PacketView, transaction: Option<TransactionKey> },
    Discover { destination: SocketAddress, frame: Seq<u8>, sink: u64 },
    Answer { response: u64, result: Result<Seq<u8>, ClientErrorView> },
    Offer { sink: u64 },
    Notify { sink: u64, notification: CovNotification },
    Fail { sink: u64, error: ClientErrorView },
    Close { sink: u64 },
}

impl View for Action {
    type V = ActionView;

    open spec fn view(&self) -> ActionView {
        match *self {
            Action::Send { peer, packet, transaction } => ActionView::Send {
                peer,
                packet: packet@,
                transaction,
            },
            Action::Discover { destination, frame, sink } => ActionView::Discover {
                destination,
                frame: frame@,
                sink,
            },
            Action::Answer { response, result } => ActionView::Answer {
                response,
                result: error::answer_view(result),
            },
            Action::Offer { sink } => ActionView::Offer { sink },
            Action::Notify { sink, notification } => ActionView::Notify { sink, notification },
            Action::Fail { sink, error } => ActionView::Fail { sink, error: error@ },
            Action::Close { sink } => ActionView::Close { sink },
        }
    }
}

/// What actions say.
pub open spec fn actions_view(actions: Seq<Action>) -> Seq<ActionView> {
    actions.map_values(|action: Action| action@)
}

/// What an event leaves, and what it asks to be done.
#[verifier::ext_equal]
pub struct Step {
    pub endpoint: EndpointView,
    pub actions: Seq<ActionView>,
}

/// What arrived, as far as it could be read.
pub enum Incoming {
    /// A network-layer message, and whether it announces a router.
    NetworkMessage { router: bool },
    /// An unconfirmed request: whether it announces a device, and the notification it
    /// carries.
    Unconfirmed { device: bool, notification: Option<CovNotification> },
    /// Any other message, with the network-layer source it came from and, where it
    /// is a notification that can be read, that notification.
    Application {
        apdu: Apdu,
        route: Option<NetworkAddress>,
        notification: Option<CovNotification>,
    },
}

/// What a caller asks for.
pub enum EndpointCommand {
    /// Send a request and wait for its answer.
    Confirmed {
        target: BacnetTarget,
        service_choice: ConfirmedServiceChoice,
        service_data: Vec<u8>,
        response: u64,
    },
    /// Collect devices.
    DiscoverDevices { frame: Vec<u8>, destination: SocketAddress, sink: u64 },
    /// Collect routers.
    DiscoverRouters { frame: Vec<u8>, destination: SocketAddress, sink: u64 },
    /// Subscribe to an object.
    SubscribeCov {
        target: BacnetTarget,
        /// What notifications for this subscription will identify themselves as, and
        /// therefore how they are routed back.
        key: CovKey,
        service_data: Vec<u8>,
        sink: u64,
        response: u64,
    },
}

// ---------------------------------------------------------------------------
// What happens
// ---------------------------------------------------------------------------

/// A moment after another; past the end of the clock, its end.
pub open spec fn later(now: u64, span: int) -> u64 {
    if now + span > u64::MAX {
        u64::MAX
    } else {
        (now + span) as u64
    }
}

/// The key of a notification.
pub open spec fn notification_key(notification: CovNotification) -> CovKey {
    CovKey {
        device: notification.initiating_device.instance,
        object: notification.monitored_object,
    }
}

/// Handing what is at hand to every collector.
pub open spec fn offers(discoveries: Seq<ActiveDiscovery>) -> Seq<ActionView> {
    discoveries.map_values(|discovery: ActiveDiscovery| ActionView::Offer { sink: discovery.sink })
}

/// Sending packets of a transaction.
pub open spec fn sends(key: TransactionKey, packets: Seq<PacketView>) -> Seq<ActionView> {
    packets.map_values(
        |packet: PacketView|
            ActionView::Send { peer: key.peer, packet, transaction: Some(key) },
    )
}

/// The number of the transaction an answer belongs to.
pub open spec fn answered_id(apdu: ApduView) -> Option<u8> {
    match apdu {
        ApduView::ComplexAck { invoke_id, .. } => Some(invoke_id),
        ApduView::SimpleAck { invoke_id, .. } => Some(invoke_id),
        ApduView::Error { invoke_id, .. } => Some(invoke_id),
        ApduView::Reject { invoke_id, .. } => Some(invoke_id),
        ApduView::Abort { invoke_id, .. } => Some(invoke_id),
        ApduView::SegmentAck { invoke_id, .. } => Some(invoke_id),
        _ => None,
    }
}

/// The reply to a notification that asks for one: refused in pieces, acknowledged
/// where it can be read, rejected where it cannot.
pub open spec fn notification_reply(invoke_id: u8, segmented: bool, readable: bool) -> ApduView {
    if segmented {
        ApduView::Abort {
            server: true,
            invoke_id,
            abort_reason: AbortReason::SegmentationNotSupported,
        }
    } else if readable {
        ApduView::SimpleAck {
            invoke_id,
            service_choice: ConfirmedServiceChoice::ConfirmedCovNotification.code(),
        }
    } else {
        ApduView::Reject { invoke_id, reject_reason: RejectReason::InvalidTag }
    }
}

/// What callers hear when the endpoint stops: what the system said of the socket, or
/// that the endpoint is closed.
pub open spec fn stopped_by(failure: Option<&str>) -> ClientErrorView {
    match failure {
        Some(text) => ClientErrorView::Io(text@),
        None => ClientErrorView::EndpointClosed,
    }
}

/// Telling collectors that they ended early.
pub open spec fn collector_failures(
    discoveries: Seq<ActiveDiscovery>,
    error: ClientErrorView,
) -> Seq<ActionView> {
    discoveries.map_values(
        |discovery: ActiveDiscovery| ActionView::Fail { sink: discovery.sink, error },
    )
}

impl EndpointView {
    /// Whether every request under way in pieces is in order.
    pub open spec fn wf(self) -> bool {
        forall|key: TransactionKey| #[trigger]
            self.pending.dom().contains(key) ==> self.pending[key].wf()
    }

    /// Nothing to do.
    pub open spec fn quiet(self) -> Step {
        Step { endpoint: self, actions: Seq::empty() }
    }

    /// This endpoint without a transaction.
    pub open spec fn without(self, key: TransactionKey) -> EndpointView {
        EndpointView { pending: self.pending.remove(key), ..self }
    }

    /// This endpoint with a transaction.
    pub open spec fn with(self, key: TransactionKey, pending: PendingView) -> EndpointView {
        EndpointView { pending: self.pending.insert(key, pending), ..self }
    }

    /// A transaction that made progress: its clock restarts.
    pub open spec fn restarted(self, pending: PendingView, now: u64) -> PendingView {
        PendingView {
            retries_remaining: self.retries,
            deadline: later(now, self.timeout as int),
            ..pending
        }
    }

    /// How long one transaction may take before it is abandoned.
    pub open spec fn budget(self) -> int {
        self.timeout * (self.retries + 1)
    }

    /// This endpoint without what nobody waits for any more.
    pub open spec fn without_cancelled(self, closed: Seq<u64>) -> EndpointView {
        EndpointView {
            pending: Map::new(
                |key: TransactionKey|
                    self.pending.dom().contains(key) && !closed.contains(
                        self.pending[key].response,
                    ),
                |key: TransactionKey| self.pending[key],
            ),
            devices: self.devices.filter(
                |discovery: ActiveDiscovery| !closed.contains(discovery.sink),
            ),
            routers: self.routers.filter(
                |discovery: ActiveDiscovery| !closed.contains(discovery.sink),
            ),
            subscribers: Map::new(
                |key: CovKey|
                    self.subscribers.dom().contains(key) && !closed.contains(
                        self.subscribers[key],
                    ),
                |key: CovKey| self.subscribers[key],
            ),
            ..self
        }
    }

    /// The numbers still held back at a moment.
    pub open spec fn held_back(self, now: u64) -> Map<TransactionKey, u64> {
        Map::new(
            |key: TransactionKey|
                self.quarantined.dom().contains(key) && self.quarantined[key] > now,
            |key: TransactionKey| self.quarantined[key],
        )
    }

    /// Whether a number can be used towards a peer.
    pub open spec fn is_free(self, peer: SocketAddress, invoke_id: u8) -> bool {
        let key = TransactionKey { peer, invoke_id };
        !self.pending.dom().contains(key) && !self.quarantined.dom().contains(key)
    }

    /// The first number from `start` on that can be used towards a peer, looking at
    /// so many.
    pub open spec fn first_free(self, peer: SocketAddress, start: u8, count: nat) -> Option<u8>
        decreases count,
    {
        if count == 0 {
            None
        } else if self.is_free(peer, start) {
            Some(start)
        } else {
            self.first_free(peer, transfer::following(start), (count - 1) as nat)
        }
    }

    /// Reserving a number: numbers held back long enough are let go, and the search
    /// goes on behind the last number reserved.
    pub open spec fn reserved(self, peer: SocketAddress, now: u64) -> (EndpointView, Option<u8>) {
        let current = EndpointView { quarantined: self.held_back(now), ..self };
        match current.first_free(peer, self.next_invoke_id, 256) {
            Some(invoke_id) => (
                EndpointView { next_invoke_id: transfer::following(invoke_id), ..current },
                Some(invoke_id),
            ),
            None => (current, None),
        }
    }

    /// A request that goes out.
    pub open spec fn sent(
        self,
        key: TransactionKey,
        service_choice: ConfirmedServiceChoice,
        frames: RequestFramesView,
        response: u64,
        now: u64,
    ) -> Step {
        // Only the first segment goes out: until the peer names its window, nothing
        // says a second would be looked at.
        let first = match frames {
            RequestFramesView::Whole(packet) => packet,
            RequestFramesView::Segmented(packets) => packets[0],
        };
        let pending = PendingView {
            service_choice,
            frame: Some(first),
            retries_remaining: self.retries,
            deadline: later(now, self.timeout as int),
            response,
            reassembly: None,
            outbound: match frames {
                RequestFramesView::Whole(_) => None,
                RequestFramesView::Segmented(frames) => Some(
                    OutboundView { frames, acked: None, window: 1 },
                ),
            },
        };
        Step { endpoint: self.with(key, pending), actions: sends(key, seq![first]) }
    }

    /// A caller asks for a service.
    pub open spec fn requested(
        self,
        target: TargetView,
        service_choice: ConfirmedServiceChoice,
        service_data: Seq<u8>,
        response: u64,
        now: u64,
        closed: Seq<u64>,
    ) -> Step {
        if closed.contains(response) {
            self.quiet()
        } else {
            let (current, invoke_id) = self.without_cancelled(closed).reserved(
                target.address,
                now,
            );
            match invoke_id {
                None => Step {
                    endpoint: current,
                    actions: seq![
                        ActionView::Answer {
                            response,
                            result: Err(ClientErrorView::TooManyTransactions),
                        },
                    ],
                },
                Some(invoke_id) => match split::split(
                    target,
                    invoke_id,
                    service_choice,
                    service_data,
                ) {
                    Err(error) => Step {
                        endpoint: current,
                        actions: seq![ActionView::Answer { response, result: Err(error) }],
                    },
                    Ok(frames) => current.sent(
                        TransactionKey { peer: target.address, invoke_id },
                        service_choice,
                        frames,
                        response,
                        now,
                    ),
                },
            }
        }
    }

    /// A transaction ends with an answer.
    pub open spec fn answered(
        self,
        key: TransactionKey,
        result: Result<Seq<u8>, ClientErrorView>,
    ) -> Step {
        Step {
            endpoint: self.without(key),
            actions: seq![ActionView::Answer { response: self.pending[key].response, result }],
        }
    }

    /// A transfer is given up: the peer and the caller are told why.
    pub open spec fn abandoned(
        self,
        key: TransactionKey,
        reason: AbortReason,
        route: Option<NetworkAddressView>,
    ) -> Step {
        let notice = ActionView::Send {
            peer: key.peer,
            packet: apdu::abort_notice(key.invoke_id, reason, route),
            transaction: None,
        };
        let ended = self.answered(key, Err(ClientErrorView::Abort(reason)));
        Step { actions: seq![notice] + ended.actions, ..ended }
    }

    /// A piece of a response arrived.
    pub open spec fn segment_accepted(
        self,
        key: TransactionKey,
        sequence_number: Option<u8>,
        more_follows: bool,
        data: Seq<u8>,
        route: Option<NetworkAddressView>,
        now: u64,
    ) -> Step {
        match sequence_number {
            None => self.abandoned(key, AbortReason::InvalidApduInThisState, route),
            Some(sequence) => {
                let pending = self.pending[key];
                let before = match pending.reassembly {
                    Some(reassembly) => reassembly,
                    None => transfer::nothing_arrived(),
                };
                let (outcome, after) = transfer::taken(before, sequence, more_follows, data);
                match outcome {
                    OutcomeView::Accepted(sequence) => self.segment_acked(
                        key,
                        after,
                        apdu::segment_ack(key.invoke_id, sequence, false, route),
                        now,
                    ),
                    OutcomeView::Missing(last) => self.segment_acked(
                        key,
                        after,
                        apdu::segment_ack(key.invoke_id, last, true, route),
                        now,
                    ),
                    OutcomeView::Repeat => Step {
                        endpoint: self.with(
                            key,
                            PendingView { reassembly: Some(after), ..pending },
                        ),
                        actions: match before.last_ack {
                            Some(ack) => sends(key, seq![ack]),
                            None => Seq::empty(),
                        },
                    },
                    OutcomeView::Complete(sequence, whole) => {
                        // Acknowledged before the caller is answered, or the peer holds
                        // the transaction open until its own timer expires.
                        let notice = ActionView::Send {
                            peer: key.peer,
                            packet: apdu::segment_ack(key.invoke_id, sequence, false, route),
                            transaction: None,
                        };
                        let ended = self.answered(key, Ok(whole));
                        Step { actions: seq![notice] + ended.actions, ..ended }
                    },
                    OutcomeView::Abandon(reason) => self.abandoned(key, reason, route),
                }
            },
        }
    }

    /// A piece is acknowledged, and the clock restarts: a long transfer is bounded by
    /// its number of segments, not by the deadline.
    pub open spec fn segment_acked(
        self,
        key: TransactionKey,
        after: ReassemblyView,
        ack: PacketView,
        now: u64,
    ) -> Step {
        let pending = PendingView {
            reassembly: Some(ReassemblyView { last_ack: Some(ack), ..after }),
            ..self.pending[key]
        };
        Step {
            endpoint: self.with(key, self.restarted(pending, now)),
            actions: sends(key, seq![ack]),
        }
    }

    /// The peer says how far a request in pieces got.
    ///
    /// A negative acknowledgement calls for the same action as a
    /// positive one: both say how far the peer got, and the answer either way is to
    /// continue from there.
    pub open spec fn outbound_advanced(
        self,
        key: TransactionKey,
        sequence_number: u8,
        window_size: u8,
        now: u64,
    ) -> Step {
        let pending = self.pending[key];
        match pending.outbound {
            None => self.quiet(),
            Some(outbound) => if sequence_number >= outbound.frames.len() {
                self.quiet()
            } else {
                let after = outbound.acknowledged(sequence_number, window_size);
                if after.is_done() {
                    // The response now arrives on the ordinary path.
                    let waiting = PendingView { outbound: None, frame: None, ..pending };
                    Step {
                        endpoint: self.with(key, self.restarted(waiting, now)),
                        actions: Seq::empty(),
                    }
                } else {
                    let frames = after.open_frames();
                    let sending = PendingView {
                        outbound: Some(after),
                        frame: Some(frames[0]),
                        ..pending
                    };
                    Step {
                        endpoint: self.with(key, self.restarted(sending, now)),
                        actions: sends(key, frames),
                    }
                }
            },
        }
    }

    /// Handing a notification to the subscription for the object it says it is about.
    /// One that matches no live subscription is dropped.
    pub open spec fn dispatched(self, notification: CovNotification) -> Seq<ActionView> {
        let key = notification_key(notification);
        if self.subscribers.dom().contains(key) {
            seq![ActionView::Notify { sink: self.subscribers[key], notification }]
        } else {
            Seq::empty()
        }
    }

    /// A message for a transaction arrived.
    pub open spec fn answer_received(
        self,
        source: SocketAddress,
        message: ApduView,
        route: Option<NetworkAddressView>,
        now: u64,
    ) -> Step {
        match answered_id(message) {
            None => self.quiet(),
            Some(invoke_id) => {
                // Keyed on where the response came from as well as the ID it carries,
                // so a reply from one device is never considered against a transaction
                // outstanding with another.
                let key = TransactionKey { peer: source, invoke_id };
                if !self.pending.dom().contains(key) {
                    self.quiet()
                } else if let ApduView::SegmentAck { sequence_number, window_size, .. } = message {
                    self.outbound_advanced(key, sequence_number, window_size, now)
                } else if !error::answers(message, self.pending[key].service_choice) {
                    self.quiet()
                } else if let ApduView::ComplexAck {
                    segmented: true,
                    more_follows,
                    sequence_number,
                    service_data,
                    ..
                } = message {
                    self.segment_accepted(
                        key,
                        sequence_number,
                        more_follows,
                        service_data,
                        route,
                        now,
                    )
                } else {
                    self.answered(key, error::meaning(message))
                }
            },
        }
    }

    /// Something arrived.
    pub open spec fn received(self, source: SocketAddress, incoming: Incoming, now: u64) -> Step {
        match incoming {
            Incoming::NetworkMessage { router } => Step {
                endpoint: self,
                actions: if router {
                    offers(self.routers)
                } else {
                    Seq::empty()
                },
            },
            Incoming::Unconfirmed { device, notification } => Step {
                endpoint: self,
                actions: (if device {
                    offers(self.devices)
                } else {
                    Seq::empty()
                }) + match notification {
                    Some(notification) => self.dispatched(notification),
                    None => Seq::empty(),
                },
            },
            Incoming::Application { apdu, route, notification } => {
                if let ApduView::ConfirmedRequest {
                    invoke_id,
                    segmented,
                    service_choice: ConfirmedServiceChoice::ConfirmedCovNotification,
                    ..
                } = apdu@ {
                    let reply = ActionView::Send {
                        peer: source,
                        packet: apdu::reply_packet(
                            target::route_view(route),
                            notification_reply(invoke_id, segmented, notification is Some),
                        ),
                        transaction: None,
                    };
                    Step {
                        endpoint: self,
                        actions: (if segmented {
                            Seq::empty()
                        } else {
                            match notification {
                                Some(notification) => self.dispatched(notification),
                                None => Seq::empty(),
                            }
                        }).push(reply),
                    }
                } else {
                    self.answer_received(source, apdu@, target::route_view(route), now)
                }
            },
        }
    }

    /// A caller asks for something.
    pub open spec fn commanded(self, command: EndpointCommand, now: u64, closed: Seq<u64>) -> Step {
        match command {
            EndpointCommand::Confirmed { target, service_choice, service_data, response } => {
                self.requested(target@, service_choice, service_data@, response, now, closed)
            },
            EndpointCommand::DiscoverDevices { frame, destination, sink } => {
                if closed.contains(sink) {
                    self.quiet()
                } else {
                    Step {
                        endpoint: EndpointView {
                            devices: self.devices.push(self.discovery(sink, now)),
                            ..self
                        },
                        actions: seq![
                            ActionView::Discover { destination, frame: frame@, sink },
                        ],
                    }
                }
            },
            EndpointCommand::DiscoverRouters { frame, destination, sink } => {
                if closed.contains(sink) {
                    self.quiet()
                } else {
                    Step {
                        endpoint: EndpointView {
                            routers: self.routers.push(self.discovery(sink, now)),
                            ..self
                        },
                        actions: seq![
                            ActionView::Discover { destination, frame: frame@, sink },
                        ],
                    }
                }
            },
            EndpointCommand::SubscribeCov { target, key, service_data, sink, response } => {
                // Registered before the request goes out, so a notification that
                // arrives right behind the SimpleAck is never missed. One subscription
                // to an object has one channel: registering the same key again
                // replaces it.
                let registered = EndpointView {
                    subscribers: self.subscribers.insert(key, sink),
                    ..self
                };
                let replaced = if self.subscribers.dom().contains(key) {
                    seq![ActionView::Close { sink: self.subscribers[key] }]
                } else {
                    Seq::empty()
                };
                let step = registered.requested(
                    target@,
                    ConfirmedServiceChoice::SubscribeCOV,
                    service_data@,
                    response,
                    now,
                    closed,
                );
                Step { actions: replaced + step.actions, ..step }
            },
        }
    }

    /// A collection that starts now.
    pub open spec fn discovery(self, sink: u64, now: u64) -> ActiveDiscovery {
        ActiveDiscovery { sink, deadline: later(now, self.timeout as int) }
    }

    /// What a retransmission repeats: mid-reassembly the peer awaits an
    /// acknowledgement, and re-sending the request would restart the transfer;
    /// mid-send it is the unacknowledged window that needs repeating.
    pub open spec fn repeated(pending: PendingView) -> Seq<PacketView> {
        match (pending.reassembly, pending.outbound, pending.frame) {
            (Some(reassembly), _, _) => match reassembly.last_ack {
                Some(ack) => seq![ack],
                None => Seq::empty(),
            },
            (None, Some(outbound), _) => outbound.open_frames(),
            (None, None, Some(frame)) => seq![frame],
            (None, None, None) => Seq::empty(),
        }
    }

    /// A transaction's deadline passed.
    pub open spec fn timed_out(self, key: TransactionKey, now: u64, closed: Seq<u64>) -> Step {
        let pending = self.pending[key];
        if closed.contains(pending.response) {
            Step { endpoint: self.without(key), actions: Seq::empty() }
        } else if pending.retries_remaining == 0 {
            let ended = self.answered(key, Err(ClientErrorView::Timeout));
            Step {
                endpoint: EndpointView {
                    quarantined: self.quarantined.insert(key, later(now, self.budget())),
                    ..ended.endpoint
                },
                ..ended
            }
        } else {
            let waiting = PendingView {
                retries_remaining: (pending.retries_remaining - 1) as u8,
                deadline: later(now, self.timeout as int),
                ..pending
            };
            Step {
                endpoint: self.with(key, waiting),
                actions: sends(key, EndpointView::repeated(pending)),
            }
        }
    }

    /// The deadlines of transactions passed, one after the other.
    pub open spec fn all_timed_out(
        self,
        keys: Seq<TransactionKey>,
        now: u64,
        closed: Seq<u64>,
    ) -> Step
        decreases keys.len(),
    {
        if keys.len() == 0 {
            self.quiet()
        } else {
            let before = self.all_timed_out(keys.drop_last(), now, closed);
            let last = before.endpoint.timed_out(keys.last(), now, closed);
            Step { actions: before.actions + last.actions, ..last }
        }
    }

    /// Whether a transaction's deadline has passed.
    pub open spec fn is_due(self, key: TransactionKey, now: u64) -> bool {
        self.pending.dom().contains(key) && self.pending[key].deadline <= now
    }

    /// Whether a sequence names every transaction whose deadline has passed, once.
    pub open spec fn lists_due(self, keys: Seq<TransactionKey>, now: u64) -> bool {
        &&& keys.no_duplicates()
        &&& forall|key: TransactionKey| #[trigger] keys.contains(key) == self.is_due(key, now)
    }

    /// The collections that go on.
    pub open spec fn open_at(discoveries: Seq<ActiveDiscovery>, now: u64) -> Seq<ActiveDiscovery> {
        discoveries.filter(|discovery: ActiveDiscovery| discovery.deadline > now)
    }

    /// Letting the collectors go whose time is up.
    pub open spec fn closings(discoveries: Seq<ActiveDiscovery>, now: u64) -> Seq<ActionView> {
        discoveries.filter(
            |discovery: ActiveDiscovery| discovery.deadline <= now,
        ).map_values(
            |discovery: ActiveDiscovery| ActionView::Close { sink: discovery.sink },
        )
    }

    /// This endpoint after collections whose time is up were let go.
    pub open spec fn discoveries_closed(self, now: u64) -> Step {
        Step {
            endpoint: EndpointView {
                devices: EndpointView::open_at(self.devices, now),
                routers: EndpointView::open_at(self.routers, now),
                ..self
            },
            actions: EndpointView::closings(self.devices, now) + EndpointView::closings(
                self.routers,
                now,
            ),
        }
    }

    /// Whether something is due at a moment.
    pub open spec fn has_deadline(self, deadline: u64) -> bool {
        ||| exists|key: TransactionKey| #[trigger]
            self.pending.dom().contains(key) && self.pending[key].deadline == deadline
        ||| exists|i: int|
            0 <= i < self.devices.len() && (#[trigger] self.devices[i]).deadline == deadline
        ||| exists|i: int|
            0 <= i < self.routers.len() && (#[trigger] self.routers[i]).deadline == deadline
    }

    /// Telling the caller of a transaction that the endpoint stopped.
    pub open spec fn failure(self, key: TransactionKey, error: ClientErrorView) -> ActionView {
        ActionView::Answer { response: self.pending[key].response, result: Err(error) }
    }

    /// Telling everybody who waits that the endpoint stopped, callers in an order.
    pub open spec fn failures(
        self,
        order: Seq<TransactionKey>,
        error: ClientErrorView,
    ) -> Seq<ActionView> {
        order.map_values(|key: TransactionKey| self.failure(key, error)) + collector_failures(
            self.devices,
            error,
        ) + collector_failures(self.routers, error)
    }

    /// What the passing of deadlines leads to, transactions being looked at in an
    /// order.
    pub open spec fn deadlines_passed(
        self,
        order: Seq<TransactionKey>,
        now: u64,
        closed: Seq<u64>,
    ) -> Step {
        let closing = self.discoveries_closed(now);
        let rest = closing.endpoint.all_timed_out(order, now, closed);
        Step { actions: closing.actions + rest.actions, ..rest }
    }
}


// ---------------------------------------------------------------------------
// Laws
// ---------------------------------------------------------------------------

/// A number that is reserved is neither in use nor held back towards that peer, and
/// there is none only where all 256 are.
pub proof fn law_reserved_numbers_are_free(
    endpoint: EndpointView,
    peer: SocketAddress,
    now: u64,
)
    ensures
        match endpoint.reserved(peer, now).1 {
            Some(invoke_id) => {
                let key = TransactionKey { peer, invoke_id };
                &&& !endpoint.pending.dom().contains(key)
                &&& endpoint.quarantined.dom().contains(key) ==> endpoint.quarantined[key] <= now
            },
            None => forall|invoke_id: u8|
                !#[trigger] EndpointView {
                    quarantined: endpoint.held_back(now),
                    ..endpoint
                }.is_free(peer, invoke_id),
        },
{
    let current = EndpointView { quarantined: endpoint.held_back(now), ..endpoint };
    lemma_first_free(current, peer, endpoint.next_invoke_id, 256);
    if endpoint.reserved(peer, now).1 is None {
        assert forall|invoke_id: u8| !#[trigger] current.is_free(peer, invoke_id) by {
            let distance = (invoke_id - endpoint.next_invoke_id) % 256;
            assert(is_ahead(endpoint.next_invoke_id, invoke_id, distance));
        }
    }
}

/// Whether a number is so many places behind another, counting past the end from the
/// start.
spec fn is_ahead(start: u8, invoke_id: u8, distance: int) -> bool {
    0 <= distance < 256 && invoke_id as int == (start + distance) % 256
}

proof fn lemma_first_free(endpoint: EndpointView, peer: SocketAddress, start: u8, count: nat)
    requires
        count <= 256,
    ensures
        match endpoint.first_free(peer, start, count) {
            Some(invoke_id) => endpoint.is_free(peer, invoke_id),
            None => forall|invoke_id: u8, distance: int|
                #![trigger is_ahead(start, invoke_id, distance)]
                is_ahead(start, invoke_id, distance) && distance < count ==> !endpoint.is_free(
                    peer,
                    invoke_id,
                ),
        },
    decreases count,
{
    if count > 0 && !endpoint.is_free(peer, start) {
        let next = transfer::following(start);
        lemma_first_free(endpoint, peer, next, (count - 1) as nat);
        if endpoint.first_free(peer, start, count) is None {
            assert forall|invoke_id: u8, distance: int|
                #![trigger is_ahead(start, invoke_id, distance)]
                is_ahead(start, invoke_id, distance) && distance
                    < count implies !endpoint.is_free(peer, invoke_id) by {
                if distance > 0 {
                    assert(is_ahead(next, invoke_id, distance - 1));
                } else {
                    assert(invoke_id == start);
                }
            }
        }
    }
}

/// A transaction with another peer changes nothing of the search for a number.
proof fn lemma_search_is_per_peer(
    endpoint: EndpointView,
    key: TransactionKey,
    pending: PendingView,
    peer: SocketAddress,
    start: u8,
    count: nat,
)
    requires
        key.peer != peer,
    ensures
        endpoint.with(key, pending).first_free(peer, start, count) == endpoint.first_free(
            peer,
            start,
            count,
        ),
    decreases count,
{
    if count > 0 {
        assert(endpoint.with(key, pending).is_free(peer, start) == endpoint.is_free(peer, start));
        lemma_search_is_per_peer(
            endpoint,
            key,
            pending,
            peer,
            transfer::following(start),
            (count - 1) as nat,
        );
    }
}

/// Numbers are a budget for each peer: what is outstanding with one leaves the number
/// that is reserved towards another as it is.
pub proof fn law_peers_have_their_own_numbers(
    endpoint: EndpointView,
    key: TransactionKey,
    pending: PendingView,
    peer: SocketAddress,
    now: u64,
)
    requires
        key.peer != peer,
    ensures
        endpoint.with(key, pending).reserved(peer, now).1 == endpoint.reserved(peer, now).1,
{
    let current = EndpointView { quarantined: endpoint.held_back(now), ..endpoint };
    let other = endpoint.with(key, pending);
    assert(other.held_back(now) =~= endpoint.held_back(now));
    assert(EndpointView { quarantined: other.held_back(now), ..other } == current.with(
        key,
        pending,
    ));
    lemma_search_is_per_peer(current, key, pending, peer, endpoint.next_invoke_id, 256);
}

/// An answer that comes after its request was given up reaches nobody, and its number
/// is not used again towards that peer for a whole budget.
pub proof fn law_late_answers_reach_nobody(
    endpoint: EndpointView,
    key: TransactionKey,
    now: u64,
    closed: Seq<u64>,
    message: ApduView,
    route: Option<NetworkAddressView>,
    then: u64,
)
    requires
        endpoint.pending.dom().contains(key),
        endpoint.pending[key].retries_remaining == 0,
        !closed.contains(endpoint.pending[key].response),
        answered_id(message) == Some(key.invoke_id),
    ensures
        ({
            let after = endpoint.timed_out(key, now, closed);
            &&& after.actions == seq![
                ActionView::Answer {
                    response: endpoint.pending[key].response,
                    result: Err(ClientErrorView::Timeout),
                },
            ]
            &&& after.endpoint.answer_received(key.peer, message, route, then)
                == after.endpoint.quiet()
            &&& then < later(now, endpoint.budget()) ==> !EndpointView {
                quarantined: after.endpoint.held_back(then),
                ..after.endpoint
            }.is_free(key.peer, key.invoke_id)
        }),
{
}

/// An answer is only ever held against a request to the peer it came from.
pub proof fn law_answers_count_for_their_sender(
    endpoint: EndpointView,
    source: SocketAddress,
    message: ApduView,
    route: Option<NetworkAddressView>,
    now: u64,
    other: TransactionKey,
)
    requires
        other.peer != source,
    ensures
        endpoint.answer_received(source, message, route, now).endpoint.pending.dom().contains(other)
            == endpoint.pending.dom().contains(other),
        endpoint.pending.dom().contains(other) ==> endpoint.answer_received(
            source,
            message,
            route,
            now,
        ).endpoint.pending[other] == endpoint.pending[other],
{
}

/// Whoever is answered waited for a request to the peer that answers, and waits no
/// more.
pub proof fn law_an_answer_ends_its_transaction(
    endpoint: EndpointView,
    source: SocketAddress,
    message: ApduView,
    route: Option<NetworkAddressView>,
    now: u64,
    index: int,
)
    requires
        0 <= index < endpoint.answer_received(source, message, route, now).actions.len(),
        endpoint.answer_received(source, message, route, now).actions[index] is Answer,
    ensures
        ({
            let step = endpoint.answer_received(source, message, route, now);
            let key = TransactionKey { peer: source, invoke_id: answered_id(message)->Some_0 };
            &&& answered_id(message) is Some
            &&& endpoint.pending.dom().contains(key)
            &&& !step.endpoint.pending.dom().contains(key)
            &&& step.actions[index]->Answer_response == endpoint.pending[key].response
        }),
{
}

/// A notification that asks for a reply gets exactly one, whether or not anybody
/// subscribed.
pub proof fn law_notifications_are_replied_to(
    endpoint: EndpointView,
    source: SocketAddress,
    apdu: Apdu,
    route: Option<NetworkAddress>,
    notification: Option<CovNotification>,
    now: u64,
)
    requires
        apdu matches Apdu::ConfirmedRequest { service_choice, .. } && service_choice
            == ConfirmedServiceChoice::ConfirmedCovNotification,
    ensures
        ({
            let step = endpoint.received(
                source,
                Incoming::Application { apdu, route, notification },
                now,
            );
            &&& step.endpoint == endpoint
            &&& step.actions.len() > 0
            &&& step.actions.last() matches ActionView::Send { peer, transaction, .. } && peer
                == source && transaction is None
            &&& forall|i: int|
                0 <= i < step.actions.len() - 1 ==> (#[trigger] step.actions[i]) is Notify
        }),
{
}

/// A notification reaches the subscription for the object it is about, and only that.
pub proof fn law_notifications_reach_their_subscriber(
    endpoint: EndpointView,
    notification: CovNotification,
)
    ensures
        endpoint.subscribers.dom().contains(notification_key(notification)) ==> endpoint.dispatched(
            notification,
        ) == seq![
            ActionView::Notify {
                sink: endpoint.subscribers[notification_key(notification)],
                notification,
            },
        ],
        !endpoint.subscribers.dom().contains(notification_key(notification))
            ==> endpoint.dispatched(notification).len() == 0,
{
}

/// An error that a caller gets for a request that cannot be sent costs no number: the
/// endpoint has no more transactions than before.
pub proof fn law_refused_requests_leave_nothing_pending(
    endpoint: EndpointView,
    target: TargetView,
    service_choice: ConfirmedServiceChoice,
    service_data: Seq<u8>,
    response: u64,
    now: u64,
    closed: Seq<u64>,
    invoke_id: u8,
)
    requires
        !closed.contains(response),
        endpoint.without_cancelled(closed).reserved(target.address, now).1 == Some(invoke_id),
        split::split(target, invoke_id, service_choice, service_data) is Err,
    ensures
        ({
            let step = endpoint.requested(
                target,
                service_choice,
                service_data,
                response,
                now,
                closed,
            );
            &&& step.endpoint.pending == endpoint.without_cancelled(closed).pending
            &&& step.actions.len() == 1
            &&& step.actions[0] is Answer
        }),
{
}

/// A segment of a response, the network-layer source it came from, and when it came.
#[verifier::ext_equal]
pub struct Arrival {
    pub sequence: u8,
    pub more_follows: bool,
    pub data: Seq<u8>,
    pub route: Option<NetworkAddressView>,
    pub at: u64,
}

/// What pieces hold together.
pub open spec fn together(pieces: Seq<Seq<u8>>) -> Seq<u8>
    decreases pieces.len(),
{
    if pieces.len() == 0 {
        Seq::empty()
    } else {
        together(pieces.drop_last()) + pieces.last()
    }
}

/// Whether a segment brings the piece that is due, the last one saying that nothing
/// follows.
pub open spec fn brings(arrival: Arrival, pieces: Seq<Seq<u8>>, due: int) -> bool {
    &&& 0 <= due < pieces.len()
    &&& arrival.sequence == due
    &&& arrival.data == pieces[due]
    &&& arrival.more_follows == (due != pieces.len() - 1)
}

/// How many pieces have come in turn, where segments bring the pieces in order and,
/// after the first and before the last of them, any that is not due may come between:
/// the one just taken once more, or one out of turn. Nothing for other arrivals.
pub open spec fn in_turn(arrivals: Seq<Arrival>, pieces: Seq<Seq<u8>>) -> Option<int>
    decreases arrivals.len(),
{
    if arrivals.len() == 0 {
        Some(0)
    } else {
        match in_turn(arrivals.drop_last(), pieces) {
            None => None,
            Some(due) => if brings(arrivals.last(), pieces, due) {
                Some(due + 1)
            } else if 0 < due < pieces.len() && arrivals.last().sequence != due {
                Some(due)
            } else {
                None
            },
        }
    }
}

impl EndpointView {
    /// A segment of the response to a request arrived.
    pub open spec fn segment_arrived(self, key: TransactionKey, arrival: Arrival) -> Step {
        self.segment_accepted(
            key,
            Some(arrival.sequence),
            arrival.more_follows,
            arrival.data,
            arrival.route,
            arrival.at,
        )
    }

    /// Segments of the response to a request arrived, one after the other.
    pub open spec fn segments_arrived(self, key: TransactionKey, arrivals: Seq<Arrival>) -> Step
        decreases arrivals.len(),
    {
        if arrivals.len() == 0 {
            self.quiet()
        } else {
            let before = self.segments_arrived(key, arrivals.drop_last());
            let last = before.endpoint.segment_arrived(key, arrivals.last());
            Step { actions: before.actions + last.actions, ..last }
        }
    }

    /// Whether a step left a transfer under way of which so many pieces have come: the
    /// transaction waits on, holding what they hold together, and the last thing sent
    /// was the acknowledgement that is kept.
    pub open spec fn is_receiving(
        self,
        key: TransactionKey,
        pieces: Seq<Seq<u8>>,
        count: int,
        step: Step,
    ) -> bool {
        let pending = step.endpoint.pending[key];
        &&& step.endpoint == self.with(key, pending)
        &&& pending == (PendingView {
            retries_remaining: pending.retries_remaining,
            deadline: pending.deadline,
            reassembly: pending.reassembly,
            ..self.pending[key]
        })
        &&& pending.reassembly matches Some(reassembly) && {
            &&& reassembly.data == together(pieces.take(count))
            &&& reassembly.last_in_order == Some((count - 1) as u8)
            &&& reassembly.segments == count
            &&& reassembly.last_ack matches Some(ack) && step.actions.len() > 0
                && step.actions.last() == (ActionView::Send {
                peer: key.peer,
                packet: ack,
                transaction: Some(key),
            })
        }
    }
}

proof fn lemma_segments_arrived(
    endpoint: EndpointView,
    key: TransactionKey,
    pieces: Seq<Seq<u8>>,
    arrivals: Seq<Arrival>,
    count: int,
)
    requires
        endpoint.pending.dom().contains(key),
        endpoint.pending[key].reassembly is None,
        0 < pieces.len() <= MAX_SEGMENTS,
        in_turn(arrivals, pieces) == Some(count),
    ensures
        ({
            let step = endpoint.segments_arrived(key, arrivals);
            &&& 0 <= count <= pieces.len()
            &&& count == 0 ==> arrivals.len() == 0
            &&& 0 < count < pieces.len() ==> endpoint.is_receiving(key, pieces, count, step)
            &&& count == pieces.len() ==> {
                &&& step.endpoint == endpoint.without(key)
                &&& step.actions.len() > 0
                &&& step.actions.last() == (ActionView::Answer {
                    response: endpoint.pending[key].response,
                    result: Ok(together(pieces)),
                })
            }
            &&& forall|i: int|
                0 <= i < step.actions.len() && (i < step.actions.len() - 1 || count < pieces.len())
                    ==> ((#[trigger] step.actions[i]) matches ActionView::Send { peer, .. } && peer
                    == key.peer)
        }),
    decreases arrivals.len(),
{
    if arrivals.len() > 0 {
        let due = in_turn(arrivals.drop_last(), pieces)->Some_0;
        lemma_segments_arrived(endpoint, key, pieces, arrivals.drop_last(), due);
        let before = endpoint.segments_arrived(key, arrivals.drop_last());
        let arrival = arrivals.last();
        let last = before.endpoint.segment_arrived(key, arrival);
        let step = endpoint.segments_arrived(key, arrivals);
        assert(step.actions == before.actions + last.actions);
        assert(before.endpoint.pending.dom().contains(key));
        let ack = apdu::segment_ack(key.invoke_id, arrival.sequence, false, arrival.route);
        if brings(arrival, pieces, due) {
            assert(pieces.take(due + 1).drop_last() =~= pieces.take(due));
            assert(pieces.take(due + 1).last() == pieces[due]);
            assert(together(pieces.take(due + 1)) == together(pieces.take(due)) + pieces[due]);
            let held = match before.endpoint.pending[key].reassembly {
                Some(reassembly) => reassembly,
                None => transfer::nothing_arrived(),
            };
            assert(held.data =~= together(pieces.take(due)));
            let (outcome, after) = transfer::taken(
                held,
                arrival.sequence,
                arrival.more_follows,
                arrival.data,
            );
            if due + 1 == pieces.len() {
                assert(outcome == OutcomeView::Complete(
                    arrival.sequence,
                    together(pieces.take(due + 1)),
                ));
            } else {
                assert(outcome == OutcomeView::Accepted(arrival.sequence));
                assert(after.data == together(pieces.take(due + 1)));
            }
            if due + 1 == pieces.len() {
                assert(pieces.take(due + 1) =~= pieces);
                assert(step.endpoint.pending =~= endpoint.pending.remove(key));
                assert(last.actions =~= seq![
                    ActionView::Send { peer: key.peer, packet: ack, transaction: None },
                    ActionView::Answer {
                        response: endpoint.pending[key].response,
                        result: Ok(together(pieces)),
                    },
                ]);
            } else {
                assert(step.endpoint.pending =~= endpoint.pending.insert(
                    key,
                    step.endpoint.pending[key],
                ));
                assert(last.actions =~= seq![
                    ActionView::Send { peer: key.peer, packet: ack, transaction: Some(key) },
                ]);
                assert(endpoint.is_receiving(key, pieces, count, step));
            }
        } else {
            assert(step.endpoint.pending =~= endpoint.pending.insert(
                key,
                step.endpoint.pending[key],
            ));
            if arrival.sequence == due - 1 {
                assert(last.actions =~= seq![before.actions.last()]);
            } else {
                let refusal = apdu::segment_ack(
                    key.invoke_id,
                    (due - 1) as u8,
                    true,
                    arrival.route,
                );
                assert(last.actions =~= seq![
                    ActionView::Send { peer: key.peer, packet: refusal, transaction: Some(key) },
                ]);
            }
            assert(endpoint.is_receiving(key, pieces, count, step));
        }
    }
}

/// A response whose segments come in order reaches the caller as what they hold
/// together, and the transaction ends, however many segments come twice or out of turn
/// between them: all else that is done is to send to the peer.
pub proof fn law_segments_in_turn_make_the_response(
    endpoint: EndpointView,
    key: TransactionKey,
    pieces: Seq<Seq<u8>>,
    arrivals: Seq<Arrival>,
)
    requires
        endpoint.pending.dom().contains(key),
        endpoint.pending[key].reassembly is None,
        0 < pieces.len() <= MAX_SEGMENTS,
        in_turn(arrivals, pieces) == Some(pieces.len() as int),
    ensures
        ({
            let step = endpoint.segments_arrived(key, arrivals);
            &&& step.endpoint == endpoint.without(key)
            &&& step.actions.len() > 0
            &&& step.actions.last() == (ActionView::Answer {
                response: endpoint.pending[key].response,
                result: Ok(together(pieces)),
            })
            &&& forall|i: int|
                0 <= i < step.actions.len() - 1 ==> ((
                #[trigger] step.actions[i]) matches ActionView::Send { peer, .. } && peer
                    == key.peer)
        }),
{
    lemma_segments_arrived(endpoint, key, pieces, arrivals, pieces.len() as int);
}

/// Under way, a segment that comes again only has the last acknowledgement sent again,
/// and one out of turn only has a negative acknowledgement sent that names the last
/// segment in order; neither adds to what the transfer holds.
pub proof fn law_segments_not_due_are_only_acknowledged(
    endpoint: EndpointView,
    key: TransactionKey,
    pieces: Seq<Seq<u8>>,
    arrivals: Seq<Arrival>,
    count: int,
    arrival: Arrival,
)
    requires
        endpoint.pending.dom().contains(key),
        endpoint.pending[key].reassembly is None,
        0 < pieces.len() <= MAX_SEGMENTS,
        in_turn(arrivals, pieces) == Some(count),
        0 < count < pieces.len(),
        arrival.sequence != count,
    ensures
        ({
            let before = endpoint.segments_arrived(key, arrivals);
            let after = before.endpoint.segment_arrived(key, arrival);
            &&& arrival.sequence == count - 1 ==> after == (Step {
                endpoint: before.endpoint,
                actions: seq![before.actions.last()],
            })
            &&& arrival.sequence != count - 1 ==> after.actions == sends(
                key,
                seq![
                    apdu::segment_ack(key.invoke_id, (count - 1) as u8, true, arrival.route),
                ],
            )
            &&& endpoint.is_receiving(
                key,
                pieces,
                count,
                Step { actions: before.actions + after.actions, ..after },
            )
        }),
{
    let all = arrivals.push(arrival);
    assert(all.drop_last() =~= arrivals);
    assert(in_turn(all, pieces) == Some(count));
    lemma_segments_arrived(endpoint, key, pieces, arrivals, count);
    lemma_segments_arrived(endpoint, key, pieces, all, count);
    let before = endpoint.segments_arrived(key, arrivals);
    let after = before.endpoint.segment_arrived(key, arrival);
    if arrival.sequence == count - 1 {
        assert(after.endpoint.pending =~= before.endpoint.pending);
        assert(after.actions =~= seq![before.actions.last()]);
    }
}

} // verus!
