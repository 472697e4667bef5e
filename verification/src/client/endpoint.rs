//! What one endpoint decides.
//!
//! One task owns the socket, hands everything that happens to the endpoint, and does
//! what the endpoint answers.

use crate::address::SocketAddress;
use crate::client::apdu;
use crate::client::apdu::{
    abort_frame, build_response_frame, segment_ack_frame, AbortReason, Apdu,
    ConfirmedServiceChoice, Packet, RejectReason,
};
use crate::client::conduct;
use crate::client::conduct::{
    Action, ActionView, ActiveDiscovery, CovKey, EndpointCommand, EndpointView, Incoming,
    PendingTransaction, PendingView, Step, TransactionKey,
};
use crate::client::error;
use crate::client::error::{response_matches_service, response_result, ClientError};
use crate::client::split;
use crate::client::split::{split_request, RequestFrames};
use crate::client::target;
use crate::client::target::{BacnetTarget, NetworkAddress};
use crate::client::transfer;
use crate::client::transfer::{OutboundSegments, Reassembly, SegmentOutcome};
use crate::cov::engine::CovNotification;
use crate::table;
use crate::table::Table;
use vstd::prelude::*;

verus! {

/// The state of one endpoint.
pub struct Endpoint {
    pending: Table<TransactionKey, PendingTransaction>,
    /// Invoke IDs that timed out, and the moment each may be issued again.
    ///
    /// A device that answers after we have given up sends its response with the
    /// invoke ID we gave up on. If that ID has already been reissued, the late
    /// response matches the new transaction: same peer, same service choice, same ID.
    /// Holding the ID back for one full transaction budget after it fails means the
    /// late response arrives when nothing is listening.
    ///
    /// Held back for the peer that failed to answer and not for the rest: one slow
    /// controller has no business narrowing the ID space available to every other
    /// device on the network.
    quarantined: Table<TransactionKey, u64>,
    device_discoveries: Vec<ActiveDiscovery>,
    router_discoveries: Vec<ActiveDiscovery>,
    cov_subscribers: Table<CovKey, u64>,
    next_invoke_id: u8,
    timeout: u64,
    retries: u8,
}

spec fn pending_view(pending: Map<TransactionKey, PendingTransaction>) -> Map<
    TransactionKey,
    PendingView,
> {
    Map::new(
        |key: TransactionKey| pending.dom().contains(key),
        |key: TransactionKey| pending[key]@,
    )
}

impl View for Endpoint {
    type V = EndpointView;

    closed spec fn view(&self) -> EndpointView {
        EndpointView {
            pending: pending_view(self.pending@),
            quarantined: self.quarantined@,
            devices: self.device_discoveries@,
            routers: self.router_discoveries@,
            subscribers: self.cov_subscribers@,
            next_invoke_id: self.next_invoke_id,
            timeout: self.timeout,
            retries: self.retries,
        }
    }
}

fn moment_after(now: u64, span: u64) -> (moment: u64)
    ensures
        moment == conduct::later(now, span as int),
{
    if span > u64::MAX - now {
        u64::MAX
    } else {
        now + span
    }
}

fn is_listed(tokens: &Vec<u64>, token: u64) -> (listed: bool)
    ensures
        listed == tokens@.contains(token),
{
    let mut i: usize = 0;
    while i < tokens.len()
        invariant
            i <= tokens.len(),
            forall|j: int| 0 <= j < i ==> tokens@[j] != token,
        decreases tokens.len() - i,
    {
        if tokens[i] == token {
            assert(tokens@[i as int] == token);
            return true;
        }
        i += 1;
    }
    false
}

fn nothing() -> (actions: Vec<Action>)
    ensures
        conduct::actions_view(actions@) == Seq::<ActionView>::empty(),
{
    let actions: Vec<Action> = Vec::new();
    proof {
        assert(conduct::actions_view(actions@) =~= Seq::<ActionView>::empty());
    }
    actions
}

fn add_action(actions: &mut Vec<Action>, action: Action)
    ensures
        conduct::actions_view(final(actions)@) == conduct::actions_view(old(actions)@).push(action@),
{
    let ghost before = actions@;
    actions.push(action);
    proof {
        assert(conduct::actions_view(actions@) =~= conduct::actions_view(before).push(action@));
    }
}

fn add_actions(actions: &mut Vec<Action>, more: Vec<Action>)
    ensures
        conduct::actions_view(final(actions)@) == conduct::actions_view(old(actions)@) + conduct::actions_view(more@),
{
    let ghost before = actions@;
    let mut more = more;
    let ghost added = more@;
    actions.append(&mut more);
    proof {
        assert(conduct::actions_view(actions@) =~= conduct::actions_view(before) + conduct::actions_view(added));
    }
}

fn one(action: Action) -> (actions: Vec<Action>)
    ensures
        conduct::actions_view(actions@) == seq![action@],
{
    let mut actions = nothing();
    add_action(&mut actions, action);
    proof {
        assert(conduct::actions_view(actions@) =~= seq![action@]);
    }
    actions
}

fn send_all(key: TransactionKey, packets: Vec<Packet>) -> (actions: Vec<Action>)
    ensures
        conduct::actions_view(actions@) == conduct::sends(key, apdu::packets_view(packets@)),
{
    let mut actions = nothing();
    let mut i: usize = 0;
    while i < packets.len()
        invariant
            i <= packets.len(),
            conduct::actions_view(actions@) == conduct::sends(key, apdu::packets_view(packets@).take(i as int)),
        decreases packets.len() - i,
    {
        let ghost before = actions@;
        add_action(
            &mut actions,
            Action::Send {
                peer: key.peer,
                packet: packets[i].duplicate(),
                transaction: Some(key),
            },
        );
        proof {
            let shown = apdu::packets_view(packets@);
            assert(conduct::sends(key, shown.take(i + 1)) =~= conduct::sends(key, shown.take(i as int)).push(
                ActionView::Send {
                    peer: key.peer,
                    packet: shown[i as int],
                    transaction: Some(key),
                },
            ));
        }
        i += 1;
    }
    proof {
        let shown = apdu::packets_view(packets@);
        assert(shown.take(shown.len() as int) =~= shown);
    }
    actions
}

fn send_one(key: TransactionKey, packet: Packet) -> (actions: Vec<Action>)
    ensures
        conduct::actions_view(actions@) == conduct::sends(key, seq![packet@]),
{
    let ghost shown = packet@;
    let actions = one(Action::Send { peer: key.peer, packet, transaction: Some(key) });
    proof {
        assert(conduct::sends(key, seq![shown]) =~= seq![
            ActionView::Send { peer: key.peer, packet: shown, transaction: Some(key) },
        ]);
    }
    actions
}

fn offer_to(discoveries: &Vec<ActiveDiscovery>) -> (actions: Vec<Action>)
    ensures
        conduct::actions_view(actions@) == conduct::offers(discoveries@),
{
    let mut actions = nothing();
    let mut i: usize = 0;
    while i < discoveries.len()
        invariant
            i <= discoveries.len(),
            conduct::actions_view(actions@) == conduct::offers(discoveries@.take(i as int)),
        decreases discoveries.len() - i,
    {
        add_action(&mut actions, Action::Offer { sink: discoveries[i].sink });
        proof {
            assert(conduct::offers(discoveries@.take(i + 1)) =~= conduct::offers(discoveries@.take(i as int)).push(
                ActionView::Offer { sink: discoveries@[i as int].sink },
            ));
        }
        i += 1;
    }
    proof {
        assert(discoveries@.take(discoveries@.len() as int) =~= discoveries@);
    }
    actions
}

fn still_collecting(discoveries: &Vec<ActiveDiscovery>, closed: &Vec<u64>) -> (kept: Vec<
    ActiveDiscovery,
>)
    ensures
        kept@ == discoveries@.filter(
            |discovery: ActiveDiscovery| !closed@.contains(discovery.sink),
        ),
{
    let ghost wanted = |discovery: ActiveDiscovery| !closed@.contains(discovery.sink);
    let mut kept: Vec<ActiveDiscovery> = Vec::new();
    let mut i: usize = 0;
    proof {
        reveal(Seq::filter);
        assert(discoveries@.take(0).filter(wanted) =~= Seq::<ActiveDiscovery>::empty());
    }
    while i < discoveries.len()
        invariant
            i <= discoveries.len(),
            wanted == (|discovery: ActiveDiscovery| !closed@.contains(discovery.sink)),
            kept@ == discoveries@.take(i as int).filter(wanted),
        decreases discoveries.len() - i,
    {
        proof {
            reveal(Seq::filter);
            let longer = discoveries@.take(i + 1);
            assert(longer.drop_last() =~= discoveries@.take(i as int));
            assert(longer.last() == discoveries@[i as int]);
        }
        let discovery = discoveries[i];
        if !is_listed(closed, discovery.sink) {
            kept.push(discovery);
        }
        i += 1;
    }
    proof {
        assert(discoveries@.take(discoveries@.len() as int) =~= discoveries@);
    }
    kept
}

fn close_due(discoveries: &Vec<ActiveDiscovery>, now: u64) -> (closing: (
    Vec<ActiveDiscovery>,
    Vec<Action>,
))
    ensures
        closing.0@ == EndpointView::open_at(discoveries@, now),
        conduct::actions_view(closing.1@) == EndpointView::closings(discoveries@, now),
{
    let ghost stays = |discovery: ActiveDiscovery| discovery.deadline > now;
    let ghost goes = |discovery: ActiveDiscovery| discovery.deadline <= now;
    let ghost shut = |discovery: ActiveDiscovery| ActionView::Close { sink: discovery.sink };
    let mut kept: Vec<ActiveDiscovery> = Vec::new();
    let mut actions = nothing();
    let mut i: usize = 0;
    proof {
        reveal(Seq::filter);
        assert(discoveries@.take(0).filter(stays) =~= Seq::<ActiveDiscovery>::empty());
        assert(discoveries@.take(0).filter(goes).map_values(shut) =~= Seq::<ActionView>::empty());
    }
    while i < discoveries.len()
        invariant
            i <= discoveries.len(),
            stays == (|discovery: ActiveDiscovery| discovery.deadline > now),
            goes == (|discovery: ActiveDiscovery| discovery.deadline <= now),
            shut == (|discovery: ActiveDiscovery| ActionView::Close { sink: discovery.sink }),
            kept@ == discoveries@.take(i as int).filter(stays),
            conduct::actions_view(actions@) == discoveries@.take(i as int).filter(goes).map_values(shut),
        decreases discoveries.len() - i,
    {
        let ghost earlier = discoveries@.take(i as int).filter(goes);
        proof {
            reveal(Seq::filter);
            let longer = discoveries@.take(i + 1);
            assert(longer.drop_last() =~= discoveries@.take(i as int));
            assert(longer.last() == discoveries@[i as int]);
        }
        let discovery = discoveries[i];
        if discovery.deadline > now {
            kept.push(discovery);
        } else {
            add_action(&mut actions, Action::Close { sink: discovery.sink });
            proof {
                assert(earlier.push(discovery).map_values(shut) =~= earlier.map_values(shut).push(
                    shut(discovery),
                ));
            }
        }
        i += 1;
    }
    proof {
        assert(discoveries@.take(discoveries@.len() as int) =~= discoveries@);
    }
    (kept, actions)
}

impl Endpoint {
    /// Whether the endpoint keeps its books in order.
    pub closed spec fn wf(&self) -> bool {
        &&& self.pending.wf()
        &&& self.quarantined.wf()
        &&& self.cov_subscribers.wf()
        &&& self@.wf()
    }

    /// An endpoint with nothing under way. Times are in milliseconds.
    pub fn new(timeout: u64, retries: u8) -> (endpoint: Endpoint)
        ensures
            endpoint.wf(),
            endpoint@ == (EndpointView {
                pending: Map::empty(),
                quarantined: Map::empty(),
                devices: Seq::empty(),
                routers: Seq::empty(),
                subscribers: Map::empty(),
                next_invoke_id: 0,
                timeout,
                retries,
            }),
    {
        let endpoint = Endpoint {
            pending: Table::new(),
            quarantined: Table::new(),
            device_discoveries: Vec::new(),
            router_discoveries: Vec::new(),
            cov_subscribers: Table::new(),
            next_invoke_id: 0,
            timeout,
            retries,
        };
        proof {
            assert(endpoint@.pending =~= Map::<TransactionKey, PendingView>::empty());
        }
        endpoint
    }

    fn take_pending(&mut self, key: TransactionKey) -> (pending: Option<PendingTransaction>)
        requires
            old(self).wf(),
        ensures
            final(self).wf(),
            final(self)@ == old(self)@.without(key),
            match pending {
                Some(pending) => old(self)@.pending.dom().contains(key) && pending@
                    == old(self)@.pending[key] && pending@.wf(),
                None => !old(self)@.pending.dom().contains(key) && final(self)@ == old(self)@,
            },
    {
        let ghost before = self@;
        let pending = self.pending.remove(key);
        proof {
            assert(self@.pending =~= before.pending.remove(key));
            assert forall|other: TransactionKey| #[trigger]
                self@.pending.dom().contains(other) implies self@.pending[other].wf() by {
                assert(before.pending.dom().contains(other));
            }
            if pending is None {
                assert(self@.pending =~= before.pending);
            } else {
                assert(before.pending.dom().contains(key));
            }
        }
        pending
    }

    fn put_pending(&mut self, key: TransactionKey, pending: PendingTransaction)
        requires
            old(self).wf(),
            pending@.wf(),
        ensures
            final(self).wf(),
            final(self)@ == old(self)@.with(key, pending@),
    {
        let ghost before = self@;
        self.pending.insert(key, pending);
        proof {
            assert(self@.pending =~= before.pending.insert(key, pending@));
            assert forall|other: TransactionKey| #[trigger]
                self@.pending.dom().contains(other) implies self@.pending[other].wf() by {
                if other != key {
                    assert(before.pending.dom().contains(other));
                }
            }
        }
    }

    /// Forget what nobody waits for any more.
    pub fn remove_cancelled(&mut self, closed: &Vec<u64>)
        requires
            old(self).wf(),
        ensures
            final(self).wf(),
            final(self)@ == old(self)@.without_cancelled(closed@),
    {
        let ghost before = self@;
        let waited_for = |key: &TransactionKey, pending: &PendingTransaction| -> (kept: bool)
            ensures
                kept == !closed@.contains(pending.response),
            { !is_listed(closed, pending.response) };
        self.pending.keep(&waited_for);
        self.device_discoveries = still_collecting(&self.device_discoveries, closed);
        self.router_discoveries = still_collecting(&self.router_discoveries, closed);
        let listened_to = |key: &CovKey, sink: &u64| -> (kept: bool)
            ensures
                kept == !closed@.contains(*sink),
            { !is_listed(closed, *sink) };
        self.cov_subscribers.keep(&listened_to);
        proof {
            assert(self@.pending =~= before.without_cancelled(closed@).pending);
            assert(self@.subscribers =~= before.without_cancelled(closed@).subscribers);
            assert forall|other: TransactionKey| #[trigger]
                self@.pending.dom().contains(other) implies self@.pending[other].wf() by {
                assert(before.pending.dom().contains(other));
            }
        }
    }

    /// Reserve an invoke ID for a request to `peer`.
    ///
    /// Occupancy is checked per peer, so the 256 IDs are a budget for each device
    /// rather than for the whole client. `next_invoke_id` stays a single rotating
    /// cursor across every peer: it only decides where the search starts, and keeping
    /// one avoids a per-peer cursor that would have to be reaped along with the peer.
    pub fn reserve_invoke_id(&mut self, peer: SocketAddress, now: u64) -> (invoke_id: Option<u8>)
        requires
            old(self).wf(),
        ensures
            final(self).wf(),
            (final(self)@, invoke_id) == old(self)@.reserved(peer, now),
    {
        let ghost before = self@;
        let held = |key: &TransactionKey, until: &u64| -> (kept: bool)
            ensures
                kept == (*until > now),
            { *until > now };
        self.quarantined.keep(&held);
        let ghost current = EndpointView { quarantined: before.held_back(now), ..before };
        proof {
            assert(self@.quarantined =~= before.held_back(now));
        }
        let start = self.next_invoke_id;
        let mut tried: u16 = 0;
        proof {
            assert(self@ =~= EndpointView { next_invoke_id: self.next_invoke_id, ..current });
        }
        while tried < 256
            invariant
                tried <= 256,
                self.wf(),
                before == old(self)@,
                current == (EndpointView { quarantined: before.held_back(now), ..before }),
                self@ == (EndpointView { next_invoke_id: self.next_invoke_id, ..current }),
                self.next_invoke_id == (start + tried) % 256,
                current.next_invoke_id == start,
                current.first_free(peer, start, 256) == current.first_free(
                    peer,
                    self.next_invoke_id,
                    (256 - tried) as nat,
                ),
            decreases 256 - tried,
        {
            let ghost earlier = *self;
            let invoke_id = self.next_invoke_id;
            self.next_invoke_id = if invoke_id == 255 {
                0
            } else {
                invoke_id + 1
            };
            let key = TransactionKey { peer, invoke_id };
            proof {
                lemma_books(earlier, *self);
                assert(self@ =~= EndpointView { next_invoke_id: self.next_invoke_id, ..current });
                assert(self@.pending == current.pending);
                assert(self@.quarantined == current.quarantined);
                assert(self.pending@.dom().contains(key) == current.pending.dom().contains(key));
            }
            if self.pending.get(key).is_none() && self.quarantined.get(key).is_none() {
                proof {
                    assert(current.is_free(peer, invoke_id));
                    assert(current.first_free(peer, start, 256) == Some(invoke_id));
                }
                return Some(invoke_id);
            }
            tried += 1;
        }
        None
    }

    /// How long one transaction may take before it is abandoned: the initial attempt
    /// plus every retransmission, each with its own timeout.
    ///
    /// Also how long a failed invoke ID stays quarantined. A device that has not
    /// answered within its whole budget is unlikely to answer after another one, and
    /// holding the ID longer would shrink the pool for no further protection.
    pub fn transaction_budget(&self) -> (budget: u64)
        ensures
            budget == if self@.budget() > u64::MAX {
                u64::MAX as int
            } else {
                self@.budget()
            },
    {
        let attempts: u128 = self.retries as u128 + 1;
        proof {
            assert(self.timeout * attempts <= u64::MAX * 256) by (nonlinear_arith)
                requires
                    self.timeout <= u64::MAX,
                    0 <= attempts <= 256,
            ;
        }
        let budget: u128 = self.timeout as u128 * attempts;
        if budget > u64::MAX as u128 {
            u64::MAX
        } else {
            budget as u64
        }
    }

    /// Do what a caller asks for.
    pub fn handle_command(&mut self, command: EndpointCommand, now: u64, closed: &Vec<u64>) -> (
        actions: Vec<Action>)
        requires
            old(self).wf(),
        ensures
            final(self).wf(),
            (Step { endpoint: final(self)@, actions: conduct::actions_view(actions@) })
                == old(self)@.commanded(command, now, closed@),
    {
        match command {
            EndpointCommand::Confirmed { target, service_choice, service_data, response } => {
                self.handle_confirmed_command(
                    target,
                    service_choice,
                    service_data,
                    response,
                    now,
                    closed,
                )
            },
            EndpointCommand::DiscoverDevices { frame, destination, sink } => {
                if is_listed(closed, sink) {
                    return nothing();
                }
                let discovery = self.start_discovery(sink, now);
                self.device_discoveries.push(discovery);
                proof {
                    lemma_books(*old(self), *self);
                }
                one(Action::Discover { destination, frame, sink })
            },
            EndpointCommand::DiscoverRouters { frame, destination, sink } => {
                if is_listed(closed, sink) {
                    return nothing();
                }
                let discovery = self.start_discovery(sink, now);
                self.router_discoveries.push(discovery);
                proof {
                    lemma_books(*old(self), *self);
                }
                one(Action::Discover { destination, frame, sink })
            },
            EndpointCommand::SubscribeCov { target, key, service_data, sink, response } => {
                let mut actions = match self.cov_subscribers.get(key) {
                    Some(replaced) => one(Action::Close { sink: *replaced }),
                    None => nothing(),
                };
                self.cov_subscribers.insert(key, sink);
                proof {
                    lemma_books(*old(self), *self);
                }
                let more = self.handle_confirmed_command(
                    target,
                    ConfirmedServiceChoice::SubscribeCOV,
                    service_data,
                    response,
                    now,
                    closed,
                );
                add_actions(&mut actions, more);
                actions
            },
        }
    }

    /// Open the response window of a discovery.
    fn start_discovery(&self, sink: u64, now: u64) -> (discovery: ActiveDiscovery)
        ensures
            discovery == self@.discovery(sink, now),
    {
        ActiveDiscovery { sink, deadline: moment_after(now, self.timeout) }
    }

    /// The socket refused the frame a discovery starts with: no window is open. The
    /// collector is told.
    pub fn discovery_failed(&mut self, sink: u64, error: ClientError) -> (actions: Vec<Action>)
        requires
            old(self).wf(),
        ensures
            final(self).wf(),
            final(self)@ == (EndpointView {
                devices: old(self)@.devices.filter(
                    |discovery: ActiveDiscovery| !seq![sink].contains(discovery.sink),
                ),
                routers: old(self)@.routers.filter(
                    |discovery: ActiveDiscovery| !seq![sink].contains(discovery.sink),
                ),
                ..old(self)@
            }),
            conduct::actions_view(actions@) == seq![ActionView::Fail { sink, error: error@ }],
    {
        let mut failed: Vec<u64> = Vec::new();
        failed.push(sink);
        proof {
            assert(failed@ =~= seq![sink]);
        }
        self.device_discoveries = still_collecting(&self.device_discoveries, &failed);
        self.router_discoveries = still_collecting(&self.router_discoveries, &failed);
        proof {
            lemma_books(*old(self), *self);
        }
        one(Action::Fail { sink, error })
    }

    fn handle_confirmed_command(
        &mut self,
        target: BacnetTarget,
        service_choice: ConfirmedServiceChoice,
        service_data: Vec<u8>,
        response: u64,
        now: u64,
        closed: &Vec<u64>,
    ) -> (actions: Vec<Action>)
        requires
            old(self).wf(),
        ensures
            final(self).wf(),
            (Step { endpoint: final(self)@, actions: conduct::actions_view(actions@) })
                == old(self)@.requested(
                target@,
                service_choice,
                service_data@,
                response,
                now,
                closed@,
            ),
    {
        if is_listed(closed, response) {
            return nothing();
        }
        // A cancelled request may have released an invoke ID while the endpoint was
        // asleep. Reclaim those slots before admitting new work.
        self.remove_cancelled(closed);
        let invoke_id = match self.reserve_invoke_id(target.address, now) {
            Some(invoke_id) => invoke_id,
            None => {
                return one(
                    Action::Answer { response, result: Err(ClientError::TooManyTransactions) },
                );
            },
        };
        let key = TransactionKey { peer: target.address, invoke_id };
        let ghost data = service_data@;
        let ghost stated = split::split(target@, invoke_id, service_choice, data);
        let (frame, outbound) = match split_request(
            &target,
            invoke_id,
            service_choice,
            service_data,
        ) {
            Ok(RequestFrames::Whole(frame)) => (frame, None),
            Ok(RequestFrames::Segmented(frames)) => {
                proof {
                    split::lemma_segments_fit(target@, data.len());
                    assert(apdu::packets_view(frames@).len() == frames@.len());
                    assert(apdu::packets_view(frames@)[0] == frames@[0]@);
                }
                let first = frames[0].duplicate();
                (first, Some(OutboundSegments { frames, acked: None, window: 1 }))
            },
            Err(error) => {
                return one(Action::Answer { response, result: Err(error) });
            },
        };
        let pending = PendingTransaction {
            service_choice,
            frame: Some(frame.duplicate()),
            retries_remaining: self.retries,
            deadline: moment_after(now, self.timeout),
            response,
            reassembly: None,
            outbound,
        };
        self.put_pending(key, pending);
        send_one(key, frame)
    }

    /// Take what arrived from `source`.
    pub fn handle_packet(&mut self, source: SocketAddress, incoming: Incoming, now: u64) -> (
        actions: Vec<Action>)
        requires
            old(self).wf(),
        ensures
            final(self).wf(),
            (Step { endpoint: final(self)@, actions: conduct::actions_view(actions@) })
                == old(self)@.received(source, incoming, now),
    {
        match incoming {
            Incoming::NetworkMessage { router } => {
                if router {
                    offer_to(&self.router_discoveries)
                } else {
                    nothing()
                }
            },
            Incoming::Unconfirmed { device, notification } => {
                let mut actions = if device {
                    offer_to(&self.device_discoveries)
                } else {
                    nothing()
                };
                let more = match notification {
                    Some(notification) => self.dispatch_cov_notification(notification),
                    None => nothing(),
                };
                add_actions(&mut actions, more);
                actions
            },
            Incoming::Application { apdu, route, notification } => {
                // A ConfirmedCOVNotification is a confirmed *request* aimed at us, not
                // a response to one of ours: it needs its own ack, sent back to
                // wherever the notification actually came from.
                if let Apdu::ConfirmedRequest {
                    invoke_id,
                    segmented,
                    service_choice: ConfirmedServiceChoice::ConfirmedCovNotification,
                    ..
                } = &apdu {
                    return self.handle_confirmed_cov_notification(
                        *invoke_id,
                        *segmented,
                        notification,
                        source,
                        route,
                    );
                }
                self.handle_answer(source, apdu, route, now)
            },
        }
    }

    fn handle_answer(
        &mut self,
        source: SocketAddress,
        apdu: Apdu,
        route: Option<NetworkAddress>,
        now: u64,
    ) -> (actions: Vec<Action>)
        requires
            old(self).wf(),
        ensures
            final(self).wf(),
            (Step { endpoint: final(self)@, actions: conduct::actions_view(actions@) })
                == old(self)@.answer_received(source, apdu@, target::route_view(route), now),
    {
        let invoke_id = match &apdu {
            Apdu::ComplexAck { invoke_id, .. } => *invoke_id,
            Apdu::SimpleAck { invoke_id, .. } => *invoke_id,
            Apdu::Error { invoke_id, .. } => *invoke_id,
            Apdu::Reject { invoke_id, .. } => *invoke_id,
            Apdu::Abort { invoke_id, .. } => *invoke_id,
            Apdu::SegmentAck { invoke_id, .. } => *invoke_id,
            _ => {
                return nothing();
            },
        };
        let key = TransactionKey { peer: source, invoke_id };
        let expecting = match self.pending.get(key) {
            Some(pending) => pending.service_choice,
            None => {
                return nothing();
            },
        };
        proof {
            assert(self@.pending.dom().contains(key));
        }

        // A SegmentAck paces a request *this client* is sending. It answers nothing
        // and carries no service choice to check, so it is taken before the checks
        // below rather than being mistaken for a response.
        if let Apdu::SegmentAck { sequence_number, window_size, .. } = &apdu {
            return self.advance_outbound(key, *sequence_number, *window_size, now);
        }
        if !response_matches_service(&apdu, expecting) {
            return nothing();
        }
        // A segmented ComplexAck is not the response yet: it is one piece of it, and
        // the transaction stays open until the last piece lands.

        if let Apdu::ComplexAck {
            segmented: true,
            more_follows,
            sequence_number,
            service_data,
            ..
        } = &apdu {
            return self.accept_response_segment(
                key,
                *sequence_number,
                *more_follows,
                service_data,
                route,
                now,
            );
        }
        let result = response_result(apdu);
        self.answer(key, result)
    }

    /// End a transaction with an answer.
    fn answer(&mut self, key: TransactionKey, result: Result<Vec<u8>, ClientError>) -> (actions:
        Vec<Action>)
        requires
            old(self).wf(),
            old(self)@.pending.dom().contains(key),
        ensures
            final(self).wf(),
            (Step { endpoint: final(self)@, actions: conduct::actions_view(actions@) })
                == old(self)@.answered(key, error::answer_view(result)),
    {
        match self.take_pending(key) {
            Some(pending) => one(Action::Answer { response: pending.response, result }),
            None => nothing(),
        }
    }

    /// Take one segment, acknowledge it, and complete the transaction once the last
    /// has landed.
    fn accept_response_segment(
        &mut self,
        key: TransactionKey,
        sequence_number: Option<u8>,
        more_follows: bool,
        service_data: &Vec<u8>,
        route: Option<NetworkAddress>,
        now: u64,
    ) -> (actions: Vec<Action>)
        requires
            old(self).wf(),
            old(self)@.pending.dom().contains(key),
        ensures
            final(self).wf(),
            (Step { endpoint: final(self)@, actions: conduct::actions_view(actions@) })
                == old(self)@.segment_accepted(
                key,
                sequence_number,
                more_follows,
                service_data@,
                target::route_view(route),
                now,
            ),
    {
        // Malformed: the sequence number is what every decision below needs.
        let sequence = match sequence_number {
            Some(sequence) => sequence,
            None => {
                return self.abandon(key, AbortReason::InvalidApduInThisState, &route);
            },
        };
        let ghost start = self@;
        let mut pending = match self.take_pending(key) {
            Some(pending) => pending,
            None => {
                return nothing();
            },
        };
        let mut reassembly = match pending.reassembly.take() {
            Some(reassembly) => reassembly,
            None => Reassembly::new(),
        };
        match reassembly.take(sequence, more_follows, service_data) {
            SegmentOutcome::Accepted(sequence) => {
                let ack = segment_ack_frame(key.invoke_id, sequence, false, &route);
                self.keep_segment(key, pending, reassembly, ack, now, Ghost(start))
            },
            SegmentOutcome::Missing(last) => {
                let ack = segment_ack_frame(key.invoke_id, last, true, &route);
                self.keep_segment(key, pending, reassembly, ack, now, Ghost(start))
            },
            SegmentOutcome::Repeat => {
                let actions = match &reassembly.last_ack {
                    Some(ack) => send_one(key, ack.duplicate()),
                    None => nothing(),
                };
                pending.reassembly = Some(reassembly);
                self.put_pending(key, pending);
                proof {
                    assert(self@.pending =~= start.pending.insert(key, pending@));
                }
                actions
            },
            SegmentOutcome::Complete(sequence, data) => {
                let ack = segment_ack_frame(key.invoke_id, sequence, false, &route);
                let ghost notice = ActionView::Send {
                    peer: key.peer,
                    packet: ack@,
                    transaction: None,
                };
                let mut actions = one(
                    Action::Send { peer: key.peer, packet: ack, transaction: None },
                );
                let answer = Action::Answer { response: pending.response, result: Ok(data) };
                let ghost shown = answer@;
                add_action(&mut actions, answer);
                proof {
                    assert(conduct::actions_view(actions@) =~= seq![notice] + seq![shown]);
                }
                actions
            },
            SegmentOutcome::Abandon(reason) => {
                pending.reassembly = Some(reassembly);
                self.put_pending(key, pending);
                let actions = self.abandon(key, reason, &route);
                proof {
                    assert(self@.pending =~= start.pending.remove(key));
                }
                actions
            },
        }
    }

    /// Keep a transfer with its new acknowledgement, and send that.
    fn keep_segment(
        &mut self,
        key: TransactionKey,
        pending: PendingTransaction,
        reassembly: Reassembly,
        ack: Packet,
        now: u64,
        Ghost(start): Ghost<EndpointView>,
    ) -> (actions: Vec<Action>)
        requires
            old(self).wf(),
            old(self)@ == start.without(key),
            pending@ == (PendingView { reassembly: None, ..start.pending[key] }),
            pending@.wf(),
        ensures
            final(self).wf(),
            (Step { endpoint: final(self)@, actions: conduct::actions_view(actions@) })
                == start.segment_acked(key, reassembly@, ack@, now),
    {
        let mut pending = pending;
        let mut reassembly = reassembly;
        reassembly.last_ack = Some(ack.duplicate());
        pending.reassembly = Some(reassembly);
        pending.retries_remaining = self.retries;
        pending.deadline = moment_after(now, self.timeout);
        self.put_pending(key, pending);
        proof {
            assert(self@.pending =~= start.pending.insert(key, pending@));
        }
        send_one(key, ack)
    }

    /// Send the next window of a request going out in segments.
    fn advance_outbound(
        &mut self,
        key: TransactionKey,
        sequence_number: u8,
        window_size: u8,
        now: u64,
    ) -> (actions: Vec<Action>)
        requires
            old(self).wf(),
            old(self)@.pending.dom().contains(key),
        ensures
            final(self).wf(),
            (Step { endpoint: final(self)@, actions: conduct::actions_view(actions@) })
                == old(self)@.outbound_advanced(key, sequence_number, window_size, now),
    {
        let ghost start = self@;
        let mut pending = match self.take_pending(key) {
            Some(pending) => pending,
            None => {
                return nothing();
            },
        };
        let mut outbound = match pending.outbound.take() {
            // Not about anything this client is doing.
            None => {
                self.put_pending(key, pending);
                proof {
                    assert(self@.pending =~= start.pending);
                }
                return nothing();
            },
            Some(outbound) => outbound,
        };
        if sequence_number as usize >= outbound.frames.len() {
            pending.outbound = Some(outbound);
            self.put_pending(key, pending);
            proof {
                assert(self@.pending =~= start.pending);
            }
            return nothing();
        }
        outbound.acknowledge(sequence_number, window_size);
        pending.retries_remaining = self.retries;
        pending.deadline = moment_after(now, self.timeout);
        if outbound.all_acked() {
            pending.frame = None;
            self.put_pending(key, pending);
            proof {
                assert(self@.pending =~= start.pending.insert(key, pending@));
            }
            return nothing();
        }
        let frames = outbound.in_flight();
        proof {
            transfer::law_windows_are_respected(outbound@);
            assert(apdu::packets_view(frames@).len() == frames@.len());
            assert(apdu::packets_view(frames@)[0] == frames@[0]@);
        }
        pending.frame = Some(frames[0].duplicate());
        pending.outbound = Some(outbound);
        self.put_pending(key, pending);
        proof {
            assert(self@.pending =~= start.pending.insert(key, pending@));
        }
        send_all(key, frames)
    }

    /// The socket refused a packet of a transaction: the transaction fails.
    pub fn send_failed(&mut self, key: TransactionKey, error: ClientError) -> (actions: Vec<Action>)
        requires
            old(self).wf(),
        ensures
            final(self).wf(),
            (Step { endpoint: final(self)@, actions: conduct::actions_view(actions@) })
                == if old(self)@.pending.dom().contains(key) {
                old(self)@.answered(key, Err(error@))
            } else {
                old(self)@.quiet()
            },
    {
        match self.take_pending(key) {
            Some(pending) => one(
                Action::Answer { response: pending.response, result: Err(error) },
            ),
            None => nothing(),
        }
    }

    /// Stop a transfer, telling the peer and the caller why.
    fn abandon(
        &mut self,
        key: TransactionKey,
        reason: AbortReason,
        route: &Option<NetworkAddress>,
    ) -> (actions: Vec<Action>)
        requires
            old(self).wf(),
            old(self)@.pending.dom().contains(key),
        ensures
            final(self).wf(),
            (Step { endpoint: final(self)@, actions: conduct::actions_view(actions@) })
                == old(self)@.abandoned(key, reason, target::route_view(*route)),
    {
        let packet = abort_frame(key.invoke_id, reason, route);
        let mut actions = one(Action::Send { peer: key.peer, packet, transaction: None });
        let more = self.answer(key, Err(ClientError::Abort(reason)));
        add_actions(&mut actions, more);
        actions
    }

    /// Let go of what took too long, and repeat what may yet be answered.
    pub fn handle_timeouts(&mut self, now: u64, closed: &Vec<u64>) -> (actions: Vec<Action>)
        requires
            old(self).wf(),
        ensures
            final(self).wf(),
            exists|order: Seq<TransactionKey>|
                #![trigger old(self)@.lists_due(order, now)]
                old(self)@.lists_due(order, now) && (Step {
                    endpoint: final(self)@,
                    actions: conduct::actions_view(actions@),
                }) == old(self)@.deadlines_passed(order, now, closed@),
    {
        let ghost start = self@;
        let (devices, mut actions) = close_due(&self.device_discoveries, now);
        let (routers, more) = close_due(&self.router_discoveries, now);
        self.device_discoveries = devices;
        self.router_discoveries = routers;
        add_actions(&mut actions, more);
        let ghost closing = start.discoveries_closed(now);
        let ghost first = conduct::actions_view(actions@);
        proof {
            assert(self@ =~= closing.endpoint);
        }
        let due = self.due(now);
        let mut i: usize = 0;
        proof {
            assert(start.lists_due(due@, now)) by {
                assert forall|key: TransactionKey| #[trigger] due@.contains(key) == start.is_due(
                    key,
                    now,
                ) by {
                    assert(due@.contains(key) == closing.endpoint.is_due(key, now));
                }
            }
            assert(due@.take(0) =~= Seq::<TransactionKey>::empty());
            assert(first + Seq::<ActionView>::empty() =~= first);
        }
        while i < due.len()
            invariant
                i <= due.len(),
                self.wf(),
                start.lists_due(due@, now),
                closing == start.discoveries_closed(now),
                first == closing.actions,
                self@ == closing.endpoint.all_timed_out(due@.take(i as int), now, closed@).endpoint,
                conduct::actions_view(actions@) == first + closing.endpoint.all_timed_out(
                    due@.take(i as int),
                    now,
                    closed@,
                ).actions,
                forall|j: int|
                    i <= j < due@.len() ==> self@.pending.dom().contains(#[trigger] due@[j]),
            decreases due.len() - i,
        {
            let key = due[i];
            let ghost before = self@;
            let ghost earlier = conduct::actions_view(actions@);
            proof {
                let longer = due@.take(i + 1);
                assert(longer.drop_last() =~= due@.take(i as int));
                assert(longer.last() == key);
                assert(self@.pending.dom().contains(due@[i as int]));
            }
            let more = self.time_out(key, now, closed);
            let ghost added = conduct::actions_view(more@);
            add_actions(&mut actions, more);
            proof {
                let prior = closing.endpoint.all_timed_out(due@.take(i as int), now, closed@);
                assert(first + prior.actions + added =~= first + (prior.actions + added));
                assert forall|j: int| i + 1 <= j < due@.len() implies self@.pending.dom().contains(
                    #[trigger] due@[j],
                ) by {
                    assert(before.pending.dom().contains(due@[j]));
                    assert(due@[j] != due@[i as int]);
                }
            }
            i += 1;
        }
        proof {
            assert(due@.take(due@.len() as int) =~= due@);
        }
        actions
    }

    /// The transactions whose deadline has passed.
    fn due(&self, now: u64) -> (due: Vec<TransactionKey>)
        requires
            self.wf(),
        ensures
            self@.lists_due(due@, now),
            forall|j: int|
                0 <= j < due@.len() ==> self@.pending.dom().contains(#[trigger] due@[j]),
    {
        let keys = self.pending.keys();
        let mut due: Vec<TransactionKey> = Vec::new();
        let mut i: usize = 0;
        while i < keys.len()
            invariant
                i <= keys.len(),
                self.wf(),
                table::lists(keys@, self.pending@),
                due@.no_duplicates(),
                forall|key: TransactionKey| #[trigger]
                    due@.contains(key) == (keys@.take(i as int).contains(key) && self@.is_due(
                        key,
                        now,
                    )),
            decreases keys.len() - i,
        {
            let key = keys[i];
            let ghost earlier = due@;
            let ghost looked_at = keys@.take(i as int);
            proof {
                assert(keys@.contains(keys@[i as int]));
                assert(self.pending@.dom().contains(key));
                assert(self@.pending.dom().contains(key));
                assert(!looked_at.contains(key)) by {
                    if looked_at.contains(key) {
                        let place = looked_at.index_of(key);
                        assert(keys@[place] == keys@[i as int]);
                    }
                }
            }
            match self.pending.get(key) {
                Some(pending) => {
                    if pending.deadline <= now {
                        due.push(key);
                    }
                },
                None => {},
            }
            proof {
                let longer = keys@.take(i + 1);
                assert(longer =~= looked_at.push(key));
                assert(!earlier.contains(key));
                assert forall|other: TransactionKey| #[trigger]
                    due@.contains(other) == (longer.contains(other) && self@.is_due(other, now)) by {
                    lemma_push_contains(looked_at, key, other);
                    lemma_push_contains(earlier, key, other);
                    assert(earlier.contains(other) == (looked_at.contains(other) && self@.is_due(
                        other,
                        now,
                    )));
                }
            }
            i += 1;
        }
        proof {
            assert(keys@.take(keys@.len() as int) =~= keys@);
            assert forall|key: TransactionKey| #[trigger] due@.contains(key) == self@.is_due(
                key,
                now,
            ) by {
                assert(keys@.contains(key) == self.pending@.dom().contains(key));
            }
            assert forall|j: int| 0 <= j < due@.len() implies self@.pending.dom().contains(
                #[trigger] due@[j],
            ) by {
                assert(due@.contains(due@[j]));
            }
        }
        due
    }

    /// One transaction's deadline passed.
    fn time_out(&mut self, key: TransactionKey, now: u64, closed: &Vec<u64>) -> (actions: Vec<
        Action,
    >)
        requires
            old(self).wf(),
            old(self)@.pending.dom().contains(key),
        ensures
            final(self).wf(),
            (Step { endpoint: final(self)@, actions: conduct::actions_view(actions@) })
                == old(self)@.timed_out(key, now, closed@),
            forall|other: TransactionKey|
                #![trigger final(self)@.pending.dom().contains(other)]
                other != key && old(self)@.pending.dom().contains(other) ==> final(
                    self)@.pending.dom().contains(other),
    {
        let ghost start = self@;
        let mut pending = match self.take_pending(key) {
            Some(pending) => pending,
            None => {
                return nothing();
            },
        };
        let ghost first = pending@;
        if is_listed(closed, pending.response) {
            return nothing();
        }
        if pending.retries_remaining == 0 {
            let until = moment_after(now, self.transaction_budget());
            self.quarantined.insert(key, until);
            return one(
                Action::Answer { response: pending.response, result: Err(ClientError::Timeout) },
            );
        }
        pending.retries_remaining -= 1;
        pending.deadline = moment_after(now, self.timeout);
        let actions = match &pending.reassembly {
            Some(reassembly) => match &reassembly.last_ack {
                Some(ack) => send_one(key, ack.duplicate()),
                None => nothing(),
            },
            None => match &pending.outbound {
                Some(outbound) => send_all(key, outbound.in_flight()),
                None => match &pending.frame {
                    Some(frame) => send_one(key, frame.duplicate()),
                    None => nothing(),
                },
            },
        };
        self.put_pending(key, pending);
        proof {
            assert(self@.pending =~= start.pending.insert(key, pending@));
            assert(conduct::actions_view(actions@) =~= conduct::sends(key, EndpointView::repeated(first)));
        }
        actions
    }

    /// Route a notification to the subscription for the object it says it is about.
    ///
    /// Routed on what the notification asserts, its initiating device and its
    /// monitored object, rather than on the process identifier it echoes. Those two
    /// are the subscription's identity; the process identifier is only a number the
    /// subscriber picked, and two subscriptions are free to pick the same one.
    fn dispatch_cov_notification(&self, notification: CovNotification) -> (actions: Vec<Action>)
        requires
            self.wf(),
        ensures
            conduct::actions_view(actions@) == self@.dispatched(notification),
    {
        let key = CovKey {
            device: notification.initiating_device.instance,
            object: notification.monitored_object,
        };
        match self.cov_subscribers.get(key) {
            Some(sink) => one(Action::Notify { sink: *sink, notification }),
            None => nothing(),
        }
    }

    /// Dispatch and acknowledge an inbound ConfirmedCOVNotification.
    ///
    /// The confirmed-service contract requires a reply regardless of whether a local
    /// subscription still matches the notification: the device only needs to know its
    /// notification was received, not what became of it here.
    ///
    /// A segmented notification is aborted rather than decoded: one segment's worth
    /// of bytes read as a complete notification would be taken for malformed data
    /// instead of failing honestly.
    fn handle_confirmed_cov_notification(
        &self,
        invoke_id: u8,
        segmented: bool,
        notification: Option<CovNotification>,
        source: SocketAddress,
        route: Option<NetworkAddress>,
    ) -> (actions: Vec<Action>)
        requires
            self.wf(),
        ensures
            conduct::actions_view(actions@) == (if segmented {
                Seq::empty()
            } else {
                match notification {
                    Some(notification) => self@.dispatched(notification),
                    None => Seq::empty(),
                }
            }).push(
                ActionView::Send {
                    peer: source,
                    packet: apdu::reply_packet(
                        target::route_view(route),
                        conduct::notification_reply(invoke_id, segmented, notification is Some),
                    ),
                    transaction: None,
                },
            ),
    {
        let (mut actions, reply) = if segmented {
            (
                nothing(),
                Apdu::Abort {
                    server: true,
                    invoke_id,
                    abort_reason: AbortReason::SegmentationNotSupported,
                },
            )
        } else {
            match notification {
                Some(notification) => (
                    self.dispatch_cov_notification(notification),
                    Apdu::SimpleAck {
                        invoke_id,
                        service_choice: ConfirmedServiceChoice::ConfirmedCovNotification.number(),
                    },
                ),
                None => (
                    nothing(),
                    Apdu::Reject { invoke_id, reject_reason: RejectReason::InvalidTag },
                ),
            }
        };
        let packet = build_response_frame(reply, &route);
        add_action(&mut actions, Action::Send { peer: source, packet, transaction: None });
        actions
    }

    /// When something is due next.
    pub fn next_deadline(&self) -> (deadline: Option<u64>)
        requires
            self.wf(),
        ensures
            match deadline {
                Some(deadline) => {
                    &&& self@.has_deadline(deadline)
                    &&& forall|other: u64| #[trigger]
                        self@.has_deadline(other) ==> deadline <= other
                },
                None => forall|other: u64| !#[trigger] self@.has_deadline(other),
            },
    {
        let mut earliest: Option<u64> = None;
        let keys = self.pending.keys();
        let mut i: usize = 0;
        while i < keys.len()
            invariant
                i <= keys.len(),
                self.wf(),
                table::lists(keys@, self.pending@),
                earliest matches Some(deadline) ==> exists|j: int|
                    0 <= j < i && self@.pending[#[trigger] keys@[j]].deadline == deadline,
                forall|j: int|
                    0 <= j < i ==> is_by(earliest, self@.pending[#[trigger] keys@[j]].deadline),
            decreases keys.len() - i,
        {
            proof {
                assert(keys@.contains(keys@[i as int]));
                assert(self.pending@.dom().contains(keys@[i as int]));
                assert(self@.pending.dom().contains(keys@[i as int]));
            }
            match self.pending.get(keys[i]) {
                Some(pending) => {
                    earliest = Some(sooner(earliest, pending.deadline));
                },
                None => {},
            }
            i += 1;
        }
        let ghost of_pending = earliest;
        earliest = sooner_of(earliest, &self.device_discoveries);
        let ghost of_devices = earliest;
        earliest = sooner_of(earliest, &self.router_discoveries);
        proof {
            assert(self@.devices == self.device_discoveries@);
            assert(self@.routers == self.router_discoveries@);
            if let Some(deadline) = earliest {
                if exists|i: int|
                    0 <= i < self@.routers.len() && (#[trigger] self@.routers[i]).deadline
                        == deadline {
                } else if exists|i: int|
                    0 <= i < self@.devices.len() && (#[trigger] self@.devices[i]).deadline
                        == deadline {
                } else {
                    assert(of_pending == Some(deadline));
                    let j = choose|j: int|
                        0 <= j < keys@.len() && self@.pending[#[trigger] keys@[j]].deadline
                            == deadline;
                    assert(keys@.contains(keys@[j]));
                    assert(self.pending@.dom().contains(keys@[j]));
                    assert(self@.pending.dom().contains(keys@[j]));
                }
                assert(self@.has_deadline(deadline));
            }
            assert forall|other: u64| #[trigger] self@.has_deadline(other) implies is_by(
                earliest,
                other,
            ) by {
                if exists|key: TransactionKey| #[trigger]
                    self@.pending.dom().contains(key) && self@.pending[key].deadline == other {
                    let key = choose|key: TransactionKey| #[trigger]
                        self@.pending.dom().contains(key) && self@.pending[key].deadline == other;
                    assert(self.pending@.dom().contains(key));
                    assert(keys@.contains(key));
                    let j = keys@.index_of(key);
                    assert(keys@[j] == key);
                }
            }
        }
        earliest
    }

    /// Tell everybody who waits that the endpoint stopped.
    ///
    /// `failure` is what the system said of the socket, where that is why.
    pub fn fail_all(&mut self, failure: Option<&str>) -> (actions: Vec<Action>)
        requires
            old(self).wf(),
        ensures
            final(self).wf(),
            final(self)@ == (EndpointView {
                pending: Map::empty(),
                devices: Seq::empty(),
                routers: Seq::empty(),
                ..old(self)@
            }),
            exists|order: Seq<TransactionKey>|
                #![trigger table::lists(order, old(self)@.pending)]
                table::lists(order, old(self)@.pending) && conduct::actions_view(actions@)
                    == old(self)@.failures(order, conduct::stopped_by(failure)),
    {
        let ghost start = self@;
        let keys = self.pending.keys();
        let mut actions = nothing();
        let mut i: usize = 0;
        proof {
            assert(table::lists(keys@, start.pending)) by {
                assert forall|key: TransactionKey| #[trigger]
                    keys@.contains(key) == start.pending.dom().contains(key) by {
                    assert(keys@.contains(key) == self.pending@.dom().contains(key));
                }
            }
            assert(conduct::actions_view(actions@) =~= keys@.take(0).map_values(
                |key: TransactionKey| start.failure(key, conduct::stopped_by(failure)),
            ));
        }
        while i < keys.len()
            invariant
                i <= keys.len(),
                self.wf(),
                self@ == start,
                table::lists(keys@, start.pending),
                conduct::actions_view(actions@) == keys@.take(i as int).map_values(
                    |key: TransactionKey| start.failure(key, conduct::stopped_by(failure)),
                ),
            decreases keys.len() - i,
        {
            let ghost earlier = conduct::actions_view(actions@);
            proof {
                assert(keys@.contains(keys@[i as int]));
                assert(self@.pending.dom().contains(keys@[i as int]));
            }
            match self.pending.get(keys[i]) {
                Some(pending) => {
                    add_action(
                        &mut actions,
                        Action::Answer {
                            response: pending.response,
                            result: Err(failure_error(failure)),
                        },
                    );
                },
                None => {},
            }
            proof {
                assert(keys@.take(i + 1).map_values(
                    |key: TransactionKey| start.failure(key, conduct::stopped_by(failure)),
                ) =~= earlier.push(start.failure(keys@[i as int], conduct::stopped_by(failure))));
            }
            i += 1;
        }
        let more = fail_collectors(&self.device_discoveries, failure);
        add_actions(&mut actions, more);
        let more = fail_collectors(&self.router_discoveries, failure);
        add_actions(&mut actions, more);
        self.pending = Table::new();
        self.device_discoveries = Vec::new();
        self.router_discoveries = Vec::new();
        proof {
            assert(keys@.take(keys@.len() as int) =~= keys@);
            assert(self@.pending =~= Map::<TransactionKey, PendingView>::empty());
        }
        actions
    }
}

/// Whether books are in order rests on the tables alone.
proof fn lemma_books(before: Endpoint, after: Endpoint)
    requires
        before.wf(),
        after.pending == before.pending,
        after.quarantined.wf(),
        after.cov_subscribers.wf(),
    ensures
        after.wf(),
{
    assert(after@.pending == before@.pending);
    assert forall|key: TransactionKey| #[trigger] after@.pending.dom().contains(
        key,
    ) implies after@.pending[key].wf() by {
        assert(before@.pending.dom().contains(key));
    }
}

proof fn lemma_push_contains(keys: Seq<TransactionKey>, key: TransactionKey, other: TransactionKey)
    ensures
        keys.push(key).contains(other) == (keys.contains(other) || other == key),
{
    let longer = keys.push(key);
    if keys.contains(other) {
        let place = keys.index_of(other);
        assert(longer[place] == other);
    }
    if other == key {
        assert(longer[keys.len() as int] == other);
    }
    if longer.contains(other) {
        let place = longer.index_of(other);
        if place < keys.len() {
            assert(keys[place] == other);
        }
    }
}

fn sooner(earliest: Option<u64>, deadline: u64) -> (sooner: u64)
    ensures
        sooner == match earliest {
            Some(earliest) => if earliest <= deadline {
                earliest
            } else {
                deadline
            },
            None => deadline,
        },
{
    match earliest {
        Some(earliest) => if earliest <= deadline {
            earliest
        } else {
            deadline
        },
        None => deadline,
    }
}

spec fn is_by(earliest: Option<u64>, deadline: u64) -> bool {
    earliest matches Some(earliest) && earliest <= deadline
}

fn sooner_of(earliest: Option<u64>, discoveries: &Vec<ActiveDiscovery>) -> (sooner_still: Option<
    u64,
>)
    ensures
        earliest matches Some(before) ==> sooner_still matches Some(deadline) && deadline <= before,
        sooner_still matches Some(deadline) ==> earliest == Some(deadline) || (exists|i: int|
            0 <= i < discoveries@.len() && (#[trigger] discoveries@[i]).deadline == deadline),
        forall|i: int|
            0 <= i < discoveries@.len() ==> is_by(
                sooner_still,
                (#[trigger] discoveries@[i]).deadline,
            ),
{
    let mut found = earliest;
    let mut i: usize = 0;
    while i < discoveries.len()
        invariant
            i <= discoveries.len(),
            earliest matches Some(before) ==> found matches Some(deadline) && deadline <= before,
            found matches Some(deadline) ==> earliest == Some(deadline) || (exists|j: int|
                0 <= j < i && (#[trigger] discoveries@[j]).deadline == deadline),
            forall|j: int|
                0 <= j < i ==> is_by(found, (#[trigger] discoveries@[j]).deadline),
        decreases discoveries.len() - i,
    {
        let ghost before = found;
        found = Some(sooner(found, discoveries[i].deadline));
        i += 1;
        proof {
            assert forall|j: int| 0 <= j < i implies is_by(
                found,
                (#[trigger] discoveries@[j]).deadline,
            ) by {
                if j < i - 1 {
                    assert(is_by(before, discoveries@[j].deadline));
                }
            }
        }
    }
    found
}

fn failure_error(failure: Option<&str>) -> (error: ClientError)
    ensures
        error@ == conduct::stopped_by(failure),
{
    match failure {
        Some(text) => ClientError::Io(text.to_owned()),
        None => ClientError::EndpointClosed,
    }
}

fn fail_collectors(discoveries: &Vec<ActiveDiscovery>, failure: Option<&str>) -> (actions: Vec<
    Action,
>)
    ensures
        conduct::actions_view(actions@) == conduct::collector_failures(discoveries@, conduct::stopped_by(failure)),
{
    let mut actions = nothing();
    let mut i: usize = 0;
    proof {
        assert(conduct::actions_view(actions@) =~= conduct::collector_failures(
            discoveries@.take(0),
            conduct::stopped_by(failure),
        ));
    }
    while i < discoveries.len()
        invariant
            i <= discoveries.len(),
            conduct::actions_view(actions@) == conduct::collector_failures(
                discoveries@.take(i as int),
                conduct::stopped_by(failure),
            ),
        decreases discoveries.len() - i,
    {
        let ghost earlier = conduct::actions_view(actions@);
        add_action(
            &mut actions,
            Action::Fail { sink: discoveries[i].sink, error: failure_error(failure) },
        );
        proof {
            assert(conduct::collector_failures(discoveries@.take(i + 1), conduct::stopped_by(failure))
                =~= earlier.push(
                ActionView::Fail {
                    sink: discoveries@[i as int].sink,
                    error: conduct::stopped_by(failure),
                },
            ));
        }
        i += 1;
    }
    proof {
        assert(discoveries@.take(discoveries@.len() as int) =~= discoveries@);
    }
    actions
}

} // verus!
