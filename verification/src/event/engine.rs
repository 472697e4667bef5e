//! The intrinsic reporting engine.
//!
//! Objects decide what their event algorithm currently demands; this module decides
//! when that becomes a transition and turns it into an [`EventNotification`].
//!
//! A transition only commits once the condition has held for the object's
//! `Time_Delay` (or `Time_Delay_Normal` returning to normal). Without that dwell, a
//! value sitting on a limit would emit a notification per tick.
//!
//! The engine takes time as an argument rather than reading a clock, so dwell
//! behaviour is testable and the caller keeps control of its time source.

use crate::event::notification;
use crate::event::notification::{parameters_for, EventNotification, StatusFlags};
use crate::object::base::BacnetObject;
use crate::object::database;
use crate::object::database::{DatabaseView, ObjectDatabase};
use crate::object::hostable::Hostable;
use crate::object::identifier::{ObjectIdentifier, ObjectType, PropertyIdentifier};
use crate::object::intrinsic::{AlarmEvaluation, EventTransition, IntrinsicReporting};
use crate::object::notification_class;
use crate::object::notification_class::{NotificationClassView, DEFAULT_PRIORITY};
use crate::object::state;
use crate::object::state::EventState;
use crate::property::value::{
    DestinationValue, DestinationView, PropertyValue, PropertyValueView, TimestampValue,
};
use crate::table::Table;
use vstd::prelude::*;

verus! {

/// A notification together with the `Recipient_List` entry it belongs to.
///
/// The engine resolves which recipients want a transition and what process
/// identifier each expects; turning the recipient into a network address is the
/// caller's job, since only it owns a socket.
#[derive(Debug, Clone, PartialEq)]
pub struct AddressedNotification {
    /// The notification to send, with this recipient's process identifier.
    pub notification: EventNotification,
    /// The Recipient_List entry that asked for it.
    pub destination: DestinationValue,
}

/// A transition whose condition is waiting out its dwell time.
#[derive(Debug, Clone, Copy, PartialEq, Eq, Structural)]
pub struct Pending {
    /// The state the algorithm wants to move to.
    pub target: EventState,
    /// Engine time, in seconds, when the condition first held.
    pub since: u64,
}

/// What is sent: a notification, and what the recipient registered.
pub struct SentView {
    pub notification: EventNotification,
    pub destination: DestinationView,
}

/// What notifications are sent.
pub open spec fn sent(notifications: Seq<AddressedNotification>) -> Seq<SentView> {
    notifications.map_values(
        |item: AddressedNotification|
            SentView { notification: item.notification, destination: item.destination@ },
    )
}

/// What a step of the engine leaves.
pub struct StepView<T> {
    pub database: DatabaseView<T>,
    pub pending: Map<ObjectIdentifier, Pending>,
    pub sent: Seq<SentView>,
}

/// The event state an object reports.
pub open spec fn reported_state<T: Hostable>(object: T) -> EventState {
    match object.reading(PropertyIdentifier::EventState) {
        Ok(PropertyValueView::Enumerated(raw)) => EventState::of(raw as u16),
        _ => EventState::Normal,
    }
}

/// The identity of a notification class.
pub open spec fn class_identity(instance: u32) -> ObjectIdentifier {
    ObjectIdentifier { object_type: ObjectType::NotificationClass, instance }
}

/// The notification class of an instance number, where it is hosted.
pub open spec fn class_of<T: Hostable>(database: DatabaseView<T>, instance: u32) -> Option<
    NotificationClassView,
> {
    if database.has(class_identity(instance)) {
        match database.object(class_identity(instance)).as_notification_class() {
            Some(class) => Some(class@),
            None => None,
        }
    } else {
        None
    }
}

/// How urgent a transition is. Without its notification class it has the lowest
/// priority, which keeps a misconfigured object reporting rather than silent.
pub open spec fn class_priority<T: Hostable>(
    database: DatabaseView<T>,
    instance: u32,
    transition: EventTransition,
) -> u32 {
    match class_of(database, instance) {
        Some(class) => class.priority[transition.place()],
        None => DEFAULT_PRIORITY,
    }
}

/// Whether a transition must be acknowledged.
pub open spec fn class_wants_ack<T: Hostable>(
    database: DatabaseView<T>,
    instance: u32,
    transition: EventTransition,
) -> bool {
    match class_of(database, instance) {
        Some(class) => class.ack_required.bits()[transition.place()],
        None => false,
    }
}

/// Who is told of a transition.
pub open spec fn class_recipients<T: Hostable>(
    database: DatabaseView<T>,
    instance: u32,
    transition: EventTransition,
) -> Seq<DestinationView> {
    match class_of(database, instance) {
        Some(class) => notification_class::subscribed(class.recipient_list, transition.place()),
        None => Seq::<DestinationView>::empty(),
    }
}

/// The dwell that a condition is in: the one under way for this state, or a new one.
pub open spec fn dwelling(
    pending: Map<ObjectIdentifier, Pending>,
    identifier: ObjectIdentifier,
    target: EventState,
    now: u64,
) -> Pending {
    if pending.dom().contains(identifier) && pending[identifier].target == target {
        pending[identifier]
    } else {
        Pending { target, since: now }
    }
}

/// Whether a dwell has lasted so many seconds. A clock that runs backwards has not
/// moved.
pub open spec fn has_dwelt(dwell: Pending, now: u64, seconds: u32) -> bool {
    if now < dwell.since {
        seconds == 0
    } else {
        now - dwell.since >= seconds
    }
}

/// The notification of a transition, before it is addressed.
pub open spec fn transition_notice<T: Hostable>(
    device: ObjectIdentifier,
    database: DatabaseView<T>,
    identifier: ObjectIdentifier,
    object: T,
    evaluation: AlarmEvaluation,
    reporting: IntrinsicReporting,
    timestamp: TimestampValue,
) -> EventNotification {
    let state = evaluation.desired_state;
    let transition = EventTransition::entering(state);
    EventNotification {
        process_identifier: 0,
        initiating_device: device,
        event_object: identifier,
        timestamp,
        notification_class: reporting.notification_class,
        priority: class_priority(database, reporting.notification_class, transition),
        notify_type: reporting.notify_type,
        ack_required: class_wants_ack(database, reporting.notification_class, transition),
        from_state: reported_state(object),
        to_state: state,
        message_text: None,
        parameters: notification::parameters_of(
            evaluation.trigger,
            StatusFlags::of_state(state, object.decoupled()),
        ),
    }
}

/// A notification to each recipient, with the process identifier it registered.
pub open spec fn addressed(
    notice: EventNotification,
    recipients: Seq<DestinationView>,
) -> Seq<SentView> {
    recipients.map_values(
        |destination: DestinationView|
            SentView {
                notification: EventNotification {
                    process_identifier: destination.process_identifier,
                    ..notice
                },
                destination,
            },
    )
}

/// What committing a transition leaves.
///
/// The event state and its timestamp follow the transition whether or not anyone is
/// told. An acknowledgement is outstanding only where a notification goes out.
pub open spec fn committed<T: Hostable>(
    device: ObjectIdentifier,
    database: DatabaseView<T>,
    pending: Map<ObjectIdentifier, Pending>,
    identifier: ObjectIdentifier,
    evaluation: AlarmEvaluation,
    reporting: IntrinsicReporting,
    timestamp: TimestampValue,
) -> StepView<T> {
    let object = database.object(identifier);
    let state = evaluation.desired_state;
    let class = reporting.notification_class;
    let transition = EventTransition::entering(state);
    let recipients = if reporting.reports(state) {
        class_recipients(database, class, transition)
    } else {
        Seq::<DestinationView>::empty()
    };
    let stamped = reporting.stamped(state, timestamp);
    let kept = if class_wants_ack(database, class, transition) && recipients.len() > 0 {
        stamped.awaiting(state)
    } else {
        stamped
    };
    StepView {
        database: database.with_object(identifier, object.entered(state).with_reporting(kept)),
        pending: pending.remove(identifier),
        sent: addressed(
            transition_notice(
                device,
                database,
                identifier,
                object,
                evaluation,
                reporting,
                timestamp,
            ),
            recipients,
        ),
    }
}

/// What evaluating one object leaves: nothing for an object that reports no events,
/// a cleared dwell where the object is in the state its algorithm demands, a dwell
/// under way until it has lasted, and then a transition.
pub open spec fn evaluated<T: Hostable>(
    device: ObjectIdentifier,
    database: DatabaseView<T>,
    pending: Map<ObjectIdentifier, Pending>,
    identifier: ObjectIdentifier,
    now: u64,
    timestamp: TimestampValue,
) -> StepView<T> {
    let none = Seq::<SentView>::empty();
    if !database.has(identifier) {
        StepView { database, pending, sent: none }
    } else {
        let object = database.object(identifier);
        match (object.evaluation(), object.reporting()) {
            (Some(evaluation), Some(reporting)) => {
                let state = evaluation.desired_state;
                let dwell = dwelling(pending, identifier, state, now);
                if state == reported_state(object) {
                    StepView { database, pending: pending.remove(identifier), sent: none }
                } else if !has_dwelt(dwell, now, reporting.dwell(state)) {
                    StepView { database, pending: pending.insert(identifier, dwell), sent: none }
                } else {
                    committed(
                        device,
                        database,
                        pending,
                        identifier,
                        evaluation,
                        reporting,
                        timestamp,
                    )
                }
            },
            _ => StepView { database, pending, sent: none },
        }
    }
}

/// What evaluating objects one after the other leaves.
pub open spec fn evaluated_all<T: Hostable>(
    device: ObjectIdentifier,
    database: DatabaseView<T>,
    pending: Map<ObjectIdentifier, Pending>,
    identifiers: Seq<ObjectIdentifier>,
    now: u64,
    timestamp: TimestampValue,
) -> StepView<T>
    decreases identifiers.len(),
{
    if identifiers.len() == 0 {
        StepView { database, pending, sent: Seq::<SentView>::empty() }
    } else {
        let before = evaluated_all(
            device,
            database,
            pending,
            identifiers.drop_last(),
            now,
            timestamp,
        );
        let last = evaluated(
            device,
            before.database,
            before.pending,
            identifiers.last(),
            now,
            timestamp,
        );
        StepView { sent: before.sent + last.sent, ..last }
    }
}

// ---------------------------------------------------------------------------
// Laws
// ---------------------------------------------------------------------------

/// An object that is in the state its algorithm demands is left alone and nobody is
/// told, however often it is evaluated; a dwell that was under way is forgotten.
pub proof fn law_settled_object_is_silent<T: Hostable>(
    device: ObjectIdentifier,
    database: DatabaseView<T>,
    pending: Map<ObjectIdentifier, Pending>,
    identifier: ObjectIdentifier,
    now: u64,
    timestamp: TimestampValue,
)
    requires
        database.has(identifier),
        database.object(identifier).evaluation() matches Some(evaluation)
            && evaluation.desired_state == reported_state(database.object(identifier)),
        database.object(identifier).reporting() is Some,
    ensures
        evaluated(device, database, pending, identifier, now, timestamp) == (StepView {
            database,
            pending: pending.remove(identifier),
            sent: Seq::<SentView>::empty(),
        }),
{
}

/// No transition commits before its condition has been seen to hold for the whole
/// delay: until then its dwell goes on, or starts where none is under way for that
/// state.
pub proof fn law_transition_waits_out_its_delay<T: Hostable>(
    device: ObjectIdentifier,
    database: DatabaseView<T>,
    pending: Map<ObjectIdentifier, Pending>,
    identifier: ObjectIdentifier,
    now: u64,
    timestamp: TimestampValue,
    evaluation: AlarmEvaluation,
    reporting: IntrinsicReporting,
)
    requires
        database.has(identifier),
        database.object(identifier).evaluation() == Some(evaluation),
        database.object(identifier).reporting() == Some(reporting),
        evaluation.desired_state != reported_state(database.object(identifier)),
        !has_dwelt(
            dwelling(pending, identifier, evaluation.desired_state, now),
            now,
            reporting.dwell(evaluation.desired_state),
        ),
    ensures
        ({
            let step = evaluated(device, database, pending, identifier, now, timestamp);
            &&& step.database == database
            &&& step.sent.len() == 0
            &&& step.pending == pending.insert(
                identifier,
                dwelling(pending, identifier, evaluation.desired_state, now),
            )
        }),
{
}

/// A condition that starts with a delay of its own never commits at once.
pub proof fn law_new_condition_only_starts(target: EventState, now: u64, seconds: u32)
    requires
        seconds > 0,
    ensures
        !has_dwelt(Pending { target, since: now }, now, seconds),
{
}

/// An acknowledgement is outstanding after a transition only where a notification
/// of it went out: a masked transition, or one without recipients, leaves the
/// acknowledgements as they were.
pub proof fn law_unsent_transition_awaits_nothing<T: Hostable>(
    device: ObjectIdentifier,
    database: DatabaseView<T>,
    pending: Map<ObjectIdentifier, Pending>,
    identifier: ObjectIdentifier,
    evaluation: AlarmEvaluation,
    reporting: IntrinsicReporting,
    timestamp: TimestampValue,
)
    requires
        database.wf(),
        database.has(identifier),
        database.object(identifier).reporting() == Some(reporting),
    ensures
        ({
            let step = committed(
                device,
                database,
                pending,
                identifier,
                evaluation,
                reporting,
                timestamp,
            );
            &&& step.database.wf()
            &&& step.database.has(identifier)
            &&& step.database.object(identifier).reporting() matches Some(after) && (
            step.sent.len() == 0 ==> after.acked_transitions == reporting.acked_transitions)
        }),
{
    let object = database.object(identifier);
    let state = evaluation.desired_state;
    let class = reporting.notification_class;
    let transition = EventTransition::entering(state);
    let recipients = if reporting.reports(state) {
        class_recipients(database, class, transition)
    } else {
        Seq::<DestinationView>::empty()
    };
    let stamped = reporting.stamped(state, timestamp);
    let kept = if class_wants_ack(database, class, transition) && recipients.len() > 0 {
        stamped.awaiting(state)
    } else {
        stamped
    };
    object.law_events_keep_identity(state, kept);
    object.entered(state).law_events_keep_identity(state, kept);
    assert(object.identity() == identifier) by {
        assert(database.is_at(database.place_of(identifier), identifier));
    }
    database::lemma_object_replaced(
        database,
        identifier,
        object.entered(state).with_reporting(kept),
    );
}

/// A transition is told once: after it, the object reports the state it entered, and
/// evaluating it again changes nothing and tells nobody, while nothing else changes.
pub proof fn law_a_transition_is_told_once<T: Hostable>(
    device: ObjectIdentifier,
    database: DatabaseView<T>,
    pending: Map<ObjectIdentifier, Pending>,
    identifier: ObjectIdentifier,
    evaluation: AlarmEvaluation,
    reporting: IntrinsicReporting,
    timestamp: TimestampValue,
    later: u64,
    later_stamp: TimestampValue,
)
    requires
        database.wf(),
        database.has(identifier),
        database.object(identifier).evaluation() == Some(evaluation),
        database.object(identifier).reporting() == Some(reporting),
        database.object(identifier).settles(),
    ensures
        ({
            let step = committed(
                device,
                database,
                pending,
                identifier,
                evaluation,
                reporting,
                timestamp,
            );
            &&& reported_state(step.database.object(identifier)) == evaluation.desired_state
            &&& evaluated(
                device,
                step.database,
                step.pending,
                identifier,
                later,
                later_stamp,
            ) == (StepView {
                database: step.database,
                pending: step.pending,
                sent: Seq::<SentView>::empty(),
            })
        }),
{
    let object = database.object(identifier);
    let state = evaluation.desired_state;
    let step = committed(device, database, pending, identifier, evaluation, reporting, timestamp);
    let class = reporting.notification_class;
    let transition = EventTransition::entering(state);
    let recipients = if reporting.reports(state) {
        class_recipients(database, class, transition)
    } else {
        Seq::<DestinationView>::empty()
    };
    let stamped = reporting.stamped(state, timestamp);
    let kept = if class_wants_ack(database, class, transition) && recipients.len() > 0 {
        stamped.awaiting(state)
    } else {
        stamped
    };
    let after = object.entered(state).with_reporting(kept);
    object.law_entering_settles(evaluation, kept);
    object.law_events_keep_identity(state, kept);
    object.entered(state).law_events_keep_identity(state, kept);
    assert(object.identity() == identifier) by {
        assert(database.is_at(database.place_of(identifier), identifier));
    }
    database::lemma_object_replaced(database, identifier, after);
    state::law_event_state_numbers(0, state);
    assert(step.database.object(identifier) == after);
    assert(step.pending.remove(identifier) =~= step.pending);
}

/// Everyone who is told of a transition registered for it, and is told under the
/// process identifier they registered.
pub proof fn law_recipients_get_their_process<T: Hostable>(
    device: ObjectIdentifier,
    database: DatabaseView<T>,
    pending: Map<ObjectIdentifier, Pending>,
    identifier: ObjectIdentifier,
    evaluation: AlarmEvaluation,
    reporting: IntrinsicReporting,
    timestamp: TimestampValue,
    place: int,
)
    requires
        0 <= place < committed(
            device,
            database,
            pending,
            identifier,
            evaluation,
            reporting,
            timestamp,
        ).sent.len(),
    ensures
        ({
            let sent = committed(
                device,
                database,
                pending,
                identifier,
                evaluation,
                reporting,
                timestamp,
            ).sent[place];
            let transition = EventTransition::entering(evaluation.desired_state);
            &&& reporting.reports(evaluation.desired_state)
            &&& class_of(database, reporting.notification_class) matches Some(class)
                && class.recipient_list.contains(sent.destination)
            &&& notification_class::is_subscribed(sent.destination, transition.place())
            &&& sent.notification.process_identifier == sent.destination.process_identifier
        }),
{
    let transition = EventTransition::entering(evaluation.desired_state);
    let recipients = class_recipients(database, reporting.notification_class, transition);
    if let Some(class) = class_of(database, reporting.notification_class) {
        assert(recipients.contains(recipients[place]));
        notification_class::law_only_subscribed_recipients(
            class.recipient_list,
            transition.place(),
            recipients[place],
        );
    }
}

// ---------------------------------------------------------------------------
// The engine
// ---------------------------------------------------------------------------

/// Drives intrinsic reporting across every alarm-capable object in a database.
pub struct EventEngine {
    device: ObjectIdentifier,
    pending: Table<ObjectIdentifier, Pending>,
}

impl EventEngine {
    /// The device that is reported as the initiating one.
    pub closed spec fn initiator(&self) -> ObjectIdentifier {
        self.device
    }

    /// Conditions still waiting out their dwell time.
    pub closed spec fn waiting(&self) -> Map<ObjectIdentifier, Pending> {
        self.pending@
    }

    /// Whether one dwell is kept for an object.
    pub closed spec fn wf(&self) -> bool {
        self.pending.wf()
    }

    /// Create an engine reporting `device_instance` as the initiating device.
    pub fn new(device_instance: u32) -> (engine: EventEngine)
        ensures
            engine.wf(),
            engine.initiator() == (ObjectIdentifier {
                object_type: ObjectType::Device,
                instance: device_instance,
            }),
            engine.waiting() == Map::<ObjectIdentifier, Pending>::empty(),
    {
        EventEngine {
            device: ObjectIdentifier::new(ObjectType::Device, device_instance),
            pending: Table::new(),
        }
    }

    /// Evaluate every alarm-capable object and commit any transition whose dwell
    /// time has elapsed.
    ///
    /// `now_seconds` is a monotonic engine clock used only for dwell arithmetic;
    /// `timestamp` is what goes on the wire. Returns one notification per committed
    /// transition and subscribed recipient.
    pub fn tick<T: Hostable>(
        &mut self,
        database: &mut ObjectDatabase<T>,
        now_seconds: u64,
        timestamp: TimestampValue,
    ) -> (notifications: Vec<AddressedNotification>)
        requires
            old(self).wf(),
            old(database)@.wf(),
        ensures
            final(self).wf(),
            final(database)@.wf(),
            final(self).initiator() == old(self).initiator(),
            ({
                let step = evaluated_all(
                    old(self).initiator(),
                    old(database)@,
                    old(self).waiting(),
                    database::ordered_identities(old(database)@.objects),
                    now_seconds,
                    timestamp,
                );
                &&& final(database)@ == step.database
                &&& final(self).waiting() == step.pending
                &&& sent(notifications@) == step.sent
            }),
    {
        let mut notifications: Vec<AddressedNotification> = Vec::new();
        let identifiers = database.get_all_objects();
        let ghost device = self.device;
        let ghost before = database@;
        let ghost waiting = self.pending@;
        let mut i: usize = 0;
        proof {
            assert(identifiers@.take(0) =~= Seq::<ObjectIdentifier>::empty());
            assert(sent(notifications@) =~= Seq::<SentView>::empty());
        }
        while i < identifiers.len()
            invariant
                i <= identifiers.len(),
                self.wf(),
                database@.wf(),
                self.device == device,
                ({
                    let step = evaluated_all(
                        device,
                        before,
                        waiting,
                        identifiers@.take(i as int),
                        now_seconds,
                        timestamp,
                    );
                    &&& database@ == step.database
                    &&& self.pending@ == step.pending
                    &&& sent(notifications@) == step.sent
                }),
            decreases identifiers.len() - i,
        {
            let identifier = identifiers[i];
            let ghost earlier = notifications@;
            let mut more = self.evaluate_object(database, identifier, now_seconds, timestamp);
            let ghost added = more@;
            notifications.append(&mut more);
            proof {
                let longer = identifiers@.take(i + 1);
                assert(longer.drop_last() =~= identifiers@.take(i as int));
                assert(longer.last() == identifier);
                assert(sent(notifications@) =~= sent(earlier) + sent(added));
            }
            i += 1;
        }
        proof {
            assert(identifiers@.take(identifiers@.len() as int) =~= identifiers@);
        }
        notifications
    }

    /// Evaluate one object, committing a transition if its dwell has elapsed.
    pub fn evaluate_object<T: Hostable>(
        &mut self,
        database: &mut ObjectDatabase<T>,
        identifier: ObjectIdentifier,
        now_seconds: u64,
        timestamp: TimestampValue,
    ) -> (notifications: Vec<AddressedNotification>)
        requires
            old(self).wf(),
            old(database)@.wf(),
        ensures
            final(self).wf(),
            final(database)@.wf(),
            final(self).initiator() == old(self).initiator(),
            ({
                let step = evaluated(
                    old(self).initiator(),
                    old(database)@,
                    old(self).waiting(),
                    identifier,
                    now_seconds,
                    timestamp,
                );
                &&& final(database)@ == step.database
                &&& final(self).waiting() == step.pending
                &&& sent(notifications@) == step.sent
            }),
    {
        let ghost before = database@;
        let ghost waiting = self.pending@;
        proof {
            assert(sent(Seq::<AddressedNotification>::empty()) =~= Seq::<SentView>::empty());
        }
        let (evaluation, reporting, current_state, out_of_service) = match database.object(
            identifier,
        ) {
            None => {
                return Vec::new();
            },
            Some(object) => match (object.evaluate_alarm(), object.intrinsic()) {
                (Some(evaluation), Some(reporting)) => (
                    evaluation,
                    reporting,
                    current_state_of(object),
                    object.is_out_of_service(),
                ),
                _ => {
                    return Vec::new();
                },
            },
        };
        let state = evaluation.desired_state;
        if state == current_state {
            let dropped = self.pending.remove(identifier);
            return Vec::new();
        }
        // Start, or continue, the dwell for this condition.

        let dwell = match self.pending.get(identifier) {
            Some(pending) => if pending.target == state {
                *pending
            } else {
                Pending { target: state, since: now_seconds }
            },
            None => Pending { target: state, since: now_seconds },
        };
        let elapsed: u64 = if now_seconds < dwell.since {
            0
        } else {
            now_seconds - dwell.since
        };
        if elapsed < reporting.dwell_for(state) as u64 {
            self.pending.insert(identifier, dwell);
            return Vec::new();
        }
        let dropped = self.pending.remove(identifier);

        let transition = EventTransition::for_state(state);
        let class = reporting.notification_class;
        let (priority, ack_required) = notification_class_settings(database, class, transition);
        let recipients = if reporting.notifies(state) {
            notification_class_recipients(database, class, transition)
        } else {
            let none: Vec<DestinationValue> = Vec::new();
            proof {
                assert(notification_class::destinations(none@) =~= Seq::<
                    DestinationView,
                >::empty());
            }
            none
        };

        // The event state and the timestamp follow the transition, so they are
        // updated whether or not anyone is told. Only a notification that goes out
        // can leave an acknowledgement outstanding.
        let mut kept = reporting;
        kept.record_transition(state, timestamp);
        if ack_required && recipients.len() > 0 {
            kept.await_acknowledgement(state);
        }
        database.commit_event(identifier, state, kept);

        let parameters = parameters_for(
            evaluation.trigger,
            StatusFlags::for_event_state(state, out_of_service),
        );
        let ghost notice = transition_notice(
            self.device,
            before,
            identifier,
            before.object(identifier),
            evaluation,
            reporting,
            timestamp,
        );
        // One notification per subscribed recipient, each carrying the process
        // identifier that recipient registered with.
        let mut notifications: Vec<AddressedNotification> = Vec::new();
        let mut i: usize = 0;
        while i < recipients.len()
            invariant
                i <= recipients.len(),
                notifications@.len() == i,
                notice == (EventNotification {
                    process_identifier: 0,
                    initiating_device: self.device,
                    event_object: identifier,
                    timestamp,
                    notification_class: class,
                    priority,
                    notify_type: reporting.notify_type,
                    ack_required,
                    from_state: current_state,
                    to_state: state,
                    message_text: None,
                    parameters,
                }),
                forall|j: int|
                    0 <= j < i ==> (#[trigger] notifications@[j]).notification == (
                    EventNotification {
                        process_identifier: recipients@[j]@.process_identifier,
                        ..notice
                    }) && notifications@[j].destination@ == recipients@[j]@,
            decreases recipients.len() - i,
        {
            let destination = recipients[i].clone();
            let notification = EventNotification {
                process_identifier: destination.process_identifier,
                initiating_device: self.device,
                event_object: identifier,
                timestamp,
                notification_class: class,
                priority,
                notify_type: reporting.notify_type,
                ack_required,
                from_state: current_state,
                to_state: state,
                message_text: None,
                parameters,
            };
            notifications.push(AddressedNotification { notification, destination });
            i += 1;
        }
        proof {
            assert(sent(notifications@) =~= addressed(
                notice,
                notification_class::destinations(recipients@),
            ));
        }
        notifications
    }
}

/// The event state an object reports.
fn current_state_of<T: Hostable>(object: &T) -> (state: EventState)
    ensures
        state == reported_state(*object),
{
    match object.get_property(PropertyIdentifier::EventState) {
        Ok(PropertyValue::Enumerated(raw)) => EventState::from_number(raw as u16),
        _ => EventState::Normal,
    }
}

/// The Recipient_List entries of `instance` that subscribe to `transition`.
///
/// The per-entry day and time window is not applied: it needs a wall clock the
/// engine deliberately does not own, and a recipient that registers itself normally
/// asks for every day and the full day.
fn notification_class_recipients<T: Hostable>(
    database: &ObjectDatabase<T>,
    instance: u32,
    transition: EventTransition,
) -> (recipients: Vec<DestinationValue>)
    requires
        database@.wf(),
    ensures
        notification_class::destinations(recipients@) == class_recipients(
            database@,
            instance,
            transition,
        ),
{
    let mut recipients: Vec<DestinationValue> = Vec::new();
    proof {
        assert(notification_class::destinations(recipients@) =~= Seq::<DestinationView>::empty());
    }
    let identifier = ObjectIdentifier::new(ObjectType::NotificationClass, instance);
    let class = match database.object(identifier) {
        Some(object) => object.notification_class(),
        None => None,
    };
    if let Some(class) = class {
        let subscribed = class.recipients_for(transition);
        let mut i: usize = 0;
        while i < subscribed.len()
            invariant
                i <= subscribed.len(),
                recipients@.len() == i,
                forall|j: int|
                    0 <= j < i ==> (#[trigger] recipients@[j])@ == subscribed@[j]@,
            decreases subscribed.len() - i,
        {
            recipients.push(subscribed[i].clone());
            i += 1;
        }
        proof {
            assert(notification_class::destinations(recipients@)
                =~= notification_class::borrowed_destinations(subscribed@));
        }
    }
    recipients
}

/// Look up the priority and acknowledgement policy for `transition`.
///
/// Falls back to the lowest priority and no acknowledgement when the referenced
/// notification class is absent, which keeps a misconfigured object reporting rather
/// than silent.
fn notification_class_settings<T: Hostable>(
    database: &ObjectDatabase<T>,
    instance: u32,
    transition: EventTransition,
) -> (settings: (u32, bool))
    requires
        database@.wf(),
    ensures
        settings.0 == class_priority(database@, instance, transition),
        settings.1 == class_wants_ack(database@, instance, transition),
{
    let identifier = ObjectIdentifier::new(ObjectType::NotificationClass, instance);
    let class = match database.object(identifier) {
        Some(object) => object.notification_class(),
        None => None,
    };
    match class {
        Some(class) => (class.priority_for(transition), class.ack_required_for(transition)),
        None => (DEFAULT_PRIORITY, false),
    }
}

} // verus!
