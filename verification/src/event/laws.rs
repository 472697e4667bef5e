//! What the event engine can be relied on for: when a condition becomes a transition,
//! what is said of it, and to whom.

use crate::event::engine;
use crate::event::engine::{Pending, SentView};
use crate::event::notification::{NotificationParameters, PropertyStates, StatusFlags};
use crate::object::base::BacnetObject;
use crate::object::database;
use crate::object::database::DatabaseView;
use crate::object::hostable::Hostable;
use crate::object::identifier::{ObjectIdentifier, ObjectType, PropertyIdentifier};
use crate::object::intrinsic::{
    AlarmEvaluation, AlarmTrigger, EventTransitionBits, IntrinsicReporting,
};
use crate::object::notification_class;
use crate::object::notification_class::NotificationClass;
use crate::object::state::EventState;
use crate::property::value::{DestinationView, PropertyValueView, TimestampValue};
use vstd::prelude::*;

verus! {

/// The place of the transition into a state among the three: off-normal, fault, normal.
/// Both limits are off-normal.
pub open spec fn transition_place(state: EventState) -> int {
    if state is Normal {
        2
    } else if state is Fault {
        1
    } else {
        0
    }
}

/// One of three bits.
pub open spec fn transition_bit(bits: EventTransitionBits, place: int) -> bool {
    if place == 0 {
        bits.to_offnormal
    } else if place == 1 {
        bits.to_fault
    } else {
        bits.to_normal
    }
}

/// The state an object says it is in.
pub open spec fn shown_state<T: BacnetObject>(object: T) -> EventState {
    match object.reading(PropertyIdentifier::EventState) {
        Ok(PropertyValueView::Enumerated(raw)) => EventState::of(raw as u16),
        _ => EventState::Normal,
    }
}

/// The seconds a condition must hold before a state is entered: the return to normal has
/// a delay of its own, where one is set.
pub open spec fn delay_into(reporting: IntrinsicReporting, state: EventState) -> u32 {
    match reporting.time_delay_normal {
        Some(delay) if state is Normal => delay,
        _ => reporting.time_delay,
    }
}

/// Since when a condition has been seen to hold: from the moment it was first seen, and
/// from now where something else was seen last.
pub open spec fn seen_since(
    pending: Map<ObjectIdentifier, Pending>,
    identifier: ObjectIdentifier,
    state: EventState,
    now: u64,
) -> u64 {
    if pending.dom().contains(identifier) && pending[identifier].target == state {
        pending[identifier].since
    } else {
        now
    }
}

/// The notification class that an object's reporting names, where it is hosted.
pub open spec fn named_class<T: Hostable>(
    database: DatabaseView<T>,
    reporting: IntrinsicReporting,
) -> Option<NotificationClass> {
    let identifier = ObjectIdentifier {
        object_type: ObjectType::NotificationClass,
        instance: reporting.notification_class,
    };
    if database.has(identifier) {
        database.object(identifier).as_notification_class()
    } else {
        None
    }
}

/// Whether a recipient asked for the transition at a place.
pub open spec fn asked_for(destination: DestinationView, place: int) -> bool {
    place < destination.transitions.len() && destination.transitions[place]
}

/// What a notification says of what the algorithm saw, and of the state the object is in
/// now.
pub open spec fn tells_of(
    parameters: NotificationParameters,
    trigger: AlarmTrigger,
    state: EventState,
    out_of_service: bool,
) -> bool {
    let flags = StatusFlags {
        in_alarm: !(state is Normal),
        fault: state is Fault,
        overridden: false,
        out_of_service,
    };
    match trigger {
        AlarmTrigger::MultistateChange { new_state } => parameters == (
        NotificationParameters::ChangeOfState {
            new_state: PropertyStates::UnsignedValue(new_state),
            status_flags: flags,
        }),
        AlarmTrigger::BinaryChange { active } => parameters == (
        NotificationParameters::ChangeOfState {
            new_state: PropertyStates::BinaryValue(active),
            status_flags: flags,
        }),
        AlarmTrigger::OutOfRange { exceeding_value, exceeded_limit, deadband } => parameters == (
        NotificationParameters::OutOfRange {
            exceeding_value,
            status_flags: flags,
            deadband,
            exceeded_limit,
        }),
        AlarmTrigger::ReliabilityChange { reliability } => parameters == (
        NotificationParameters::ChangeOfReliability { reliability, status_flags: flags }),
    }
}

/// What evaluating an object comes to.
///
/// In the state its algorithm demands, nothing happens. Otherwise the condition must have
/// been seen for the whole delay; until then it is only remembered since when. Then the
/// object enters the state, the moment is stamped for that transition, and where the
/// transition is enabled everybody who asked the object's class for it is told, under
/// the process they registered, with the urgency that the class gives it. An
/// acknowledgement is outstanding where the class wants one and somebody was told.
pub proof fn law_conditions_become_transitions<T: Hostable>(
    device: ObjectIdentifier,
    database: DatabaseView<T>,
    pending: Map<ObjectIdentifier, Pending>,
    identifier: ObjectIdentifier,
    now: u64,
    timestamp: TimestampValue,
    evaluation: AlarmEvaluation,
    reporting: IntrinsicReporting,
)
    requires
        database.wf(),
        database.has(identifier),
        database.object(identifier).evaluation() == Some(evaluation),
        database.object(identifier).reporting() == Some(reporting),
    ensures
        ({
            let object = database.object(identifier);
            let state = evaluation.desired_state;
            let place = transition_place(state);
            let step = engine::evaluated(device, database, pending, identifier, now, timestamp);
            let since = seen_since(pending, identifier, state, now);
            let waited = delay_into(reporting, state) == 0 || (since <= now && now - since
                >= delay_into(reporting, state));
            let class = named_class(database, reporting);
            let enabled = reporting.event_detection_enable && transition_bit(
                reporting.event_enable,
                place,
            );
            if state == shown_state(object) {
                &&& step.database == database
                &&& step.sent.len() == 0
                &&& !step.pending.dom().contains(identifier)
            } else if !waited {
                &&& step.database == database
                &&& step.sent.len() == 0
                &&& step.pending.dom().contains(identifier)
                &&& step.pending[identifier] == (Pending { target: state, since })
            } else {
                let after = step.database.object(identifier);
                &&& !step.pending.dom().contains(identifier)
                &&& step.database.has(identifier)
                &&& after.reporting() is Some
                &&& {
                    let kept = after.reporting()->Some_0;
                    let told = step.sent;
                    &&& after == object.entered(state).with_reporting(kept)
                    &&& kept.event_time_stamps@ == reporting.event_time_stamps@.update(
                        place,
                        timestamp,
                    )
                    &&& kept == (IntrinsicReporting {
                        event_time_stamps: kept.event_time_stamps,
                        acked_transitions: kept.acked_transitions,
                        ..reporting
                    })
                    &&& forall|other: int|
                        0 <= other < 3 ==> #[trigger] transition_bit(kept.acked_transitions, other)
                            == (transition_bit(reporting.acked_transitions, other) && !(other
                            == place && told.len() > 0 && transition_bit(
                            class->Some_0.ack_required,
                            place,
                        )))
                    &&& !enabled || class is None ==> told.len() == 0
                    &&& enabled && class is Some ==> told.map_values(
                        |sent: SentView| sent.destination,
                    ) == notification_class::destinations(class->Some_0.recipient_list@).filter(
                        |destination: DestinationView| asked_for(destination, place),
                    )
                    &&& forall|i: int|
                        0 <= i < told.len() ==> {
                            let said = (#[trigger] told[i]).notification;
                            &&& said.process_identifier == told[i].destination.process_identifier
                            &&& said.initiating_device == device
                            &&& said.event_object == identifier
                            &&& said.timestamp == timestamp
                            &&& said.notification_class == reporting.notification_class
                            &&& said.priority == class->Some_0.priority@[place]
                            &&& said.notify_type == reporting.notify_type
                            &&& said.ack_required == transition_bit(
                                class->Some_0.ack_required,
                                place,
                            )
                            &&& said.from_state == shown_state(object)
                            &&& said.to_state == state
                            &&& said.message_text is None
                            &&& tells_of(
                                said.parameters,
                                evaluation.trigger,
                                state,
                                object.decoupled(),
                            )
                        }
                }
            }
        }),
{
    let object = database.object(identifier);
    let state = evaluation.desired_state;
    let place = transition_place(state);
    let step = engine::evaluated(device, database, pending, identifier, now, timestamp);
    let since = seen_since(pending, identifier, state, now);
    let waited = delay_into(reporting, state) == 0 || (since <= now && now - since >= delay_into(
        reporting,
        state,
    ));
    if state != shown_state(object) && waited {
        let class = named_class(database, reporting);
        assert(object.identity() == identifier) by {
            assert(database.is_at(database.place_of(identifier), identifier));
        }
        let recipients = match class {
            Some(class) => notification_class::destinations(class.recipient_list@).filter(
                |destination: DestinationView| asked_for(destination, place),
            ),
            None => Seq::empty(),
        };
        if let Some(class) = class {
            let one = |destination: DestinationView|
                notification_class::is_subscribed(destination, place);
            let other = |destination: DestinationView| asked_for(destination, place);
            assert(one =~= other);
        }
        let stamped = reporting.stamped(state, timestamp);
        let enabled = reporting.event_detection_enable && transition_bit(
            reporting.event_enable,
            place,
        );
        let kept = if class is Some && transition_bit(class->Some_0.ack_required, place) && enabled
            && recipients.len() > 0 {
            stamped.awaiting(state)
        } else {
            stamped
        };
        object.law_events_keep_identity(state, kept);
        object.entered(state).law_events_keep_identity(state, kept);
        database::lemma_object_replaced(
            database,
            identifier,
            object.entered(state).with_reporting(kept),
        );
        assert(step.database == database.with_object(
            identifier,
            object.entered(state).with_reporting(kept),
        ));
        if enabled && class is Some {
            assert(step.sent.map_values(|sent: SentView| sent.destination) =~= recipients);
        }
    }
}

/// Evaluating one object leaves every other as it is, and what is remembered of it.
proof fn lemma_others_stay<T: Hostable>(
    device: ObjectIdentifier,
    database: DatabaseView<T>,
    pending: Map<ObjectIdentifier, Pending>,
    identifier: ObjectIdentifier,
    now: u64,
    timestamp: TimestampValue,
    other: ObjectIdentifier,
)
    requires
        database.wf(),
        other != identifier,
    ensures
        ({
            let step = engine::evaluated(device, database, pending, identifier, now, timestamp);
            &&& step.database.wf()
            &&& step.database.has(other) == database.has(other)
            &&& database.has(other) ==> step.database.object(other) == database.object(other)
            &&& step.pending.dom().contains(other) == pending.dom().contains(other)
            &&& pending.dom().contains(other) ==> step.pending[other] == pending[other]
        }),
{
    if database.has(identifier) {
        let object = database.object(identifier);
        assert(object.identity() == identifier) by {
            assert(database.is_at(database.place_of(identifier), identifier));
        }
        if let (Some(evaluation), Some(reporting)) = (object.evaluation(), object.reporting()) {
            let state = evaluation.desired_state;
            assert forall|kept: IntrinsicReporting|
                #![trigger object.entered(state).with_reporting(kept)]
                database.with_object(identifier, object.entered(state).with_reporting(kept)).wf()
                    && database.with_object(
                    identifier,
                    object.entered(state).with_reporting(kept),
                ).has(other) == database.has(other) && (database.has(other) ==> database.with_object(
                    identifier,
                    object.entered(state).with_reporting(kept),
                ).object(other) == database.object(other)) by {
                object.law_events_keep_identity(state, kept);
                object.entered(state).law_events_keep_identity(state, kept);
                database::lemma_object_replaced(
                    database,
                    identifier,
                    object.entered(state).with_reporting(kept),
                );
            }
        }
    }
}

proof fn lemma_same_stays_wf<T: Hostable>(
    device: ObjectIdentifier,
    database: DatabaseView<T>,
    pending: Map<ObjectIdentifier, Pending>,
    identifiers: Seq<ObjectIdentifier>,
    now: u64,
    timestamp: TimestampValue,
    identifier: ObjectIdentifier,
)
    requires
        database.wf(),
        !identifiers.contains(identifier),
    ensures
        ({
            let step = engine::evaluated_all(
                device,
                database,
                pending,
                identifiers,
                now,
                timestamp,
            );
            &&& step.database.wf()
            &&& step.database.has(identifier) == database.has(identifier)
            &&& database.has(identifier) ==> step.database.object(identifier) == database.object(
                identifier,
            )
            &&& step.pending.dom().contains(identifier) == pending.dom().contains(identifier)
            &&& pending.dom().contains(identifier) ==> step.pending[identifier]
                == pending[identifier]
        }),
    decreases identifiers.len(),
{
    if identifiers.len() > 0 {
        let shorter = identifiers.drop_last();
        assert(!shorter.contains(identifier)) by {
            if shorter.contains(identifier) {
                assert(identifiers[shorter.index_of(identifier)] == identifier);
            }
        }
        assert(identifiers[identifiers.len() - 1] == identifiers.last());
        assert(identifiers.last() != identifier);
        lemma_same_stays_wf(device, database, pending, shorter, now, timestamp, identifier);
        let before = engine::evaluated_all(device, database, pending, shorter, now, timestamp);
        lemma_others_stay(
            device,
            before.database,
            before.pending,
            identifiers.last(),
            now,
            timestamp,
            identifier,
        );
    }
}

/// A tick evaluates every object that is listed, each as it was before the tick: what
/// evaluating it tells is among what the tick tells, and what it leaves of the object is
/// what the tick leaves of it.
pub proof fn law_a_tick_evaluates_every_object<T: Hostable>(
    device: ObjectIdentifier,
    database: DatabaseView<T>,
    pending: Map<ObjectIdentifier, Pending>,
    identifiers: Seq<ObjectIdentifier>,
    now: u64,
    timestamp: TimestampValue,
    identifier: ObjectIdentifier,
)
    requires
        database.wf(),
        identifiers.no_duplicates(),
        identifiers.contains(identifier),
        database.has(identifier),
    ensures
        exists|between: DatabaseView<T>, waiting: Map<ObjectIdentifier, Pending>|
            #![trigger engine::evaluated(device, between, waiting, identifier, now, timestamp)]
            {
                let step = engine::evaluated(device, between, waiting, identifier, now, timestamp);
                let whole = engine::evaluated_all(
                    device,
                    database,
                    pending,
                    identifiers,
                    now,
                    timestamp,
                );
                &&& between.wf()
                &&& between.has(identifier)
                &&& between.object(identifier) == database.object(identifier)
                &&& waiting.dom().contains(identifier) == pending.dom().contains(identifier)
                &&& pending.dom().contains(identifier) ==> waiting[identifier]
                    == pending[identifier]
                &&& whole.database.object(identifier) == step.database.object(identifier)
                &&& whole.pending.dom().contains(identifier) == step.pending.dom().contains(
                    identifier,
                )
                &&& forall|i: int|
                    0 <= i < step.sent.len() ==> whole.sent.contains(#[trigger] step.sent[i])
            },
    decreases identifiers.len(),
{
    let shorter = identifiers.drop_last();
    let last = identifiers.last();
    let before = engine::evaluated_all(device, database, pending, shorter, now, timestamp);
    let whole = engine::evaluated_all(device, database, pending, identifiers, now, timestamp);
    let final_step = engine::evaluated(
        device,
        before.database,
        before.pending,
        last,
        now,
        timestamp,
    );
    assert(whole.sent == before.sent + final_step.sent);
    assert(!shorter.contains(last)) by {
        if shorter.contains(last) {
            assert(identifiers[shorter.index_of(last)] == identifiers[identifiers.len() - 1]);
        }
    }
    if identifier == last {
        lemma_same_stays_wf(device, database, pending, shorter, now, timestamp, identifier);
        assert forall|i: int| 0 <= i < final_step.sent.len() implies whole.sent.contains(
            #[trigger] final_step.sent[i],
        ) by {
            assert(whole.sent[before.sent.len() + i] == final_step.sent[i]);
        }
    } else {
        let k = identifiers.index_of(identifier);
        assert(shorter[k] == identifier);
        assert forall|i: int, j: int|
            0 <= i < shorter.len() && 0 <= j < shorter.len() && i != j implies shorter[i]
            != shorter[j] by {
            assert(identifiers[i] != identifiers[j]);
        }
        law_a_tick_evaluates_every_object(
            device,
            database,
            pending,
            shorter,
            now,
            timestamp,
            identifier,
        );
        lemma_same_stays_wf(device, database, pending, shorter, now, timestamp, last);
        let (between, waiting) = choose|
            between: DatabaseView<T>,
            waiting: Map<ObjectIdentifier, Pending>,
        |
            #![trigger engine::evaluated(device, between, waiting, identifier, now, timestamp)]
            {
                let step = engine::evaluated(device, between, waiting, identifier, now, timestamp);
                &&& between.wf()
                &&& between.has(identifier)
                &&& between.object(identifier) == database.object(identifier)
                &&& waiting.dom().contains(identifier) == pending.dom().contains(identifier)
                &&& pending.dom().contains(identifier) ==> waiting[identifier]
                    == pending[identifier]
                &&& before.database.object(identifier) == step.database.object(identifier)
                &&& before.pending.dom().contains(identifier) == step.pending.dom().contains(
                    identifier,
                )
                &&& forall|i: int|
                    0 <= i < step.sent.len() ==> before.sent.contains(#[trigger] step.sent[i])
            };
        let step = engine::evaluated(device, between, waiting, identifier, now, timestamp);
        lemma_has_after(device, database, pending, shorter, now, timestamp, identifier);
        lemma_others_stay(
            device,
            before.database,
            before.pending,
            last,
            now,
            timestamp,
            identifier,
        );
        assert forall|i: int| 0 <= i < step.sent.len() implies whole.sent.contains(
            #[trigger] step.sent[i],
        ) by {
            assert(before.sent.contains(step.sent[i]));
            let at = before.sent.index_of(step.sent[i]);
            assert(whole.sent[at] == step.sent[i]);
        }
    }
}

proof fn lemma_has_after<T: Hostable>(
    device: ObjectIdentifier,
    database: DatabaseView<T>,
    pending: Map<ObjectIdentifier, Pending>,
    identifiers: Seq<ObjectIdentifier>,
    now: u64,
    timestamp: TimestampValue,
    identifier: ObjectIdentifier,
)
    requires
        database.wf(),
        database.has(identifier),
    ensures
        engine::evaluated_all(
            device,
            database,
            pending,
            identifiers,
            now,
            timestamp,
        ).database.wf(),
        engine::evaluated_all(
            device,
            database,
            pending,
            identifiers,
            now,
            timestamp,
        ).database.has(identifier),
    decreases identifiers.len(),
{
    if identifiers.len() > 0 {
        let shorter = identifiers.drop_last();
        lemma_has_after(device, database, pending, shorter, now, timestamp, identifier);
        let before = engine::evaluated_all(device, database, pending, shorter, now, timestamp);
        let last = identifiers.last();
        if last != identifier {
            lemma_others_stay(
                device,
                before.database,
                before.pending,
                last,
                now,
                timestamp,
                identifier,
            );
        } else {
            let object = before.database.object(last);
            assert(object.identity() == last) by {
                assert(before.database.is_at(before.database.place_of(last), last));
            }
            if let (Some(evaluation), Some(reporting)) = (object.evaluation(), object.reporting()) {
                let state = evaluation.desired_state;
                assert forall|kept: IntrinsicReporting|
                    #![trigger object.entered(state).with_reporting(kept)]
                    before.database.with_object(
                        last,
                        object.entered(state).with_reporting(kept),
                    ).wf() && before.database.with_object(
                        last,
                        object.entered(state).with_reporting(kept),
                    ).has(last) by {
                    object.law_events_keep_identity(state, kept);
                    object.entered(state).law_events_keep_identity(state, kept);
                    database::lemma_object_replaced(
                        before.database,
                        last,
                        object.entered(state).with_reporting(kept),
                    );
                }
            }
        }
    }
}

} // verus!
