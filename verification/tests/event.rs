use bacnet_rs::event::{EventEngine, NotificationParameters, PropertyStates, StatusFlags};
use bacnet_rs::number::Real;
use bacnet_rs::object::intrinsic::EventTransitionBits;
use bacnet_rs::object::{
    AnalogValue, BinaryPV, BinaryValue, Device, EventState, HostedObject, MultiStateValue,
    NotificationClass, ObjectDatabase, ObjectIdentifier, ObjectType, PropertyIdentifier,
    Reliability,
};
use bacnet_rs::property::{PropertyValue, Recipient, TimestampValue};

fn number(value: f32) -> Real {
    Real::from_bits(value.to_bits())
}

const NC: u32 = 1;

fn stamp() -> TimestampValue {
    TimestampValue::SequenceNumber(1)
}

/// The recipient a gateway would register itself as.
fn gateway() -> ObjectIdentifier {
    ObjectIdentifier::new(ObjectType::Device, 5785)
}

fn database() -> ObjectDatabase {
    database_with_recipients(true)
}

fn database_with_recipients(registered: bool) -> ObjectDatabase {
    let mut database = ObjectDatabase::new(Device::new(1234, "Test".to_string()));
    let mut class = NotificationClass::new(NC, "NC".to_string())
        .with_priority(90, 10, 200)
        .with_ack_required(EventTransitionBits {
            to_offnormal: false,
            to_fault: true,
            to_normal: false,
        });
    if registered {
        class = class.with_recipient(gateway(), 777);
    }
    database.add_object(HostedObject::NotificationClass(class)).unwrap();
    database
}

#[test]
fn multistate_entering_an_alarm_state_notifies_once() {
    let mut database = database();
    database
        .add_object(HostedObject::MultiStateValue(
            MultiStateValue::new(1, "Mode".to_string(), 5)
                .with_intrinsic_reporting(NC, vec![2, 5]),
        ))
        .unwrap();
    let object = ObjectIdentifier::new(ObjectType::MultiStateValue, 1);
    let mut engine = EventEngine::new(1234);

    // State 1 is not an alarm value.
    assert!(engine.tick(&mut database, 0, stamp()).is_empty());

    database
        .set_property(
            object,
            PropertyIdentifier::PresentValue,
            PropertyValue::Unsigned(5),
        )
        .unwrap();

    let notifications = engine.tick(&mut database, 1, stamp());
    assert_eq!(notifications.len(), 1);
    let notification = &notifications[0].notification;
    assert_eq!(notification.event_object, object);
    assert_eq!(notification.from_state, EventState::Normal);
    assert_eq!(notification.to_state, EventState::Offnormal);
    assert_eq!(notification.priority, 90, "to-offnormal priority");
    assert!(!notification.ack_required);
    assert_eq!(
        notification.parameters,
        NotificationParameters::ChangeOfState {
            new_state: PropertyStates::UnsignedValue(5),
            status_flags: StatusFlags {
                in_alarm: true,
                fault: false,
                overridden: false,
                out_of_service: false,
            },
        }
    );

    // The condition has not changed, so nothing more is reported.
    assert!(engine.tick(&mut database, 2, stamp()).is_empty());
}

#[test]
fn returning_to_normal_notifies_with_the_to_normal_priority() {
    let mut database = database();
    database
        .add_object(HostedObject::MultiStateValue(
            MultiStateValue::new(1, "Mode".to_string(), 5)
                .with_intrinsic_reporting(NC, vec![2]),
        ))
        .unwrap();
    let object = ObjectIdentifier::new(ObjectType::MultiStateValue, 1);
    let mut engine = EventEngine::new(1234);

    database
        .set_property(
            object,
            PropertyIdentifier::PresentValue,
            PropertyValue::Unsigned(2),
        )
        .unwrap();
    assert_eq!(engine.tick(&mut database, 0, stamp()).len(), 1);

    database
        .set_property(
            object,
            PropertyIdentifier::PresentValue,
            PropertyValue::Unsigned(1),
        )
        .unwrap();
    let notifications = engine.tick(&mut database, 1, stamp());
    assert_eq!(notifications.len(), 1);
    assert_eq!(
        notifications[0].notification.from_state,
        EventState::Offnormal
    );
    assert_eq!(notifications[0].notification.to_state, EventState::Normal);
    assert_eq!(
        notifications[0].notification.priority, 200,
        "to-normal priority"
    );
}

#[test]
fn time_delay_holds_the_transition_until_the_condition_persists() {
    let mut database = database();
    let mut modes =
        MultiStateValue::new(1, "Mode".to_string(), 5).with_intrinsic_reporting(NC, vec![2]);
    modes.alarm.as_mut().unwrap().time_delay = 30;
    database.add_object(HostedObject::MultiStateValue(modes)).unwrap();
    let object = ObjectIdentifier::new(ObjectType::MultiStateValue, 1);
    let mut engine = EventEngine::new(1234);

    database
        .set_property(
            object,
            PropertyIdentifier::PresentValue,
            PropertyValue::Unsigned(2),
        )
        .unwrap();

    assert!(
        engine.tick(&mut database, 100, stamp()).is_empty(),
        "dwell starts"
    );
    assert!(
        engine.tick(&mut database, 129, stamp()).is_empty(),
        "29s elapsed"
    );
    assert_eq!(engine.tick(&mut database, 130, stamp()).len(), 1, "30s elapsed");
}

#[test]
fn a_condition_that_clears_during_its_dwell_never_notifies() {
    let mut database = database();
    let mut modes =
        MultiStateValue::new(1, "Mode".to_string(), 5).with_intrinsic_reporting(NC, vec![2]);
    modes.alarm.as_mut().unwrap().time_delay = 30;
    database.add_object(HostedObject::MultiStateValue(modes)).unwrap();
    let object = ObjectIdentifier::new(ObjectType::MultiStateValue, 1);
    let mut engine = EventEngine::new(1234);

    database
        .set_property(
            object,
            PropertyIdentifier::PresentValue,
            PropertyValue::Unsigned(2),
        )
        .unwrap();
    assert!(engine.tick(&mut database, 0, stamp()).is_empty());

    database
        .set_property(
            object,
            PropertyIdentifier::PresentValue,
            PropertyValue::Unsigned(1),
        )
        .unwrap();
    assert!(
        engine.tick(&mut database, 60, stamp()).is_empty(),
        "condition cleared"
    );
}

#[test]
fn binary_alarm_value_reports_a_binary_property_state() {
    let mut database = database();
    database
        .add_object(HostedObject::BinaryValue(
            BinaryValue::new(1, "Pump".to_string())
                .with_intrinsic_reporting(NC, BinaryPV::Active),
        ))
        .unwrap();
    let object = ObjectIdentifier::new(ObjectType::BinaryValue, 1);
    let mut engine = EventEngine::new(1234);

    database
        .set_property(
            object,
            PropertyIdentifier::PresentValue,
            PropertyValue::Enumerated(1),
        )
        .unwrap();

    let notifications = engine.tick(&mut database, 0, stamp());
    assert_eq!(notifications.len(), 1);
    assert!(matches!(
        notifications[0].notification.parameters,
        NotificationParameters::ChangeOfState {
            new_state: PropertyStates::BinaryValue(true),
            ..
        }
    ));
}

#[test]
fn analog_high_limit_reports_out_of_range_and_honours_the_deadband() {
    let mut database = database();
    database
        .add_object(HostedObject::AnalogValue(
            AnalogValue::new(1, "Temp".to_string()).with_out_of_range_reporting(
                NC,
                Some(number(18.0)),
                Some(number(24.0)),
                number(0.5),
            ),
        ))
        .unwrap();
    let object = ObjectIdentifier::new(ObjectType::AnalogValue, 1);
    let mut engine = EventEngine::new(1234);

    database
        .set_property(
            object,
            PropertyIdentifier::PresentValue,
            PropertyValue::Real(number(25.0)),
        )
        .unwrap();
    let notifications = engine.tick(&mut database, 0, stamp());
    assert_eq!(notifications.len(), 1);
    assert_eq!(
        notifications[0].notification.to_state,
        EventState::HighLimit
    );
    assert_eq!(
        notifications[0].notification.parameters,
        NotificationParameters::OutOfRange {
            exceeding_value: number(25.0),
            status_flags: StatusFlags {
                in_alarm: true,
                fault: false,
                overridden: false,
                out_of_service: false,
            },
            deadband: number(0.5),
            exceeded_limit: number(24.0),
        }
    );

    // Inside the deadband: still above 24.0 - 0.5, so it stays in high-limit.
    database
        .set_property(
            object,
            PropertyIdentifier::PresentValue,
            PropertyValue::Real(number(23.8)),
        )
        .unwrap();
    assert!(
        engine.tick(&mut database, 1, stamp()).is_empty(),
        "within deadband"
    );

    // Past the deadband, it returns to normal.
    database
        .set_property(
            object,
            PropertyIdentifier::PresentValue,
            PropertyValue::Real(number(23.0)),
        )
        .unwrap();
    let notifications = engine.tick(&mut database, 2, stamp());
    assert_eq!(notifications.len(), 1);
    assert_eq!(notifications[0].notification.to_state, EventState::Normal);
}

#[test]
fn a_fault_takes_precedence_and_requires_acknowledgement() {
    let mut database = database();
    database
        .add_object(HostedObject::MultiStateValue(
            MultiStateValue::new(1, "Mode".to_string(), 5)
                .with_intrinsic_reporting(NC, vec![2]),
        ))
        .unwrap();
    let object = ObjectIdentifier::new(ObjectType::MultiStateValue, 1);
    let mut engine = EventEngine::new(1234);

    database
        .set_property(
            object,
            PropertyIdentifier::Reliability,
            PropertyValue::Enumerated(u32::from(Reliability::MultiStateFault)),
        )
        .unwrap();

    let notifications = engine.tick(&mut database, 0, stamp());
    assert_eq!(notifications.len(), 1);
    assert_eq!(notifications[0].notification.to_state, EventState::Fault);
    assert_eq!(
        notifications[0].notification.priority, 10,
        "to-fault priority"
    );
    assert!(
        notifications[0].notification.ack_required,
        "notification class wants an ack"
    );
}

/// Acked_Transitions must only go pending for a notification that was
/// actually sent: nobody can acknowledge one they never received, so the bit
/// would stay clear forever and GetEventInformation would advertise an alarm
/// no client can clear.
#[test]
fn a_masked_transition_leaves_no_acknowledgement_outstanding() {
    let mut database = ObjectDatabase::new(Device::new(1234, "Test".to_string()));
    database
        .add_object(HostedObject::NotificationClass(
            NotificationClass::new(NC, "NC".to_string())
                .with_ack_required(EventTransitionBits::all())
                .with_recipient(gateway(), 777),
        ))
        .unwrap();

    let mut modes =
        MultiStateValue::new(1, "Mode".to_string(), 5).with_intrinsic_reporting(NC, vec![2]);
    modes.alarm.as_mut().unwrap().event_enable = EventTransitionBits {
        to_offnormal: false,
        to_fault: true,
        to_normal: true,
    };
    let object = modes.identifier;
    database.add_object(HostedObject::MultiStateValue(modes)).unwrap();

    let mut engine = EventEngine::new(1234);
    database
        .set_property(
            object,
            PropertyIdentifier::PresentValue,
            PropertyValue::Unsigned(2),
        )
        .unwrap();

    assert!(engine.tick(&mut database, 0, stamp()).is_empty(), "masked");
    assert_eq!(
        database
            .get_property(object, PropertyIdentifier::EventState)
            .unwrap(),
        PropertyValue::Enumerated(u16::from(EventState::Offnormal).into()),
        "the transition still happened"
    );
    assert_eq!(
        database
            .get_property(object, PropertyIdentifier::AckedTransitions)
            .unwrap(),
        PropertyValue::BitString(vec![true, true, true]),
        "nothing was sent, so nothing is awaiting acknowledgement"
    );
}

#[test]
fn a_transmitted_transition_does_leave_an_acknowledgement_outstanding() {
    let mut database = ObjectDatabase::new(Device::new(1234, "Test".to_string()));
    database
        .add_object(HostedObject::NotificationClass(
            NotificationClass::new(NC, "NC".to_string())
                .with_ack_required(EventTransitionBits::all())
                .with_recipient(gateway(), 777),
        ))
        .unwrap();
    database
        .add_object(HostedObject::MultiStateValue(
            MultiStateValue::new(1, "Mode".to_string(), 5)
                .with_intrinsic_reporting(NC, vec![2]),
        ))
        .unwrap();
    let object = ObjectIdentifier::new(ObjectType::MultiStateValue, 1);

    let mut engine = EventEngine::new(1234);
    database
        .set_property(
            object,
            PropertyIdentifier::PresentValue,
            PropertyValue::Unsigned(2),
        )
        .unwrap();

    assert_eq!(engine.tick(&mut database, 0, stamp()).len(), 1);
    assert_eq!(
        database
            .get_property(object, PropertyIdentifier::AckedTransitions)
            .unwrap(),
        PropertyValue::BitString(vec![false, true, true]),
        "to-offnormal is awaiting acknowledgement"
    );
}

/// A recipient needs to know which limit it is recovering from. Reporting the
/// high limit for a low-limit recovery publishes a threshold that contradicts
/// the state pair.
#[test]
fn a_low_limit_recovery_reports_the_low_limit() {
    let mut database = database();
    database
        .add_object(HostedObject::AnalogValue(
            AnalogValue::new(1, "Temp".to_string()).with_out_of_range_reporting(
                NC,
                Some(number(18.0)),
                Some(number(24.0)),
                number(0.5),
            ),
        ))
        .unwrap();
    let object = ObjectIdentifier::new(ObjectType::AnalogValue, 1);
    let mut engine = EventEngine::new(1234);

    database
        .set_property(
            object,
            PropertyIdentifier::PresentValue,
            PropertyValue::Real(number(17.0)),
        )
        .unwrap();
    let tripped = engine.tick(&mut database, 0, stamp());
    assert_eq!(tripped[0].notification.to_state, EventState::LowLimit);

    database
        .set_property(
            object,
            PropertyIdentifier::PresentValue,
            PropertyValue::Real(number(21.0)),
        )
        .unwrap();
    let recovered = engine.tick(&mut database, 1, stamp());

    assert_eq!(recovered[0].notification.to_state, EventState::Normal);
    assert_eq!(
        recovered[0].notification.parameters,
        NotificationParameters::OutOfRange {
            exceeding_value: number(21.0),
            status_flags: StatusFlags::default(),
            deadband: number(0.5),
            exceeded_limit: number(18.0),
        },
        "the low limit is what was breached"
    );
}

#[test]
fn objects_without_reporting_are_ignored() {
    let mut database = database();
    database
        .add_object(HostedObject::MultiStateValue(MultiStateValue::new(1, "Mode".to_string(), 5)))
        .unwrap();
    let mut engine = EventEngine::new(1234);
    assert!(engine.tick(&mut database, 0, stamp()).is_empty());
}

#[test]
fn each_notification_carries_the_recipients_process_identifier() {
    let mut database = database();
    database
        .add_object(HostedObject::MultiStateValue(
            MultiStateValue::new(1, "Mode".to_string(), 5)
                .with_intrinsic_reporting(NC, vec![2]),
        ))
        .unwrap();
    let object = ObjectIdentifier::new(ObjectType::MultiStateValue, 1);
    let mut engine = EventEngine::new(1234);

    database
        .set_property(
            object,
            PropertyIdentifier::PresentValue,
            PropertyValue::Unsigned(2),
        )
        .unwrap();

    let notifications = engine.tick(&mut database, 0, stamp());
    assert_eq!(notifications.len(), 1);
    assert_eq!(
        notifications[0].notification.process_identifier, 777,
        "must echo the process identifier the recipient registered with"
    );
    assert_eq!(
        notifications[0].destination.recipient,
        Recipient::Device(gateway())
    );
}

/// A device with nobody registered still tracks its own event state; it just
/// has no one to tell.
#[test]
fn with_no_recipients_the_transition_is_applied_but_nothing_is_sent() {
    let mut database = database_with_recipients(false);
    database
        .add_object(HostedObject::MultiStateValue(
            MultiStateValue::new(1, "Mode".to_string(), 5)
                .with_intrinsic_reporting(NC, vec![2]),
        ))
        .unwrap();
    let object = ObjectIdentifier::new(ObjectType::MultiStateValue, 1);
    let mut engine = EventEngine::new(1234);

    database
        .set_property(
            object,
            PropertyIdentifier::PresentValue,
            PropertyValue::Unsigned(2),
        )
        .unwrap();

    assert!(engine.tick(&mut database, 0, stamp()).is_empty());
    assert_eq!(
        database
            .get_property(object, PropertyIdentifier::EventState)
            .unwrap(),
        PropertyValue::Enumerated(u16::from(EventState::Offnormal).into()),
        "event state still advanced"
    );
}

#[test]
fn a_recipient_subscribed_to_one_transition_only_hears_that_one() {
    let mut database = database();
    let class = ObjectIdentifier::new(ObjectType::NotificationClass, NC);
    // Narrow the registration to to-normal.
    if let Ok(PropertyValue::List(mut entries)) =
        database.get_property(class, PropertyIdentifier::RecipientList)
    {
        if let Some(PropertyValue::Destination(destination)) = entries.first_mut() {
            destination.transitions = vec![false, false, true];
        }
        database
            .set_property(
                class,
                PropertyIdentifier::RecipientList,
                PropertyValue::List(entries),
            )
            .unwrap();
    }

    database
        .add_object(HostedObject::MultiStateValue(
            MultiStateValue::new(1, "Mode".to_string(), 5)
                .with_intrinsic_reporting(NC, vec![2]),
        ))
        .unwrap();
    let object = ObjectIdentifier::new(ObjectType::MultiStateValue, 1);
    let mut engine = EventEngine::new(1234);

    database
        .set_property(
            object,
            PropertyIdentifier::PresentValue,
            PropertyValue::Unsigned(2),
        )
        .unwrap();
    assert!(
        engine.tick(&mut database, 0, stamp()).is_empty(),
        "not subscribed to to-offnormal"
    );

    database
        .set_property(
            object,
            PropertyIdentifier::PresentValue,
            PropertyValue::Unsigned(1),
        )
        .unwrap();
    let notifications = engine.tick(&mut database, 1, stamp());
    assert_eq!(notifications.len(), 1, "subscribed to to-normal");
    assert_eq!(notifications[0].notification.to_state, EventState::Normal);
}

#[test]
fn a_recipient_asking_for_confirmed_delivery_is_reported_as_such() {
    let mut database = database();
    database
        .add_object(HostedObject::MultiStateValue(
            MultiStateValue::new(1, "Mode".to_string(), 5)
                .with_intrinsic_reporting(NC, vec![2]),
        ))
        .unwrap();
    let object = ObjectIdentifier::new(ObjectType::MultiStateValue, 1);
    let class = ObjectIdentifier::new(ObjectType::NotificationClass, NC);

    if let Ok(PropertyValue::List(mut entries)) =
        database.get_property(class, PropertyIdentifier::RecipientList)
    {
        if let Some(PropertyValue::Destination(d)) = entries.first_mut() {
            d.issue_confirmed_notifications = true;
        }
        database
            .set_property(
                class,
                PropertyIdentifier::RecipientList,
                PropertyValue::List(entries),
            )
            .unwrap();
    }

    let mut engine = EventEngine::new(1234);
    database
        .set_property(
            object,
            PropertyIdentifier::PresentValue,
            PropertyValue::Unsigned(2),
        )
        .unwrap();

    let notifications = engine.tick(&mut database, 0, stamp());
    assert_eq!(notifications.len(), 1);
    assert!(
        notifications[0].destination.issue_confirmed_notifications,
        "the caller needs this to pick the confirmed service"
    );
}

#[test]
fn a_steady_alarm_is_told_once_whatever_the_deadband() {
    for deadband in [0.0, 0.3, 5.0] {
        let mut database = database();
        database
            .add_object(HostedObject::AnalogValue(
                AnalogValue::new(1, "Temp".to_string()).with_out_of_range_reporting(
                    NC,
                    Some(number(18.1)),
                    Some(number(24.1)),
                    number(deadband),
                ),
            ))
            .unwrap();
        let object = ObjectIdentifier::new(ObjectType::AnalogValue, 1);
        let mut engine = EventEngine::new(1234);
        for value in [24.2f32, 18.0] {
            database
                .set_property(
                    object,
                    PropertyIdentifier::PresentValue,
                    PropertyValue::Real(number(value)),
                )
                .unwrap();
            assert_eq!(engine.tick(&mut database, 0, stamp()).len(), 1);
            assert!(engine.tick(&mut database, 100, stamp()).is_empty());
            assert!(engine.tick(&mut database, 200, stamp()).is_empty());
        }
    }
}
