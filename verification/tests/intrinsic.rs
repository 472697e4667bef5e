use bacnet_rs::object::intrinsic::{
    intrinsic_get, intrinsic_set, EventTransition, EventTransitionBits, IntrinsicReporting,
    NotifyType,
};
use bacnet_rs::number::Real;
use bacnet_rs::object::{
    AnalogInput, BinaryPV, BinaryValue, EventState, MultiStateOutput, ObjectError,
    PropertyIdentifier,
};
use bacnet_rs::property::{PropertyValue, TimestampValue};

#[test]
fn transition_for_state_buckets_limits_as_offnormal() {
    assert_eq!(
        EventTransition::for_state(EventState::Normal),
        EventTransition::ToNormal
    );
    assert_eq!(
        EventTransition::for_state(EventState::Fault),
        EventTransition::ToFault
    );
    for state in [
        EventState::Offnormal,
        EventState::HighLimit,
        EventState::LowLimit,
    ] {
        assert_eq!(
            EventTransition::for_state(state),
            EventTransition::ToOffnormal
        );
    }
}

#[test]
fn transition_bits_round_trip_in_bacnet_order() {
    let bits = EventTransitionBits {
        to_offnormal: true,
        to_fault: false,
        to_normal: true,
    };
    assert_eq!(bits.to_bits(), vec![true, false, true]);
    assert_eq!(EventTransitionBits::from_bits(&bits.to_bits()), bits);
    // A short bit string reads missing trailing bits as false.
    assert_eq!(
        EventTransitionBits::from_bits(&[true]),
        EventTransitionBits {
            to_offnormal: true,
            to_fault: false,
            to_normal: false,
        }
    );
}

#[test]
fn dwell_falls_back_to_time_delay_for_normal() {
    let mut reporting = IntrinsicReporting::new(1);
    reporting.time_delay = 30;
    assert_eq!(reporting.dwell_for(EventState::Normal), 30);
    assert_eq!(reporting.dwell_for(EventState::Offnormal), 30);

    reporting.time_delay_normal = Some(5);
    assert_eq!(reporting.dwell_for(EventState::Normal), 5);
    assert_eq!(reporting.dwell_for(EventState::Offnormal), 30);
}

#[test]
fn record_transition_stamps_without_touching_acknowledgement() {
    let mut reporting = IntrinsicReporting::new(1);
    let at = TimestampValue::Time(10, 20, 30, 0);

    reporting.record_transition(EventState::Offnormal, at.clone());
    assert_eq!(reporting.event_time_stamps[0], at);
    assert!(
        reporting.acked_transitions.to_offnormal,
        "stamping a transition does not make an ack outstanding"
    );

    reporting.record_transition(EventState::Normal, at.clone());
    assert_eq!(reporting.event_time_stamps[2], at);
}

#[test]
fn await_acknowledgement_clears_only_its_own_transition() {
    let mut reporting = IntrinsicReporting::new(1);

    reporting.await_acknowledgement(EventState::HighLimit);

    assert!(
        !reporting.acked_transitions.to_offnormal,
        "a limit is an off-normal transition"
    );
    assert!(reporting.acked_transitions.to_fault);
    assert!(reporting.acked_transitions.to_normal);
}

#[test]
fn notify_type_rejects_ack_notification_as_a_configuration() {
    let mut reporting = IntrinsicReporting::new(1);

    assert!(matches!(
        intrinsic_set(
            &mut reporting,
            PropertyIdentifier::NotifyType,
            PropertyValue::Enumerated(u32::from(NotifyType::AckNotification)),
        )
        .unwrap(),
        Err(ObjectError::InvalidValue(_))
    ));
    assert_eq!(reporting.notify_type, NotifyType::Alarm, "left unchanged");

    intrinsic_set(
        &mut reporting,
        PropertyIdentifier::NotifyType,
        PropertyValue::Enumerated(u32::from(NotifyType::Event)),
    )
    .unwrap()
    .unwrap();
    assert_eq!(reporting.notify_type, NotifyType::Event);
}

#[test]
fn notifies_honours_event_enable_and_detection() {
    let mut reporting = IntrinsicReporting::new(1);
    assert!(reporting.notifies(EventState::Offnormal));

    reporting.event_enable.to_offnormal = false;
    assert!(!reporting.notifies(EventState::Offnormal));
    assert!(reporting.notifies(EventState::Fault));

    reporting.event_detection_enable = false;
    assert!(!reporting.notifies(EventState::Fault));
}

#[test]
fn alarm_properties_round_trip_through_get_and_set() {
    let mut reporting = IntrinsicReporting::new(7);

    assert_eq!(
        intrinsic_get(&reporting, PropertyIdentifier::NotificationClass)
            .unwrap()
            .unwrap(),
        PropertyValue::Unsigned(7)
    );

    intrinsic_set(
        &mut reporting,
        PropertyIdentifier::TimeDelay,
        PropertyValue::Unsigned(45),
    )
    .unwrap()
    .unwrap();
    assert_eq!(
        intrinsic_get(&reporting, PropertyIdentifier::TimeDelay)
            .unwrap()
            .unwrap(),
        PropertyValue::Unsigned(45)
    );

    // Time_Delay_Normal reports Time_Delay until it is set explicitly.
    assert_eq!(
        intrinsic_get(&reporting, PropertyIdentifier::TimeDelayNormal)
            .unwrap()
            .unwrap(),
        PropertyValue::Unsigned(45)
    );

    intrinsic_set(
        &mut reporting,
        PropertyIdentifier::EventEnable,
        PropertyValue::BitString(vec![true, false, false]),
    )
    .unwrap()
    .unwrap();
    assert_eq!(
        reporting.event_enable,
        EventTransitionBits {
            to_offnormal: true,
            to_fault: false,
            to_normal: false,
        }
    );
}

#[test]
fn non_alarm_property_falls_through() {
    let mut reporting = IntrinsicReporting::new(1);
    assert!(intrinsic_get(&reporting, PropertyIdentifier::PresentValue).is_none());
    assert!(intrinsic_set(
        &mut reporting,
        PropertyIdentifier::PresentValue,
        PropertyValue::Unsigned(1)
    )
    .is_none());
}

#[test]
fn algorithm_maintained_properties_are_read_only() {
    let mut reporting = IntrinsicReporting::new(1);
    assert!(matches!(
        intrinsic_set(
            &mut reporting,
            PropertyIdentifier::AckedTransitions,
            PropertyValue::BitString(vec![true, true, true])
        )
        .unwrap(),
        Err(ObjectError::PropertyNotWritable)
    ));
}

#[test]
fn builders_start_with_every_transition_reported_and_acknowledged() {
    let zero = Real::from_bits(0);
    for alarm in [
        AnalogInput::new(1, "A".to_string()).with_intrinsic_reporting(4).alarm,
        AnalogInput::new(1, "A".to_string())
            .with_out_of_range_reporting(4, None, None, zero)
            .alarm,
        BinaryValue::new(1, "B".to_string())
            .with_intrinsic_reporting(4, BinaryPV::Active)
            .alarm,
        MultiStateOutput::new(1, "M".to_string(), 3)
            .with_intrinsic_reporting(4, vec![2])
            .alarm,
    ] {
        let alarm = alarm.unwrap();
        assert_eq!(alarm.notification_class, 4);
        assert_eq!(alarm.event_enable.to_bits(), vec![true; 3]);
        assert_eq!(alarm.acked_transitions.to_bits(), vec![true; 3]);
        assert_eq!(alarm.notify_type, NotifyType::Alarm);
        assert_eq!((alarm.time_delay, alarm.time_delay_normal), (0, None));
        assert!(alarm.event_detection_enable);
    }
}
