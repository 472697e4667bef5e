//! What an object's event reporting can be relied on for: how it is configured, when a
//! transition is due and reported, and what is kept of it.

use crate::object::error::ObjectErrorView;
use crate::object::identifier::PropertyIdentifier;
use crate::object::intrinsic;
use crate::object::intrinsic::{
    EventTransition, EventTransitionBits, IntrinsicReporting, NotifyType,
};
use crate::object::state::{EventState, Reliability};
use crate::property::value::{PropertyValue, TimestampValue};
use vstd::prelude::*;

verus! {

/// The four status flags say, in this order, whether the object is in any state but the
/// normal one, whether it is unreliable or in the fault state, whether it is overridden
/// and whether it is out of service.
pub proof fn law_status_flags_stand_in_order(
    state: EventState,
    reliability: Reliability,
    out_of_service: bool,
    overridden: bool,
)
    ensures
        ({
            let flags = intrinsic::flags(state, reliability, out_of_service, overridden);
            &&& flags.len() == 4
            &&& flags[0] == !(state is Normal)
            &&& flags[1] == (state is Fault || !(reliability is NoFaultDetected))
            &&& flags[2] == overridden
            &&& flags[3] == out_of_service
        }),
{
}

/// Transition bits stand in the order off-normal, fault, normal, as they are written and
/// as they are read; bits that are missing are clear.
pub proof fn law_transition_bits_stand_in_order(
    bits: EventTransitionBits,
    string: Seq<bool>,
    state: EventState,
)
    ensures
        bits.bits() == seq![bits.to_offnormal, bits.to_fault, bits.to_normal],
        EventTransitionBits::of_bits(string).to_offnormal == (string.len() > 0 && string[0]),
        EventTransitionBits::of_bits(string).to_fault == (string.len() > 1 && string[1]),
        EventTransitionBits::of_bits(string).to_normal == (string.len() > 2 && string[2]),
        state is Normal ==> EventTransition::entering(state) is ToNormal,
        state is Fault ==> EventTransition::entering(state) is ToFault,
        !(state is Normal) && !(state is Fault) ==> EventTransition::entering(
            state,
        ) is ToOffnormal,
        EventTransition::ToOffnormal.place() == 0,
        EventTransition::ToFault.place() == 1,
        EventTransition::ToNormal.place() == 2,
{
}

/// A return to normal waits for the delay that is set for it, or else for that of every
/// other transition, which waits for the latter in any case. A transition is reported
/// exactly where events are detected and it is enabled.
pub proof fn law_transitions_are_due_and_reported(
    reporting: IntrinsicReporting,
    state: EventState,
)
    ensures
        !(state is Normal) ==> reporting.dwell(state) == reporting.time_delay,
        state is Normal && reporting.time_delay_normal is None ==> reporting.dwell(state)
            == reporting.time_delay,
        state is Normal && reporting.time_delay_normal is Some ==> reporting.dwell(state)
            == reporting.time_delay_normal->Some_0,
        state is Normal ==> reporting.reports(state) == (reporting.event_detection_enable
            && reporting.event_enable.to_normal),
        state is Fault ==> reporting.reports(state) == (reporting.event_detection_enable
            && reporting.event_enable.to_fault),
        !(state is Normal) && !(state is Fault) ==> reporting.reports(state) == (
        reporting.event_detection_enable && reporting.event_enable.to_offnormal),
{
}

/// Stamping a transition keeps the moment for it and for no other, and leaving it
/// unacknowledged clears its bit and no other. Nothing else of the reporting changes.
pub proof fn law_transitions_are_kept_apart(
    reporting: IntrinsicReporting,
    state: EventState,
    at: TimestampValue,
)
    ensures
        ({
            let place: int = if state is Normal {
                2
            } else if state is Fault {
                1
            } else {
                0
            };
            let stamped = reporting.stamped(state, at);
            let awaiting = reporting.awaiting(state);
            &&& stamped.event_time_stamps@ == reporting.event_time_stamps@.update(place, at)
            &&& stamped == (IntrinsicReporting {
                event_time_stamps: stamped.event_time_stamps,
                ..reporting
            })
            &&& awaiting == (IntrinsicReporting {
                acked_transitions: EventTransitionBits {
                    to_offnormal: place != 0 && reporting.acked_transitions.to_offnormal,
                    to_fault: place != 1 && reporting.acked_transitions.to_fault,
                    to_normal: place != 2 && reporting.acked_transitions.to_normal,
                },
                ..reporting
            })
        }),
{
}

/// What a write leaves of the reporting, or why it is refused.
pub open spec fn leaves(
    written: Option<Result<IntrinsicReporting, ObjectErrorView>>,
    after: IntrinsicReporting,
) -> bool {
    written == Some(Ok::<IntrinsicReporting, ObjectErrorView>(after))
}

/// Whether a write is refused.
pub open spec fn is_refused(
    written: Option<Result<IntrinsicReporting, ObjectErrorView>>,
    error: ObjectErrorView,
) -> bool {
    written == Some(Err::<IntrinsicReporting, ObjectErrorView>(error))
}

/// A number that is written to the class or a delay is the class or the delay from then
/// on, and nothing else changes. A null takes back the delay of the return to normal.
/// Numbers of more than thirty-two bits and values of another type are refused.
pub proof fn law_reporting_takes_its_numbers(
    reporting: IntrinsicReporting,
    value: PropertyValue,
    number: u64,
)
    ensures
        number <= u32::MAX && value == PropertyValue::Unsigned(number) ==> leaves(
            intrinsic::intrinsic_writing(reporting, PropertyIdentifier::NotificationClass, value),
            (IntrinsicReporting { notification_class: number as u32, ..reporting }),
        ) && leaves(
            intrinsic::intrinsic_writing(reporting, PropertyIdentifier::TimeDelay, value),
            (IntrinsicReporting { time_delay: number as u32, ..reporting }),
        ) && leaves(
            intrinsic::intrinsic_writing(reporting, PropertyIdentifier::TimeDelayNormal, value),
            (IntrinsicReporting { time_delay_normal: Some(number as u32), ..reporting }),
        ),
        value is Null ==> leaves(
            intrinsic::intrinsic_writing(reporting, PropertyIdentifier::TimeDelayNormal, value),
            (IntrinsicReporting { time_delay_normal: None, ..reporting }),
        ),
        !(value is Unsigned) || value->Unsigned_0 > u32::MAX ==> is_refused(
            intrinsic::intrinsic_writing(reporting, PropertyIdentifier::NotificationClass, value),
            ObjectErrorView::InvalidPropertyType,
        ) && is_refused(
            intrinsic::intrinsic_writing(reporting, PropertyIdentifier::TimeDelay, value),
            ObjectErrorView::InvalidPropertyType,
        ),
        !(value is Null) && (!(value is Unsigned) || value->Unsigned_0 > u32::MAX) ==> is_refused(
            intrinsic::intrinsic_writing(reporting, PropertyIdentifier::TimeDelayNormal, value),
            ObjectErrorView::InvalidPropertyType,
        ),
{
}

/// The transitions to report, whether to detect any and whether to report them as alarms
/// or as events can be written; nothing else changes with them. What the algorithm keeps
/// for itself, the acknowledgements and the stamps, cannot.
pub proof fn law_reporting_takes_its_settings(
    reporting: IntrinsicReporting,
    value: PropertyValue,
)
    ensures
        value is BitString ==> leaves(
            intrinsic::intrinsic_writing(reporting, PropertyIdentifier::EventEnable, value),
            (IntrinsicReporting {
                event_enable: EventTransitionBits::of_bits(value->BitString_0@),
                ..reporting
            }),
        ),
        value is Boolean ==> leaves(
            intrinsic::intrinsic_writing(
                reporting,
                PropertyIdentifier::EventDetectionEnable,
                value,
            ),
            (IntrinsicReporting { event_detection_enable: value->Boolean_0, ..reporting }),
        ),
        value == PropertyValue::Enumerated(0) ==> leaves(
            intrinsic::intrinsic_writing(reporting, PropertyIdentifier::NotifyType, value),
            (IntrinsicReporting { notify_type: NotifyType::Alarm, ..reporting }),
        ),
        value == PropertyValue::Enumerated(1) ==> leaves(
            intrinsic::intrinsic_writing(reporting, PropertyIdentifier::NotifyType, value),
            (IntrinsicReporting { notify_type: NotifyType::Event, ..reporting }),
        ),
        value == PropertyValue::Enumerated(2) ==> is_refused(
            intrinsic::intrinsic_writing(reporting, PropertyIdentifier::NotifyType, value),
            ObjectErrorView::InvalidValue("Notify_Type must be alarm or event"@),
        ),
        value is Enumerated && value->Enumerated_0 > 2 || !(value is Enumerated) ==> is_refused(
            intrinsic::intrinsic_writing(reporting, PropertyIdentifier::NotifyType, value),
            ObjectErrorView::InvalidPropertyType,
        ),
        !(value is BitString) ==> is_refused(
            intrinsic::intrinsic_writing(reporting, PropertyIdentifier::EventEnable, value),
            ObjectErrorView::InvalidPropertyType,
        ),
        !(value is Boolean) ==> is_refused(
            intrinsic::intrinsic_writing(
                reporting,
                PropertyIdentifier::EventDetectionEnable,
                value,
            ),
            ObjectErrorView::InvalidPropertyType,
        ),
        is_refused(
            intrinsic::intrinsic_writing(reporting, PropertyIdentifier::AckedTransitions, value),
            ObjectErrorView::PropertyNotWritable,
        ),
        is_refused(
            intrinsic::intrinsic_writing(reporting, PropertyIdentifier::EventTimeStamps, value),
            ObjectErrorView::PropertyNotWritable,
        ),
        NotifyType::Alarm.number() == 0,
        NotifyType::Event.number() == 1,
        NotifyType::AckNotification.number() == 2,
{
}

} // verus!
