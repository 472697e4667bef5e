//! What the points of a device can be relied on for: what their properties read, what
//! writing and commanding them leaves, and when they demand an alarm.

use crate::number::Real;
use crate::object::analog;
use crate::object::analog::{AnalogInput, AnalogOutput, AnalogValue};
use crate::object::base::BacnetObject;
use crate::object::binary;
use crate::object::binary::{BinaryInput, BinaryOutput, BinaryPV, BinaryValue};
use crate::object::common;
use crate::object::error::ObjectErrorView;
use crate::object::identifier::{ObjectIdentifier, PropertyIdentifier};
use crate::object::intrinsic::{AlarmEvaluation, AlarmTrigger, IntrinsicReporting, NotifyType};
use crate::object::multistate;
use crate::object::multistate::{MultiStateInput, MultiStateOutput, MultiStateValue};
use crate::object::state::{EventState, Reliability};
use crate::property::value::{PropertyValue, PropertyValueView};
use crate::text;
use vstd::prelude::*;

verus! {

// ---------------------------------------------------------------------------
// Alarms
// ---------------------------------------------------------------------------

/// Whether an algorithm demands a state, and says what it saw.
pub open spec fn demands(
    evaluation: Option<AlarmEvaluation>,
    state: EventState,
    trigger: AlarmTrigger,
) -> bool {
    evaluation == Some(AlarmEvaluation { desired_state: state, trigger })
}

/// Whether an algorithm runs at all: an object reports events only where it is
/// configured to and detects them.
pub open spec fn is_detecting(alarm: Option<IntrinsicReporting>) -> bool {
    alarm matches Some(reporting) && reporting.event_detection_enable
}

/// What an out-of-range algorithm must demand, by its limits.
///
/// A fault comes before any limit. A value above a high limit demands the high limit
/// whether or not there is a low one, and a value below a low limit, and not above a
/// high one, the low limit whether or not there is a high one. Once tripped, a limit
/// holds until the value has come back by the deadband. A value within every limit
/// demands the normal state.
pub open spec fn is_out_of_range_alarm(
    evaluation: Option<AlarmEvaluation>,
    value: Real,
    high: Option<Real>,
    low: Option<Real>,
    deadband: Real,
    reliability: Reliability,
    current: EventState,
    alarm: Option<IntrinsicReporting>,
) -> bool {
    let exceeds = |limit: Real|
        AlarmTrigger::OutOfRange { exceeding_value: value, exceeded_limit: limit, deadband };
    let unreliable = AlarmTrigger::ReliabilityChange { reliability };
    &&& !is_detecting(alarm) ==> evaluation is None
    &&& is_detecting(alarm) && reliability != Reliability::NoFaultDetected ==> demands(
        evaluation,
        EventState::Fault,
        unreliable,
    )
    &&& is_detecting(alarm) && reliability == Reliability::NoFaultDetected ==> {
        let above = high is Some && high->Some_0.below(value);
        let below = low is Some && value.below(low->Some_0);
        let still_above = high is Some && high->Some_0.difference(deadband).below(value);
        let still_below = low is Some && value.below(low->Some_0.sum(deadband));
        &&& high is None && low is None ==> demands(evaluation, EventState::Normal, unreliable)
        &&& current != EventState::HighLimit && above ==> demands(
            evaluation,
            EventState::HighLimit,
            exceeds(high->Some_0),
        )
        &&& current == EventState::HighLimit && still_above ==> demands(
            evaluation,
            EventState::HighLimit,
            exceeds(high->Some_0),
        )
        &&& current == EventState::HighLimit && !still_above && below ==> demands(
            evaluation,
            EventState::LowLimit,
            exceeds(low->Some_0),
        )
        &&& current == EventState::HighLimit && high is Some && !still_above && !below ==> demands(
            evaluation,
            EventState::Normal,
            exceeds(high->Some_0),
        )
        &&& current == EventState::LowLimit && !above && still_below ==> demands(
            evaluation,
            EventState::LowLimit,
            exceeds(low->Some_0),
        )
        &&& current == EventState::LowLimit && !above && low is Some && !still_below ==> demands(
            evaluation,
            EventState::Normal,
            exceeds(low->Some_0),
        )
        &&& current != EventState::HighLimit && current != EventState::LowLimit && !above && below
            ==> demands(evaluation, EventState::LowLimit, exceeds(low->Some_0))
        &&& current != EventState::HighLimit && current != EventState::LowLimit && !above && !below
            ==> (evaluation matches Some(demanded) && demanded.desired_state == EventState::Normal)
    }
}

/// What a change-of-state algorithm must demand: the fault state of an object that is
/// not reliable, the off-normal state of one whose value is an alarm value, and the
/// normal state of any other.
pub open spec fn is_change_of_state_alarm(
    evaluation: Option<AlarmEvaluation>,
    is_alarm_value: bool,
    seen: AlarmTrigger,
    reliability: Reliability,
    alarm: Option<IntrinsicReporting>,
) -> bool {
    &&& !is_detecting(alarm) ==> evaluation is None
    &&& is_detecting(alarm) && reliability != Reliability::NoFaultDetected ==> demands(
        evaluation,
        EventState::Fault,
        AlarmTrigger::ReliabilityChange { reliability },
    )
    &&& is_detecting(alarm) && reliability == Reliability::NoFaultDetected && is_alarm_value
        ==> demands(evaluation, EventState::Offnormal, seen)
    &&& is_detecting(alarm) && reliability == Reliability::NoFaultDetected && !is_alarm_value
        ==> demands(evaluation, EventState::Normal, seen)
}

/// A value below a configured low limit demands the low limit, a value above a
/// configured high limit the high limit, whether or not the other is configured, and a
/// value within every configured limit the normal state.
pub proof fn law_limits_trip_on_their_own(
    value: Real,
    high: Option<Real>,
    low: Option<Real>,
    deadband: Real,
    reliability: Reliability,
    current: EventState,
    alarm: Option<IntrinsicReporting>,
)
    ensures
        is_out_of_range_alarm(
            analog::analog_evaluation(value, high, low, deadband, reliability, current, alarm),
            value,
            high,
            low,
            deadband,
            reliability,
            current,
            alarm,
        ),
{
}

/// A binary value that is the alarm value demands the off-normal state, and so does a
/// state that is listed as an alarm value; each says what it saw.
pub proof fn law_alarm_values_trip(
    value: BinaryPV,
    alarm_value: BinaryPV,
    state: u32,
    alarm_values: Seq<u32>,
    reliability: Reliability,
    alarm: Option<IntrinsicReporting>,
)
    ensures
        is_change_of_state_alarm(
            binary::binary_evaluation(value, alarm_value, reliability, alarm),
            value == alarm_value,
            AlarmTrigger::BinaryChange { active: value is Active },
            reliability,
            alarm,
        ),
        is_change_of_state_alarm(
            multistate::multistate_evaluation(state, alarm_values, reliability, alarm),
            exists|i: int| 0 <= i < alarm_values.len() && #[trigger] alarm_values[i] == state,
            AlarmTrigger::MultistateChange { new_state: state },
            reliability,
            alarm,
        ),
{
    if exists|i: int| 0 <= i < alarm_values.len() && #[trigger] alarm_values[i] == state {
        assert(alarm_values.contains(state));
    }
}

// ---------------------------------------------------------------------------
// Commands
// ---------------------------------------------------------------------------

/// Whether a value is in force: the command of the lowest number that is taken, or the
/// default where none is.
pub open spec fn is_in_force<T>(slots: Seq<Option<T>>, default: T, value: T) -> bool {
    &&& (forall|i: int| 0 <= i < slots.len() ==> (#[trigger] slots[i]) is None) ==> value == default
    &&& forall|i: int|
        0 <= i < slots.len() && (#[trigger] slots[i]) is Some && (forall|j: int|
            0 <= j < i ==> (#[trigger] slots[j]) is None) ==> value == slots[i]->Some_0
}

/// The value in force is that of the most urgent command, and the default where there is
/// none.
pub proof fn law_the_lowest_priority_number_rules<T>(slots: Seq<Option<T>>, default: T)
    ensures
        is_in_force(slots, default, common::commanded(slots, default)),
{
    common::lemma_first_command(slots);
    let found = common::first_command(slots);
    if found < slots.len() {
        assert(slots[found] is Some);
    }
    assert forall|i: int|
        0 <= i < slots.len() && (#[trigger] slots[i]) is Some && (forall|j: int|
            0 <= j < i ==> (#[trigger] slots[j]) is None) implies common::commanded(slots, default)
        == slots[i]->Some_0 by {
        if found < i {
            assert(slots[found] is None);
        }
        if i < found {
            assert(slots[i] is None);
        }
    }
}

/// The priority in force is the number of the most urgent command, counted from one.
pub proof fn law_the_priority_in_force_is_the_lowest<T>(slots: Seq<Option<T>>, i: int)
    requires
        0 <= i < slots.len() <= 16,
        slots[i] is Some,
        forall|j: int| 0 <= j < i ==> (#[trigger] slots[j]) is None,
    ensures
        common::priority_in_force(slots) == Some((i + 1) as u8),
{
    common::lemma_first_command(slots);
    let found = common::first_command(slots);
    if found < i {
        assert(slots[found] is None);
    }
    if i < found {
        assert(slots[i] is None);
    }
}

/// A binary command is zero for inactive and one for active, and a multi-state command the
/// number of a state. A null takes a command back, and nothing else is a command.
pub proof fn law_commands_have_their_values(value: PropertyValue)
    ensures
        value == PropertyValue::Enumerated(0) ==> binary::binary_command(value) == Ok::<
            Option<BinaryPV>,
            ObjectErrorView,
        >(Some(BinaryPV::Inactive)),
        value == PropertyValue::Enumerated(1) ==> binary::binary_command(value) == Ok::<
            Option<BinaryPV>,
            ObjectErrorView,
        >(Some(BinaryPV::Active)),
        value is Enumerated && value->Enumerated_0 > 1 ==> binary::binary_command(value) is Err,
        !(value is Enumerated) && !(value is Null) ==> binary::binary_command(value) == Err::<
            Option<BinaryPV>,
            ObjectErrorView,
        >(ObjectErrorView::InvalidPropertyType),
        value is Unsigned && value->Unsigned_0 <= 0xFFFF_FFFF ==> multistate::unsigned_command(
            value,
        ) == Ok::<Option<u32>, ObjectErrorView>(Some(value->Unsigned_0 as u32)),
        value is Null ==> binary::binary_command(value) == Ok::<Option<BinaryPV>, ObjectErrorView>(
            None,
        ) && multistate::unsigned_command(value) == Ok::<Option<u32>, ObjectErrorView>(None),
        !(value is Null) && !(value is Unsigned && value->Unsigned_0 <= 0xFFFF_FFFF)
            ==> multistate::unsigned_command(value) == Err::<Option<u32>, ObjectErrorView>(
            ObjectErrorView::InvalidPropertyType,
        ),
        BinaryPV::Inactive.number() == 0,
        BinaryPV::Active.number() == 1,
{
}

/// New states are named by their numbers, which count from one.
pub proof fn law_states_are_named_by_their_numbers(number_of_states: u32, state: u32)
    requires
        1 <= state <= number_of_states,
    ensures
        multistate::numbered_texts(number_of_states).len() == number_of_states,
        multistate::numbered_texts(number_of_states)[state - 1] == seq![
            'S',
            't',
            'a',
            't',
            'e',
            ' ',
        ] + text::decimal(state as nat),
{
    reveal_strlit("State ");
    assert("State "@ =~= seq!['S', 't', 'a', 't', 'e', ' ']);
}

// ---------------------------------------------------------------------------
// What properties read
// ---------------------------------------------------------------------------

/// What reads as a value.
pub open spec fn reads(
    reading: Result<PropertyValueView, ObjectErrorView>,
    value: PropertyValueView,
) -> bool {
    reading == Ok::<PropertyValueView, ObjectErrorView>(value)
}

/// What is no property of an object.
pub open spec fn is_unknown(reading: Result<PropertyValueView, ObjectErrorView>) -> bool {
    reading == Err::<PropertyValueView, ObjectErrorView>(ObjectErrorView::UnknownProperty)
}

/// What every point reads of itself.
pub open spec fn reads_as_a_point<T: BacnetObject>(
    object: T,
    identifier: ObjectIdentifier,
    name: Seq<char>,
    type_number: u32,
    event_state: EventState,
    reliability: Reliability,
    overridden: bool,
    out_of_service: bool,
) -> bool {
    &&& object.identity() == identifier
    &&& object.decoupled() == out_of_service
    &&& reads(
        object.reading(PropertyIdentifier::ObjectIdentifier),
        PropertyValueView::ObjectIdentifier(identifier),
    )
    &&& reads(
        object.reading(PropertyIdentifier::ObjectName),
        PropertyValueView::CharacterString(name),
    )
    &&& reads(
        object.reading(PropertyIdentifier::ObjectType),
        PropertyValueView::Enumerated(type_number),
    )
    &&& reads(
        object.reading(PropertyIdentifier::OutOfService),
        PropertyValueView::Boolean(out_of_service),
    )
    &&& match event_state {
        EventState::Normal => reads(
            object.reading(PropertyIdentifier::EventState),
            PropertyValueView::Enumerated(0),
        ),
        EventState::Fault => reads(
            object.reading(PropertyIdentifier::EventState),
            PropertyValueView::Enumerated(1),
        ),
        EventState::Offnormal => reads(
            object.reading(PropertyIdentifier::EventState),
            PropertyValueView::Enumerated(2),
        ),
        EventState::HighLimit => reads(
            object.reading(PropertyIdentifier::EventState),
            PropertyValueView::Enumerated(3),
        ),
        EventState::LowLimit => reads(
            object.reading(PropertyIdentifier::EventState),
            PropertyValueView::Enumerated(4),
        ),
        _ => true,
    }
    &&& object.reading(PropertyIdentifier::StatusFlags) is Ok
    &&& object.reading(PropertyIdentifier::StatusFlags)->Ok_0 is BitString
    &&& {
        let flags = object.reading(PropertyIdentifier::StatusFlags)->Ok_0->BitString_0;
        &&& flags.len() == 4
        &&& flags[0] == !(event_state is Normal)
        &&& flags[1] == (!(reliability is NoFaultDetected) || event_state is Fault)
        &&& flags[2] == overridden
        &&& flags[3] == out_of_service
    }
}

/// What an object reads of its event reporting, where it has any.
pub open spec fn reads_its_reporting<T: BacnetObject>(
    object: T,
    alarm: Option<IntrinsicReporting>,
) -> bool {
    &&& object.reporting() == alarm
    &&& alarm matches Some(reporting) ==> {
        &&& reads(
            object.reading(PropertyIdentifier::NotificationClass),
            PropertyValueView::Unsigned(reporting.notification_class as u64),
        )
        &&& reads(
            object.reading(PropertyIdentifier::TimeDelay),
            PropertyValueView::Unsigned(reporting.time_delay as u64),
        )
        &&& reads(
            object.reading(PropertyIdentifier::TimeDelayNormal),
            PropertyValueView::Unsigned(
                match reporting.time_delay_normal {
                    Some(delay) => delay as u64,
                    None => reporting.time_delay as u64,
                },
            ),
        )
        &&& reads(
            object.reading(PropertyIdentifier::EventEnable),
            PropertyValueView::BitString(
                seq![
                    reporting.event_enable.to_offnormal,
                    reporting.event_enable.to_fault,
                    reporting.event_enable.to_normal,
                ],
            ),
        )
        &&& reads(
            object.reading(PropertyIdentifier::AckedTransitions),
            PropertyValueView::BitString(
                seq![
                    reporting.acked_transitions.to_offnormal,
                    reporting.acked_transitions.to_fault,
                    reporting.acked_transitions.to_normal,
                ],
            ),
        )
        &&& reads(
            object.reading(PropertyIdentifier::NotifyType),
            PropertyValueView::Enumerated(
                match reporting.notify_type {
                    NotifyType::Alarm => 0,
                    NotifyType::Event => 1,
                    NotifyType::AckNotification => 2,
                },
            ),
        )
        &&& reads(
            object.reading(PropertyIdentifier::EventDetectionEnable),
            PropertyValueView::Boolean(reporting.event_detection_enable),
        )
        &&& reads(
            object.reading(PropertyIdentifier::EventTimeStamps),
            PropertyValueView::Array(
                seq![
                    PropertyValueView::Timestamp(reporting.event_time_stamps@[0]),
                    PropertyValueView::Timestamp(reporting.event_time_stamps@[1]),
                    PropertyValueView::Timestamp(reporting.event_time_stamps@[2]),
                ],
            ),
        )
    }
    &&& alarm is None ==> {
        &&& is_unknown(object.reading(PropertyIdentifier::NotificationClass))
        &&& is_unknown(object.reading(PropertyIdentifier::TimeDelay))
        &&& is_unknown(object.reading(PropertyIdentifier::EventEnable))
        &&& is_unknown(object.reading(PropertyIdentifier::EventDetectionEnable))
    }
}

/// What an analog input reads of itself.
pub proof fn law_analog_input_reads_what_it_holds(object: AnalogInput)
    ensures
        reads_as_a_point(
            object,
            object.identifier,
            object.object_name@,
            0,
            object.event_state,
            object.reliability,
            object.overridden || object.local_override is Some,
            object.out_of_service,
        ),
        reads_its_reporting(object, object.alarm),
        ({
            &&& reads(
                object.reading(PropertyIdentifier::PresentValue),
                PropertyValueView::Real(
                    match object.local_override {
                        Some(held) => held.value,
                        None => object.present_value,
                    },
                ),
            )
            &&& reads(
                object.reading(PropertyIdentifier::Units),
                PropertyValueView::Enumerated(object.units.number()),
            )
            &&& match object.cov_increment {
                Some(increment) => reads(
                    object.reading(PropertyIdentifier::CovIncrement),
                    PropertyValueView::Real(increment),
                ),
                None => is_unknown(object.reading(PropertyIdentifier::CovIncrement)),
            }
            &&& object.alarm is Some ==> {
                &&& match object.high_limit {
                    Some(limit) => reads(
                        object.reading(PropertyIdentifier::HighLimit),
                        PropertyValueView::Real(limit),
                    ),
                    None => is_unknown(object.reading(PropertyIdentifier::HighLimit)),
                }
                &&& match object.low_limit {
                    Some(limit) => reads(
                        object.reading(PropertyIdentifier::LowLimit),
                        PropertyValueView::Real(limit),
                    ),
                    None => is_unknown(object.reading(PropertyIdentifier::LowLimit)),
                }
                &&& reads(
                    object.reading(PropertyIdentifier::Deadband),
                    PropertyValueView::Real(object.deadband),
                )
                &&& reads(
                    object.reading(PropertyIdentifier::LimitEnable),
                    PropertyValueView::BitString(
                        seq![object.low_limit is Some, object.high_limit is Some],
                    ),
                )
            }
            &&& object.optional.description ==> reads(
                object.reading(PropertyIdentifier::Description),
                PropertyValueView::CharacterString(object.description@),
            )
            &&& !object.optional.description ==> is_unknown(
                object.reading(PropertyIdentifier::Description),
            )
            &&& object.optional.reliability ==> reads(
                object.reading(PropertyIdentifier::Reliability),
                PropertyValueView::Enumerated(object.reliability.number()),
            )
            &&& !object.optional.reliability ==> is_unknown(
                object.reading(PropertyIdentifier::Reliability),
            )
            &&& reads(
                object.reading(PropertyIdentifier::DeviceType),
                PropertyValueView::CharacterString(object.device_type@),
            )
        }),
{
}

/// What an analog output reads of itself.
pub proof fn law_analog_output_reads_what_it_holds(object: AnalogOutput)
    ensures
        reads_as_a_point(
            object,
            object.identifier,
            object.object_name@,
            1,
            object.event_state,
            object.reliability,
            object.overridden || object.local_override is Some,
            object.out_of_service,
        ),
        reads_its_reporting(object, object.alarm),
        ({
            &&& reads(
                object.reading(PropertyIdentifier::PresentValue),
                PropertyValueView::Real(
                    match object.local_override {
                        Some(held) => held.value,
                        None => object.present_value,
                    },
                ),
            )
            &&& reads(
                object.reading(PropertyIdentifier::Units),
                PropertyValueView::Enumerated(object.units.number()),
            )
            &&& match object.cov_increment {
                Some(increment) => reads(
                    object.reading(PropertyIdentifier::CovIncrement),
                    PropertyValueView::Real(increment),
                ),
                None => is_unknown(object.reading(PropertyIdentifier::CovIncrement)),
            }
            &&& object.alarm is Some ==> {
                &&& match object.high_limit {
                    Some(limit) => reads(
                        object.reading(PropertyIdentifier::HighLimit),
                        PropertyValueView::Real(limit),
                    ),
                    None => is_unknown(object.reading(PropertyIdentifier::HighLimit)),
                }
                &&& match object.low_limit {
                    Some(limit) => reads(
                        object.reading(PropertyIdentifier::LowLimit),
                        PropertyValueView::Real(limit),
                    ),
                    None => is_unknown(object.reading(PropertyIdentifier::LowLimit)),
                }
                &&& reads(
                    object.reading(PropertyIdentifier::Deadband),
                    PropertyValueView::Real(object.deadband),
                )
                &&& reads(
                    object.reading(PropertyIdentifier::LimitEnable),
                    PropertyValueView::BitString(
                        seq![object.low_limit is Some, object.high_limit is Some],
                    ),
                )
            }
            &&& object.optional.description ==> reads(
                object.reading(PropertyIdentifier::Description),
                PropertyValueView::CharacterString(object.description@),
            )
            &&& !object.optional.description ==> is_unknown(
                object.reading(PropertyIdentifier::Description),
            )
            &&& object.optional.reliability ==> reads(
                object.reading(PropertyIdentifier::Reliability),
                PropertyValueView::Enumerated(object.reliability.number()),
            )
            &&& !object.optional.reliability ==> is_unknown(
                object.reading(PropertyIdentifier::Reliability),
            )
            &&& reads(
                object.reading(PropertyIdentifier::DeviceType),
                PropertyValueView::CharacterString(object.device_type@),
            )
            &&& (object.reading(PropertyIdentifier::PriorityArray) matches Ok(
                PropertyValueView::Array(shown),
            ) && shown.len() == 16 && forall|i: int|
                0 <= i < 16 ==> (#[trigger] shown[i]) == match object.priority_array@[i] {
                    Some(command) => PropertyValueView::Real(command),
                    None => PropertyValueView::Null,
                })
            &&& reads(
                object.reading(PropertyIdentifier::RelinquishDefault),
                PropertyValueView::Real(object.relinquish_default),
            )
        }),
{
}

/// What an analog value reads of itself.
pub proof fn law_analog_value_reads_what_it_holds(object: AnalogValue)
    ensures
        reads_as_a_point(
            object,
            object.identifier,
            object.object_name@,
            2,
            object.event_state,
            object.reliability,
            object.overridden || object.local_override is Some,
            object.out_of_service,
        ),
        reads_its_reporting(object, object.alarm),
        ({
            &&& reads(
                object.reading(PropertyIdentifier::PresentValue),
                PropertyValueView::Real(
                    match object.local_override {
                        Some(held) => held.value,
                        None => object.present_value,
                    },
                ),
            )
            &&& reads(
                object.reading(PropertyIdentifier::Units),
                PropertyValueView::Enumerated(object.units.number()),
            )
            &&& match object.cov_increment {
                Some(increment) => reads(
                    object.reading(PropertyIdentifier::CovIncrement),
                    PropertyValueView::Real(increment),
                ),
                None => is_unknown(object.reading(PropertyIdentifier::CovIncrement)),
            }
            &&& object.alarm is Some ==> {
                &&& match object.high_limit {
                    Some(limit) => reads(
                        object.reading(PropertyIdentifier::HighLimit),
                        PropertyValueView::Real(limit),
                    ),
                    None => is_unknown(object.reading(PropertyIdentifier::HighLimit)),
                }
                &&& match object.low_limit {
                    Some(limit) => reads(
                        object.reading(PropertyIdentifier::LowLimit),
                        PropertyValueView::Real(limit),
                    ),
                    None => is_unknown(object.reading(PropertyIdentifier::LowLimit)),
                }
                &&& reads(
                    object.reading(PropertyIdentifier::Deadband),
                    PropertyValueView::Real(object.deadband),
                )
                &&& reads(
                    object.reading(PropertyIdentifier::LimitEnable),
                    PropertyValueView::BitString(
                        seq![object.low_limit is Some, object.high_limit is Some],
                    ),
                )
            }
            &&& object.optional.description ==> reads(
                object.reading(PropertyIdentifier::Description),
                PropertyValueView::CharacterString(object.description@),
            )
            &&& !object.optional.description ==> is_unknown(
                object.reading(PropertyIdentifier::Description),
            )
            &&& object.optional.reliability ==> reads(
                object.reading(PropertyIdentifier::Reliability),
                PropertyValueView::Enumerated(object.reliability.number()),
            )
            &&& !object.optional.reliability ==> is_unknown(
                object.reading(PropertyIdentifier::Reliability),
            )
            &&& object.commandable
                ==> (object.reading(PropertyIdentifier::PriorityArray) matches Ok(
                PropertyValueView::Array(shown),
            ) && shown.len() == 16 && forall|i: int|
                0 <= i < 16 ==> (#[trigger] shown[i]) == match object.priority_array@[i] {
                    Some(command) => PropertyValueView::Real(command),
                    None => PropertyValueView::Null,
                })
            &&& object.commandable ==> reads(
                object.reading(PropertyIdentifier::RelinquishDefault),
                PropertyValueView::Real(object.relinquish_default),
            )
        }),
{
}

/// What a binary input reads of itself.
pub proof fn law_binary_input_reads_what_it_holds(object: BinaryInput)
    ensures
        reads_as_a_point(
            object,
            object.identifier,
            object.object_name@,
            3,
            object.event_state,
            object.reliability,
            object.overridden,
            object.out_of_service,
        ),
        reads_its_reporting(object, object.alarm),
        ({
            &&& reads(
                object.reading(PropertyIdentifier::Description),
                PropertyValueView::CharacterString(object.description@),
            )
            &&& reads(
                object.reading(PropertyIdentifier::Reliability),
                PropertyValueView::Enumerated(object.reliability.number()),
            )
            &&& reads(
                object.reading(PropertyIdentifier::PresentValue),
                PropertyValueView::Enumerated(
                    if object.present_value is Active {
                        1
                    } else {
                        0
                    },
                ),
            )
            &&& reads(
                object.reading(PropertyIdentifier::InactiveText),
                PropertyValueView::CharacterString(object.inactive_text@),
            )
            &&& reads(
                object.reading(PropertyIdentifier::ActiveText),
                PropertyValueView::CharacterString(object.active_text@),
            )
            &&& object.alarm is Some ==> reads(
                object.reading(PropertyIdentifier::AlarmValue),
                PropertyValueView::Enumerated(
                    if object.alarm_value is Active {
                        1
                    } else {
                        0
                    },
                ),
            )
        }),
{
}

/// What a binary output reads of itself.
pub proof fn law_binary_output_reads_what_it_holds(object: BinaryOutput)
    ensures
        reads_as_a_point(
            object,
            object.identifier,
            object.object_name@,
            4,
            object.event_state,
            object.reliability,
            object.overridden,
            object.out_of_service,
        ),
        reads_its_reporting(object, object.alarm),
        ({
            &&& reads(
                object.reading(PropertyIdentifier::Description),
                PropertyValueView::CharacterString(object.description@),
            )
            &&& reads(
                object.reading(PropertyIdentifier::Reliability),
                PropertyValueView::Enumerated(object.reliability.number()),
            )
            &&& reads(
                object.reading(PropertyIdentifier::PresentValue),
                PropertyValueView::Enumerated(
                    if object.present_value is Active {
                        1
                    } else {
                        0
                    },
                ),
            )
            &&& reads(
                object.reading(PropertyIdentifier::InactiveText),
                PropertyValueView::CharacterString(object.inactive_text@),
            )
            &&& reads(
                object.reading(PropertyIdentifier::ActiveText),
                PropertyValueView::CharacterString(object.active_text@),
            )
            &&& object.alarm is Some ==> reads(
                object.reading(PropertyIdentifier::AlarmValue),
                PropertyValueView::Enumerated(
                    if object.alarm_value is Active {
                        1
                    } else {
                        0
                    },
                ),
            )
            &&& (object.reading(PropertyIdentifier::PriorityArray) matches Ok(
                PropertyValueView::Array(shown),
            ) && shown.len() == 16 && forall|i: int|
                0 <= i < 16 ==> (#[trigger] shown[i]) == match object.priority_array@[i] {
                    Some(command) => PropertyValueView::Enumerated(
                            if command is Active {
                                1
                            } else {
                                0
                            },
                        ),
                    None => PropertyValueView::Null,
                })
        }),
{
}

/// What a binary value reads of itself.
pub proof fn law_binary_value_reads_what_it_holds(object: BinaryValue)
    ensures
        reads_as_a_point(
            object,
            object.identifier,
            object.object_name@,
            5,
            object.event_state,
            object.reliability,
            object.overridden,
            object.out_of_service,
        ),
        reads_its_reporting(object, object.alarm),
        ({
            &&& reads(
                object.reading(PropertyIdentifier::Description),
                PropertyValueView::CharacterString(object.description@),
            )
            &&& reads(
                object.reading(PropertyIdentifier::Reliability),
                PropertyValueView::Enumerated(object.reliability.number()),
            )
            &&& reads(
                object.reading(PropertyIdentifier::PresentValue),
                PropertyValueView::Enumerated(
                    if object.present_value is Active {
                        1
                    } else {
                        0
                    },
                ),
            )
            &&& reads(
                object.reading(PropertyIdentifier::InactiveText),
                PropertyValueView::CharacterString(object.inactive_text@),
            )
            &&& reads(
                object.reading(PropertyIdentifier::ActiveText),
                PropertyValueView::CharacterString(object.active_text@),
            )
            &&& object.alarm is Some ==> reads(
                object.reading(PropertyIdentifier::AlarmValue),
                PropertyValueView::Enumerated(
                    if object.alarm_value is Active {
                        1
                    } else {
                        0
                    },
                ),
            )
            &&& (object.reading(PropertyIdentifier::PriorityArray) matches Ok(
                PropertyValueView::Array(shown),
            ) && shown.len() == 16 && forall|i: int|
                0 <= i < 16 ==> (#[trigger] shown[i]) == match object.priority_array@[i] {
                    Some(command) => PropertyValueView::Enumerated(
                            if command is Active {
                                1
                            } else {
                                0
                            },
                        ),
                    None => PropertyValueView::Null,
                })
        }),
{
}

/// What a multi-state input reads of itself.
pub proof fn law_multi_state_input_reads_what_it_holds(object: MultiStateInput)
    ensures
        reads_as_a_point(
            object,
            object.identifier,
            object.object_name@,
            13,
            object.event_state,
            object.reliability,
            object.overridden,
            object.out_of_service,
        ),
        reads_its_reporting(object, object.alarm),
        ({
            &&& reads(
                object.reading(PropertyIdentifier::Description),
                PropertyValueView::CharacterString(object.description@),
            )
            &&& reads(
                object.reading(PropertyIdentifier::Reliability),
                PropertyValueView::Enumerated(object.reliability.number()),
            )
            &&& reads(
                object.reading(PropertyIdentifier::PresentValue),
                PropertyValueView::Unsigned(object.present_value as u64),
            )
            &&& reads(
                object.reading(PropertyIdentifier::NumberOfStates),
                PropertyValueView::Unsigned(object.number_of_states as u64),
            )
            &&& object.reading(PropertyIdentifier::StateText) matches Ok(
                PropertyValueView::Array(shown),
            )
                && shown.len() == object.state_text@.len() && forall|i: int|
                0 <= i < shown.len()
                    ==> (#[trigger] shown[i]) == PropertyValueView::CharacterString(
                    object.state_text@[i]@,
                )
            &&& object.alarm is Some
                ==> (object.reading(PropertyIdentifier::AlarmValues) matches Ok(
                PropertyValueView::List(shown),
            ) && shown.len() == object.alarm_values@.len() && forall|i: int|
                0 <= i < shown.len() ==> (#[trigger] shown[i]) == PropertyValueView::Unsigned(
                    object.alarm_values@[i] as u64,
                ))
            &&& reads(
                object.reading(PropertyIdentifier::DeviceType),
                PropertyValueView::CharacterString(object.device_type@),
            )
        }),
{
}

/// What a multi-state output reads of itself.
pub proof fn law_multi_state_output_reads_what_it_holds(object: MultiStateOutput)
    ensures
        reads_as_a_point(
            object,
            object.identifier,
            object.object_name@,
            14,
            object.event_state,
            object.reliability,
            object.overridden,
            object.out_of_service,
        ),
        reads_its_reporting(object, object.alarm),
        ({
            &&& reads(
                object.reading(PropertyIdentifier::Description),
                PropertyValueView::CharacterString(object.description@),
            )
            &&& reads(
                object.reading(PropertyIdentifier::Reliability),
                PropertyValueView::Enumerated(object.reliability.number()),
            )
            &&& reads(
                object.reading(PropertyIdentifier::PresentValue),
                PropertyValueView::Unsigned(object.present_value as u64),
            )
            &&& reads(
                object.reading(PropertyIdentifier::NumberOfStates),
                PropertyValueView::Unsigned(object.number_of_states as u64),
            )
            &&& object.reading(PropertyIdentifier::StateText) matches Ok(
                PropertyValueView::Array(shown),
            )
                && shown.len() == object.state_text@.len() && forall|i: int|
                0 <= i < shown.len()
                    ==> (#[trigger] shown[i]) == PropertyValueView::CharacterString(
                    object.state_text@[i]@,
                )
            &&& object.alarm is Some
                ==> (object.reading(PropertyIdentifier::AlarmValues) matches Ok(
                PropertyValueView::List(shown),
            ) && shown.len() == object.alarm_values@.len() && forall|i: int|
                0 <= i < shown.len() ==> (#[trigger] shown[i]) == PropertyValueView::Unsigned(
                    object.alarm_values@[i] as u64,
                ))
            &&& reads(
                object.reading(PropertyIdentifier::DeviceType),
                PropertyValueView::CharacterString(object.device_type@),
            )
            &&& (object.reading(PropertyIdentifier::PriorityArray) matches Ok(
                PropertyValueView::Array(shown),
            ) && shown.len() == 16 && forall|i: int|
                0 <= i < 16 ==> (#[trigger] shown[i]) == match object.priority_array@[i] {
                    Some(command) => PropertyValueView::Unsigned(command as u64),
                    None => PropertyValueView::Null,
                })
            &&& reads(
                object.reading(PropertyIdentifier::RelinquishDefault),
                PropertyValueView::Unsigned(object.relinquish_default as u64),
            )
        }),
{
}

/// What a multi-state value reads of itself.
pub proof fn law_multi_state_value_reads_what_it_holds(object: MultiStateValue)
    ensures
        reads_as_a_point(
            object,
            object.identifier,
            object.object_name@,
            19,
            object.event_state,
            object.reliability,
            object.overridden,
            object.out_of_service,
        ),
        reads_its_reporting(object, object.alarm),
        ({
            &&& reads(
                object.reading(PropertyIdentifier::Description),
                PropertyValueView::CharacterString(object.description@),
            )
            &&& reads(
                object.reading(PropertyIdentifier::Reliability),
                PropertyValueView::Enumerated(object.reliability.number()),
            )
            &&& reads(
                object.reading(PropertyIdentifier::PresentValue),
                PropertyValueView::Unsigned(object.present_value as u64),
            )
            &&& reads(
                object.reading(PropertyIdentifier::NumberOfStates),
                PropertyValueView::Unsigned(object.number_of_states as u64),
            )
            &&& object.reading(PropertyIdentifier::StateText) matches Ok(
                PropertyValueView::Array(shown),
            )
                && shown.len() == object.state_text@.len() && forall|i: int|
                0 <= i < shown.len()
                    ==> (#[trigger] shown[i]) == PropertyValueView::CharacterString(
                    object.state_text@[i]@,
                )
            &&& object.alarm is Some
                ==> (object.reading(PropertyIdentifier::AlarmValues) matches Ok(
                PropertyValueView::List(shown),
            ) && shown.len() == object.alarm_values@.len() && forall|i: int|
                0 <= i < shown.len() ==> (#[trigger] shown[i]) == PropertyValueView::Unsigned(
                    object.alarm_values@[i] as u64,
                ))
            &&& (object.reading(PropertyIdentifier::PriorityArray) matches Ok(
                PropertyValueView::Array(shown),
            ) && shown.len() == 16 && forall|i: int|
                0 <= i < 16 ==> (#[trigger] shown[i]) == match object.priority_array@[i] {
                    Some(command) => PropertyValueView::Unsigned(command as u64),
                    None => PropertyValueView::Null,
                })
            &&& reads(
                object.reading(PropertyIdentifier::RelinquishDefault),
                PropertyValueView::Unsigned(object.relinquish_default as u64),
            )
        }),
{
}

// ---------------------------------------------------------------------------
// What alarms an object demands
// ---------------------------------------------------------------------------

/// An analog input demands the alarms of its own value and limits.
pub proof fn law_analog_input_alarms_by_its_limits(object: AnalogInput)
    ensures
        is_out_of_range_alarm(
            object.evaluation(),
            match object.local_override {
                Some(held) => held.value,
                None => object.present_value,
            },
            object.high_limit,
            object.low_limit,
            object.deadband,
            object.reliability,
            object.event_state,
            object.alarm,
        ),
{
}

/// An analog output demands the alarms of its own value and limits.
pub proof fn law_analog_output_alarms_by_its_limits(object: AnalogOutput)
    ensures
        is_out_of_range_alarm(
            object.evaluation(),
            match object.local_override {
                Some(held) => held.value,
                None => object.present_value,
            },
            object.high_limit,
            object.low_limit,
            object.deadband,
            object.reliability,
            object.event_state,
            object.alarm,
        ),
{
}

/// An analog value demands the alarms of its own value and limits.
pub proof fn law_analog_value_alarms_by_its_limits(object: AnalogValue)
    ensures
        is_out_of_range_alarm(
            object.evaluation(),
            match object.local_override {
                Some(held) => held.value,
                None => object.present_value,
            },
            object.high_limit,
            object.low_limit,
            object.deadband,
            object.reliability,
            object.event_state,
            object.alarm,
        ),
{
}

/// A binary input demands the alarm of its own value.
pub proof fn law_binary_input_alarms_by_its_value(object: BinaryInput)
    ensures
        is_change_of_state_alarm(
            object.evaluation(),
            object.present_value == object.alarm_value,
            AlarmTrigger::BinaryChange { active: object.present_value is Active },
            object.reliability,
            object.alarm,
        ),
{
}

/// A binary output demands the alarm of its own value.
pub proof fn law_binary_output_alarms_by_its_value(object: BinaryOutput)
    ensures
        is_change_of_state_alarm(
            object.evaluation(),
            object.present_value == object.alarm_value,
            AlarmTrigger::BinaryChange { active: object.present_value is Active },
            object.reliability,
            object.alarm,
        ),
{
}

/// A binary value demands the alarm of its own value.
pub proof fn law_binary_value_alarms_by_its_value(object: BinaryValue)
    ensures
        is_change_of_state_alarm(
            object.evaluation(),
            object.present_value == object.alarm_value,
            AlarmTrigger::BinaryChange { active: object.present_value is Active },
            object.reliability,
            object.alarm,
        ),
{
}

/// A multi-state input demands the alarm of its own state.
pub proof fn law_multi_state_input_alarms_by_its_state(object: MultiStateInput)
    ensures
        is_change_of_state_alarm(
            object.evaluation(),
            object.alarm_values@.contains(object.present_value),
            AlarmTrigger::MultistateChange { new_state: object.present_value },
            object.reliability,
            object.alarm,
        ),
{
}

/// A multi-state output demands the alarm of its own state.
pub proof fn law_multi_state_output_alarms_by_its_state(object: MultiStateOutput)
    ensures
        is_change_of_state_alarm(
            object.evaluation(),
            object.alarm_values@.contains(object.present_value),
            AlarmTrigger::MultistateChange { new_state: object.present_value },
            object.reliability,
            object.alarm,
        ),
{
}

/// A multi-state value demands the alarm of its own state.
pub proof fn law_multi_state_value_alarms_by_its_state(object: MultiStateValue)
    ensures
        is_change_of_state_alarm(
            object.evaluation(),
            object.alarm_values@.contains(object.present_value),
            AlarmTrigger::MultistateChange { new_state: object.present_value },
            object.reliability,
            object.alarm,
        ),
{
}

// ---------------------------------------------------------------------------
// What writing leaves
// ---------------------------------------------------------------------------

/// What writing a property of an analog input leaves: that property as it was written, and
/// all else as it was. What is refused leaves everything.
pub proof fn law_analog_input_takes_what_is_written(
    object: AnalogInput,
    after: AnalogInput,
    priority: Option<u8>,
    text: String,
    flag: bool,
    number: u64,
    raw: u32,
    bits: Vec<bool>,
    limit: Real,
    outcome: Result<(), ObjectErrorView>,
    property: PropertyIdentifier,
    value: PropertyValue,
)
    ensures
        object.writing(
            after,
            property,
            value,
            priority,
            outcome,
        ) && outcome is Err ==> after == object,
        object.writing(
            after,
            PropertyIdentifier::ObjectName,
            PropertyValue::CharacterString(text),
            priority,
            outcome,
        )
            ==> outcome is Ok && after == (AnalogInput { object_name: text, ..object }),
        object.optional.description && object.writing(
            after,
            PropertyIdentifier::Description,
            PropertyValue::CharacterString(text),
            priority,
            outcome,
        )
            ==> outcome is Ok && after == (AnalogInput { description: text, ..object }),
        object.writing(
            after,
            PropertyIdentifier::OutOfService,
            PropertyValue::Boolean(flag),
            priority,
            outcome,
        )
            ==> outcome is Ok && after == (AnalogInput { out_of_service: flag, ..object }),
        object.optional.reliability && object.writing(
            after,
            PropertyIdentifier::Reliability,
            PropertyValue::Enumerated(raw),
            priority,
            outcome,
        )
            ==> outcome is Ok && after.reliability.number() == raw
                && after.reliability == Reliability::of(raw)
            && after == (AnalogInput { reliability: after.reliability, ..object }),
        object.writing(after, PropertyIdentifier::ObjectIdentifier, value, priority, outcome)
            || object.writing(after, PropertyIdentifier::ObjectType, value, priority, outcome)
            || object.writing(after, PropertyIdentifier::StatusFlags, value, priority, outcome)
            || object.writing(after, PropertyIdentifier::EventState, value, priority, outcome)
            ==> outcome == Err::<(), ObjectErrorView>(ObjectErrorView::PropertyNotWritable),
        object.alarm matches Some(reporting) ==> {
            &&& object.writing(
                after,
                PropertyIdentifier::TimeDelay,
                PropertyValue::Unsigned(number),
                priority,
                outcome,
            )
                && number <= u32::MAX ==> outcome is Ok && after.alarm == Some(
                IntrinsicReporting { time_delay: number as u32, ..reporting },
            )
            &&& object.writing(
                after,
                PropertyIdentifier::NotificationClass,
                PropertyValue::Unsigned(number),
                priority,
                outcome,
            )
                && number <= u32::MAX ==> outcome is Ok && after.alarm == Some(
                IntrinsicReporting { notification_class: number as u32, ..reporting },
            )
            &&& object.writing(
                after,
                PropertyIdentifier::TimeDelayNormal,
                PropertyValue::Unsigned(number),
                priority,
                outcome,
            )
                && number <= u32::MAX ==> outcome is Ok && after.alarm == Some(
                IntrinsicReporting { time_delay_normal: Some(number as u32), ..reporting },
            )
            &&& object.writing(
                after,
                PropertyIdentifier::EventDetectionEnable,
                PropertyValue::Boolean(flag),
                priority,
                outcome,
            )
                ==> outcome is Ok && after.alarm == Some(
                IntrinsicReporting { event_detection_enable: flag, ..reporting },
            )
            &&& object.writing(
                after,
                PropertyIdentifier::EventEnable,
                PropertyValue::BitString(bits),
                priority,
                outcome,
            )
                && bits@.len() == 3 ==> {
                &&& outcome is Ok
                &&& after.alarm matches Some(changed)
                    && changed.event_enable.to_offnormal == bits@[0]
                    && changed.event_enable.to_fault == bits@[1]
                        && changed.event_enable.to_normal == bits@[2]
                    && changed == (IntrinsicReporting {
                    event_enable: changed.event_enable,
                    ..reporting
                })
            }
            &&& object.writing(
                after,
                PropertyIdentifier::AckedTransitions,
                PropertyValue::BitString(bits),
                priority,
                outcome,
            )
                ==> outcome == Err::<(), ObjectErrorView>(ObjectErrorView::PropertyNotWritable)
        },
        object.alarm is Some ==> {
            &&& object.writing(
                after,
                PropertyIdentifier::HighLimit,
                PropertyValue::Real(limit),
                priority,
                outcome,
            )
                ==> outcome is Ok && after == (AnalogInput { high_limit: Some(limit), ..object })
            &&& object.writing(
                after,
                PropertyIdentifier::LowLimit,
                PropertyValue::Real(limit),
                priority,
                outcome,
            )
                ==> outcome is Ok && after == (AnalogInput { low_limit: Some(limit), ..object })
            &&& object.writing(
                after,
                PropertyIdentifier::HighLimit,
                PropertyValue::Null,
                priority,
                outcome,
            )
                ==> outcome is Ok && after == (AnalogInput { high_limit: None, ..object })
            &&& object.writing(
                after,
                PropertyIdentifier::LowLimit,
                PropertyValue::Null,
                priority,
                outcome,
            )
                ==> outcome is Ok && after == (AnalogInput { low_limit: None, ..object })
            &&& object.writing(
                after,
                PropertyIdentifier::Deadband,
                PropertyValue::Real(limit),
                priority,
                outcome,
            )
                ==> outcome is Ok && after == (AnalogInput { deadband: limit, ..object })
        },
        object.writing(after, PropertyIdentifier::PresentValue, value, priority, outcome)
            ==> outcome == Err::<(), ObjectErrorView>(ObjectErrorView::PropertyNotWritable),
{
}

/// What writing a property of an analog output leaves: that property as it was written, and
/// all else as it was. What is refused leaves everything.
pub proof fn law_analog_output_takes_what_is_written(
    object: AnalogOutput,
    after: AnalogOutput,
    priority: Option<u8>,
    text: String,
    flag: bool,
    number: u64,
    raw: u32,
    bits: Vec<bool>,
    limit: Real,
    outcome: Result<(), ObjectErrorView>,
    property: PropertyIdentifier,
    value: PropertyValue,
)
    ensures
        object.writing(
            after,
            property,
            value,
            priority,
            outcome,
        ) && outcome is Err ==> after == object,
        object.writing(
            after,
            PropertyIdentifier::ObjectName,
            PropertyValue::CharacterString(text),
            priority,
            outcome,
        )
            ==> outcome is Ok && after == (AnalogOutput { object_name: text, ..object }),
        object.optional.description && object.writing(
            after,
            PropertyIdentifier::Description,
            PropertyValue::CharacterString(text),
            priority,
            outcome,
        )
            ==> outcome is Ok && after == (AnalogOutput { description: text, ..object }),
        object.writing(
            after,
            PropertyIdentifier::OutOfService,
            PropertyValue::Boolean(flag),
            priority,
            outcome,
        )
            ==> outcome is Ok && after == (AnalogOutput { out_of_service: flag, ..object }),
        object.optional.reliability && object.writing(
            after,
            PropertyIdentifier::Reliability,
            PropertyValue::Enumerated(raw),
            priority,
            outcome,
        )
            ==> outcome is Ok && after.reliability.number() == raw
                && after.reliability == Reliability::of(raw)
            && after == (AnalogOutput { reliability: after.reliability, ..object }),
        object.writing(after, PropertyIdentifier::ObjectIdentifier, value, priority, outcome)
            || object.writing(after, PropertyIdentifier::ObjectType, value, priority, outcome)
            || object.writing(after, PropertyIdentifier::StatusFlags, value, priority, outcome)
            || object.writing(after, PropertyIdentifier::EventState, value, priority, outcome)
            ==> outcome == Err::<(), ObjectErrorView>(ObjectErrorView::PropertyNotWritable),
        object.alarm matches Some(reporting) ==> {
            &&& object.writing(
                after,
                PropertyIdentifier::TimeDelay,
                PropertyValue::Unsigned(number),
                priority,
                outcome,
            )
                && number <= u32::MAX ==> outcome is Ok && after.alarm == Some(
                IntrinsicReporting { time_delay: number as u32, ..reporting },
            )
            &&& object.writing(
                after,
                PropertyIdentifier::NotificationClass,
                PropertyValue::Unsigned(number),
                priority,
                outcome,
            )
                && number <= u32::MAX ==> outcome is Ok && after.alarm == Some(
                IntrinsicReporting { notification_class: number as u32, ..reporting },
            )
            &&& object.writing(
                after,
                PropertyIdentifier::TimeDelayNormal,
                PropertyValue::Unsigned(number),
                priority,
                outcome,
            )
                && number <= u32::MAX ==> outcome is Ok && after.alarm == Some(
                IntrinsicReporting { time_delay_normal: Some(number as u32), ..reporting },
            )
            &&& object.writing(
                after,
                PropertyIdentifier::EventDetectionEnable,
                PropertyValue::Boolean(flag),
                priority,
                outcome,
            )
                ==> outcome is Ok && after.alarm == Some(
                IntrinsicReporting { event_detection_enable: flag, ..reporting },
            )
            &&& object.writing(
                after,
                PropertyIdentifier::EventEnable,
                PropertyValue::BitString(bits),
                priority,
                outcome,
            )
                && bits@.len() == 3 ==> {
                &&& outcome is Ok
                &&& after.alarm matches Some(changed)
                    && changed.event_enable.to_offnormal == bits@[0]
                    && changed.event_enable.to_fault == bits@[1]
                        && changed.event_enable.to_normal == bits@[2]
                    && changed == (IntrinsicReporting {
                    event_enable: changed.event_enable,
                    ..reporting
                })
            }
            &&& object.writing(
                after,
                PropertyIdentifier::AckedTransitions,
                PropertyValue::BitString(bits),
                priority,
                outcome,
            )
                ==> outcome == Err::<(), ObjectErrorView>(ObjectErrorView::PropertyNotWritable)
        },
        object.alarm is Some ==> {
            &&& object.writing(
                after,
                PropertyIdentifier::HighLimit,
                PropertyValue::Real(limit),
                priority,
                outcome,
            )
                ==> outcome is Ok && after == (AnalogOutput { high_limit: Some(limit), ..object })
            &&& object.writing(
                after,
                PropertyIdentifier::LowLimit,
                PropertyValue::Real(limit),
                priority,
                outcome,
            )
                ==> outcome is Ok && after == (AnalogOutput { low_limit: Some(limit), ..object })
            &&& object.writing(
                after,
                PropertyIdentifier::HighLimit,
                PropertyValue::Null,
                priority,
                outcome,
            )
                ==> outcome is Ok && after == (AnalogOutput { high_limit: None, ..object })
            &&& object.writing(
                after,
                PropertyIdentifier::LowLimit,
                PropertyValue::Null,
                priority,
                outcome,
            )
                ==> outcome is Ok && after == (AnalogOutput { low_limit: None, ..object })
            &&& object.writing(
                after,
                PropertyIdentifier::Deadband,
                PropertyValue::Real(limit),
                priority,
                outcome,
            )
                ==> outcome is Ok && after == (AnalogOutput { deadband: limit, ..object })
        },
{
}

/// What writing a property of an analog value leaves: that property as it was written, and
/// all else as it was. What is refused leaves everything.
pub proof fn law_analog_value_takes_what_is_written(
    object: AnalogValue,
    after: AnalogValue,
    priority: Option<u8>,
    text: String,
    flag: bool,
    number: u64,
    raw: u32,
    bits: Vec<bool>,
    limit: Real,
    outcome: Result<(), ObjectErrorView>,
    property: PropertyIdentifier,
    value: PropertyValue,
)
    ensures
        object.writing(
            after,
            property,
            value,
            priority,
            outcome,
        ) && outcome is Err ==> after == object,
        object.writing(
            after,
            PropertyIdentifier::ObjectName,
            PropertyValue::CharacterString(text),
            priority,
            outcome,
        )
            ==> outcome is Ok && after == (AnalogValue { object_name: text, ..object }),
        object.optional.description && object.writing(
            after,
            PropertyIdentifier::Description,
            PropertyValue::CharacterString(text),
            priority,
            outcome,
        )
            ==> outcome is Ok && after == (AnalogValue { description: text, ..object }),
        object.writing(
            after,
            PropertyIdentifier::OutOfService,
            PropertyValue::Boolean(flag),
            priority,
            outcome,
        )
            ==> outcome is Ok && after == (AnalogValue { out_of_service: flag, ..object }),
        object.optional.reliability && object.writing(
            after,
            PropertyIdentifier::Reliability,
            PropertyValue::Enumerated(raw),
            priority,
            outcome,
        )
            ==> outcome is Ok && after.reliability.number() == raw
                && after.reliability == Reliability::of(raw)
            && after == (AnalogValue { reliability: after.reliability, ..object }),
        object.writing(after, PropertyIdentifier::ObjectIdentifier, value, priority, outcome)
            || object.writing(after, PropertyIdentifier::ObjectType, value, priority, outcome)
            || object.writing(after, PropertyIdentifier::StatusFlags, value, priority, outcome)
            || object.writing(after, PropertyIdentifier::EventState, value, priority, outcome)
            ==> outcome == Err::<(), ObjectErrorView>(ObjectErrorView::PropertyNotWritable),
        object.alarm matches Some(reporting) ==> {
            &&& object.writing(
                after,
                PropertyIdentifier::TimeDelay,
                PropertyValue::Unsigned(number),
                priority,
                outcome,
            )
                && number <= u32::MAX ==> outcome is Ok && after.alarm == Some(
                IntrinsicReporting { time_delay: number as u32, ..reporting },
            )
            &&& object.writing(
                after,
                PropertyIdentifier::NotificationClass,
                PropertyValue::Unsigned(number),
                priority,
                outcome,
            )
                && number <= u32::MAX ==> outcome is Ok && after.alarm == Some(
                IntrinsicReporting { notification_class: number as u32, ..reporting },
            )
            &&& object.writing(
                after,
                PropertyIdentifier::TimeDelayNormal,
                PropertyValue::Unsigned(number),
                priority,
                outcome,
            )
                && number <= u32::MAX ==> outcome is Ok && after.alarm == Some(
                IntrinsicReporting { time_delay_normal: Some(number as u32), ..reporting },
            )
            &&& object.writing(
                after,
                PropertyIdentifier::EventDetectionEnable,
                PropertyValue::Boolean(flag),
                priority,
                outcome,
            )
                ==> outcome is Ok && after.alarm == Some(
                IntrinsicReporting { event_detection_enable: flag, ..reporting },
            )
            &&& object.writing(
                after,
                PropertyIdentifier::EventEnable,
                PropertyValue::BitString(bits),
                priority,
                outcome,
            )
                && bits@.len() == 3 ==> {
                &&& outcome is Ok
                &&& after.alarm matches Some(changed)
                    && changed.event_enable.to_offnormal == bits@[0]
                    && changed.event_enable.to_fault == bits@[1]
                        && changed.event_enable.to_normal == bits@[2]
                    && changed == (IntrinsicReporting {
                    event_enable: changed.event_enable,
                    ..reporting
                })
            }
            &&& object.writing(
                after,
                PropertyIdentifier::AckedTransitions,
                PropertyValue::BitString(bits),
                priority,
                outcome,
            )
                ==> outcome == Err::<(), ObjectErrorView>(ObjectErrorView::PropertyNotWritable)
        },
        object.alarm is Some ==> {
            &&& object.writing(
                after,
                PropertyIdentifier::HighLimit,
                PropertyValue::Real(limit),
                priority,
                outcome,
            )
                ==> outcome is Ok && after == (AnalogValue { high_limit: Some(limit), ..object })
            &&& object.writing(
                after,
                PropertyIdentifier::LowLimit,
                PropertyValue::Real(limit),
                priority,
                outcome,
            )
                ==> outcome is Ok && after == (AnalogValue { low_limit: Some(limit), ..object })
            &&& object.writing(
                after,
                PropertyIdentifier::HighLimit,
                PropertyValue::Null,
                priority,
                outcome,
            )
                ==> outcome is Ok && after == (AnalogValue { high_limit: None, ..object })
            &&& object.writing(
                after,
                PropertyIdentifier::LowLimit,
                PropertyValue::Null,
                priority,
                outcome,
            )
                ==> outcome is Ok && after == (AnalogValue { low_limit: None, ..object })
            &&& object.writing(
                after,
                PropertyIdentifier::Deadband,
                PropertyValue::Real(limit),
                priority,
                outcome,
            )
                ==> outcome is Ok && after == (AnalogValue { deadband: limit, ..object })
        },
{
}

/// What writing a property of a binary input leaves: that property as it was written, and
/// all else as it was. What is refused leaves everything.
pub proof fn law_binary_input_takes_what_is_written(
    object: BinaryInput,
    after: BinaryInput,
    priority: Option<u8>,
    text: String,
    flag: bool,
    number: u64,
    raw: u32,
    bits: Vec<bool>,
    outcome: Result<(), ObjectErrorView>,
    property: PropertyIdentifier,
    value: PropertyValue,
)
    ensures
        object.writing(
            after,
            property,
            value,
            priority,
            outcome,
        ) && outcome is Err ==> after == object,
        object.writing(
            after,
            PropertyIdentifier::ObjectName,
            PropertyValue::CharacterString(text),
            priority,
            outcome,
        )
            ==> outcome is Ok && after == (BinaryInput { object_name: text, ..object }),
        object.writing(
            after,
            PropertyIdentifier::Description,
            PropertyValue::CharacterString(text),
            priority,
            outcome,
        )
            ==> outcome is Ok && after == (BinaryInput { description: text, ..object }),
        object.writing(
            after,
            PropertyIdentifier::OutOfService,
            PropertyValue::Boolean(flag),
            priority,
            outcome,
        )
            ==> outcome is Ok && after == (BinaryInput { out_of_service: flag, ..object }),
        object.writing(
            after,
            PropertyIdentifier::Reliability,
            PropertyValue::Enumerated(raw),
            priority,
            outcome,
        )
            ==> outcome is Ok && after.reliability.number() == raw
                && after.reliability == Reliability::of(raw)
            && after == (BinaryInput { reliability: after.reliability, ..object }),
        object.writing(after, PropertyIdentifier::ObjectIdentifier, value, priority, outcome)
            || object.writing(after, PropertyIdentifier::ObjectType, value, priority, outcome)
            || object.writing(after, PropertyIdentifier::StatusFlags, value, priority, outcome)
            || object.writing(after, PropertyIdentifier::EventState, value, priority, outcome)
            ==> outcome == Err::<(), ObjectErrorView>(ObjectErrorView::PropertyNotWritable),
        object.alarm matches Some(reporting) ==> {
            &&& object.writing(
                after,
                PropertyIdentifier::TimeDelay,
                PropertyValue::Unsigned(number),
                priority,
                outcome,
            )
                && number <= u32::MAX ==> outcome is Ok && after.alarm == Some(
                IntrinsicReporting { time_delay: number as u32, ..reporting },
            )
            &&& object.writing(
                after,
                PropertyIdentifier::NotificationClass,
                PropertyValue::Unsigned(number),
                priority,
                outcome,
            )
                && number <= u32::MAX ==> outcome is Ok && after.alarm == Some(
                IntrinsicReporting { notification_class: number as u32, ..reporting },
            )
            &&& object.writing(
                after,
                PropertyIdentifier::TimeDelayNormal,
                PropertyValue::Unsigned(number),
                priority,
                outcome,
            )
                && number <= u32::MAX ==> outcome is Ok && after.alarm == Some(
                IntrinsicReporting { time_delay_normal: Some(number as u32), ..reporting },
            )
            &&& object.writing(
                after,
                PropertyIdentifier::EventDetectionEnable,
                PropertyValue::Boolean(flag),
                priority,
                outcome,
            )
                ==> outcome is Ok && after.alarm == Some(
                IntrinsicReporting { event_detection_enable: flag, ..reporting },
            )
            &&& object.writing(
                after,
                PropertyIdentifier::EventEnable,
                PropertyValue::BitString(bits),
                priority,
                outcome,
            )
                && bits@.len() == 3 ==> {
                &&& outcome is Ok
                &&& after.alarm matches Some(changed)
                    && changed.event_enable.to_offnormal == bits@[0]
                    && changed.event_enable.to_fault == bits@[1]
                        && changed.event_enable.to_normal == bits@[2]
                    && changed == (IntrinsicReporting {
                    event_enable: changed.event_enable,
                    ..reporting
                })
            }
            &&& object.writing(
                after,
                PropertyIdentifier::AckedTransitions,
                PropertyValue::BitString(bits),
                priority,
                outcome,
            )
                ==> outcome == Err::<(), ObjectErrorView>(ObjectErrorView::PropertyNotWritable)
        },
        object.alarm is Some ==> {
            &&& object.writing(
                after,
                PropertyIdentifier::AlarmValue,
                PropertyValue::Enumerated(raw),
                priority,
                outcome,
            )
                && raw <= 1 ==> outcome is Ok && (after.alarm_value is Active) == (raw == 1)
                && after == (BinaryInput { alarm_value: after.alarm_value, ..object })
            &&& object.writing(
                after,
                PropertyIdentifier::AlarmValue,
                PropertyValue::Boolean(flag),
                priority,
                outcome,
            )
                ==> outcome is Ok && (after.alarm_value is Active) == flag
                && after == (BinaryInput { alarm_value: after.alarm_value, ..object })
        },
        object.writing(after, PropertyIdentifier::PresentValue, value, priority, outcome)
            ==> outcome == Err::<(), ObjectErrorView>(ObjectErrorView::PropertyNotWritable),
{
}

/// What writing a property of a binary output leaves: that property as it was written, and
/// all else as it was. What is refused leaves everything.
pub proof fn law_binary_output_takes_what_is_written(
    object: BinaryOutput,
    after: BinaryOutput,
    priority: Option<u8>,
    text: String,
    flag: bool,
    number: u64,
    raw: u32,
    bits: Vec<bool>,
    outcome: Result<(), ObjectErrorView>,
    property: PropertyIdentifier,
    value: PropertyValue,
)
    ensures
        object.writing(
            after,
            property,
            value,
            priority,
            outcome,
        ) && outcome is Err ==> after == object,
        object.writing(
            after,
            PropertyIdentifier::ObjectName,
            PropertyValue::CharacterString(text),
            priority,
            outcome,
        )
            ==> outcome is Ok && after == (BinaryOutput { object_name: text, ..object }),
        object.writing(
            after,
            PropertyIdentifier::Description,
            PropertyValue::CharacterString(text),
            priority,
            outcome,
        )
            ==> outcome is Ok && after == (BinaryOutput { description: text, ..object }),
        object.writing(
            after,
            PropertyIdentifier::OutOfService,
            PropertyValue::Boolean(flag),
            priority,
            outcome,
        )
            ==> outcome is Ok && after == (BinaryOutput { out_of_service: flag, ..object }),
        object.writing(
            after,
            PropertyIdentifier::Reliability,
            PropertyValue::Enumerated(raw),
            priority,
            outcome,
        )
            ==> outcome is Ok && after.reliability.number() == raw
                && after.reliability == Reliability::of(raw)
            && after == (BinaryOutput { reliability: after.reliability, ..object }),
        object.writing(after, PropertyIdentifier::ObjectIdentifier, value, priority, outcome)
            || object.writing(after, PropertyIdentifier::ObjectType, value, priority, outcome)
            || object.writing(after, PropertyIdentifier::StatusFlags, value, priority, outcome)
            || object.writing(after, PropertyIdentifier::EventState, value, priority, outcome)
            ==> outcome == Err::<(), ObjectErrorView>(ObjectErrorView::PropertyNotWritable),
        object.alarm matches Some(reporting) ==> {
            &&& object.writing(
                after,
                PropertyIdentifier::TimeDelay,
                PropertyValue::Unsigned(number),
                priority,
                outcome,
            )
                && number <= u32::MAX ==> outcome is Ok && after.alarm == Some(
                IntrinsicReporting { time_delay: number as u32, ..reporting },
            )
            &&& object.writing(
                after,
                PropertyIdentifier::NotificationClass,
                PropertyValue::Unsigned(number),
                priority,
                outcome,
            )
                && number <= u32::MAX ==> outcome is Ok && after.alarm == Some(
                IntrinsicReporting { notification_class: number as u32, ..reporting },
            )
            &&& object.writing(
                after,
                PropertyIdentifier::TimeDelayNormal,
                PropertyValue::Unsigned(number),
                priority,
                outcome,
            )
                && number <= u32::MAX ==> outcome is Ok && after.alarm == Some(
                IntrinsicReporting { time_delay_normal: Some(number as u32), ..reporting },
            )
            &&& object.writing(
                after,
                PropertyIdentifier::EventDetectionEnable,
                PropertyValue::Boolean(flag),
                priority,
                outcome,
            )
                ==> outcome is Ok && after.alarm == Some(
                IntrinsicReporting { event_detection_enable: flag, ..reporting },
            )
            &&& object.writing(
                after,
                PropertyIdentifier::EventEnable,
                PropertyValue::BitString(bits),
                priority,
                outcome,
            )
                && bits@.len() == 3 ==> {
                &&& outcome is Ok
                &&& after.alarm matches Some(changed)
                    && changed.event_enable.to_offnormal == bits@[0]
                    && changed.event_enable.to_fault == bits@[1]
                        && changed.event_enable.to_normal == bits@[2]
                    && changed == (IntrinsicReporting {
                    event_enable: changed.event_enable,
                    ..reporting
                })
            }
            &&& object.writing(
                after,
                PropertyIdentifier::AckedTransitions,
                PropertyValue::BitString(bits),
                priority,
                outcome,
            )
                ==> outcome == Err::<(), ObjectErrorView>(ObjectErrorView::PropertyNotWritable)
        },
        object.alarm is Some ==> {
            &&& object.writing(
                after,
                PropertyIdentifier::AlarmValue,
                PropertyValue::Enumerated(raw),
                priority,
                outcome,
            )
                && raw <= 1 ==> outcome is Ok && (after.alarm_value is Active) == (raw == 1)
                && after == (BinaryOutput { alarm_value: after.alarm_value, ..object })
            &&& object.writing(
                after,
                PropertyIdentifier::AlarmValue,
                PropertyValue::Boolean(flag),
                priority,
                outcome,
            )
                ==> outcome is Ok && (after.alarm_value is Active) == flag
                && after == (BinaryOutput { alarm_value: after.alarm_value, ..object })
        },
{
}

/// What writing a property of a binary value leaves: that property as it was written, and
/// all else as it was. What is refused leaves everything.
pub proof fn law_binary_value_takes_what_is_written(
    object: BinaryValue,
    after: BinaryValue,
    priority: Option<u8>,
    text: String,
    flag: bool,
    number: u64,
    raw: u32,
    bits: Vec<bool>,
    outcome: Result<(), ObjectErrorView>,
    property: PropertyIdentifier,
    value: PropertyValue,
)
    ensures
        object.writing(
            after,
            property,
            value,
            priority,
            outcome,
        ) && outcome is Err ==> after == object,
        object.writing(
            after,
            PropertyIdentifier::ObjectName,
            PropertyValue::CharacterString(text),
            priority,
            outcome,
        )
            ==> outcome is Ok && after == (BinaryValue { object_name: text, ..object }),
        object.writing(
            after,
            PropertyIdentifier::Description,
            PropertyValue::CharacterString(text),
            priority,
            outcome,
        )
            ==> outcome is Ok && after == (BinaryValue { description: text, ..object }),
        object.writing(
            after,
            PropertyIdentifier::OutOfService,
            PropertyValue::Boolean(flag),
            priority,
            outcome,
        )
            ==> outcome is Ok && after == (BinaryValue { out_of_service: flag, ..object }),
        object.writing(
            after,
            PropertyIdentifier::Reliability,
            PropertyValue::Enumerated(raw),
            priority,
            outcome,
        )
            ==> outcome is Ok && after.reliability.number() == raw
                && after.reliability == Reliability::of(raw)
            && after == (BinaryValue { reliability: after.reliability, ..object }),
        object.writing(after, PropertyIdentifier::ObjectIdentifier, value, priority, outcome)
            || object.writing(after, PropertyIdentifier::ObjectType, value, priority, outcome)
            || object.writing(after, PropertyIdentifier::StatusFlags, value, priority, outcome)
            || object.writing(after, PropertyIdentifier::EventState, value, priority, outcome)
            ==> outcome == Err::<(), ObjectErrorView>(ObjectErrorView::PropertyNotWritable),
        object.alarm matches Some(reporting) ==> {
            &&& object.writing(
                after,
                PropertyIdentifier::TimeDelay,
                PropertyValue::Unsigned(number),
                priority,
                outcome,
            )
                && number <= u32::MAX ==> outcome is Ok && after.alarm == Some(
                IntrinsicReporting { time_delay: number as u32, ..reporting },
            )
            &&& object.writing(
                after,
                PropertyIdentifier::NotificationClass,
                PropertyValue::Unsigned(number),
                priority,
                outcome,
            )
                && number <= u32::MAX ==> outcome is Ok && after.alarm == Some(
                IntrinsicReporting { notification_class: number as u32, ..reporting },
            )
            &&& object.writing(
                after,
                PropertyIdentifier::TimeDelayNormal,
                PropertyValue::Unsigned(number),
                priority,
                outcome,
            )
                && number <= u32::MAX ==> outcome is Ok && after.alarm == Some(
                IntrinsicReporting { time_delay_normal: Some(number as u32), ..reporting },
            )
            &&& object.writing(
                after,
                PropertyIdentifier::EventDetectionEnable,
                PropertyValue::Boolean(flag),
                priority,
                outcome,
            )
                ==> outcome is Ok && after.alarm == Some(
                IntrinsicReporting { event_detection_enable: flag, ..reporting },
            )
            &&& object.writing(
                after,
                PropertyIdentifier::EventEnable,
                PropertyValue::BitString(bits),
                priority,
                outcome,
            )
                && bits@.len() == 3 ==> {
                &&& outcome is Ok
                &&& after.alarm matches Some(changed)
                    && changed.event_enable.to_offnormal == bits@[0]
                    && changed.event_enable.to_fault == bits@[1]
                        && changed.event_enable.to_normal == bits@[2]
                    && changed == (IntrinsicReporting {
                    event_enable: changed.event_enable,
                    ..reporting
                })
            }
            &&& object.writing(
                after,
                PropertyIdentifier::AckedTransitions,
                PropertyValue::BitString(bits),
                priority,
                outcome,
            )
                ==> outcome == Err::<(), ObjectErrorView>(ObjectErrorView::PropertyNotWritable)
        },
        object.alarm is Some ==> {
            &&& object.writing(
                after,
                PropertyIdentifier::AlarmValue,
                PropertyValue::Enumerated(raw),
                priority,
                outcome,
            )
                && raw <= 1 ==> outcome is Ok && (after.alarm_value is Active) == (raw == 1)
                && after == (BinaryValue { alarm_value: after.alarm_value, ..object })
            &&& object.writing(
                after,
                PropertyIdentifier::AlarmValue,
                PropertyValue::Boolean(flag),
                priority,
                outcome,
            )
                ==> outcome is Ok && (after.alarm_value is Active) == flag
                && after == (BinaryValue { alarm_value: after.alarm_value, ..object })
        },
{
}

/// What writing a property of a multi-state input leaves: that property as it was written, and
/// all else as it was. What is refused leaves everything.
pub proof fn law_multi_state_input_takes_what_is_written(
    object: MultiStateInput,
    after: MultiStateInput,
    priority: Option<u8>,
    text: String,
    flag: bool,
    number: u64,
    raw: u32,
    bits: Vec<bool>,
    states: Vec<PropertyValue>,
    outcome: Result<(), ObjectErrorView>,
    property: PropertyIdentifier,
    value: PropertyValue,
)
    ensures
        object.writing(
            after,
            property,
            value,
            priority,
            outcome,
        ) && outcome is Err ==> after == object,
        object.writing(
            after,
            PropertyIdentifier::ObjectName,
            PropertyValue::CharacterString(text),
            priority,
            outcome,
        )
            ==> outcome is Ok && after.object_name == text
                && after == (MultiStateInput {
                object_name: after.object_name,
                alarm_values: after.alarm_values,
                ..object
            }) && after.alarm_values@ == object.alarm_values@,
        object.writing(
            after,
            PropertyIdentifier::Description,
            PropertyValue::CharacterString(text),
            priority,
            outcome,
        )
            ==> outcome is Ok && after.description == text
                && after == (MultiStateInput {
                description: after.description,
                alarm_values: after.alarm_values,
                ..object
            }) && after.alarm_values@ == object.alarm_values@,
        object.writing(
            after,
            PropertyIdentifier::OutOfService,
            PropertyValue::Boolean(flag),
            priority,
            outcome,
        )
            ==> outcome is Ok && after.out_of_service == flag
                && after == (MultiStateInput {
                out_of_service: after.out_of_service,
                alarm_values: after.alarm_values,
                ..object
            }) && after.alarm_values@ == object.alarm_values@,
        object.writing(
            after,
            PropertyIdentifier::Reliability,
            PropertyValue::Enumerated(raw),
            priority,
            outcome,
        )
            ==> outcome is Ok && after.reliability.number() == raw
                && after.reliability == Reliability::of(raw)
            && after.reliability == after.reliability
                && after == (MultiStateInput {
                reliability: after.reliability,
                alarm_values: after.alarm_values,
                ..object
            }) && after.alarm_values@ == object.alarm_values@,
        object.writing(after, PropertyIdentifier::ObjectIdentifier, value, priority, outcome)
            || object.writing(after, PropertyIdentifier::ObjectType, value, priority, outcome)
            || object.writing(after, PropertyIdentifier::StatusFlags, value, priority, outcome)
            || object.writing(after, PropertyIdentifier::EventState, value, priority, outcome)
            ==> outcome == Err::<(), ObjectErrorView>(ObjectErrorView::PropertyNotWritable),
        object.alarm matches Some(reporting) ==> {
            &&& object.writing(
                after,
                PropertyIdentifier::TimeDelay,
                PropertyValue::Unsigned(number),
                priority,
                outcome,
            )
                && number <= u32::MAX ==> outcome is Ok && after.alarm == Some(
                IntrinsicReporting { time_delay: number as u32, ..reporting },
            )
            &&& object.writing(
                after,
                PropertyIdentifier::NotificationClass,
                PropertyValue::Unsigned(number),
                priority,
                outcome,
            )
                && number <= u32::MAX ==> outcome is Ok && after.alarm == Some(
                IntrinsicReporting { notification_class: number as u32, ..reporting },
            )
            &&& object.writing(
                after,
                PropertyIdentifier::TimeDelayNormal,
                PropertyValue::Unsigned(number),
                priority,
                outcome,
            )
                && number <= u32::MAX ==> outcome is Ok && after.alarm == Some(
                IntrinsicReporting { time_delay_normal: Some(number as u32), ..reporting },
            )
            &&& object.writing(
                after,
                PropertyIdentifier::EventDetectionEnable,
                PropertyValue::Boolean(flag),
                priority,
                outcome,
            )
                ==> outcome is Ok && after.alarm == Some(
                IntrinsicReporting { event_detection_enable: flag, ..reporting },
            )
            &&& object.writing(
                after,
                PropertyIdentifier::EventEnable,
                PropertyValue::BitString(bits),
                priority,
                outcome,
            )
                && bits@.len() == 3 ==> {
                &&& outcome is Ok
                &&& after.alarm matches Some(changed)
                    && changed.event_enable.to_offnormal == bits@[0]
                    && changed.event_enable.to_fault == bits@[1]
                        && changed.event_enable.to_normal == bits@[2]
                    && changed == (IntrinsicReporting {
                    event_enable: changed.event_enable,
                    ..reporting
                })
            }
            &&& object.writing(
                after,
                PropertyIdentifier::AckedTransitions,
                PropertyValue::BitString(bits),
                priority,
                outcome,
            )
                ==> outcome == Err::<(), ObjectErrorView>(ObjectErrorView::PropertyNotWritable)
        },
        object.writing(
            after,
            PropertyIdentifier::AlarmValues,
            PropertyValue::List(states),
            priority,
            outcome,
        )
            && (forall|i: int| 0 <= i < states@.len() ==> (#[trigger] states@[i]) is Unsigned
                && states@[i]->Unsigned_0 <= u32::MAX)
            ==> outcome is Ok && after.alarm_values@.len() == states@.len() && (forall|i: int|
            0 <= i < states@.len()
                ==> (#[trigger] after.alarm_values@[i]) == states@[i]->Unsigned_0),
        object.writing(after, PropertyIdentifier::PresentValue, value, priority, outcome)
            ==> outcome == Err::<(), ObjectErrorView>(ObjectErrorView::PropertyNotWritable),
{
}

/// What writing a property of a multi-state output leaves: that property as it was written, and
/// all else as it was. What is refused leaves everything.
pub proof fn law_multi_state_output_takes_what_is_written(
    object: MultiStateOutput,
    after: MultiStateOutput,
    priority: Option<u8>,
    text: String,
    flag: bool,
    number: u64,
    raw: u32,
    bits: Vec<bool>,
    states: Vec<PropertyValue>,
    outcome: Result<(), ObjectErrorView>,
    property: PropertyIdentifier,
    value: PropertyValue,
)
    ensures
        object.writing(
            after,
            property,
            value,
            priority,
            outcome,
        ) && outcome is Err ==> after == object,
        object.writing(
            after,
            PropertyIdentifier::ObjectName,
            PropertyValue::CharacterString(text),
            priority,
            outcome,
        )
            ==> outcome is Ok && after.object_name == text
                && after == (MultiStateOutput {
                object_name: after.object_name,
                alarm_values: after.alarm_values,
                ..object
            }) && after.alarm_values@ == object.alarm_values@,
        object.writing(
            after,
            PropertyIdentifier::Description,
            PropertyValue::CharacterString(text),
            priority,
            outcome,
        )
            ==> outcome is Ok && after.description == text
                && after == (MultiStateOutput {
                description: after.description,
                alarm_values: after.alarm_values,
                ..object
            }) && after.alarm_values@ == object.alarm_values@,
        object.writing(
            after,
            PropertyIdentifier::OutOfService,
            PropertyValue::Boolean(flag),
            priority,
            outcome,
        )
            ==> outcome is Ok && after.out_of_service == flag
                && after == (MultiStateOutput {
                out_of_service: after.out_of_service,
                alarm_values: after.alarm_values,
                ..object
            }) && after.alarm_values@ == object.alarm_values@,
        object.writing(
            after,
            PropertyIdentifier::Reliability,
            PropertyValue::Enumerated(raw),
            priority,
            outcome,
        )
            ==> outcome is Ok && after.reliability.number() == raw
                && after.reliability == Reliability::of(raw)
            && after.reliability == after.reliability
                && after == (MultiStateOutput {
                reliability: after.reliability,
                alarm_values: after.alarm_values,
                ..object
            }) && after.alarm_values@ == object.alarm_values@,
        object.writing(after, PropertyIdentifier::ObjectIdentifier, value, priority, outcome)
            || object.writing(after, PropertyIdentifier::ObjectType, value, priority, outcome)
            || object.writing(after, PropertyIdentifier::StatusFlags, value, priority, outcome)
            || object.writing(after, PropertyIdentifier::EventState, value, priority, outcome)
            ==> outcome == Err::<(), ObjectErrorView>(ObjectErrorView::PropertyNotWritable),
        object.alarm matches Some(reporting) ==> {
            &&& object.writing(
                after,
                PropertyIdentifier::TimeDelay,
                PropertyValue::Unsigned(number),
                priority,
                outcome,
            )
                && number <= u32::MAX ==> outcome is Ok && after.alarm == Some(
                IntrinsicReporting { time_delay: number as u32, ..reporting },
            )
            &&& object.writing(
                after,
                PropertyIdentifier::NotificationClass,
                PropertyValue::Unsigned(number),
                priority,
                outcome,
            )
                && number <= u32::MAX ==> outcome is Ok && after.alarm == Some(
                IntrinsicReporting { notification_class: number as u32, ..reporting },
            )
            &&& object.writing(
                after,
                PropertyIdentifier::TimeDelayNormal,
                PropertyValue::Unsigned(number),
                priority,
                outcome,
            )
                && number <= u32::MAX ==> outcome is Ok && after.alarm == Some(
                IntrinsicReporting { time_delay_normal: Some(number as u32), ..reporting },
            )
            &&& object.writing(
                after,
                PropertyIdentifier::EventDetectionEnable,
                PropertyValue::Boolean(flag),
                priority,
                outcome,
            )
                ==> outcome is Ok && after.alarm == Some(
                IntrinsicReporting { event_detection_enable: flag, ..reporting },
            )
            &&& object.writing(
                after,
                PropertyIdentifier::EventEnable,
                PropertyValue::BitString(bits),
                priority,
                outcome,
            )
                && bits@.len() == 3 ==> {
                &&& outcome is Ok
                &&& after.alarm matches Some(changed)
                    && changed.event_enable.to_offnormal == bits@[0]
                    && changed.event_enable.to_fault == bits@[1]
                        && changed.event_enable.to_normal == bits@[2]
                    && changed == (IntrinsicReporting {
                    event_enable: changed.event_enable,
                    ..reporting
                })
            }
            &&& object.writing(
                after,
                PropertyIdentifier::AckedTransitions,
                PropertyValue::BitString(bits),
                priority,
                outcome,
            )
                ==> outcome == Err::<(), ObjectErrorView>(ObjectErrorView::PropertyNotWritable)
        },
        object.writing(
            after,
            PropertyIdentifier::AlarmValues,
            PropertyValue::List(states),
            priority,
            outcome,
        )
            && (forall|i: int| 0 <= i < states@.len() ==> (#[trigger] states@[i]) is Unsigned
                && states@[i]->Unsigned_0 <= u32::MAX)
            ==> outcome is Ok && after.alarm_values@.len() == states@.len() && (forall|i: int|
            0 <= i < states@.len()
                ==> (#[trigger] after.alarm_values@[i]) == states@[i]->Unsigned_0),
{
}

/// What writing a property of a multi-state value leaves: that property as it was written, and
/// all else as it was. What is refused leaves everything.
pub proof fn law_multi_state_value_takes_what_is_written(
    object: MultiStateValue,
    after: MultiStateValue,
    priority: Option<u8>,
    text: String,
    flag: bool,
    number: u64,
    raw: u32,
    bits: Vec<bool>,
    states: Vec<PropertyValue>,
    outcome: Result<(), ObjectErrorView>,
    property: PropertyIdentifier,
    value: PropertyValue,
)
    ensures
        object.writing(
            after,
            property,
            value,
            priority,
            outcome,
        ) && outcome is Err ==> after == object,
        object.writing(
            after,
            PropertyIdentifier::ObjectName,
            PropertyValue::CharacterString(text),
            priority,
            outcome,
        )
            ==> outcome is Ok && after.object_name == text
                && after == (MultiStateValue {
                object_name: after.object_name,
                alarm_values: after.alarm_values,
                ..object
            }) && after.alarm_values@ == object.alarm_values@,
        object.writing(
            after,
            PropertyIdentifier::Description,
            PropertyValue::CharacterString(text),
            priority,
            outcome,
        )
            ==> outcome is Ok && after.description == text
                && after == (MultiStateValue {
                description: after.description,
                alarm_values: after.alarm_values,
                ..object
            }) && after.alarm_values@ == object.alarm_values@,
        object.writing(
            after,
            PropertyIdentifier::OutOfService,
            PropertyValue::Boolean(flag),
            priority,
            outcome,
        )
            ==> outcome is Ok && after.out_of_service == flag
                && after == (MultiStateValue {
                out_of_service: after.out_of_service,
                alarm_values: after.alarm_values,
                ..object
            }) && after.alarm_values@ == object.alarm_values@,
        object.writing(
            after,
            PropertyIdentifier::Reliability,
            PropertyValue::Enumerated(raw),
            priority,
            outcome,
        )
            ==> outcome is Ok && after.reliability.number() == raw
                && after.reliability == Reliability::of(raw)
            && after.reliability == after.reliability
                && after == (MultiStateValue {
                reliability: after.reliability,
                alarm_values: after.alarm_values,
                ..object
            }) && after.alarm_values@ == object.alarm_values@,
        object.writing(after, PropertyIdentifier::ObjectIdentifier, value, priority, outcome)
            || object.writing(after, PropertyIdentifier::ObjectType, value, priority, outcome)
            || object.writing(after, PropertyIdentifier::StatusFlags, value, priority, outcome)
            || object.writing(after, PropertyIdentifier::EventState, value, priority, outcome)
            ==> outcome == Err::<(), ObjectErrorView>(ObjectErrorView::PropertyNotWritable),
        object.alarm matches Some(reporting) ==> {
            &&& object.writing(
                after,
                PropertyIdentifier::TimeDelay,
                PropertyValue::Unsigned(number),
                priority,
                outcome,
            )
                && number <= u32::MAX ==> outcome is Ok && after.alarm == Some(
                IntrinsicReporting { time_delay: number as u32, ..reporting },
            )
            &&& object.writing(
                after,
                PropertyIdentifier::NotificationClass,
                PropertyValue::Unsigned(number),
                priority,
                outcome,
            )
                && number <= u32::MAX ==> outcome is Ok && after.alarm == Some(
                IntrinsicReporting { notification_class: number as u32, ..reporting },
            )
            &&& object.writing(
                after,
                PropertyIdentifier::TimeDelayNormal,
                PropertyValue::Unsigned(number),
                priority,
                outcome,
            )
                && number <= u32::MAX ==> outcome is Ok && after.alarm == Some(
                IntrinsicReporting { time_delay_normal: Some(number as u32), ..reporting },
            )
            &&& object.writing(
                after,
                PropertyIdentifier::EventDetectionEnable,
                PropertyValue::Boolean(flag),
                priority,
                outcome,
            )
                ==> outcome is Ok && after.alarm == Some(
                IntrinsicReporting { event_detection_enable: flag, ..reporting },
            )
            &&& object.writing(
                after,
                PropertyIdentifier::EventEnable,
                PropertyValue::BitString(bits),
                priority,
                outcome,
            )
                && bits@.len() == 3 ==> {
                &&& outcome is Ok
                &&& after.alarm matches Some(changed)
                    && changed.event_enable.to_offnormal == bits@[0]
                    && changed.event_enable.to_fault == bits@[1]
                        && changed.event_enable.to_normal == bits@[2]
                    && changed == (IntrinsicReporting {
                    event_enable: changed.event_enable,
                    ..reporting
                })
            }
            &&& object.writing(
                after,
                PropertyIdentifier::AckedTransitions,
                PropertyValue::BitString(bits),
                priority,
                outcome,
            )
                ==> outcome == Err::<(), ObjectErrorView>(ObjectErrorView::PropertyNotWritable)
        },
        object.writing(
            after,
            PropertyIdentifier::AlarmValues,
            PropertyValue::List(states),
            priority,
            outcome,
        )
            && (forall|i: int| 0 <= i < states@.len() ==> (#[trigger] states@[i]) is Unsigned
                && states@[i]->Unsigned_0 <= u32::MAX)
            ==> outcome is Ok && after.alarm_values@.len() == states@.len() && (forall|i: int|
            0 <= i < states@.len()
                ==> (#[trigger] after.alarm_values@[i]) == states@[i]->Unsigned_0),
{
}

// ---------------------------------------------------------------------------
// What commanding leaves
// ---------------------------------------------------------------------------

/// What commanding an analog output leaves: the command stands in the slot of its priority,
/// the last where it names none, and the value is that of the most urgent command. A null
/// takes the command out again. There are sixteen priorities.
pub proof fn law_analog_output_obeys_its_most_urgent_command(
    object: AnalogOutput,
    after: AnalogOutput,
    command: Real,
    priority: Option<u8>,
    outcome: Result<(), ObjectErrorView>,
)
    ensures
        ({
            let place = match priority {
                Some(priority) => priority - 1,
                None => 15,
            };
            let sets = object.writing(
                after,
                PropertyIdentifier::PresentValue,
                PropertyValue::Real(command),
                priority,
                outcome,
            );
            let clears = object.writing(
                after,
                PropertyIdentifier::PresentValue,
                PropertyValue::Null,
                priority,
                outcome,
            );
            &&& (object.local_override matches Some(held) ==> held.writes is Accepted) && sets
                && 0 <= place < 16 ==> {
                &&& outcome is Ok
                &&& after.priority_array@ == object.priority_array@.update(place, Some(command))
                &&& is_in_force(
                    after.priority_array@,
                    object.relinquish_default,
                    after.present_value,
                )
                &&& after == (AnalogOutput {
                    priority_array: after.priority_array,
                    present_value: after.present_value,
                    ..object
                })
            }
            &&& (object.local_override matches Some(held) ==> held.writes is Accepted)
                && clears && 0 <= place < 16 ==> {
                &&& outcome is Ok
                &&& after.priority_array@ == object.priority_array@.update(place, None)
                &&& is_in_force(
                    after.priority_array@,
                    object.relinquish_default,
                    after.present_value,
                )
                &&& after == (AnalogOutput {
                    priority_array: after.priority_array,
                    present_value: after.present_value,
                    ..object
                })
            }
            &&& (object.local_override matches Some(held) ==> held.writes is Accepted)
                && (sets || clears) && !(0 <= place < 16) ==> outcome == Err::<
                (),
                ObjectErrorView,
            >(ObjectErrorView::InvalidValue("Priority must be between 1 and 16"@)) && after
                == object
            &&& (sets || clears) && (object.local_override matches Some(held)
                && held.writes is Denied)
                ==> outcome == Err::<(), ObjectErrorView>(ObjectErrorView::WriteAccessDenied)
                && after == object
        }),
{
    law_the_lowest_priority_number_rules(after.priority_array@, object.relinquish_default);
}

/// What commanding an analog value leaves: the command stands in the slot of its priority,
/// the last where it names none, and the value is that of the most urgent command. A null
/// takes the command out again. There are sixteen priorities.
pub proof fn law_analog_value_obeys_its_most_urgent_command(
    object: AnalogValue,
    after: AnalogValue,
    command: Real,
    priority: Option<u8>,
    outcome: Result<(), ObjectErrorView>,
)
    ensures
        ({
            let place = match priority {
                Some(priority) => priority - 1,
                None => 15,
            };
            let sets = object.writing(
                after,
                PropertyIdentifier::PresentValue,
                PropertyValue::Real(command),
                priority,
                outcome,
            );
            let clears = object.writing(
                after,
                PropertyIdentifier::PresentValue,
                PropertyValue::Null,
                priority,
                outcome,
            );
            &&& (object.local_override matches Some(held) ==> held.writes is Accepted)
                && object.commandable && sets && 0 <= place < 16 ==> {
                &&& outcome is Ok
                &&& after.priority_array@ == object.priority_array@.update(place, Some(command))
                &&& is_in_force(
                    after.priority_array@,
                    object.relinquish_default,
                    after.present_value,
                )
                &&& after == (AnalogValue {
                    priority_array: after.priority_array,
                    present_value: after.present_value,
                    ..object
                })
            }
            &&& (object.local_override matches Some(held) ==> held.writes is Accepted)
                && object.commandable && clears && 0 <= place < 16 ==> {
                &&& outcome is Ok
                &&& after.priority_array@ == object.priority_array@.update(place, None)
                &&& is_in_force(
                    after.priority_array@,
                    object.relinquish_default,
                    after.present_value,
                )
                &&& after == (AnalogValue {
                    priority_array: after.priority_array,
                    present_value: after.present_value,
                    ..object
                })
            }
            &&& (object.local_override matches Some(held) ==> held.writes is Accepted)
                && object.commandable && (sets || clears) && !(0 <= place < 16)
                ==> outcome == Err::<
                (),
                ObjectErrorView,
            >(ObjectErrorView::InvalidValue("Priority must be between 1 and 16"@)) && after
                == object
            &&& (sets || clears) && (object.local_override matches Some(held)
                && held.writes is Denied)
                ==> outcome == Err::<(), ObjectErrorView>(ObjectErrorView::WriteAccessDenied)
                && after == object
            &&& sets && !object.commandable && (object.local_override matches Some(held)
                ==> held.writes is Accepted) ==> outcome is Ok && after == (AnalogValue {
                present_value: command,
                ..object
            })
        }),
{
    law_the_lowest_priority_number_rules(after.priority_array@, object.relinquish_default);
}

/// What commanding a binary output leaves: the command stands in the slot of its priority,
/// the last where it names none, and the value is that of the most urgent command. A null
/// takes the command out again. There are sixteen priorities.
pub proof fn law_binary_output_obeys_its_most_urgent_command(
    object: BinaryOutput,
    after: BinaryOutput,
    command: BinaryPV,
    priority: Option<u8>,
    outcome: Result<(), ObjectErrorView>,
)
    ensures
        ({
            let place = match priority {
                Some(priority) => priority - 1,
                None => 15,
            };
            let sets = object.writing(
                after,
                PropertyIdentifier::PresentValue,
                PropertyValue::Enumerated(
                if command is Active {
                    1
                } else {
                    0
                },
            ),
                priority,
                outcome,
            );
            let clears = object.writing(
                after,
                PropertyIdentifier::PresentValue,
                PropertyValue::Null,
                priority,
                outcome,
            );
            &&& sets && 0 <= place < 16 ==> {
                &&& outcome is Ok
                &&& after.priority_array@ == object.priority_array@.update(place, Some(command))
                &&& is_in_force(
                    after.priority_array@,
                    object.relinquish_default,
                    after.present_value,
                )
                &&& after == (BinaryOutput {
                    priority_array: after.priority_array,
                    present_value: after.present_value,
                    ..object
                })
            }
            &&& clears && 0 <= place < 16 ==> {
                &&& outcome is Ok
                &&& after.priority_array@ == object.priority_array@.update(place, None)
                &&& is_in_force(
                    after.priority_array@,
                    object.relinquish_default,
                    after.present_value,
                )
                &&& after == (BinaryOutput {
                    priority_array: after.priority_array,
                    present_value: after.present_value,
                    ..object
                })
            }
            &&& (sets || clears) && !(0 <= place < 16) ==> outcome == Err::<
                (),
                ObjectErrorView,
            >(ObjectErrorView::InvalidValue("Priority must be between 1 and 16"@)) && after
                == object
        }),
{
    law_the_lowest_priority_number_rules(after.priority_array@, object.relinquish_default);
}

/// What commanding a binary value leaves: the command stands in the slot of its priority,
/// the last where it names none, and the value is that of the most urgent command. A null
/// takes the command out again. There are sixteen priorities.
pub proof fn law_binary_value_obeys_its_most_urgent_command(
    object: BinaryValue,
    after: BinaryValue,
    command: BinaryPV,
    priority: Option<u8>,
    outcome: Result<(), ObjectErrorView>,
)
    ensures
        ({
            let place = match priority {
                Some(priority) => priority - 1,
                None => 15,
            };
            let sets = object.writing(
                after,
                PropertyIdentifier::PresentValue,
                PropertyValue::Enumerated(
                if command is Active {
                    1
                } else {
                    0
                },
            ),
                priority,
                outcome,
            );
            let clears = object.writing(
                after,
                PropertyIdentifier::PresentValue,
                PropertyValue::Null,
                priority,
                outcome,
            );
            &&& sets && 0 <= place < 16 ==> {
                &&& outcome is Ok
                &&& after.priority_array@ == object.priority_array@.update(place, Some(command))
                &&& is_in_force(
                    after.priority_array@,
                    object.relinquish_default,
                    after.present_value,
                )
                &&& after == (BinaryValue {
                    priority_array: after.priority_array,
                    present_value: after.present_value,
                    ..object
                })
            }
            &&& clears && 0 <= place < 16 ==> {
                &&& outcome is Ok
                &&& after.priority_array@ == object.priority_array@.update(place, None)
                &&& is_in_force(
                    after.priority_array@,
                    object.relinquish_default,
                    after.present_value,
                )
                &&& after == (BinaryValue {
                    priority_array: after.priority_array,
                    present_value: after.present_value,
                    ..object
                })
            }
            &&& (sets || clears) && !(0 <= place < 16) ==> outcome == Err::<
                (),
                ObjectErrorView,
            >(ObjectErrorView::InvalidValue("Priority must be between 1 and 16"@)) && after
                == object
        }),
{
    law_the_lowest_priority_number_rules(after.priority_array@, object.relinquish_default);
}

/// What commanding a multi-state output leaves: the command stands in the slot of its priority,
/// the last where it names none, and the value is that of the most urgent command. A null
/// takes the command out again. There are sixteen priorities.
pub proof fn law_multi_state_output_obeys_its_most_urgent_command(
    object: MultiStateOutput,
    after: MultiStateOutput,
    command: u32,
    priority: Option<u8>,
    outcome: Result<(), ObjectErrorView>,
)
    ensures
        ({
            let place = match priority {
                Some(priority) => priority - 1,
                None => 15,
            };
            let sets = object.writing(
                after,
                PropertyIdentifier::PresentValue,
                PropertyValue::Unsigned(command as u64),
                priority,
                outcome,
            );
            let clears = object.writing(
                after,
                PropertyIdentifier::PresentValue,
                PropertyValue::Null,
                priority,
                outcome,
            );
            &&& sets && 0 <= place < 16 && 1 <= command <= object.number_of_states ==> {
                &&& outcome is Ok
                &&& after.priority_array@ == object.priority_array@.update(place, Some(command))
                &&& is_in_force(
                    after.priority_array@,
                    object.relinquish_default,
                    after.present_value,
                )
                &&& after == (MultiStateOutput {
                    priority_array: after.priority_array,
                    present_value: after.present_value,
                    ..object
                })
            }
            &&& clears && 0 <= place < 16 ==> {
                &&& outcome is Ok
                &&& after.priority_array@ == object.priority_array@.update(place, None)
                &&& is_in_force(
                    after.priority_array@,
                    object.relinquish_default,
                    after.present_value,
                )
                &&& after == (MultiStateOutput {
                    priority_array: after.priority_array,
                    present_value: after.present_value,
                    ..object
                })
            }
            &&& (sets || clears) && !(0 <= place < 16)
                && 1 <= command <= object.number_of_states ==> outcome == Err::<
                (),
                ObjectErrorView,
            >(ObjectErrorView::InvalidValue("Priority must be between 1 and 16"@)) && after
                == object
            &&& sets && !(1 <= command <= object.number_of_states) ==> outcome == Err::<
                (),
                ObjectErrorView,
            >(
                ObjectErrorView::InvalidValue(
                    "Value must be between 1 and "@ + text::decimal(object.number_of_states as nat),
                ),
            ) && after == object
        }),
{
    law_the_lowest_priority_number_rules(after.priority_array@, object.relinquish_default);
}

/// What commanding a multi-state value leaves: the command stands in the slot of its priority,
/// the last where it names none, and the value is that of the most urgent command. A null
/// takes the command out again. There are sixteen priorities.
pub proof fn law_multi_state_value_obeys_its_most_urgent_command(
    object: MultiStateValue,
    after: MultiStateValue,
    command: u32,
    priority: Option<u8>,
    outcome: Result<(), ObjectErrorView>,
)
    ensures
        ({
            let place = match priority {
                Some(priority) => priority - 1,
                None => 15,
            };
            let sets = object.writing(
                after,
                PropertyIdentifier::PresentValue,
                PropertyValue::Unsigned(command as u64),
                priority,
                outcome,
            );
            let clears = object.writing(
                after,
                PropertyIdentifier::PresentValue,
                PropertyValue::Null,
                priority,
                outcome,
            );
            &&& sets && 0 <= place < 16 && 1 <= command <= object.number_of_states ==> {
                &&& outcome is Ok
                &&& after.priority_array@ == object.priority_array@.update(place, Some(command))
                &&& is_in_force(
                    after.priority_array@,
                    object.relinquish_default,
                    after.present_value,
                )
                &&& after == (MultiStateValue {
                    priority_array: after.priority_array,
                    present_value: after.present_value,
                    ..object
                })
            }
            &&& clears && 0 <= place < 16 ==> {
                &&& outcome is Ok
                &&& after.priority_array@ == object.priority_array@.update(place, None)
                &&& is_in_force(
                    after.priority_array@,
                    object.relinquish_default,
                    after.present_value,
                )
                &&& after == (MultiStateValue {
                    priority_array: after.priority_array,
                    present_value: after.present_value,
                    ..object
                })
            }
            &&& (sets || clears) && !(0 <= place < 16)
                && 1 <= command <= object.number_of_states ==> outcome == Err::<
                (),
                ObjectErrorView,
            >(ObjectErrorView::InvalidValue("Priority must be between 1 and 16"@)) && after
                == object
            &&& sets && !(1 <= command <= object.number_of_states) ==> outcome == Err::<
                (),
                ObjectErrorView,
            >(
                ObjectErrorView::InvalidValue(
                    "Value must be between 1 and "@ + text::decimal(object.number_of_states as nat),
                ),
            ) && after == object
        }),
{
    law_the_lowest_priority_number_rules(after.priority_array@, object.relinquish_default);
}

// ---------------------------------------------------------------------------
// What the plant supplies
// ---------------------------------------------------------------------------

/// An input takes the value that its source supplies, whatever it showed, and nothing
/// else changes. A value of another kind is refused.
pub proof fn law_inputs_follow_their_source(
    analog: AnalogInput,
    after_analog: AnalogInput,
    number: Real,
    binary: BinaryInput,
    after_binary: BinaryInput,
    active: bool,
    multi: MultiStateInput,
    after_multi: MultiStateInput,
    state: u32,
    outcome: Result<(), ObjectErrorView>,
)
    ensures
        analog.sourcing(after_analog, PropertyValue::Real(number), outcome) ==> outcome is Ok
            && after_analog == (AnalogInput { present_value: number, ..analog }),
        analog.sourcing(after_analog, PropertyValue::Null, outcome) ==> outcome == Err::<
            (),
            ObjectErrorView,
        >(ObjectErrorView::InvalidPropertyType) && after_analog == analog,
        binary.sourcing(
            after_binary,
            PropertyValue::Enumerated(
                if active {
                    1
                } else {
                    0
                },
            ),
            outcome,
        ) ==> outcome is Ok && (after_binary.present_value is Active) == active && after_binary == (
        BinaryInput { present_value: after_binary.present_value, ..binary }),
        multi.sourcing(after_multi, PropertyValue::Unsigned(state as u64), outcome) && 1 <= state
            <= multi.number_of_states ==> outcome is Ok && after_multi == (MultiStateInput {
            present_value: state,
            ..multi
        }),
        multi.sourcing(after_multi, PropertyValue::Unsigned(state as u64), outcome) && !(1 <= state
            <= multi.number_of_states) ==> outcome is Err && after_multi == multi,
{
}

} // verus!
