//! Which properties objects say they have, and which they say can be written.

use crate::object::analog;
use crate::object::analog::{AnalogInput, AnalogOutput, AnalogValue, AnalogView};
use crate::object::base::BacnetObject;
use crate::object::binary::{BinaryInput, BinaryOutput, BinaryValue};
use crate::object::calendar::Calendar;
use crate::object::common;
use crate::object::common::OptionalProperties;
use crate::object::device::Device;
use crate::object::identifier::PropertyIdentifier;
use crate::object::intrinsic;
use crate::object::multistate::{MultiStateInput, MultiStateOutput, MultiStateValue};
use crate::object::notification_class::NotificationClass;
use crate::object::schedule::Schedule;
use vstd::prelude::*;

verus! {

/// The properties that every point has.
pub open spec fn is_basic(property: PropertyIdentifier) -> bool {
    property is ObjectIdentifier || property is ObjectName || property is ObjectType
        || property is PresentValue || property is StatusFlags || property is EventState
        || property is OutOfService
}

/// The properties of a point that reports events.
pub open spec fn is_of_reporting(property: PropertyIdentifier) -> bool {
    property is NotificationClass || property is TimeDelay || property is TimeDelayNormal
        || property is EventEnable || property is AckedTransitions || property is NotifyType
        || property is EventDetectionEnable || property is EventTimeStamps
}

/// The settings of a point that reports events.
pub open spec fn is_reporting_setting(property: PropertyIdentifier) -> bool {
    property is NotificationClass || property is TimeDelay || property is TimeDelayNormal
        || property is EventEnable || property is NotifyType || property is EventDetectionEnable
}

/// What stands in a list that properties are taken out of is what is left in.
proof fn lemma_retained(
    optional: OptionalProperties,
    properties: Seq<PropertyIdentifier>,
    property: PropertyIdentifier,
)
    ensures
        common::retained(optional, properties).contains(property) <==> properties.contains(property)
            && (property is Description ==> optional.description) && (property is Reliability
            ==> optional.reliability),
    decreases properties.len(),
{
    reveal(Seq::filter);
    if properties.len() > 0 {
        let shorter = properties.drop_last();
        lemma_retained(optional, shorter, property);
        let kept = common::retained(optional, shorter);
        let whole = common::retained(optional, properties);
        if properties.contains(property) {
            let at = properties.index_of(property);
            if at < shorter.len() {
                assert(shorter[at] == property);
            }
        }
        if shorter.contains(property) {
            assert(properties[shorter.index_of(property)] == property);
        }
        if kept.contains(property) {
            assert(whole[kept.index_of(property)] == property);
        }
        if whole.len() > kept.len() {
            assert(whole[kept.len() as int] == properties.last());
        }
        if whole.contains(property) {
            let at = whole.index_of(property);
            if at < kept.len() {
                assert(kept[at] == property);
            }
        }
    }
}

/// What two lists hold together is what either holds.
proof fn lemma_together(
    a: Seq<PropertyIdentifier>,
    b: Seq<PropertyIdentifier>,
    property: PropertyIdentifier,
)
    ensures
        (a + b).contains(property) <==> a.contains(property) || b.contains(property),
{
    let both = a + b;
    if a.contains(property) {
        assert(both[a.index_of(property)] == property);
    }
    if b.contains(property) {
        assert(both[a.len() + b.index_of(property)] == property);
    }
    if both.contains(property) {
        let at = both.index_of(property);
        if at < a.len() {
            assert(a[at] == property);
        } else {
            assert(b[at - a.len()] == property);
        }
    }
}

/// What analog objects list before optional properties are taken out.
proof fn lemma_analog_properties(
    device_type: bool,
    commandable: bool,
    view: AnalogView,
    property: PropertyIdentifier,
)
    ensures
        analog::analog_properties(device_type, commandable, view).contains(property) <==> {
            is_basic(property) || property is Units || property is Description
                || property is Reliability || device_type && property is DeviceType || commandable
                && (property is PriorityArray || property is RelinquishDefault)
                || property is CovIncrement && view.cov_increment is Some || view.alarm is Some && (
            is_of_reporting(property) || (property is Deadband || property is LimitEnable) && (
            view.high_limit is Some || view.low_limit is Some) || property is HighLimit
                && view.high_limit is Some || property is LowLimit && view.low_limit is Some)
        },
{
    let none = Seq::<PropertyIdentifier>::empty();
    let first = seq![
        PropertyIdentifier::ObjectIdentifier,
        PropertyIdentifier::ObjectName,
        PropertyIdentifier::ObjectType,
        PropertyIdentifier::PresentValue,
        PropertyIdentifier::Description,
    ];
    let second = if device_type {
        seq![PropertyIdentifier::DeviceType]
    } else {
        none
    };
    let third = seq![
        PropertyIdentifier::StatusFlags,
        PropertyIdentifier::EventState,
        PropertyIdentifier::Reliability,
        PropertyIdentifier::OutOfService,
        PropertyIdentifier::Units,
    ];
    let fourth = if commandable {
        seq![PropertyIdentifier::PriorityArray, PropertyIdentifier::RelinquishDefault]
    } else {
        none
    };
    let fifth = if view.cov_increment is Some {
        seq![PropertyIdentifier::CovIncrement]
    } else {
        none
    };
    let sixth = analog::analog_alarm_properties(
        view.high_limit,
        view.low_limit,
        view.alarm is Some,
    );
    lemma_together(first, second, property);
    lemma_together(first + second, third, property);
    lemma_together(first + second + third, fourth, property);
    lemma_together(first + second + third + fourth, fifth, property);
    lemma_together(first + second + third + fourth + fifth, sixth, property);
    lemma_analog_alarm_properties(view, property);
    assert(first.contains(property) <==> first[0] == property || first[1] == property || first[2]
        == property || first[3] == property || first[4] == property);
    assert(third.contains(property) <==> third[0] == property || third[1] == property || third[2]
        == property || third[3] == property || third[4] == property);
    if device_type {
        assert(second.contains(property) <==> second[0] == property);
    }
    if commandable {
        assert(fourth.contains(property) <==> fourth[0] == property || fourth[1] == property);
    }
    if view.cov_increment is Some {
        assert(fifth.contains(property) <==> fifth[0] == property);
    }
}

/// What analog objects list of their event reporting.
proof fn lemma_analog_alarm_properties(view: AnalogView, property: PropertyIdentifier)
    ensures
        analog::analog_alarm_properties(
            view.high_limit,
            view.low_limit,
            view.alarm is Some,
        ).contains(property) <==> view.alarm is Some && (is_of_reporting(property) || (
        property is Deadband || property is LimitEnable) && (view.high_limit is Some
            || view.low_limit is Some) || property is HighLimit && view.high_limit is Some
            || property is LowLimit && view.low_limit is Some),
{
    let none = Seq::<PropertyIdentifier>::empty();
    let first = intrinsic::intrinsic_properties();
    let second = seq![PropertyIdentifier::Deadband, PropertyIdentifier::LimitEnable];
    let third = if view.high_limit is Some {
        seq![PropertyIdentifier::HighLimit]
    } else {
        none
    };
    let fourth = if view.low_limit is Some {
        seq![PropertyIdentifier::LowLimit]
    } else {
        none
    };
    lemma_together(first, second, property);
    lemma_together(first + second, third, property);
    lemma_together(first + second + third, fourth, property);
    assert(first.contains(property) <==> first[0] == property || first[1] == property || first[2]
        == property || first[3] == property || first[4] == property || first[5] == property
        || first[6] == property || first[7] == property);
    assert(second.contains(property) <==> second[0] == property || second[1] == property);
    if view.high_limit is Some {
        assert(third.contains(property) <==> third[0] == property);
    }
    if view.low_limit is Some {
        assert(fourth.contains(property) <==> fourth[0] == property);
    }
}

/// The properties that an analog input says it has and says can be written.
pub proof fn law_analog_input_lists_its_properties(
    object: AnalogInput,
    property: PropertyIdentifier,
)
    ensures
        object.listing().contains(property) <==> {
            is_basic(property) || property is Units || property is DeviceType
                || property is Description
                && object.optional.description || property is Reliability
                && object.optional.reliability || property is CovIncrement
                && object.cov_increment is Some || object.alarm is Some
                    && (is_of_reporting(property)
                || (property is Deadband || property is LimitEnable) && (object.high_limit is Some
                || object.low_limit is Some) || property is HighLimit && object.high_limit is Some
                || property is LowLimit && object.low_limit is Some)
        },
        object.accepts(property) <==> {
            property is ObjectName || property is OutOfService
            || property is Description && object.optional.description || property is Reliability
            && object.optional.reliability || object.alarm is Some
                && (is_reporting_setting(property)
            || property is HighLimit || property is LowLimit || property is Deadband)
        },
{
    lemma_analog_properties(true, false, object.answers(), property);
    lemma_retained(
        object.optional,
        analog::analog_properties(true, false, object.answers()),
        property,
    );
}

/// The properties that an analog output says it has and says can be written.
pub proof fn law_analog_output_lists_its_properties(
    object: AnalogOutput,
    property: PropertyIdentifier,
)
    ensures
        object.listing().contains(property) <==> {
            is_basic(property) || property is Units || property is DeviceType
                || property is PriorityArray || property is RelinquishDefault
                || property is Description
                && object.optional.description || property is Reliability
                && object.optional.reliability || property is CovIncrement
                && object.cov_increment is Some || object.alarm is Some
                    && (is_of_reporting(property)
                || (property is Deadband || property is LimitEnable) && (object.high_limit is Some
                || object.low_limit is Some) || property is HighLimit && object.high_limit is Some
                || property is LowLimit && object.low_limit is Some)
        },
        object.accepts(property) <==> {
            property is ObjectName || property is OutOfService || property is PresentValue
            || property is Description && object.optional.description || property is Reliability
            && object.optional.reliability || object.alarm is Some
                && (is_reporting_setting(property)
            || property is HighLimit || property is LowLimit || property is Deadband)
        },
{
    lemma_analog_properties(true, true, object.answers(), property);
    lemma_retained(
        object.optional,
        analog::analog_properties(true, true, object.answers()),
        property,
    );
}

/// The properties that an analog value says it has and says can be written.
pub proof fn law_analog_value_lists_its_properties(
    object: AnalogValue,
    property: PropertyIdentifier,
)
    ensures
        object.listing().contains(property) <==> {
            is_basic(property) || property is Units || object.commandable
                && (property is PriorityArray || property is RelinquishDefault)
                || property is Description
                && object.optional.description || property is Reliability
                && object.optional.reliability || property is CovIncrement
                && object.cov_increment is Some || object.alarm is Some
                    && (is_of_reporting(property)
                || (property is Deadband || property is LimitEnable) && (object.high_limit is Some
                || object.low_limit is Some) || property is HighLimit && object.high_limit is Some
                || property is LowLimit && object.low_limit is Some)
        },
        object.accepts(property) <==> {
            property is ObjectName || property is OutOfService || property is PresentValue
            || property is Description && object.optional.description || property is Reliability
            && object.optional.reliability || object.alarm is Some
                && (is_reporting_setting(property)
            || property is HighLimit || property is LowLimit || property is Deadband)
        },
{
    lemma_analog_properties(false, object.commandable, object.answers(), property);
    lemma_retained(
        object.optional,
        analog::analog_properties(false, object.commandable, object.answers()),
        property,
    );
}

/// The properties that a binary input says it has and says can be written.
pub proof fn law_binary_input_lists_its_properties(
    object: BinaryInput,
    property: PropertyIdentifier,
)
    ensures
        object.listing().contains(property) <==> {
            is_basic(property) || property is Description || property is Reliability
                || property is InactiveText || property is ActiveText || object.alarm is Some
                && (is_of_reporting(property) || property is AlarmValue)
        },
        object.accepts(property) <==> {
            property is ObjectName || property is Description || property is OutOfService
            || property is Reliability || object.alarm is Some && (is_reporting_setting(property)
            || property is AlarmValue)
        },
{
    broadcast use vstd::seq_lib::group_seq_properties;

}

/// The properties that a binary output says it has and says can be written.
pub proof fn law_binary_output_lists_its_properties(
    object: BinaryOutput,
    property: PropertyIdentifier,
)
    ensures
        object.listing().contains(property) <==> {
            is_basic(property) || property is Description || property is Reliability
                || property is InactiveText || property is ActiveText
                    || property is PriorityArray || object.alarm is Some
                && (is_of_reporting(property) || property is AlarmValue)
        },
        object.accepts(property) <==> {
            property is ObjectName || property is Description || property is OutOfService
            || property is Reliability || property is PresentValue || object.alarm is Some
                && (is_reporting_setting(property)
            || property is AlarmValue)
        },
{
    broadcast use vstd::seq_lib::group_seq_properties;

}

/// The properties that a binary value says it has and says can be written.
pub proof fn law_binary_value_lists_its_properties(
    object: BinaryValue,
    property: PropertyIdentifier,
)
    ensures
        object.listing().contains(property) <==> {
            is_basic(property) || property is Description || property is Reliability
                || property is InactiveText || property is ActiveText
                    || property is PriorityArray || object.alarm is Some
                && (is_of_reporting(property) || property is AlarmValue)
        },
        object.accepts(property) <==> {
            property is ObjectName || property is Description || property is OutOfService
            || property is Reliability || property is PresentValue || object.alarm is Some
                && (is_reporting_setting(property)
            || property is AlarmValue)
        },
{
    broadcast use vstd::seq_lib::group_seq_properties;

}

/// The properties that a multi state input says it has and says can be written.
pub proof fn law_multi_state_input_lists_its_properties(
    object: MultiStateInput,
    property: PropertyIdentifier,
)
    ensures
        object.listing().contains(property) <==> {
            is_basic(property) || property is Description || property is Reliability
                || property is NumberOfStates || property is StateText || property is DeviceType
                || object.alarm is Some && (is_of_reporting(property) || property is AlarmValues)
        },
        object.accepts(property) <==> {
            property is ObjectName || property is Description || property is OutOfService
            || property is Reliability || object.alarm is Some && (is_reporting_setting(property)
            || property is AlarmValues)
        },
{
    broadcast use vstd::seq_lib::group_seq_properties;

}

/// The properties that a multi state output says it has and says can be written.
pub proof fn law_multi_state_output_lists_its_properties(
    object: MultiStateOutput,
    property: PropertyIdentifier,
)
    ensures
        object.listing().contains(property) <==> {
            is_basic(property) || property is Description || property is Reliability
                || property is NumberOfStates || property is StateText
                    || property is DeviceType || property is PriorityArray
                    || property is RelinquishDefault
                || object.alarm is Some && (is_of_reporting(property) || property is AlarmValues)
        },
        object.accepts(property) <==> {
            property is ObjectName || property is Description || property is OutOfService
            || property is Reliability || property is PresentValue || object.alarm is Some
                && (is_reporting_setting(property)
            || property is AlarmValues)
        },
{
    broadcast use vstd::seq_lib::group_seq_properties;

}

/// The properties that a multi state value says it has and says can be written.
pub proof fn law_multi_state_value_lists_its_properties(
    object: MultiStateValue,
    property: PropertyIdentifier,
)
    ensures
        object.listing().contains(property) <==> {
            is_basic(property) || property is Description || property is Reliability
                || property is NumberOfStates || property is StateText
                    || property is PriorityArray || property is RelinquishDefault
                || object.alarm is Some && (is_of_reporting(property) || property is AlarmValues)
        },
        object.accepts(property) <==> {
            property is ObjectName || property is Description || property is OutOfService
            || property is Reliability || property is PresentValue || object.alarm is Some
                && (is_reporting_setting(property)
            || property is AlarmValues)
        },
{
    broadcast use vstd::seq_lib::group_seq_properties;

}

/// The properties that the managing objects say they have.
pub proof fn law_managing_objects_list_their_properties(
    device: Device,
    calendar: Calendar,
    class: NotificationClass,
    schedule: Schedule,
    property: PropertyIdentifier,
)
    ensures
        device.listing().contains(property) <==> {
            property is ObjectIdentifier || property is ObjectName || property is ObjectType
                || property is Description || property is ProtocolRevision
                || property is ProtocolObjectTypesSupported || property is DatabaseRevision
        },
        calendar.listing().contains(property) <==> {
            property is ObjectIdentifier || property is ObjectName || property is ObjectType
                || property is Description || property is PresentValue || property is DateList
        },
        class.listing().contains(property) <==> {
            property is ObjectIdentifier || property is ObjectName || property is ObjectType
                || property is Description || property is NotificationClass || property is Priority
                || property is AckRequired || property is RecipientList
        },
        schedule.listing().contains(property) <==> {
            property is ObjectIdentifier || property is ObjectName || property is ObjectType
                || property is Description || property is PresentValue
                || property is EffectivePeriod || property is WeeklySchedule
                || property is ExceptionSchedule || property is ScheduleDefault
                || property is ListOfObjectPropertyReferences || property is PriorityForWriting
                || property is StatusFlags || property is Reliability || property is OutOfService
        },
        device.accepts(property) <==> property is ObjectName || property is Description,
        calendar.accepts(property) <==> property is ObjectName || property is Description
            || property is DateList,
        class.accepts(property) <==> property is ObjectName || property is Description
            || property is Priority || property is AckRequired || property is RecipientList,
        schedule.accepts(property) <==> property is ObjectName || property is Description
            || property is PresentValue && schedule.out_of_service || property is ScheduleDefault
            || property is EffectivePeriod || property is WeeklySchedule
            || property is ExceptionSchedule || property is ListOfObjectPropertyReferences
            || property is PriorityForWriting || property is OutOfService
                || property is Reliability,
{
    broadcast use vstd::seq_lib::group_seq_properties;

}

} // verus!
