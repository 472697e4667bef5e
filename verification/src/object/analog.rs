//! Analog Input, Analog Output and Analog Value objects: continuous values.

use crate::number;
use crate::number::Real;
use crate::object::base;
use crate::object::base::BacnetObject;
use crate::object::common;
use crate::object::common::{
    common_get, common_set, effective_priority, override_permits_write, write_priority_slot,
    CommonState, CommonView, CommonWrite, LocalOverride, OptionalProperties, PRIORITIES,
};
use crate::object::error;
use crate::object::error::{ObjectError, ObjectErrorView};
use crate::object::identifier::{ObjectIdentifier, ObjectType, PropertyIdentifier};
use crate::object::intrinsic;
use crate::object::intrinsic::{
    intrinsic_get, intrinsic_property_list, intrinsic_set, status_flags_bits, AlarmEvaluation,
    AlarmTrigger, IntrinsicReporting,
};
use crate::object::state::{EventState, Reliability};
use crate::object::units::EngineeringUnits;
use crate::property::value;
use crate::property::value::{PropertyValue, PropertyValueView};
use vstd::prelude::*;

verus! {

// ---------------------------------------------------------------------------
// The event algorithm
// ---------------------------------------------------------------------------

/// Whether a value trips a high limit. Once it has tripped, the value must fall to
/// the limit less the deadband before it clears.
pub open spec fn trips_high(
    present_value: Real,
    limit: Real,
    deadband: Real,
    current_state: EventState,
) -> bool {
    if current_state == EventState::HighLimit {
        limit.difference(deadband).below(present_value)
    } else {
        limit.below(present_value)
    }
}

/// Whether a value trips a low limit. Once it has tripped, the value must rise to
/// the limit plus the deadband before it clears.
pub open spec fn trips_low(
    present_value: Real,
    limit: Real,
    deadband: Real,
    current_state: EventState,
) -> bool {
    if current_state == EventState::LowLimit {
        present_value.below(limit.sum(deadband))
    } else {
        present_value.below(limit)
    }
}

/// The limit that a return to normal is reported against: the one the object
/// returns from, where it has both.
pub open spec fn cleared_limit(
    high_limit: Option<Real>,
    low_limit: Option<Real>,
    current_state: EventState,
    present_value: Real,
) -> Real {
    match (high_limit, low_limit) {
        (Some(high), Some(low)) => if current_state == EventState::LowLimit {
            low
        } else {
            high
        },
        (Some(high), None) => high,
        (None, Some(low)) => low,
        (None, None) => present_value,
    }
}

/// What OUT_OF_RANGE demands, or CHANGE_OF_RELIABILITY where no limits are
/// configured. A fault takes precedence over either, and the high limit over the
/// low one.
pub open spec fn analog_evaluation(
    present_value: Real,
    high_limit: Option<Real>,
    low_limit: Option<Real>,
    deadband: Real,
    reliability: Reliability,
    current_state: EventState,
    alarm: Option<IntrinsicReporting>,
) -> Option<AlarmEvaluation> {
    let by_reliability = AlarmTrigger::ReliabilityChange { reliability };
    match alarm {
        None => None,
        Some(alarm) => if !alarm.event_detection_enable {
            None
        } else if reliability != Reliability::NoFaultDetected {
            Some(AlarmEvaluation { desired_state: EventState::Fault, trigger: by_reliability })
        } else if high_limit is None && low_limit is None {
            Some(AlarmEvaluation { desired_state: EventState::Normal, trigger: by_reliability })
        } else if high_limit is Some && trips_high(
            present_value,
            high_limit->Some_0,
            deadband,
            current_state,
        ) {
            Some(
                AlarmEvaluation {
                    desired_state: EventState::HighLimit,
                    trigger: AlarmTrigger::OutOfRange {
                        exceeding_value: present_value,
                        exceeded_limit: high_limit->Some_0,
                        deadband,
                    },
                },
            )
        } else if low_limit is Some && trips_low(
            present_value,
            low_limit->Some_0,
            deadband,
            current_state,
        ) {
            Some(
                AlarmEvaluation {
                    desired_state: EventState::LowLimit,
                    trigger: AlarmTrigger::OutOfRange {
                        exceeding_value: present_value,
                        exceeded_limit: low_limit->Some_0,
                        deadband,
                    },
                },
            )
        } else {
            Some(
                AlarmEvaluation {
                    desired_state: EventState::Normal,
                    trigger: AlarmTrigger::OutOfRange {
                        exceeding_value: present_value,
                        exceeded_limit: cleared_limit(
                            high_limit,
                            low_limit,
                            current_state,
                            present_value,
                        ),
                        deadband,
                    },
                },
            )
        },
    }
}

/// Run OUT_OF_RANGE, or CHANGE_OF_RELIABILITY when no limits are configured.
///
/// The deadband is hysteresis on the way back: once high-limit has tripped, the
/// value must fall below `high_limit - deadband` before the object returns to
/// normal, and symmetrically for low-limit. Without that, a value hovering on a
/// limit would emit a notification per evaluation.
pub fn evaluate_analog(
    present_value: Real,
    high_limit: Option<Real>,
    low_limit: Option<Real>,
    deadband: Real,
    reliability: Reliability,
    current_state: EventState,
    alarm: Option<IntrinsicReporting>,
) -> (evaluation: Option<AlarmEvaluation>)
    ensures
        evaluation == analog_evaluation(
            present_value,
            high_limit,
            low_limit,
            deadband,
            reliability,
            current_state,
            alarm,
        ),
{
    match alarm {
        Some(alarm) => {
            if !alarm.event_detection_enable {
                return None;
            }
        },
        None => {
            return None;
        },
    }

    if reliability != Reliability::NoFaultDetected {
        return Some(
            AlarmEvaluation {
                desired_state: EventState::Fault,
                trigger: AlarmTrigger::ReliabilityChange { reliability },
            },
        );
    }
    // No limits means this object only reports reliability changes.

    if high_limit.is_none() && low_limit.is_none() {
        return Some(
            AlarmEvaluation {
                desired_state: EventState::Normal,
                trigger: AlarmTrigger::ReliabilityChange { reliability },
            },
        );
    }
    if let Some(limit) = high_limit {
        let tripped = if current_state == EventState::HighLimit {
            limit.minus(deadband).is_below(present_value)
        } else {
            limit.is_below(present_value)
        };
        if tripped {
            return Some(
                AlarmEvaluation {
                    desired_state: EventState::HighLimit,
                    trigger: AlarmTrigger::OutOfRange {
                        exceeding_value: present_value,
                        exceeded_limit: limit,
                        deadband,
                    },
                },
            );
        }
    }
    if let Some(limit) = low_limit {
        let tripped = if current_state == EventState::LowLimit {
            present_value.is_below(limit.plus(deadband))
        } else {
            present_value.is_below(limit)
        };
        if tripped {
            return Some(
                AlarmEvaluation {
                    desired_state: EventState::LowLimit,
                    trigger: AlarmTrigger::OutOfRange {
                        exceeding_value: present_value,
                        exceeded_limit: limit,
                        deadband,
                    },
                },
            );
        }
    }
    // Back in range: report the limit that was breached, which is the one the
    // object is returning from.

    let breached = match (high_limit, low_limit) {
        (Some(high), Some(low)) => if current_state == EventState::LowLimit {
            low
        } else {
            high
        },
        (Some(high), None) => high,
        (None, Some(low)) => low,
        (None, None) => present_value,
    };
    Some(
        AlarmEvaluation {
            desired_state: EventState::Normal,
            trigger: AlarmTrigger::OutOfRange {
                exceeding_value: present_value,
                exceeded_limit: breached,
                deadband,
            },
        },
    )
}

/// A high-limit alarm stays while the value is above the limit less the deadband,
/// though it is below the limit again.
pub proof fn law_high_limit_holds_in_deadband(
    present_value: Real,
    limit: Real,
    low_limit: Option<Real>,
    deadband: Real,
    alarm: IntrinsicReporting,
)
    requires
        alarm.event_detection_enable,
        limit.difference(deadband).below(present_value),
    ensures
        analog_evaluation(
            present_value,
            Some(limit),
            low_limit,
            deadband,
            Reliability::NoFaultDetected,
            EventState::HighLimit,
            Some(alarm),
        ) matches Some(evaluation) && evaluation.desired_state == EventState::HighLimit,
{
}

/// A low-limit alarm stays while the value is below the limit plus the deadband, and
/// not above the high limit.
pub proof fn law_low_limit_holds_in_deadband(
    present_value: Real,
    high_limit: Option<Real>,
    limit: Real,
    deadband: Real,
    alarm: IntrinsicReporting,
)
    requires
        alarm.event_detection_enable,
        present_value.below(limit.sum(deadband)),
        high_limit matches Some(high) ==> !high.below(present_value),
    ensures
        analog_evaluation(
            present_value,
            high_limit,
            Some(limit),
            deadband,
            Reliability::NoFaultDetected,
            EventState::LowLimit,
            Some(alarm),
        ) matches Some(evaluation) && evaluation.desired_state == EventState::LowLimit,
{
}

/// A value that stays where it is keeps the state it demands, whatever state the
/// object was in before, where the deadband is a number that is not negative.
pub proof fn law_steady_value_keeps_its_state(
    present_value: Real,
    high_limit: Option<Real>,
    low_limit: Option<Real>,
    deadband: Real,
    reliability: Reliability,
    current_state: EventState,
    alarm: Option<IntrinsicReporting>,
    evaluation: AlarmEvaluation,
)
    requires
        deadband.is_distance(),
        analog_evaluation(
            present_value,
            high_limit,
            low_limit,
            deadband,
            reliability,
            current_state,
            alarm,
        ) == Some(evaluation),
    ensures
        analog_evaluation(
            present_value,
            high_limit,
            low_limit,
            deadband,
            reliability,
            evaluation.desired_state,
            alarm,
        ) matches Some(again) && again.desired_state == evaluation.desired_state,
{
    if let Some(limit) = high_limit {
        number::law_distance_only_moves_one_way(limit, deadband, present_value);
    }
    if let Some(limit) = low_limit {
        number::law_distance_only_moves_one_way(limit, deadband, present_value);
    }
}

/// An object that is not reliable demands the fault state, whatever its value.
pub proof fn law_fault_takes_precedence(
    present_value: Real,
    high_limit: Option<Real>,
    low_limit: Option<Real>,
    deadband: Real,
    reliability: Reliability,
    current_state: EventState,
    alarm: IntrinsicReporting,
)
    requires
        alarm.event_detection_enable,
        reliability != Reliability::NoFaultDetected,
    ensures
        analog_evaluation(
            present_value,
            high_limit,
            low_limit,
            deadband,
            reliability,
            current_state,
            Some(alarm),
        ) matches Some(evaluation) && evaluation.desired_state == EventState::Fault,
{
}

// ---------------------------------------------------------------------------
// Properties that all analog objects have
// ---------------------------------------------------------------------------

/// The value of a command; null relinquishes.
pub open spec fn real_command(value: PropertyValue) -> Result<Option<Real>, ObjectErrorView> {
    match value {
        PropertyValue::Real(value) => Ok(Some(value)),
        PropertyValue::Null => Ok(None),
        _ => Err(ObjectErrorView::InvalidPropertyType),
    }
}

fn commandable_real(value: PropertyValue) -> (command: Result<Option<Real>, ObjectError>)
    ensures
        match (command, real_command(value)) {
            (Ok(command), Ok(stated)) => command == stated,
            (Err(error), Err(stated)) => error@ == stated,
            _ => false,
        },
{
    match value {
        PropertyValue::Real(value) => Ok(Some(value)),
        PropertyValue::Null => Ok(None),
        _ => Err(ObjectError::InvalidPropertyType),
    }
}

/// The state every analog object type answers from.
pub struct AnalogView<'a> {
    pub identifier: ObjectIdentifier,
    pub object_type: ObjectType,
    pub object_name: &'a String,
    pub description: &'a String,
    pub present_value: Real,
    pub overridden: bool,
    pub event_state: EventState,
    pub reliability: Reliability,
    pub out_of_service: bool,
    pub units: EngineeringUnits,
    pub high_limit: Option<Real>,
    pub low_limit: Option<Real>,
    pub deadband: Real,
    pub cov_increment: Option<Real>,
    pub alarm: Option<IntrinsicReporting>,
    pub optional: OptionalProperties,
}

/// The part of the state that the common properties are answered from.
pub open spec fn common_part(view: AnalogView) -> CommonView {
    CommonView {
        identifier: view.identifier,
        object_type: view.object_type,
        object_name: view.object_name,
        description: view.description,
        event_state: view.event_state,
        reliability: view.reliability,
        out_of_service: view.out_of_service,
        overridden: view.overridden,
        optional: view.optional,
    }
}

/// What an optional number reads.
pub open spec fn real_or_unknown(value: Option<Real>) -> Result<PropertyValueView, ObjectErrorView> {
    match value {
        Some(value) => Ok(PropertyValueView::Real(value)),
        None => Err(ObjectErrorView::UnknownProperty),
    }
}

/// What an alarm property of an analog object reads. An object with reporting but
/// no limits has no limit properties.
pub open spec fn analog_alarm_reading(view: AnalogView, property: PropertyIdentifier) -> Option<
    Result<PropertyValueView, ObjectErrorView>,
> {
    match view.alarm {
        None => None,
        Some(alarm) => match property {
            PropertyIdentifier::HighLimit => Some(real_or_unknown(view.high_limit)),
            PropertyIdentifier::LowLimit => Some(real_or_unknown(view.low_limit)),
            PropertyIdentifier::Deadband => Some(Ok(PropertyValueView::Real(view.deadband))),
            PropertyIdentifier::LimitEnable => Some(
                Ok(
                    PropertyValueView::BitString(
                        seq![view.low_limit is Some, view.high_limit is Some],
                    ),
                ),
            ),
            _ => intrinsic::intrinsic_offer(alarm, property),
        },
    }
}

/// What a property that all analog objects have reads; `None` for any other.
pub open spec fn analog_reading(view: AnalogView, property: PropertyIdentifier) -> Option<
    Result<PropertyValueView, ObjectErrorView>,
> {
    match common::common_reading(common_part(view), property) {
        Some(result) => Some(result),
        None => match property {
            PropertyIdentifier::CovIncrement => Some(real_or_unknown(view.cov_increment)),
            PropertyIdentifier::PresentValue => Some(
                Ok(PropertyValueView::Real(view.present_value)),
            ),
            PropertyIdentifier::Units => Some(
                Ok(PropertyValueView::Enumerated(view.units.number())),
            ),
            _ => analog_alarm_reading(view, property),
        },
    }
}

fn optional_real(value: Option<Real>) -> (result: Result<PropertyValue, ObjectError>)
    ensures
        error::same_reading(result, real_or_unknown(value)),
{
    match value {
        Some(value) => Ok(PropertyValue::Real(value)),
        None => Err(ObjectError::UnknownProperty),
    }
}

/// Read an alarm property from an analog object.
fn analog_alarm_get(view: &AnalogView<'_>, property: PropertyIdentifier) -> (offer: Option<
    Result<PropertyValue, ObjectError>,
>)
    ensures
        error::same_offer(offer, analog_alarm_reading(*view, property)),
{
    match &view.alarm {
        None => None,
        Some(alarm) => match property {
            PropertyIdentifier::HighLimit => Some(optional_real(view.high_limit)),
            PropertyIdentifier::LowLimit => Some(optional_real(view.low_limit)),
            PropertyIdentifier::Deadband => Some(Ok(PropertyValue::Real(view.deadband))),
            // Limit_Enable is ordered low-limit-enable, high-limit-enable.
            PropertyIdentifier::LimitEnable => Some(
                Ok(
                    PropertyValue::BitString(
                        vec![view.low_limit.is_some(), view.high_limit.is_some()],
                    ),
                ),
            ),
            _ => intrinsic_get(alarm, property),
        },
    }
}

/// Read a property common to every analog object type.
///
/// Returns `None` for properties belonging to a single type (device type,
/// priority array, relinquish default) so callers fall through to their own arms.
fn shared_get(view: &AnalogView<'_>, property: PropertyIdentifier) -> (offer: Option<
    Result<PropertyValue, ObjectError>,
>)
    ensures
        error::same_offer(offer, analog_reading(*view, property)),
{
    let common = CommonView {
        identifier: view.identifier,
        object_type: view.object_type,
        object_name: view.object_name,
        description: view.description,
        event_state: view.event_state,
        reliability: view.reliability,
        out_of_service: view.out_of_service,
        overridden: view.overridden,
        optional: view.optional,
    };
    if let Some(result) = common_get(&common, property) {
        return Some(result);
    }
    match property {
        // Optional on all three analog types, and present exactly when the object
        // has an increment. Absent it is an unknown property rather than a zero,
        // which would mean "report every change".
        PropertyIdentifier::CovIncrement => Some(optional_real(view.cov_increment)),
        PropertyIdentifier::PresentValue => Some(Ok(PropertyValue::Real(view.present_value))),
        PropertyIdentifier::Units => Some(Ok(PropertyValue::Enumerated(view.units.to_number()))),
        _ => analog_alarm_get(view, property),
    }
}

/// The fields of an analog object that clients may write on every type.
pub struct AnalogState {
    pub common: CommonState,
    pub high_limit: Option<Real>,
    pub low_limit: Option<Real>,
    pub deadband: Real,
    pub alarm: Option<IntrinsicReporting>,
}

/// What a write to an alarm property of an analog object leaves.
pub open spec fn analog_alarm_writing(
    state: AnalogState,
    property: PropertyIdentifier,
    value: PropertyValue,
) -> Option<Result<AnalogState, ObjectErrorView>> {
    match state.alarm {
        None => None,
        Some(alarm) => match property {
            PropertyIdentifier::HighLimit => match real_command(value) {
                Ok(limit) => Some(Ok(AnalogState { high_limit: limit, ..state })),
                Err(error) => Some(Err(error)),
            },
            PropertyIdentifier::LowLimit => match real_command(value) {
                Ok(limit) => Some(Ok(AnalogState { low_limit: limit, ..state })),
                Err(error) => Some(Err(error)),
            },
            PropertyIdentifier::Deadband => match value {
                PropertyValue::Real(band) => Some(Ok(AnalogState { deadband: band, ..state })),
                _ => Some(Err(ObjectErrorView::InvalidPropertyType)),
            },
            _ => match intrinsic::intrinsic_writing(alarm, property, value) {
                None => None,
                Some(Ok(after)) => Some(Ok(AnalogState { alarm: Some(after), ..state })),
                Some(Err(error)) => Some(Err(error)),
            },
        },
    }
}

/// What a write to a property that all analog objects have leaves; `None` for any
/// other property.
pub open spec fn analog_writing(
    state: AnalogState,
    optional: OptionalProperties,
    property: PropertyIdentifier,
    value: PropertyValue,
) -> Option<Result<AnalogState, ObjectErrorView>> {
    match common::common_writing(state.common, optional, property, value) {
        Some(Ok(common)) => Some(Ok(AnalogState { common, ..state })),
        Some(Err(error)) => Some(Err(error)),
        None => analog_alarm_writing(state, property, value),
    }
}

/// Write an alarm property on an analog object.
fn analog_alarm_set(
    high_limit: &mut Option<Real>,
    low_limit: &mut Option<Real>,
    deadband: &mut Real,
    alarm: &mut Option<IntrinsicReporting>,
    property: PropertyIdentifier,
    value: PropertyValue,
) -> (offer: Option<Result<(), ObjectError>>)
    ensures
        forall|common: CommonState|
            error::same_write_offer(
                offer,
                AnalogState {
                    common,
                    high_limit: *old(high_limit),
                    low_limit: *old(low_limit),
                    deadband: *old(deadband),
                    alarm: *old(alarm),
                },
                AnalogState {
                    common,
                    high_limit: *final(high_limit),
                    low_limit: *final(low_limit),
                    deadband: *final(deadband),
                    alarm: *final(alarm),
                },
                #[trigger] analog_alarm_writing(
                    AnalogState {
                        common,
                        high_limit: *old(high_limit),
                        low_limit: *old(low_limit),
                        deadband: *old(deadband),
                        alarm: *old(alarm),
                    },
                    property,
                    value,
                ),
            ),
{
    match alarm {
        None => None,
        Some(reporting) => match property {
            PropertyIdentifier::HighLimit => match commandable_real(value) {
                Ok(limit) => {
                    *high_limit = limit;
                    Some(Ok(()))
                },
                Err(error) => Some(Err(error)),
            },
            PropertyIdentifier::LowLimit => match commandable_real(value) {
                Ok(limit) => {
                    *low_limit = limit;
                    Some(Ok(()))
                },
                Err(error) => Some(Err(error)),
            },
            PropertyIdentifier::Deadband => match value {
                PropertyValue::Real(band) => {
                    *deadband = band;
                    Some(Ok(()))
                },
                _ => Some(Err(ObjectError::InvalidPropertyType)),
            },
            _ => intrinsic_set(reporting, property, value),
        },
    }
}

/// Write a property common to every analog object type. `None` means the property
/// is not one this helper owns.
fn shared_set(
    object_name: &mut String,
    description: &mut String,
    reliability: &mut Reliability,
    out_of_service: &mut bool,
    high_limit: &mut Option<Real>,
    low_limit: &mut Option<Real>,
    deadband: &mut Real,
    alarm: &mut Option<IntrinsicReporting>,
    optional: OptionalProperties,
    property: PropertyIdentifier,
    value: PropertyValue,
) -> (offer: Option<Result<(), ObjectError>>)
    ensures
        ({
            let before = AnalogState {
                common: CommonState {
                    object_name: *old(object_name),
                    description: *old(description),
                    reliability: *old(reliability),
                    out_of_service: *old(out_of_service),
                },
                high_limit: *old(high_limit),
                low_limit: *old(low_limit),
                deadband: *old(deadband),
                alarm: *old(alarm),
            };
            let after = AnalogState {
                common: CommonState {
                    object_name: *final(object_name),
                    description: *final(description),
                    reliability: *final(reliability),
                    out_of_service: *final(out_of_service),
                },
                high_limit: *final(high_limit),
                low_limit: *final(low_limit),
                deadband: *final(deadband),
                alarm: *final(alarm),
            };
            error::same_write_offer(
                offer,
                before,
                after,
                analog_writing(before, optional, property, value),
            )
        }),
{
    match common_set(
        object_name,
        description,
        reliability,
        out_of_service,
        optional,
        property,
        value,
    ) {
        CommonWrite::Handled(result) => Some(result),
        CommonWrite::Unclaimed(value) => {
            let ghost state = AnalogState {
                common: CommonState {
                    object_name: *object_name,
                    description: *description,
                    reliability: *reliability,
                    out_of_service: *out_of_service,
                },
                high_limit: *high_limit,
                low_limit: *low_limit,
                deadband: *deadband,
                alarm: *alarm,
            };
            proof {
                assert(analog_alarm_writing(state, property, value) == analog_alarm_writing(
                    state,
                    property,
                    value,
                ));
            }
            analog_alarm_set(high_limit, low_limit, deadband, alarm, property, value)
        },
    }
}

/// Whether an analog alarm property accepts writes.
pub open spec fn analog_alarm_accepts(property: PropertyIdentifier, configured: bool) -> bool {
    configured && (property == PropertyIdentifier::HighLimit || property
        == PropertyIdentifier::LowLimit || property == PropertyIdentifier::Deadband || property
        == PropertyIdentifier::NotificationClass || property == PropertyIdentifier::TimeDelay
        || property == PropertyIdentifier::TimeDelayNormal || property
        == PropertyIdentifier::EventEnable || property == PropertyIdentifier::NotifyType || property
        == PropertyIdentifier::EventDetectionEnable)
}

/// Whether a property shared by every analog object type accepts writes.
pub open spec fn analog_accepts(
    property: PropertyIdentifier,
    configured: bool,
    optional: OptionalProperties,
) -> bool {
    (optional.includes(property) && (property == PropertyIdentifier::ObjectName || property
        == PropertyIdentifier::Description || property == PropertyIdentifier::OutOfService
        || property == PropertyIdentifier::Reliability)) || analog_alarm_accepts(
        property,
        configured,
    )
}

fn shared_writable(
    property: PropertyIdentifier,
    alarm_configured: bool,
    optional: OptionalProperties,
) -> (writable: bool)
    ensures
        writable == analog_accepts(property, alarm_configured, optional),
{
    match property {
        PropertyIdentifier::ObjectName
        | PropertyIdentifier::Description
        | PropertyIdentifier::OutOfService
        | PropertyIdentifier::Reliability => optional.has(property),
        PropertyIdentifier::HighLimit
        | PropertyIdentifier::LowLimit
        | PropertyIdentifier::Deadband
        | PropertyIdentifier::NotificationClass
        | PropertyIdentifier::TimeDelay
        | PropertyIdentifier::TimeDelayNormal
        | PropertyIdentifier::EventEnable
        | PropertyIdentifier::NotifyType
        | PropertyIdentifier::EventDetectionEnable => alarm_configured,
        _ => false,
    }
}

/// A shared property that is not reported as writable is never written.
pub proof fn law_only_writable_properties_change(
    state: AnalogState,
    optional: OptionalProperties,
    property: PropertyIdentifier,
    value: PropertyValue,
)
    requires
        !analog_accepts(property, state.alarm is Some, optional),
    ensures
        !(analog_writing(state, optional, property, value) matches Some(Ok(_))),
{
}

/// Alarm properties an analog object exposes, given its configuration.
pub open spec fn analog_alarm_properties(
    high_limit: Option<Real>,
    low_limit: Option<Real>,
    configured: bool,
) -> Seq<PropertyIdentifier> {
    if !configured {
        Seq::<PropertyIdentifier>::empty()
    } else if high_limit is None && low_limit is None {
        intrinsic::intrinsic_properties()
    } else {
        intrinsic::intrinsic_properties() + seq![
            PropertyIdentifier::Deadband,
            PropertyIdentifier::LimitEnable,
        ] + (if high_limit is Some {
            seq![PropertyIdentifier::HighLimit]
        } else {
            Seq::<PropertyIdentifier>::empty()
        }) + (if low_limit is Some {
            seq![PropertyIdentifier::LowLimit]
        } else {
            Seq::<PropertyIdentifier>::empty()
        })
    }
}

/// The properties every analog object has, in the order they are reported, before
/// the optional ones that are missing are taken out.
///
/// Device_Type stands between Description and Status_Flags; the commandable
/// properties stand straight after Units and before COV_Increment.
pub open spec fn analog_properties(
    device_type: bool,
    commandable: bool,
    view: AnalogView,
) -> Seq<PropertyIdentifier> {
    seq![
        PropertyIdentifier::ObjectIdentifier,
        PropertyIdentifier::ObjectName,
        PropertyIdentifier::ObjectType,
        PropertyIdentifier::PresentValue,
        PropertyIdentifier::Description,
    ] + (if device_type {
        seq![PropertyIdentifier::DeviceType]
    } else {
        Seq::<PropertyIdentifier>::empty()
    }) + seq![
        PropertyIdentifier::StatusFlags,
        PropertyIdentifier::EventState,
        PropertyIdentifier::Reliability,
        PropertyIdentifier::OutOfService,
        PropertyIdentifier::Units,
    ] + (if commandable {
        seq![PropertyIdentifier::PriorityArray, PropertyIdentifier::RelinquishDefault]
    } else {
        Seq::<PropertyIdentifier>::empty()
    }) + (if view.cov_increment is Some {
        seq![PropertyIdentifier::CovIncrement]
    } else {
        Seq::<PropertyIdentifier>::empty()
    }) + analog_alarm_properties(view.high_limit, view.low_limit, view.alarm is Some)
}

/// What an analog object lists.
pub open spec fn analog_listing(
    device_type: bool,
    commandable: bool,
    view: AnalogView,
) -> Seq<PropertyIdentifier> {
    common::retained(view.optional, analog_properties(device_type, commandable, view))
}

fn analog_alarm_property_list(
    high_limit: Option<Real>,
    low_limit: Option<Real>,
    configured: bool,
) -> (properties: Vec<PropertyIdentifier>)
    ensures
        properties@ == analog_alarm_properties(high_limit, low_limit, configured),
{
    if !configured {
        return Vec::new();
    }
    let mut properties = intrinsic_property_list();
    if high_limit.is_some() || low_limit.is_some() {
        properties.push(PropertyIdentifier::Deadband);
        properties.push(PropertyIdentifier::LimitEnable);
        if high_limit.is_some() {
            properties.push(PropertyIdentifier::HighLimit);
        }
        if low_limit.is_some() {
            properties.push(PropertyIdentifier::LowLimit);
        }
    }
    properties
}

fn shared_property_list(device_type: bool, commandable: bool, view: &AnalogView<'_>) -> (properties:
    Vec<PropertyIdentifier>)
    ensures
        properties@ == analog_listing(device_type, commandable, *view),
{
    let mut properties = vec![
        PropertyIdentifier::ObjectIdentifier,
        PropertyIdentifier::ObjectName,
        PropertyIdentifier::ObjectType,
        PropertyIdentifier::PresentValue,
        PropertyIdentifier::Description,
    ];
    if device_type {
        properties.push(PropertyIdentifier::DeviceType);
    }
    properties.push(PropertyIdentifier::StatusFlags);
    properties.push(PropertyIdentifier::EventState);
    properties.push(PropertyIdentifier::Reliability);
    properties.push(PropertyIdentifier::OutOfService);
    properties.push(PropertyIdentifier::Units);
    if commandable {
        properties.push(PropertyIdentifier::PriorityArray);
        properties.push(PropertyIdentifier::RelinquishDefault);
    }
    if view.cov_increment.is_some() {
        properties.push(PropertyIdentifier::CovIncrement);
    }
    let mut alarms = analog_alarm_property_list(
        view.high_limit,
        view.low_limit,
        view.alarm.is_some(),
    );
    properties.append(&mut alarms);
    proof {
        assert(properties@ =~= analog_properties(device_type, commandable, *view));
    }
    view.optional.retain(properties)
}

/// What a priority slot reads.
pub open spec fn slot_reading(slot: Option<Real>) -> PropertyValueView {
    match slot {
        Some(value) => PropertyValueView::Real(value),
        None => PropertyValueView::Null,
    }
}

/// What Priority_Array reads.
pub open spec fn slots_reading(slots: Seq<Option<Real>>) -> PropertyValueView {
    PropertyValueView::Array(slots.map_values(|slot: Option<Real>| slot_reading(slot)))
}

/// The Priority_Array property of a commandable analog object.
fn priority_array_value(slots: &[Option<Real>; PRIORITIES]) -> (value: PropertyValue)
    ensures
        value.model() == slots_reading(slots@),
{
    let mut values: Vec<PropertyValue> = Vec::new();
    let mut i: usize = 0;
    while i < PRIORITIES
        invariant
            i <= PRIORITIES,
            slots@.len() == PRIORITIES,
            values@.len() == i,
            forall|j: int|
                0 <= j < i ==> (#[trigger] values@[j]).model() == slot_reading(slots@[j]),
        decreases PRIORITIES - i,
    {
        let value = match slots[i] {
            Some(value) => PropertyValue::Real(value),
            None => PropertyValue::Null,
        };
        values.push(value);
        i += 1;
    }
    proof {
        value::lemma_list_model(values);
        assert(value::values_model(values) =~= slots@.map_values(
            |slot: Option<Real>| slot_reading(slot),
        ));
    }
    PropertyValue::Array(values)
}

/// Analog Input object.
#[derive(Debug, Clone)]
pub struct AnalogInput {
    /// Object identifier.
    pub identifier: ObjectIdentifier,
    /// Object name.
    pub object_name: String,
    /// Present value.
    pub present_value: Real,
    /// Description.
    pub description: String,
    /// Device type.
    pub device_type: String,
    /// Whether an operator has overridden the point. The other Status_Flags bits
    /// are derived from Event_State, Reliability and Out_Of_Service.
    pub overridden: bool,
    /// Event state.
    pub event_state: EventState,
    /// Reliability.
    pub reliability: Reliability,
    /// Out of service.
    pub out_of_service: bool,
    /// Units.
    pub units: EngineeringUnits,
    /// Minimum present value.
    pub min_pres_value: Option<Real>,
    /// Maximum present value.
    pub max_pres_value: Option<Real>,
    /// Resolution.
    pub resolution: Option<Real>,
    /// COV increment.
    pub cov_increment: Option<Real>,
    /// OUT_OF_RANGE high limit; `None` disables the high-limit check.
    pub high_limit: Option<Real>,
    /// OUT_OF_RANGE low limit; `None` disables the low-limit check.
    pub low_limit: Option<Real>,
    /// Hysteresis applied before returning to normal.
    pub deadband: Real,
    /// Intrinsic reporting state; `None` when event detection is not configured.
    pub alarm: Option<IntrinsicReporting>,
    /// Which optional properties the object has.
    pub optional: OptionalProperties,
    /// A local mechanism holding Present_Value, when one is.
    pub local_override: Option<LocalOverride<Real>>,
}

impl AnalogInput {
    /// What Present_Value reads: the local override while there is one.
    pub open spec fn shown_value(self) -> Real {
        match self.local_override {
            Some(local) => local.value,
            None => self.present_value,
        }
    }

    /// The state the object answers from.
    pub open spec fn answers(&self) -> AnalogView<'_> {
        AnalogView {
            identifier: self.identifier,
            object_type: ObjectType::AnalogInput,
            object_name: &self.object_name,
            description: &self.description,
            present_value: self.shown_value(),
            overridden: self.overridden || self.local_override is Some,
            event_state: self.event_state,
            reliability: self.reliability,
            out_of_service: self.out_of_service,
            units: self.units,
            high_limit: self.high_limit,
            low_limit: self.low_limit,
            deadband: self.deadband,
            cov_increment: self.cov_increment,
            alarm: self.alarm,
            optional: self.optional,
        }
    }

    /// The shared fields that clients may write.
    pub open spec fn state(self) -> AnalogState {
        AnalogState {
            common: CommonState {
                object_name: self.object_name,
                description: self.description,
                reliability: self.reliability,
                out_of_service: self.out_of_service,
            },
            high_limit: self.high_limit,
            low_limit: self.low_limit,
            deadband: self.deadband,
            alarm: self.alarm,
        }
    }

    /// This object with other shared fields.
    pub open spec fn with_state(self, state: AnalogState) -> AnalogInput {
        AnalogInput {
            object_name: state.common.object_name,
            description: state.common.description,
            reliability: state.common.reliability,
            out_of_service: state.common.out_of_service,
            high_limit: state.high_limit,
            low_limit: state.low_limit,
            deadband: state.deadband,
            alarm: state.alarm,
            ..self
        }
    }

    /// What writing a shared property leaves.
    pub open spec fn with_shared(
        self,
        property: PropertyIdentifier,
        value: PropertyValue,
    ) -> Result<AnalogInput, ObjectErrorView> {
        match analog_writing(self.state(), self.optional, property, value) {
            Some(Ok(state)) => Ok(self.with_state(state)),
            Some(Err(error)) => Err(error),
            None => Err(ObjectErrorView::PropertyNotWritable),
        }
    }

    /// Create a new Analog Input object.
    pub fn new(instance: u32, object_name: String) -> (object: AnalogInput)
        ensures
            object.identifier == (ObjectIdentifier { object_type: ObjectType::AnalogInput, instance }),
            object.object_name == object_name,
            object.present_value.bits == 0,
            object.description@ == Seq::<char>::empty(),
            object.device_type@ == Seq::<char>::empty(),
            !object.overridden,
            object.event_state == EventState::Normal,
            object.reliability == Reliability::NoFaultDetected,
            !object.out_of_service,
            object.units == EngineeringUnits::NoUnits,
            object.min_pres_value is None,
            object.max_pres_value is None,
            object.resolution is None,
            object.cov_increment is None,
            object.high_limit is None,
            object.low_limit is None,
            object.deadband.bits == 0,
            object.alarm is None,
            object.optional.description && object.optional.reliability,
            object.local_override is None,
    {
        AnalogInput {
            identifier: ObjectIdentifier::new(ObjectType::AnalogInput, instance),
            object_name,
            present_value: Real::zero(),
            description: String::new(),
            device_type: String::new(),
            overridden: false,
            event_state: EventState::Normal,
            reliability: Reliability::NoFaultDetected,
            out_of_service: false,
            units: EngineeringUnits::NoUnits,
            min_pres_value: None,
            max_pres_value: None,
            resolution: None,
            cov_increment: None,
            high_limit: None,
            low_limit: None,
            deadband: Real::zero(),
            alarm: None,
            optional: OptionalProperties::default(),
            local_override: None,
        }
    }

    /// Enable CHANGE_OF_RELIABILITY reporting through `notification_class`.
    pub fn with_intrinsic_reporting(self, notification_class: u32) -> (object: AnalogInput)
        ensures
            object == (AnalogInput { alarm: object.alarm, ..self }),
            object.alarm matches Some(alarm) && alarm.starts(notification_class),
    {
        let mut object = self;
        object.alarm = Some(IntrinsicReporting::new(notification_class));
        object
    }

    /// Enable OUT_OF_RANGE reporting through `notification_class`.
    pub fn with_out_of_range_reporting(
        self,
        notification_class: u32,
        low_limit: Option<Real>,
        high_limit: Option<Real>,
        deadband: Real,
    ) -> (object: AnalogInput)
        ensures
            object == (AnalogInput { alarm: object.alarm, low_limit, high_limit, deadband, ..self }),
            object.alarm matches Some(alarm) && alarm.starts(notification_class),
    {
        let mut object = self;
        object.low_limit = low_limit;
        object.high_limit = high_limit;
        object.deadband = deadband;
        object.alarm = Some(IntrinsicReporting::new(notification_class));
        object
    }

    /// Set the present value.
    pub fn set_present_value(&mut self, value: Real)
        ensures
            *final(self) == (AnalogInput { present_value: value, ..*old(self) }),
    {
        self.present_value = value;
    }

    /// Status flags as individual booleans, in the in-alarm / fault / overridden /
    /// out-of-service order.
    ///
    /// Derived from Event_State, Reliability, Out_Of_Service and
    /// [`overridden`](Self::overridden); set those to change what this reports.
    pub fn get_status_flags(&self) -> (bits: (bool, bool, bool, bool))
        ensures
            seq![bits.0, bits.1, bits.2, bits.3] == intrinsic::flags(
                self.event_state,
                self.reliability,
                self.out_of_service,
                self.overridden,
            ),
    {
        let bits = status_flags_bits(
            self.event_state,
            self.reliability,
            self.out_of_service,
            self.overridden,
        );
        (bits[0], bits[1], bits[2], bits[3])
    }

    /// What Present_Value reads: the local override while there is one.
    pub fn effective_present_value(&self) -> (value: Real)
        ensures
            value == self.shown_value(),
    {
        match &self.local_override {
            Some(local) => local.value,
            None => self.present_value,
        }
    }

    fn borrowed(&self) -> (view: AnalogView<'_>)
        ensures
            view == self.answers(),
    {
        AnalogView {
            identifier: self.identifier,
            object_type: ObjectType::AnalogInput,
            object_name: &self.object_name,
            description: &self.description,
            present_value: self.effective_present_value(),
            overridden: self.overridden || self.local_override.is_some(),
            event_state: self.event_state,
            reliability: self.reliability,
            out_of_service: self.out_of_service,
            units: self.units,
            high_limit: self.high_limit,
            low_limit: self.low_limit,
            deadband: self.deadband,
            cov_increment: self.cov_increment,
            alarm: self.alarm,
            optional: self.optional,
        }
    }

    fn set_shared(&mut self, property: PropertyIdentifier, value: PropertyValue) -> (result: Result<
        (),
        ObjectError,
    >)
        ensures
            base::left(
                *old(self),
                *final(self),
                old(self).with_shared(property, value),
                base::outcome(result),
            ),
    {
        match shared_set(
            &mut self.object_name,
            &mut self.description,
            &mut self.reliability,
            &mut self.out_of_service,
            &mut self.high_limit,
            &mut self.low_limit,
            &mut self.deadband,
            &mut self.alarm,
            self.optional,
            property,
            value,
        ) {
            Some(result) => result,
            None => Err(ObjectError::PropertyNotWritable),
        }
    }
}

impl BacnetObject for AnalogInput {
    open spec fn identity(&self) -> ObjectIdentifier {
        self.identifier
    }

    open spec fn reading(&self, property: PropertyIdentifier) -> Result<
        PropertyValueView,
        ObjectErrorView,
    > {
        match property {
            PropertyIdentifier::DeviceType => Ok(
                PropertyValueView::CharacterString(self.device_type@),
            ),
            _ => error::or_unknown(analog_reading(self.answers(), property)),
        }
    }

    open spec fn writing(
        &self,
        after: AnalogInput,
        property: PropertyIdentifier,
        value: PropertyValue,
        priority: Option<u8>,
        outcome: Result<(), ObjectErrorView>,
    ) -> bool {
        base::left(*self, after, self.with_shared(property, value), outcome)
    }

    open spec fn accepts(&self, property: PropertyIdentifier) -> bool {
        analog_accepts(property, self.alarm is Some, self.optional)
    }

    open spec fn listing(&self) -> Seq<PropertyIdentifier> {
        analog_listing(true, false, self.answers())
    }

    open spec fn sourcing(
        &self,
        after: AnalogInput,
        value: PropertyValue,
        outcome: Result<(), ObjectErrorView>,
    ) -> bool {
        base::left(
            *self,
            after,
            match value {
                PropertyValue::Real(value) => Ok(AnalogInput { present_value: value, ..*self }),
                _ => Err(ObjectErrorView::InvalidPropertyType),
            },
            outcome,
        )
    }

    open spec fn reporting(&self) -> Option<IntrinsicReporting> {
        self.alarm
    }

    open spec fn reports_as(&self, after: AnalogInput, reporting: IntrinsicReporting) -> bool {
        after == if self.alarm is Some {
            AnalogInput { alarm: Some(reporting), ..*self }
        } else {
            *self
        }
    }

    open spec fn evaluation(&self) -> Option<AlarmEvaluation> {
        analog_evaluation(
            self.shown_value(),
            self.high_limit,
            self.low_limit,
            self.deadband,
            self.reliability,
            self.event_state,
            self.alarm,
        )
    }

    open spec fn enters(&self, after: AnalogInput, state: EventState) -> bool {
        after == (AnalogInput { event_state: state, ..*self })
    }

    open spec fn decoupled(&self) -> bool {
        self.out_of_service
    }

    fn identifier(&self) -> (identifier: ObjectIdentifier) {
        self.identifier
    }

    fn get_property(&self, property: PropertyIdentifier) -> (result: Result<
        PropertyValue,
        ObjectError,
    >) {
        match property {
            PropertyIdentifier::DeviceType => Ok(
                PropertyValue::CharacterString(self.device_type.clone()),
            ),
            _ => error::answered(shared_get(&self.borrowed(), property)),
        }
    }

    fn set_property(&mut self, property: PropertyIdentifier, value: PropertyValue) -> (result:
        Result<(), ObjectError>) {
        self.set_shared(property, value)
    }

    fn set_property_with_priority(
        &mut self,
        property: PropertyIdentifier,
        value: PropertyValue,
        priority: Option<u8>,
    ) -> (result: Result<(), ObjectError>) {
        self.set_shared(property, value)
    }

    fn is_property_writable(&self, property: PropertyIdentifier) -> (writable: bool) {
        shared_writable(property, self.alarm.is_some(), self.optional)
    }

    fn property_list(&self) -> (properties: Vec<PropertyIdentifier>) {
        shared_property_list(true, false, &self.borrowed())
    }

    /// An input reflects a sensor, so its Present_Value has no priority array and is
    /// simply what the source last read.
    fn set_sourced_value(&mut self, value: PropertyValue) -> (result: Result<(), ObjectError>) {
        match value {
            PropertyValue::Real(value) => {
                self.present_value = value;
                Ok(())
            },
            _ => Err(ObjectError::InvalidPropertyType),
        }
    }

    fn intrinsic(&self) -> (reporting: Option<IntrinsicReporting>) {
        self.alarm
    }

    fn store_intrinsic(&mut self, reporting: IntrinsicReporting) {
        if self.alarm.is_some() {
            self.alarm = Some(reporting);
        }
    }

    fn evaluate_alarm(&self) -> (evaluation: Option<AlarmEvaluation>) {
        evaluate_analog(
            self.effective_present_value(),
            self.high_limit,
            self.low_limit,
            self.deadband,
            self.reliability,
            self.event_state,
            self.alarm,
        )
    }

    fn apply_event_state(&mut self, state: EventState) {
        self.event_state = state;
    }

    fn is_out_of_service(&self) -> (decoupled: bool) {
        self.out_of_service
    }
}

/// Analog Output object.
#[derive(Debug, Clone)]
pub struct AnalogOutput {
    /// Object identifier.
    pub identifier: ObjectIdentifier,
    /// Object name.
    pub object_name: String,
    /// Present value.
    pub present_value: Real,
    /// Description.
    pub description: String,
    /// Device type.
    pub device_type: String,
    /// Whether an operator has overridden the point. The other Status_Flags bits
    /// are derived from Event_State, Reliability and Out_Of_Service.
    pub overridden: bool,
    /// Event state.
    pub event_state: EventState,
    /// Reliability.
    pub reliability: Reliability,
    /// Out of service.
    pub out_of_service: bool,
    /// Units.
    pub units: EngineeringUnits,
    /// Minimum present value.
    pub min_pres_value: Option<Real>,
    /// Maximum present value.
    pub max_pres_value: Option<Real>,
    /// Resolution.
    pub resolution: Option<Real>,
    /// Priority array (16 levels).
    pub priority_array: [Option<Real>; PRIORITIES],
    /// Relinquish default.
    pub relinquish_default: Real,
    /// COV increment.
    pub cov_increment: Option<Real>,
    /// OUT_OF_RANGE high limit; `None` disables the high-limit check.
    pub high_limit: Option<Real>,
    /// OUT_OF_RANGE low limit; `None` disables the low-limit check.
    pub low_limit: Option<Real>,
    /// Hysteresis applied before returning to normal.
    pub deadband: Real,
    /// Intrinsic reporting state; `None` when event detection is not configured.
    pub alarm: Option<IntrinsicReporting>,
    /// Which optional properties the object has.
    pub optional: OptionalProperties,
    /// A local mechanism holding Present_Value, when one is.
    pub local_override: Option<LocalOverride<Real>>,
}

impl AnalogOutput {
    /// What Present_Value reads: the local override while there is one.
    pub open spec fn shown_value(self) -> Real {
        match self.local_override {
            Some(local) => local.value,
            None => self.present_value,
        }
    }

    /// The state the object answers from.
    pub open spec fn answers(&self) -> AnalogView<'_> {
        AnalogView {
            identifier: self.identifier,
            object_type: ObjectType::AnalogOutput,
            object_name: &self.object_name,
            description: &self.description,
            present_value: self.shown_value(),
            overridden: self.overridden || self.local_override is Some,
            event_state: self.event_state,
            reliability: self.reliability,
            out_of_service: self.out_of_service,
            units: self.units,
            high_limit: self.high_limit,
            low_limit: self.low_limit,
            deadband: self.deadband,
            cov_increment: self.cov_increment,
            alarm: self.alarm,
            optional: self.optional,
        }
    }

    /// The shared fields that clients may write.
    pub open spec fn state(self) -> AnalogState {
        AnalogState {
            common: CommonState {
                object_name: self.object_name,
                description: self.description,
                reliability: self.reliability,
                out_of_service: self.out_of_service,
            },
            high_limit: self.high_limit,
            low_limit: self.low_limit,
            deadband: self.deadband,
            alarm: self.alarm,
        }
    }

    /// This object with other shared fields.
    pub open spec fn with_state(self, state: AnalogState) -> AnalogOutput {
        AnalogOutput {
            object_name: state.common.object_name,
            description: state.common.description,
            reliability: state.common.reliability,
            out_of_service: state.common.out_of_service,
            high_limit: state.high_limit,
            low_limit: state.low_limit,
            deadband: state.deadband,
            alarm: state.alarm,
            ..self
        }
    }

    /// What writing a shared property leaves.
    pub open spec fn with_shared(
        self,
        property: PropertyIdentifier,
        value: PropertyValue,
    ) -> Result<AnalogOutput, ObjectErrorView> {
        match analog_writing(self.state(), self.optional, property, value) {
            Some(Ok(state)) => Ok(self.with_state(state)),
            Some(Err(error)) => Err(error),
            None => Err(ObjectErrorView::PropertyNotWritable),
        }
    }

    /// This object with a command put into its slot, or taken out of it.
    pub open spec fn with_command(self, priority: u8, value: Option<Real>) -> AnalogOutput {
        let slots = vstd::array::spec_array_update(self.priority_array, priority - 1, value);
        AnalogOutput {
            priority_array: slots,
            present_value: common::commanded(slots@, self.relinquish_default),
            ..self
        }
    }

    /// What a command at a priority leaves.
    pub open spec fn commanding(self, priority: u8, value: Option<Real>) -> Result<
        AnalogOutput,
        ObjectErrorView,
    > {
        if 1 <= priority <= PRIORITIES {
            Ok(self.with_command(priority, value))
        } else {
            Err(common::wrong_priority())
        }
    }

    /// What writing Present_Value at a priority leaves. Without a priority the
    /// lowest is meant.
    pub open spec fn with_present_value(self, value: PropertyValue, priority: Option<u8>) -> Result<
        AnalogOutput,
        ObjectErrorView,
    > {
        if !common::permits_write(self.local_override) {
            Err(ObjectErrorView::WriteAccessDenied)
        } else {
            match real_command(value) {
                Err(error) => Err(error),
                Ok(command) => self.commanding(
                    match priority {
                        Some(priority) => priority,
                        None => 16,
                    },
                    command,
                ),
            }
        }
    }

    /// Create a new Analog Output object.
    pub fn new(instance: u32, object_name: String) -> (object: AnalogOutput)
        ensures
            object.identifier == (ObjectIdentifier { object_type: ObjectType::AnalogOutput, instance }),
            object.object_name == object_name,
            object.present_value.bits == 0,
            object.description@ == Seq::<char>::empty(),
            object.device_type@ == Seq::<char>::empty(),
            !object.overridden,
            object.event_state == EventState::Normal,
            object.reliability == Reliability::NoFaultDetected,
            !object.out_of_service,
            object.units == EngineeringUnits::NoUnits,
            object.min_pres_value is None,
            object.max_pres_value is None,
            object.resolution is None,
            forall|i: int| 0 <= i < PRIORITIES ==> (#[trigger] object.priority_array@[i]) is None,
            object.relinquish_default.bits == 0,
            object.cov_increment is None,
            object.high_limit is None,
            object.low_limit is None,
            object.deadband.bits == 0,
            object.alarm is None,
            object.optional.description && object.optional.reliability,
            object.local_override is None,
    {
        AnalogOutput {
            identifier: ObjectIdentifier::new(ObjectType::AnalogOutput, instance),
            object_name,
            present_value: Real::zero(),
            description: String::new(),
            device_type: String::new(),
            overridden: false,
            event_state: EventState::Normal,
            reliability: Reliability::NoFaultDetected,
            out_of_service: false,
            units: EngineeringUnits::NoUnits,
            min_pres_value: None,
            max_pres_value: None,
            resolution: None,
            priority_array: [None; PRIORITIES],
            relinquish_default: Real::zero(),
            cov_increment: None,
            high_limit: None,
            low_limit: None,
            deadband: Real::zero(),
            alarm: None,
            optional: OptionalProperties::default(),
            local_override: None,
        }
    }

    /// Enable CHANGE_OF_RELIABILITY reporting through `notification_class`.
    pub fn with_intrinsic_reporting(self, notification_class: u32) -> (object: AnalogOutput)
        ensures
            object == (AnalogOutput { alarm: object.alarm, ..self }),
            object.alarm matches Some(alarm) && alarm.starts(notification_class),
    {
        let mut object = self;
        object.alarm = Some(IntrinsicReporting::new(notification_class));
        object
    }

    /// Enable OUT_OF_RANGE reporting through `notification_class`.
    pub fn with_out_of_range_reporting(
        self,
        notification_class: u32,
        low_limit: Option<Real>,
        high_limit: Option<Real>,
        deadband: Real,
    ) -> (object: AnalogOutput)
        ensures
            object == (AnalogOutput { alarm: object.alarm, low_limit, high_limit, deadband, ..self }),
            object.alarm matches Some(alarm) && alarm.starts(notification_class),
    {
        let mut object = self;
        object.low_limit = low_limit;
        object.high_limit = high_limit;
        object.deadband = deadband;
        object.alarm = Some(IntrinsicReporting::new(notification_class));
        object
    }

    /// Write to the priority array at the specified priority level (1-16).
    pub fn write_priority(&mut self, priority: u8, value: Option<Real>) -> (result: Result<
        (),
        ObjectError,
    >)
        ensures
            base::left(
                *old(self),
                *final(self),
                old(self).commanding(priority, value),
                base::outcome(result),
            ),
    {
        match write_priority_slot(
            &mut self.priority_array,
            priority,
            value,
            self.relinquish_default,
        ) {
            Ok(in_force) => {
                self.present_value = in_force;
                Ok(())
            },
            Err(error) => Err(error),
        }
    }

    /// Get the effective priority level for the current present value.
    pub fn get_effective_priority(&self) -> (priority: Option<u8>)
        ensures
            priority == common::priority_in_force(self.priority_array@),
    {
        effective_priority(&self.priority_array)
    }

    /// What Present_Value reads: the local override while there is one.
    pub fn effective_present_value(&self) -> (value: Real)
        ensures
            value == self.shown_value(),
    {
        match &self.local_override {
            Some(local) => local.value,
            None => self.present_value,
        }
    }

    fn borrowed(&self) -> (view: AnalogView<'_>)
        ensures
            view == self.answers(),
    {
        AnalogView {
            identifier: self.identifier,
            object_type: ObjectType::AnalogOutput,
            object_name: &self.object_name,
            description: &self.description,
            present_value: self.effective_present_value(),
            overridden: self.overridden || self.local_override.is_some(),
            event_state: self.event_state,
            reliability: self.reliability,
            out_of_service: self.out_of_service,
            units: self.units,
            high_limit: self.high_limit,
            low_limit: self.low_limit,
            deadband: self.deadband,
            cov_increment: self.cov_increment,
            alarm: self.alarm,
            optional: self.optional,
        }
    }

    fn set_shared(&mut self, property: PropertyIdentifier, value: PropertyValue) -> (result: Result<
        (),
        ObjectError,
    >)
        ensures
            base::left(
                *old(self),
                *final(self),
                old(self).with_shared(property, value),
                base::outcome(result),
            ),
    {
        match shared_set(
            &mut self.object_name,
            &mut self.description,
            &mut self.reliability,
            &mut self.out_of_service,
            &mut self.high_limit,
            &mut self.low_limit,
            &mut self.deadband,
            &mut self.alarm,
            self.optional,
            property,
            value,
        ) {
            Some(result) => result,
            None => Err(ObjectError::PropertyNotWritable),
        }
    }

    fn set_present(&mut self, value: PropertyValue, priority: Option<u8>) -> (result: Result<
        (),
        ObjectError,
    >)
        ensures
            base::left(
                *old(self),
                *final(self),
                old(self).with_present_value(value, priority),
                base::outcome(result),
            ),
    {
        if let Err(error) = override_permits_write(&self.local_override) {
            return Err(error);
        }
        match commandable_real(value) {
            Err(error) => Err(error),
            Ok(command) => {
                let level: u8 = match priority {
                    Some(priority) => priority,
                    None => 16,
                };
                self.write_priority(level, command)
            },
        }
    }
}

impl BacnetObject for AnalogOutput {
    open spec fn identity(&self) -> ObjectIdentifier {
        self.identifier
    }

    open spec fn reading(&self, property: PropertyIdentifier) -> Result<
        PropertyValueView,
        ObjectErrorView,
    > {
        match property {
            PropertyIdentifier::DeviceType => Ok(
                PropertyValueView::CharacterString(self.device_type@),
            ),
            PropertyIdentifier::PriorityArray => Ok(slots_reading(self.priority_array@)),
            PropertyIdentifier::RelinquishDefault => Ok(
                PropertyValueView::Real(self.relinquish_default),
            ),
            _ => error::or_unknown(analog_reading(self.answers(), property)),
        }
    }

    open spec fn writing(
        &self,
        after: AnalogOutput,
        property: PropertyIdentifier,
        value: PropertyValue,
        priority: Option<u8>,
        outcome: Result<(), ObjectErrorView>,
    ) -> bool {
        base::left(
            *self,
            after,
            if property == PropertyIdentifier::PresentValue {
                self.with_present_value(value, priority)
            } else {
                self.with_shared(property, value)
            },
            outcome,
        )
    }

    open spec fn accepts(&self, property: PropertyIdentifier) -> bool {
        property == PropertyIdentifier::PresentValue || analog_accepts(
            property,
            self.alarm is Some,
            self.optional,
        )
    }

    open spec fn listing(&self) -> Seq<PropertyIdentifier> {
        analog_listing(true, true, self.answers())
    }

    open spec fn sourcing(
        &self,
        after: AnalogOutput,
        value: PropertyValue,
        outcome: Result<(), ObjectErrorView>,
    ) -> bool {
        outcome == Err::<(), ObjectErrorView>(ObjectErrorView::OptionalFunctionalityNotSupported)
            && after == *self
    }

    open spec fn reporting(&self) -> Option<IntrinsicReporting> {
        self.alarm
    }

    open spec fn reports_as(&self, after: AnalogOutput, reporting: IntrinsicReporting) -> bool {
        after == if self.alarm is Some {
            AnalogOutput { alarm: Some(reporting), ..*self }
        } else {
            *self
        }
    }

    open spec fn evaluation(&self) -> Option<AlarmEvaluation> {
        analog_evaluation(
            self.shown_value(),
            self.high_limit,
            self.low_limit,
            self.deadband,
            self.reliability,
            self.event_state,
            self.alarm,
        )
    }

    open spec fn enters(&self, after: AnalogOutput, state: EventState) -> bool {
        after == (AnalogOutput { event_state: state, ..*self })
    }

    open spec fn decoupled(&self) -> bool {
        self.out_of_service
    }

    fn identifier(&self) -> (identifier: ObjectIdentifier) {
        self.identifier
    }

    fn get_property(&self, property: PropertyIdentifier) -> (result: Result<
        PropertyValue,
        ObjectError,
    >) {
        match property {
            PropertyIdentifier::DeviceType => Ok(
                PropertyValue::CharacterString(self.device_type.clone()),
            ),
            PropertyIdentifier::PriorityArray => Ok(priority_array_value(&self.priority_array)),
            PropertyIdentifier::RelinquishDefault => Ok(
                PropertyValue::Real(self.relinquish_default),
            ),
            _ => error::answered(shared_get(&self.borrowed(), property)),
        }
    }

    fn set_property(&mut self, property: PropertyIdentifier, value: PropertyValue) -> (result:
        Result<(), ObjectError>) {
        if property == PropertyIdentifier::PresentValue {
            self.set_present(value, None)
        } else {
            self.set_shared(property, value)
        }
    }

    fn set_property_with_priority(
        &mut self,
        property: PropertyIdentifier,
        value: PropertyValue,
        priority: Option<u8>,
    ) -> (result: Result<(), ObjectError>) {
        if property == PropertyIdentifier::PresentValue {
            self.set_present(value, priority)
        } else {
            self.set_shared(property, value)
        }
    }

    fn is_property_writable(&self, property: PropertyIdentifier) -> (writable: bool) {
        property == PropertyIdentifier::PresentValue || shared_writable(
            property,
            self.alarm.is_some(),
            self.optional,
        )
    }

    fn property_list(&self) -> (properties: Vec<PropertyIdentifier>) {
        shared_property_list(true, true, &self.borrowed())
    }

    /// A commandable object has a priority array, so a source goes through the
    /// command path rather than around it.
    fn set_sourced_value(&mut self, value: PropertyValue) -> (result: Result<(), ObjectError>) {
        Err(ObjectError::OptionalFunctionalityNotSupported)
    }

    fn intrinsic(&self) -> (reporting: Option<IntrinsicReporting>) {
        self.alarm
    }

    fn store_intrinsic(&mut self, reporting: IntrinsicReporting) {
        if self.alarm.is_some() {
            self.alarm = Some(reporting);
        }
    }

    fn evaluate_alarm(&self) -> (evaluation: Option<AlarmEvaluation>) {
        evaluate_analog(
            self.effective_present_value(),
            self.high_limit,
            self.low_limit,
            self.deadband,
            self.reliability,
            self.event_state,
            self.alarm,
        )
    }

    fn apply_event_state(&mut self, state: EventState) {
        self.event_state = state;
    }

    fn is_out_of_service(&self) -> (decoupled: bool) {
        self.out_of_service
    }
}

/// Analog Value object.
#[derive(Debug, Clone)]
pub struct AnalogValue {
    /// Object identifier.
    pub identifier: ObjectIdentifier,
    /// Object name.
    pub object_name: String,
    /// Present value.
    pub present_value: Real,
    /// Description.
    pub description: String,
    /// Whether an operator has overridden the point. The other Status_Flags bits
    /// are derived from Event_State, Reliability and Out_Of_Service.
    pub overridden: bool,
    /// Event state.
    pub event_state: EventState,
    /// Reliability.
    pub reliability: Reliability,
    /// Out of service.
    pub out_of_service: bool,
    /// Units.
    pub units: EngineeringUnits,
    /// Whether Present_Value is commanded through a priority array, or written
    /// straight through.
    pub commandable: bool,
    /// Priority array (16 levels).
    pub priority_array: [Option<Real>; PRIORITIES],
    /// Relinquish default.
    pub relinquish_default: Real,
    /// COV increment.
    pub cov_increment: Option<Real>,
    /// OUT_OF_RANGE high limit; `None` disables the high-limit check.
    pub high_limit: Option<Real>,
    /// OUT_OF_RANGE low limit; `None` disables the low-limit check.
    pub low_limit: Option<Real>,
    /// Hysteresis applied before returning to normal.
    pub deadband: Real,
    /// Intrinsic reporting state; `None` when event detection is not configured.
    pub alarm: Option<IntrinsicReporting>,
    /// Which optional properties the object has.
    pub optional: OptionalProperties,
    /// A local mechanism holding Present_Value, when one is.
    pub local_override: Option<LocalOverride<Real>>,
}

impl AnalogValue {
    /// What Present_Value reads: the local override while there is one.
    pub open spec fn shown_value(self) -> Real {
        match self.local_override {
            Some(local) => local.value,
            None => self.present_value,
        }
    }

    /// The state the object answers from.
    pub open spec fn answers(&self) -> AnalogView<'_> {
        AnalogView {
            identifier: self.identifier,
            object_type: ObjectType::AnalogValue,
            object_name: &self.object_name,
            description: &self.description,
            present_value: self.shown_value(),
            overridden: self.overridden || self.local_override is Some,
            event_state: self.event_state,
            reliability: self.reliability,
            out_of_service: self.out_of_service,
            units: self.units,
            high_limit: self.high_limit,
            low_limit: self.low_limit,
            deadband: self.deadband,
            cov_increment: self.cov_increment,
            alarm: self.alarm,
            optional: self.optional,
        }
    }

    /// The shared fields that clients may write.
    pub open spec fn state(self) -> AnalogState {
        AnalogState {
            common: CommonState {
                object_name: self.object_name,
                description: self.description,
                reliability: self.reliability,
                out_of_service: self.out_of_service,
            },
            high_limit: self.high_limit,
            low_limit: self.low_limit,
            deadband: self.deadband,
            alarm: self.alarm,
        }
    }

    /// This object with other shared fields.
    pub open spec fn with_state(self, state: AnalogState) -> AnalogValue {
        AnalogValue {
            object_name: state.common.object_name,
            description: state.common.description,
            reliability: state.common.reliability,
            out_of_service: state.common.out_of_service,
            high_limit: state.high_limit,
            low_limit: state.low_limit,
            deadband: state.deadband,
            alarm: state.alarm,
            ..self
        }
    }

    /// What writing a shared property leaves.
    pub open spec fn with_shared(
        self,
        property: PropertyIdentifier,
        value: PropertyValue,
    ) -> Result<AnalogValue, ObjectErrorView> {
        match analog_writing(self.state(), self.optional, property, value) {
            Some(Ok(state)) => Ok(self.with_state(state)),
            Some(Err(error)) => Err(error),
            None => Err(ObjectErrorView::PropertyNotWritable),
        }
    }

    /// This object with a command put into its slot, or taken out of it.
    pub open spec fn with_command(self, priority: u8, value: Option<Real>) -> AnalogValue {
        let slots = vstd::array::spec_array_update(self.priority_array, priority - 1, value);
        AnalogValue {
            priority_array: slots,
            present_value: common::commanded(slots@, self.relinquish_default),
            ..self
        }
    }

    /// What a command at a priority leaves.
    pub open spec fn commanding(self, priority: u8, value: Option<Real>) -> Result<
        AnalogValue,
        ObjectErrorView,
    > {
        if 1 <= priority <= PRIORITIES {
            Ok(self.with_command(priority, value))
        } else {
            Err(common::wrong_priority())
        }
    }

    /// What writing Present_Value at a priority leaves. Without a priority the
    /// lowest is meant.
    pub open spec fn with_present_value(self, value: PropertyValue, priority: Option<u8>) -> Result<
        AnalogValue,
        ObjectErrorView,
    > {
        if !common::permits_write(self.local_override) {
            Err(ObjectErrorView::WriteAccessDenied)
        } else if !self.commandable {
            match real_command(value) {
                Ok(Some(value)) => Ok(AnalogValue { present_value: value, ..self }),
                _ => Err(ObjectErrorView::InvalidPropertyType),
            }
        } else {
            match real_command(value) {
                Err(error) => Err(error),
                Ok(command) => self.commanding(
                    match priority {
                        Some(priority) => priority,
                        None => 16,
                    },
                    command,
                ),
            }
        }
    }

    /// Create a new Analog Value object.
    pub fn new(instance: u32, object_name: String) -> (object: AnalogValue)
        ensures
            object.identifier == (ObjectIdentifier { object_type: ObjectType::AnalogValue, instance }),
            object.object_name == object_name,
            object.present_value.bits == 0,
            object.description@ == Seq::<char>::empty(),
            !object.overridden,
            object.event_state == EventState::Normal,
            object.reliability == Reliability::NoFaultDetected,
            !object.out_of_service,
            object.units == EngineeringUnits::NoUnits,
            object.commandable,
            forall|i: int| 0 <= i < PRIORITIES ==> (#[trigger] object.priority_array@[i]) is None,
            object.relinquish_default.bits == 0,
            object.cov_increment is None,
            object.high_limit is None,
            object.low_limit is None,
            object.deadband.bits == 0,
            object.alarm is None,
            object.optional.description && object.optional.reliability,
            object.local_override is None,
    {
        AnalogValue {
            identifier: ObjectIdentifier::new(ObjectType::AnalogValue, instance),
            object_name,
            present_value: Real::zero(),
            description: String::new(),
            overridden: false,
            event_state: EventState::Normal,
            reliability: Reliability::NoFaultDetected,
            out_of_service: false,
            units: EngineeringUnits::NoUnits,
            commandable: true,
            priority_array: [None; PRIORITIES],
            relinquish_default: Real::zero(),
            cov_increment: None,
            high_limit: None,
            low_limit: None,
            deadband: Real::zero(),
            alarm: None,
            optional: OptionalProperties::default(),
            local_override: None,
        }
    }

    /// Enable CHANGE_OF_RELIABILITY reporting through `notification_class`.
    pub fn with_intrinsic_reporting(self, notification_class: u32) -> (object: AnalogValue)
        ensures
            object == (AnalogValue { alarm: object.alarm, ..self }),
            object.alarm matches Some(alarm) && alarm.starts(notification_class),
    {
        let mut object = self;
        object.alarm = Some(IntrinsicReporting::new(notification_class));
        object
    }

    /// Enable OUT_OF_RANGE reporting through `notification_class`.
    pub fn with_out_of_range_reporting(
        self,
        notification_class: u32,
        low_limit: Option<Real>,
        high_limit: Option<Real>,
        deadband: Real,
    ) -> (object: AnalogValue)
        ensures
            object == (AnalogValue { alarm: object.alarm, low_limit, high_limit, deadband, ..self }),
            object.alarm matches Some(alarm) && alarm.starts(notification_class),
    {
        let mut object = self;
        object.low_limit = low_limit;
        object.high_limit = high_limit;
        object.deadband = deadband;
        object.alarm = Some(IntrinsicReporting::new(notification_class));
        object
    }

    /// Write to the priority array at the specified priority level (1-16).
    pub fn write_priority(&mut self, priority: u8, value: Option<Real>) -> (result: Result<
        (),
        ObjectError,
    >)
        ensures
            base::left(
                *old(self),
                *final(self),
                old(self).commanding(priority, value),
                base::outcome(result),
            ),
    {
        match write_priority_slot(
            &mut self.priority_array,
            priority,
            value,
            self.relinquish_default,
        ) {
            Ok(in_force) => {
                self.present_value = in_force;
                Ok(())
            },
            Err(error) => Err(error),
        }
    }

    /// What Present_Value reads: the local override while there is one.
    pub fn effective_present_value(&self) -> (value: Real)
        ensures
            value == self.shown_value(),
    {
        match &self.local_override {
            Some(local) => local.value,
            None => self.present_value,
        }
    }

    fn borrowed(&self) -> (view: AnalogView<'_>)
        ensures
            view == self.answers(),
    {
        AnalogView {
            identifier: self.identifier,
            object_type: ObjectType::AnalogValue,
            object_name: &self.object_name,
            description: &self.description,
            present_value: self.effective_present_value(),
            overridden: self.overridden || self.local_override.is_some(),
            event_state: self.event_state,
            reliability: self.reliability,
            out_of_service: self.out_of_service,
            units: self.units,
            high_limit: self.high_limit,
            low_limit: self.low_limit,
            deadband: self.deadband,
            cov_increment: self.cov_increment,
            alarm: self.alarm,
            optional: self.optional,
        }
    }

    fn set_shared(&mut self, property: PropertyIdentifier, value: PropertyValue) -> (result: Result<
        (),
        ObjectError,
    >)
        ensures
            base::left(
                *old(self),
                *final(self),
                old(self).with_shared(property, value),
                base::outcome(result),
            ),
    {
        match shared_set(
            &mut self.object_name,
            &mut self.description,
            &mut self.reliability,
            &mut self.out_of_service,
            &mut self.high_limit,
            &mut self.low_limit,
            &mut self.deadband,
            &mut self.alarm,
            self.optional,
            property,
            value,
        ) {
            Some(result) => result,
            None => Err(ObjectError::PropertyNotWritable),
        }
    }

    fn set_present(&mut self, value: PropertyValue, priority: Option<u8>) -> (result: Result<
        (),
        ObjectError,
    >)
        ensures
            base::left(
                *old(self),
                *final(self),
                old(self).with_present_value(value, priority),
                base::outcome(result),
            ),
    {
        if let Err(error) = override_permits_write(&self.local_override) {
            return Err(error);
        }
        // Not commandable: the value is simply written, and a priority has nothing
        // to act on. Nor is there anything to relinquish to.
        if !self.commandable {
            return match commandable_real(value) {
                Ok(Some(value)) => {
                    self.present_value = value;
                    Ok(())
                },
                _ => Err(ObjectError::InvalidPropertyType),
            };
        }
        match commandable_real(value) {
            Err(error) => Err(error),
            Ok(command) => {
                let level: u8 = match priority {
                    Some(priority) => priority,
                    None => 16,
                };
                self.write_priority(level, command)
            },
        }
    }
}

impl BacnetObject for AnalogValue {
    open spec fn identity(&self) -> ObjectIdentifier {
        self.identifier
    }

    open spec fn reading(&self, property: PropertyIdentifier) -> Result<
        PropertyValueView,
        ObjectErrorView,
    > {
        if self.commandable && property == PropertyIdentifier::PriorityArray {
            Ok(slots_reading(self.priority_array@))
        } else if self.commandable && property == PropertyIdentifier::RelinquishDefault {
            Ok(PropertyValueView::Real(self.relinquish_default))
        } else {
            error::or_unknown(analog_reading(self.answers(), property))
        }
    }

    open spec fn writing(
        &self,
        after: AnalogValue,
        property: PropertyIdentifier,
        value: PropertyValue,
        priority: Option<u8>,
        outcome: Result<(), ObjectErrorView>,
    ) -> bool {
        base::left(
            *self,
            after,
            if property == PropertyIdentifier::PresentValue {
                self.with_present_value(value, priority)
            } else {
                self.with_shared(property, value)
            },
            outcome,
        )
    }

    open spec fn accepts(&self, property: PropertyIdentifier) -> bool {
        property == PropertyIdentifier::PresentValue || analog_accepts(
            property,
            self.alarm is Some,
            self.optional,
        )
    }

    open spec fn listing(&self) -> Seq<PropertyIdentifier> {
        analog_listing(false, self.commandable, self.answers())
    }

    open spec fn sourcing(
        &self,
        after: AnalogValue,
        value: PropertyValue,
        outcome: Result<(), ObjectErrorView>,
    ) -> bool {
        outcome == Err::<(), ObjectErrorView>(ObjectErrorView::OptionalFunctionalityNotSupported)
            && after == *self
    }

    open spec fn reporting(&self) -> Option<IntrinsicReporting> {
        self.alarm
    }

    open spec fn reports_as(&self, after: AnalogValue, reporting: IntrinsicReporting) -> bool {
        after == if self.alarm is Some {
            AnalogValue { alarm: Some(reporting), ..*self }
        } else {
            *self
        }
    }

    open spec fn evaluation(&self) -> Option<AlarmEvaluation> {
        analog_evaluation(
            self.shown_value(),
            self.high_limit,
            self.low_limit,
            self.deadband,
            self.reliability,
            self.event_state,
            self.alarm,
        )
    }

    open spec fn enters(&self, after: AnalogValue, state: EventState) -> bool {
        after == (AnalogValue { event_state: state, ..*self })
    }

    open spec fn decoupled(&self) -> bool {
        self.out_of_service
    }

    fn identifier(&self) -> (identifier: ObjectIdentifier) {
        self.identifier
    }

    fn get_property(&self, property: PropertyIdentifier) -> (result: Result<
        PropertyValue,
        ObjectError,
    >) {
        if self.commandable && property == PropertyIdentifier::PriorityArray {
            Ok(priority_array_value(&self.priority_array))
        } else if self.commandable && property == PropertyIdentifier::RelinquishDefault {
            Ok(PropertyValue::Real(self.relinquish_default))
        } else {
            error::answered(shared_get(&self.borrowed(), property))
        }
    }

    fn set_property(&mut self, property: PropertyIdentifier, value: PropertyValue) -> (result:
        Result<(), ObjectError>) {
        if property == PropertyIdentifier::PresentValue {
            self.set_present(value, None)
        } else {
            self.set_shared(property, value)
        }
    }

    fn set_property_with_priority(
        &mut self,
        property: PropertyIdentifier,
        value: PropertyValue,
        priority: Option<u8>,
    ) -> (result: Result<(), ObjectError>) {
        if property == PropertyIdentifier::PresentValue {
            self.set_present(value, priority)
        } else {
            self.set_shared(property, value)
        }
    }

    fn is_property_writable(&self, property: PropertyIdentifier) -> (writable: bool) {
        property == PropertyIdentifier::PresentValue || shared_writable(
            property,
            self.alarm.is_some(),
            self.optional,
        )
    }

    fn property_list(&self) -> (properties: Vec<PropertyIdentifier>) {
        shared_property_list(false, self.commandable, &self.borrowed())
    }

    /// A commandable object has a priority array, so a source goes through the
    /// command path rather than around it.
    fn set_sourced_value(&mut self, value: PropertyValue) -> (result: Result<(), ObjectError>) {
        Err(ObjectError::OptionalFunctionalityNotSupported)
    }

    fn intrinsic(&self) -> (reporting: Option<IntrinsicReporting>) {
        self.alarm
    }

    fn store_intrinsic(&mut self, reporting: IntrinsicReporting) {
        if self.alarm.is_some() {
            self.alarm = Some(reporting);
        }
    }

    fn evaluate_alarm(&self) -> (evaluation: Option<AlarmEvaluation>) {
        evaluate_analog(
            self.effective_present_value(),
            self.high_limit,
            self.low_limit,
            self.deadband,
            self.reliability,
            self.event_state,
            self.alarm,
        )
    }

    fn apply_event_state(&mut self, state: EventState) {
        self.event_state = state;
    }

    fn is_out_of_service(&self) -> (decoupled: bool) {
        self.out_of_service
    }
}

} // verus!
