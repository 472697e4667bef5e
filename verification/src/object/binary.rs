//! Binary Input, Binary Output and Binary Value objects: two-state values.

use crate::object::base;
use crate::object::base::BacnetObject;
use crate::object::common;
use crate::object::common::{
    common_get, common_set, effective_priority, write_priority_slot, CommonState, CommonView,
    CommonWrite, OptionalProperties, Time, PRIORITIES,
};
use crate::object::error;
use crate::object::error::{ObjectError, ObjectErrorView};
use crate::object::identifier::{ObjectIdentifier, ObjectType, PropertyIdentifier};
use crate::object::intrinsic;
use crate::object::intrinsic::{
    intrinsic_get, intrinsic_property_list, intrinsic_set, status_flags_bits, AlarmEvaluation,
    AlarmTrigger, IntrinsicReporting,
};
use crate::object::state::{EventState, Reliability};
use crate::property::value;
use crate::property::value::{PropertyValue, PropertyValueView};
use vstd::prelude::*;

verus! {

/// Binary values enumeration.
#[derive(Debug, Clone, Copy, PartialEq, Eq, Structural)]
pub enum BinaryPV {
    Inactive,
    Active,
}

impl BinaryPV {
    /// The number that stands for this value on the wire.
    pub open spec fn number(self) -> u32 {
        match self {
            BinaryPV::Inactive => 0,
            BinaryPV::Active => 1,
        }
    }

    /// The number that stands for this value on the wire.
    pub fn to_number(self) -> (number: u32)
        ensures
            number == self.number(),
    {
        match self {
            BinaryPV::Inactive => 0,
            BinaryPV::Active => 1,
        }
    }
}

impl From<bool> for BinaryPV {
    fn from(value: bool) -> (state: BinaryPV) {
        if value {
            BinaryPV::Active
        } else {
            BinaryPV::Inactive
        }
    }
}

impl vstd::std_specs::convert::FromSpecImpl<bool> for BinaryPV {
    open spec fn obeys_from_spec() -> bool {
        true
    }

    open spec fn from_spec(value: bool) -> BinaryPV {
        if value {
            BinaryPV::Active
        } else {
            BinaryPV::Inactive
        }
    }
}

impl From<BinaryPV> for bool {
    fn from(value: BinaryPV) -> (active: bool) {
        value == BinaryPV::Active
    }
}

impl vstd::std_specs::convert::FromSpecImpl<BinaryPV> for bool {
    open spec fn obeys_from_spec() -> bool {
        true
    }

    open spec fn from_spec(value: BinaryPV) -> bool {
        value == BinaryPV::Active
    }
}

/// The value of a command; null relinquishes.
pub open spec fn binary_command(value: PropertyValue) -> Result<
    Option<BinaryPV>,
    ObjectErrorView,
> {
    match value {
        PropertyValue::Enumerated(number) => if number == 0 {
            Ok(Some(BinaryPV::Inactive))
        } else if number == 1 {
            Ok(Some(BinaryPV::Active))
        } else {
            Err(ObjectErrorView::InvalidValue("Binary value must be 0 or 1"@))
        },
        PropertyValue::Null => Ok(None),
        _ => Err(ObjectErrorView::InvalidPropertyType),
    }
}

fn commandable_binary(value: PropertyValue) -> (command: Result<Option<BinaryPV>, ObjectError>)
    ensures
        match (command, binary_command(value)) {
            (Ok(command), Ok(stated)) => command == stated,
            (Err(error), Err(stated)) => error@ == stated,
            _ => false,
        },
{
    match value {
        PropertyValue::Enumerated(number) => if number == 0 {
            Ok(Some(BinaryPV::Inactive))
        } else if number == 1 {
            Ok(Some(BinaryPV::Active))
        } else {
            Err(error::invalid_value("Binary value must be 0 or 1"))
        },
        PropertyValue::Null => Ok(None),
        _ => Err(ObjectError::InvalidPropertyType),
    }
}

/// Polarity enumeration.
#[derive(Debug, Clone, Copy, PartialEq, Eq, Structural)]
pub enum Polarity {
    Normal,
    Reverse,
}

impl Polarity {
    /// The polarity that a number on the wire stands for.
    pub fn try_from(value: u32) -> (polarity: Result<Polarity, ObjectError>)
        ensures
            match polarity {
                Ok(polarity) => value == match polarity {
                    Polarity::Normal => 0u32,
                    Polarity::Reverse => 1u32,
                },
                Err(error) => value > 1 && error@ == ObjectErrorView::InvalidValue(
                    "Polarity must be 0 or 1"@,
                ),
            },
    {
        match value {
            0 => Ok(Polarity::Normal),
            1 => Ok(Polarity::Reverse),
            _ => Err(error::invalid_value("Polarity must be 0 or 1")),
        }
    }
}

// ---------------------------------------------------------------------------
// The event algorithm
// ---------------------------------------------------------------------------

/// What CHANGE_OF_STATE demands of a binary object: off-normal while the value is
/// the alarm value. An unreliable object goes to fault, which takes precedence.
pub open spec fn binary_evaluation(
    present_value: BinaryPV,
    alarm_value: BinaryPV,
    reliability: Reliability,
    alarm: Option<IntrinsicReporting>,
) -> Option<AlarmEvaluation> {
    match alarm {
        None => None,
        Some(alarm) => if !alarm.event_detection_enable {
            None
        } else if reliability != Reliability::NoFaultDetected {
            Some(
                AlarmEvaluation {
                    desired_state: EventState::Fault,
                    trigger: AlarmTrigger::ReliabilityChange { reliability },
                },
            )
        } else {
            Some(
                AlarmEvaluation {
                    desired_state: if present_value == alarm_value {
                        EventState::Offnormal
                    } else {
                        EventState::Normal
                    },
                    trigger: AlarmTrigger::BinaryChange {
                        active: present_value == BinaryPV::Active,
                    },
                },
            )
        },
    }
}

/// Run CHANGE_OF_STATE for a binary object.
pub fn evaluate_binary(
    present_value: BinaryPV,
    alarm_value: BinaryPV,
    reliability: Reliability,
    alarm: Option<IntrinsicReporting>,
) -> (evaluation: Option<AlarmEvaluation>)
    ensures
        evaluation == binary_evaluation(present_value, alarm_value, reliability, alarm),
{
    match alarm {
        Some(alarm) => {
            if !alarm.event_detection_enable {
                return None;
            }
        },
        None => {
            return None;
        },
    }

    if reliability != Reliability::NoFaultDetected {
        return Some(
            AlarmEvaluation {
                desired_state: EventState::Fault,
                trigger: AlarmTrigger::ReliabilityChange { reliability },
            },
        );
    }
    let desired_state = if present_value == alarm_value {
        EventState::Offnormal
    } else {
        EventState::Normal
    };
    Some(
        AlarmEvaluation {
            desired_state,
            trigger: AlarmTrigger::BinaryChange { active: present_value == BinaryPV::Active },
        },
    )
}

// ---------------------------------------------------------------------------
// Properties that all binary objects have
// ---------------------------------------------------------------------------

/// A binary object leaves none of the optional properties out.
pub open spec fn complete() -> OptionalProperties {
    OptionalProperties { description: true, reliability: true }
}

/// The state every binary object type answers from.
pub struct BinaryView<'a> {
    pub identifier: ObjectIdentifier,
    pub object_type: ObjectType,
    pub object_name: &'a String,
    pub description: &'a String,
    pub present_value: BinaryPV,
    pub overridden: bool,
    pub event_state: EventState,
    pub reliability: Reliability,
    pub out_of_service: bool,
    pub inactive_text: &'a String,
    pub active_text: &'a String,
    pub alarm_value: BinaryPV,
    pub alarm: Option<IntrinsicReporting>,
}

/// The part of the state that the common properties are answered from.
pub open spec fn common_part(view: BinaryView) -> CommonView {
    CommonView {
        identifier: view.identifier,
        object_type: view.object_type,
        object_name: view.object_name,
        description: view.description,
        event_state: view.event_state,
        reliability: view.reliability,
        out_of_service: view.out_of_service,
        overridden: view.overridden,
        optional: complete(),
    }
}

/// What an alarm property of a binary object reads.
pub open spec fn binary_alarm_reading(view: BinaryView, property: PropertyIdentifier) -> Option<
    Result<PropertyValueView, ObjectErrorView>,
> {
    match view.alarm {
        None => None,
        Some(alarm) => match property {
            PropertyIdentifier::AlarmValue => Some(
                Ok(PropertyValueView::Enumerated(view.alarm_value.number())),
            ),
            _ => intrinsic::intrinsic_offer(alarm, property),
        },
    }
}

/// What a property that all binary objects have reads; `None` for any other.
pub open spec fn binary_reading(view: BinaryView, property: PropertyIdentifier) -> Option<
    Result<PropertyValueView, ObjectErrorView>,
> {
    match common::common_reading(common_part(view), property) {
        Some(result) => Some(result),
        None => match property {
            PropertyIdentifier::PresentValue => Some(
                Ok(PropertyValueView::Enumerated(view.present_value.number())),
            ),
            PropertyIdentifier::InactiveText => Some(
                Ok(PropertyValueView::CharacterString(view.inactive_text@)),
            ),
            PropertyIdentifier::ActiveText => Some(
                Ok(PropertyValueView::CharacterString(view.active_text@)),
            ),
            _ => binary_alarm_reading(view, property),
        },
    }
}

/// Read an alarm property from a binary object.
fn binary_alarm_get(view: &BinaryView<'_>, property: PropertyIdentifier) -> (offer: Option<
    Result<PropertyValue, ObjectError>,
>)
    ensures
        error::same_offer(offer, binary_alarm_reading(*view, property)),
{
    match &view.alarm {
        None => None,
        Some(alarm) => match property {
            PropertyIdentifier::AlarmValue => Some(
                Ok(PropertyValue::Enumerated(view.alarm_value.to_number())),
            ),
            _ => intrinsic_get(alarm, property),
        },
    }
}

/// Read a property common to every binary object type.
///
/// Returns `None` for properties belonging to a single type (priority array) so
/// callers fall through to their own arms.
fn shared_get(view: &BinaryView<'_>, property: PropertyIdentifier) -> (offer: Option<
    Result<PropertyValue, ObjectError>,
>)
    ensures
        error::same_offer(offer, binary_reading(*view, property)),
{
    let common = CommonView {
        identifier: view.identifier,
        object_type: view.object_type,
        object_name: view.object_name,
        description: view.description,
        event_state: view.event_state,
        reliability: view.reliability,
        out_of_service: view.out_of_service,
        overridden: view.overridden,
        optional: OptionalProperties::default(),
    };
    if let Some(result) = common_get(&common, property) {
        return Some(result);
    }
    match property {
        PropertyIdentifier::PresentValue => Some(
            Ok(PropertyValue::Enumerated(view.present_value.to_number())),
        ),
        PropertyIdentifier::InactiveText => Some(
            Ok(PropertyValue::CharacterString(view.inactive_text.clone())),
        ),
        PropertyIdentifier::ActiveText => Some(
            Ok(PropertyValue::CharacterString(view.active_text.clone())),
        ),
        _ => binary_alarm_get(view, property),
    }
}

/// The fields of a binary object that clients may write on every type.
pub struct BinaryState {
    pub common: CommonState,
    pub alarm_value: BinaryPV,
    pub alarm: Option<IntrinsicReporting>,
}

/// What a write to an alarm property of a binary object leaves.
pub open spec fn binary_alarm_writing(
    state: BinaryState,
    property: PropertyIdentifier,
    value: PropertyValue,
) -> Option<Result<BinaryState, ObjectErrorView>> {
    match state.alarm {
        None => None,
        Some(alarm) => match property {
            PropertyIdentifier::AlarmValue => match value {
                PropertyValue::Enumerated(number) => if number == 0 {
                    Some(Ok(BinaryState { alarm_value: BinaryPV::Inactive, ..state }))
                } else if number == 1 {
                    Some(Ok(BinaryState { alarm_value: BinaryPV::Active, ..state }))
                } else {
                    Some(Err(ObjectErrorView::InvalidPropertyType))
                },
                PropertyValue::Boolean(active) => Some(
                    Ok(
                        BinaryState {
                            alarm_value: if active {
                                BinaryPV::Active
                            } else {
                                BinaryPV::Inactive
                            },
                            ..state
                        },
                    ),
                ),
                _ => Some(Err(ObjectErrorView::InvalidPropertyType)),
            },
            _ => match intrinsic::intrinsic_writing(alarm, property, value) {
                None => None,
                Some(Ok(after)) => Some(Ok(BinaryState { alarm: Some(after), ..state })),
                Some(Err(error)) => Some(Err(error)),
            },
        },
    }
}

/// What a write to a property that all binary objects have leaves; `None` for any
/// other property.
pub open spec fn binary_writing(
    state: BinaryState,
    property: PropertyIdentifier,
    value: PropertyValue,
) -> Option<Result<BinaryState, ObjectErrorView>> {
    match common::common_writing(state.common, complete(), property, value) {
        Some(Ok(common)) => Some(Ok(BinaryState { common, ..state })),
        Some(Err(error)) => Some(Err(error)),
        None => binary_alarm_writing(state, property, value),
    }
}

/// Write an alarm property on a binary object.
fn binary_alarm_set(
    alarm_value: &mut BinaryPV,
    alarm: &mut Option<IntrinsicReporting>,
    property: PropertyIdentifier,
    value: PropertyValue,
) -> (offer: Option<Result<(), ObjectError>>)
    ensures
        forall|common: CommonState|
            error::same_write_offer(
                offer,
                BinaryState { common, alarm_value: *old(alarm_value), alarm: *old(alarm) },
                BinaryState { common, alarm_value: *final(alarm_value), alarm: *final(alarm) },
                #[trigger] binary_alarm_writing(
                    BinaryState { common, alarm_value: *old(alarm_value), alarm: *old(alarm) },
                    property,
                    value,
                ),
            ),
{
    match alarm {
        None => None,
        Some(reporting) => match property {
            PropertyIdentifier::AlarmValue => match value {
                PropertyValue::Enumerated(number) => if number == 0 {
                    *alarm_value = BinaryPV::Inactive;
                    Some(Ok(()))
                } else if number == 1 {
                    *alarm_value = BinaryPV::Active;
                    Some(Ok(()))
                } else {
                    Some(Err(ObjectError::InvalidPropertyType))
                },
                PropertyValue::Boolean(active) => {
                    *alarm_value = if active {
                        BinaryPV::Active
                    } else {
                        BinaryPV::Inactive
                    };
                    Some(Ok(()))
                },
                _ => Some(Err(ObjectError::InvalidPropertyType)),
            },
            _ => intrinsic_set(reporting, property, value),
        },
    }
}

/// Write a property common to every binary object type. `None` means the property
/// is not one this helper owns.
fn shared_set(
    object_name: &mut String,
    description: &mut String,
    reliability: &mut Reliability,
    out_of_service: &mut bool,
    alarm_value: &mut BinaryPV,
    alarm: &mut Option<IntrinsicReporting>,
    property: PropertyIdentifier,
    value: PropertyValue,
) -> (offer: Option<Result<(), ObjectError>>)
    ensures
        ({
            let before = BinaryState {
                common: CommonState {
                    object_name: *old(object_name),
                    description: *old(description),
                    reliability: *old(reliability),
                    out_of_service: *old(out_of_service),
                },
                alarm_value: *old(alarm_value),
                alarm: *old(alarm),
            };
            let after = BinaryState {
                common: CommonState {
                    object_name: *final(object_name),
                    description: *final(description),
                    reliability: *final(reliability),
                    out_of_service: *final(out_of_service),
                },
                alarm_value: *final(alarm_value),
                alarm: *final(alarm),
            };
            error::same_write_offer(offer, before, after, binary_writing(before, property, value))
        }),
{
    match common_set(
        object_name,
        description,
        reliability,
        out_of_service,
        OptionalProperties::default(),
        property,
        value,
    ) {
        CommonWrite::Handled(result) => Some(result),
        CommonWrite::Unclaimed(value) => {
            let ghost state = BinaryState {
                common: CommonState {
                    object_name: *object_name,
                    description: *description,
                    reliability: *reliability,
                    out_of_service: *out_of_service,
                },
                alarm_value: *alarm_value,
                alarm: *alarm,
            };
            proof {
                assert(binary_alarm_writing(state, property, value) == binary_alarm_writing(
                    state,
                    property,
                    value,
                ));
            }
            binary_alarm_set(alarm_value, alarm, property, value)
        },
    }
}

/// Whether a property shared by every binary object type accepts writes.
pub open spec fn binary_accepts(property: PropertyIdentifier, configured: bool) -> bool {
    property == PropertyIdentifier::ObjectName || property == PropertyIdentifier::Description
        || property == PropertyIdentifier::OutOfService || property
        == PropertyIdentifier::Reliability || (configured && (property
        == PropertyIdentifier::AlarmValue || property == PropertyIdentifier::NotificationClass
        || property == PropertyIdentifier::TimeDelay || property
        == PropertyIdentifier::TimeDelayNormal || property == PropertyIdentifier::EventEnable
        || property == PropertyIdentifier::NotifyType || property
        == PropertyIdentifier::EventDetectionEnable))
}

fn shared_writable(property: PropertyIdentifier, alarm_configured: bool) -> (writable: bool)
    ensures
        writable == binary_accepts(property, alarm_configured),
{
    match property {
        PropertyIdentifier::ObjectName
        | PropertyIdentifier::Description
        | PropertyIdentifier::OutOfService
        | PropertyIdentifier::Reliability => true,
        PropertyIdentifier::AlarmValue
        | PropertyIdentifier::NotificationClass
        | PropertyIdentifier::TimeDelay
        | PropertyIdentifier::TimeDelayNormal
        | PropertyIdentifier::EventEnable
        | PropertyIdentifier::NotifyType
        | PropertyIdentifier::EventDetectionEnable => alarm_configured,
        _ => false,
    }
}

/// A shared property that is not reported as writable is never written.
pub proof fn law_only_writable_properties_change(
    state: BinaryState,
    property: PropertyIdentifier,
    value: PropertyValue,
)
    requires
        !binary_accepts(property, state.alarm is Some),
    ensures
        !(binary_writing(state, property, value) matches Some(Ok(_))),
{
}

/// The properties of a binary object, in the order they are reported.
/// Priority_Array follows Out_Of_Service.
pub open spec fn binary_listing(commandable: bool, configured: bool) -> Seq<PropertyIdentifier> {
    seq![
        PropertyIdentifier::ObjectIdentifier,
        PropertyIdentifier::ObjectName,
        PropertyIdentifier::ObjectType,
        PropertyIdentifier::PresentValue,
        PropertyIdentifier::OutOfService,
    ] + (if commandable {
        seq![PropertyIdentifier::PriorityArray]
    } else {
        Seq::<PropertyIdentifier>::empty()
    }) + seq![
        PropertyIdentifier::Description,
        PropertyIdentifier::StatusFlags,
        PropertyIdentifier::EventState,
        PropertyIdentifier::Reliability,
        PropertyIdentifier::InactiveText,
        PropertyIdentifier::ActiveText,
    ] + (if configured {
        seq![PropertyIdentifier::AlarmValue] + intrinsic::intrinsic_properties()
    } else {
        Seq::<PropertyIdentifier>::empty()
    })
}

fn shared_property_list(commandable: bool, configured: bool) -> (properties: Vec<
    PropertyIdentifier,
>)
    ensures
        properties@ == binary_listing(commandable, configured),
{
    let mut properties = vec![
        PropertyIdentifier::ObjectIdentifier,
        PropertyIdentifier::ObjectName,
        PropertyIdentifier::ObjectType,
        PropertyIdentifier::PresentValue,
        PropertyIdentifier::OutOfService,
    ];
    if commandable {
        properties.push(PropertyIdentifier::PriorityArray);
    }
    properties.push(PropertyIdentifier::Description);
    properties.push(PropertyIdentifier::StatusFlags);
    properties.push(PropertyIdentifier::EventState);
    properties.push(PropertyIdentifier::Reliability);
    properties.push(PropertyIdentifier::InactiveText);
    properties.push(PropertyIdentifier::ActiveText);
    if configured {
        properties.push(PropertyIdentifier::AlarmValue);
        let mut alarms = intrinsic_property_list();
        properties.append(&mut alarms);
    }
    proof {
        assert(properties@ =~= binary_listing(commandable, configured));
    }
    properties
}

/// What a priority slot reads.
pub open spec fn slot_reading(slot: Option<BinaryPV>) -> PropertyValueView {
    match slot {
        Some(state) => PropertyValueView::Enumerated(state.number()),
        None => PropertyValueView::Null,
    }
}

/// What Priority_Array reads.
pub open spec fn slots_reading(slots: Seq<Option<BinaryPV>>) -> PropertyValueView {
    PropertyValueView::Array(slots.map_values(|slot: Option<BinaryPV>| slot_reading(slot)))
}

/// The Priority_Array property of a commandable binary object.
fn priority_array_value(slots: &[Option<BinaryPV>; PRIORITIES]) -> (value: PropertyValue)
    ensures
        value.model() == slots_reading(slots@),
{
    let mut values: Vec<PropertyValue> = Vec::new();
    let mut i: usize = 0;
    while i < PRIORITIES
        invariant
            i <= PRIORITIES,
            slots@.len() == PRIORITIES,
            values@.len() == i,
            forall|j: int|
                0 <= j < i ==> (#[trigger] values@[j]).model() == slot_reading(slots@[j]),
        decreases PRIORITIES - i,
    {
        let value = match slots[i] {
            Some(state) => PropertyValue::Enumerated(state.to_number()),
            None => PropertyValue::Null,
        };
        values.push(value);
        i += 1;
    }
    proof {
        value::lemma_list_model(values);
        assert(value::values_model(values) =~= slots@.map_values(
            |slot: Option<BinaryPV>| slot_reading(slot),
        ));
    }
    PropertyValue::Array(values)
}

/// Binary Input object.
#[derive(Debug, Clone)]
pub struct BinaryInput {
    /// Object identifier.
    pub identifier: ObjectIdentifier,
    /// Object name.
    pub object_name: String,
    /// Present value.
    pub present_value: BinaryPV,
    /// Description.
    pub description: String,
    /// Device type.
    pub device_type: String,
    /// Whether an operator has overridden the point. The other Status_Flags bits
    /// are derived from Event_State, Reliability and Out_Of_Service.
    pub overridden: bool,
    /// Event state.
    pub event_state: EventState,
    /// Reliability.
    pub reliability: Reliability,
    /// Out of service.
    pub out_of_service: bool,
    /// Polarity.
    pub polarity: Polarity,
    /// Inactive text.
    pub inactive_text: String,
    /// Active text.
    pub active_text: String,
    /// Change of value time.
    pub change_of_state_time: Option<Time>,
    /// Change of state count.
    pub change_of_state_count: u32,
    /// Time of state count reset.
    pub time_of_state_count_reset: Option<Time>,
    /// Present value that puts the object into an off-normal event state.
    pub alarm_value: BinaryPV,
    /// Intrinsic reporting state; `None` when event detection is not configured.
    pub alarm: Option<IntrinsicReporting>,
}

impl BinaryInput {
    /// The state the object answers from.
    pub open spec fn answers(&self) -> BinaryView<'_> {
        BinaryView {
            identifier: self.identifier,
            object_type: ObjectType::BinaryInput,
            object_name: &self.object_name,
            description: &self.description,
            present_value: self.present_value,
            overridden: self.overridden,
            event_state: self.event_state,
            reliability: self.reliability,
            out_of_service: self.out_of_service,
            inactive_text: &self.inactive_text,
            active_text: &self.active_text,
            alarm_value: self.alarm_value,
            alarm: self.alarm,
        }
    }

    /// The shared fields that clients may write.
    pub open spec fn state(self) -> BinaryState {
        BinaryState {
            common: CommonState {
                object_name: self.object_name,
                description: self.description,
                reliability: self.reliability,
                out_of_service: self.out_of_service,
            },
            alarm_value: self.alarm_value,
            alarm: self.alarm,
        }
    }

    /// This object with other shared fields.
    pub open spec fn with_state(self, state: BinaryState) -> BinaryInput {
        BinaryInput {
            object_name: state.common.object_name,
            description: state.common.description,
            reliability: state.common.reliability,
            out_of_service: state.common.out_of_service,
            alarm_value: state.alarm_value,
            alarm: state.alarm,
            ..self
        }
    }

    /// What writing a shared property leaves.
    pub open spec fn with_shared(
        self,
        property: PropertyIdentifier,
        value: PropertyValue,
    ) -> Result<BinaryInput, ObjectErrorView> {
        match binary_writing(self.state(), property, value) {
            Some(Ok(state)) => Ok(self.with_state(state)),
            Some(Err(error)) => Err(error),
            None => Err(ObjectErrorView::PropertyNotWritable),
        }
    }

    /// Create a new Binary Input object.
    pub fn new(instance: u32, object_name: String) -> (object: BinaryInput)
        ensures
            object.identifier == (ObjectIdentifier { object_type: ObjectType::BinaryInput, instance }),
            object.object_name == object_name,
            object.present_value == BinaryPV::Inactive,
            object.description@ == Seq::<char>::empty(),
            object.device_type@ == Seq::<char>::empty(),
            !object.overridden,
            object.event_state == EventState::Normal,
            object.reliability == Reliability::NoFaultDetected,
            !object.out_of_service,
            object.polarity == Polarity::Normal,
            object.inactive_text@ == "INACTIVE"@,
            object.active_text@ == "ACTIVE"@,
            object.change_of_state_time is None,
            object.change_of_state_count == 0,
            object.time_of_state_count_reset is None,
            object.alarm_value == BinaryPV::Active,
            object.alarm is None,
    {
        BinaryInput {
            identifier: ObjectIdentifier::new(ObjectType::BinaryInput, instance),
            object_name,
            present_value: BinaryPV::Inactive,
            description: String::new(),
            device_type: String::new(),
            overridden: false,
            event_state: EventState::Normal,
            reliability: Reliability::NoFaultDetected,
            out_of_service: false,
            polarity: Polarity::Normal,
            inactive_text: "INACTIVE".to_owned(),
            active_text: "ACTIVE".to_owned(),
            change_of_state_time: None,
            change_of_state_count: 0,
            time_of_state_count_reset: None,
            alarm_value: BinaryPV::Active,
            alarm: None,
        }
    }

    /// Enable CHANGE_OF_STATE reporting through `notification_class`, alarming when
    /// Present_Value equals `alarm_value`.
    pub fn with_intrinsic_reporting(
        self,
        notification_class: u32,
        alarm_value: BinaryPV,
    ) -> (object: BinaryInput)
        ensures
            object == (BinaryInput { alarm: object.alarm, alarm_value, ..self }),
            object.alarm matches Some(alarm) && alarm.starts(notification_class),
    {
        let mut object = self;
        object.alarm_value = alarm_value;
        object.alarm = Some(IntrinsicReporting::new(notification_class));
        object
    }

    /// Set the present value and count the change, if it is one.
    pub fn set_present_value(&mut self, value: BinaryPV)
        requires
            value != old(self).present_value ==> old(self).change_of_state_count < u32::MAX,
        ensures
            *final(self) == if value == old(self).present_value {
                *old(self)
            } else {
                BinaryInput {
                    present_value: value,
                    change_of_state_count: (old(self).change_of_state_count + 1) as u32,
                    ..*old(self)
                }
            },
    {
        if value != self.present_value {
            self.present_value = value;
            self.change_of_state_count = self.change_of_state_count + 1;
        }
    }

    /// Status flags as individual booleans, in the in-alarm / fault / overridden /
    /// out-of-service order.
    ///
    /// Derived from Event_State, Reliability, Out_Of_Service and
    /// [`overridden`](Self::overridden); set those to change what this reports.
    pub fn get_status_flags(&self) -> (bits: (bool, bool, bool, bool))
        ensures
            seq![bits.0, bits.1, bits.2, bits.3] == intrinsic::flags(
                self.event_state,
                self.reliability,
                self.out_of_service,
                self.overridden,
            ),
    {
        let bits = status_flags_bits(
            self.event_state,
            self.reliability,
            self.out_of_service,
            self.overridden,
        );
        (bits[0], bits[1], bits[2], bits[3])
    }

    fn borrowed(&self) -> (view: BinaryView<'_>)
        ensures
            view == self.answers(),
    {
        BinaryView {
            identifier: self.identifier,
            object_type: ObjectType::BinaryInput,
            object_name: &self.object_name,
            description: &self.description,
            present_value: self.present_value,
            overridden: self.overridden,
            event_state: self.event_state,
            reliability: self.reliability,
            out_of_service: self.out_of_service,
            inactive_text: &self.inactive_text,
            active_text: &self.active_text,
            alarm_value: self.alarm_value,
            alarm: self.alarm,
        }
    }

    fn set_shared(&mut self, property: PropertyIdentifier, value: PropertyValue) -> (result: Result<
        (),
        ObjectError,
    >)
        ensures
            base::left(
                *old(self),
                *final(self),
                old(self).with_shared(property, value),
                base::outcome(result),
            ),
    {
        match shared_set(
            &mut self.object_name,
            &mut self.description,
            &mut self.reliability,
            &mut self.out_of_service,
            &mut self.alarm_value,
            &mut self.alarm,
            property,
            value,
        ) {
            Some(result) => result,
            None => Err(ObjectError::PropertyNotWritable),
        }
    }
}

impl BacnetObject for BinaryInput {
    open spec fn identity(&self) -> ObjectIdentifier {
        self.identifier
    }

    open spec fn reading(&self, property: PropertyIdentifier) -> Result<
        PropertyValueView,
        ObjectErrorView,
    > {
        error::or_unknown(binary_reading(self.answers(), property))
    }

    open spec fn writing(
        &self,
        after: BinaryInput,
        property: PropertyIdentifier,
        value: PropertyValue,
        priority: Option<u8>,
        outcome: Result<(), ObjectErrorView>,
    ) -> bool {
        base::left(*self, after, self.with_shared(property, value), outcome)
    }

    open spec fn accepts(&self, property: PropertyIdentifier) -> bool {
        binary_accepts(property, self.alarm is Some)
    }

    open spec fn listing(&self) -> Seq<PropertyIdentifier> {
        binary_listing(false, self.alarm is Some)
    }

    open spec fn sourcing(
        &self,
        after: BinaryInput,
        value: PropertyValue,
        outcome: Result<(), ObjectErrorView>,
    ) -> bool {
        base::left(
            *self,
            after,
            match binary_command(value) {
                Ok(Some(state)) => Ok(BinaryInput { present_value: state, ..*self }),
                Ok(None) => Err(ObjectErrorView::InvalidPropertyType),
                Err(error) => Err(error),
            },
            outcome,
        )
    }

    open spec fn reporting(&self) -> Option<IntrinsicReporting> {
        self.alarm
    }

    open spec fn reports_as(&self, after: BinaryInput, reporting: IntrinsicReporting) -> bool {
        after == if self.alarm is Some {
            BinaryInput { alarm: Some(reporting), ..*self }
        } else {
            *self
        }
    }

    open spec fn evaluation(&self) -> Option<AlarmEvaluation> {
        binary_evaluation(self.present_value, self.alarm_value, self.reliability, self.alarm)
    }

    open spec fn enters(&self, after: BinaryInput, state: EventState) -> bool {
        after == (BinaryInput { event_state: state, ..*self })
    }

    open spec fn decoupled(&self) -> bool {
        self.out_of_service
    }

    fn identifier(&self) -> (identifier: ObjectIdentifier) {
        self.identifier
    }

    fn get_property(&self, property: PropertyIdentifier) -> (result: Result<
        PropertyValue,
        ObjectError,
    >) {
        error::answered(shared_get(&self.borrowed(), property))
    }

    fn set_property(&mut self, property: PropertyIdentifier, value: PropertyValue) -> (result:
        Result<(), ObjectError>) {
        self.set_shared(property, value)
    }

    fn set_property_with_priority(
        &mut self,
        property: PropertyIdentifier,
        value: PropertyValue,
        priority: Option<u8>,
    ) -> (result: Result<(), ObjectError>) {
        self.set_shared(property, value)
    }

    fn is_property_writable(&self, property: PropertyIdentifier) -> (writable: bool) {
        shared_writable(property, self.alarm.is_some())
    }

    fn property_list(&self) -> (properties: Vec<PropertyIdentifier>) {
        shared_property_list(false, self.alarm.is_some())
    }

    /// An input reflects a physical contact, so its Present_Value has no priority
    /// array and is simply what the source last read.
    fn set_sourced_value(&mut self, value: PropertyValue) -> (result: Result<(), ObjectError>) {
        // Null relinquishes a commandable object; an input has nothing to relinquish
        // to, so it is not a value a source can supply.
        match commandable_binary(value) {
            Ok(Some(state)) => {
                self.present_value = state;
                Ok(())
            },
            Ok(None) => Err(ObjectError::InvalidPropertyType),
            Err(error) => Err(error),
        }
    }

    fn intrinsic(&self) -> (reporting: Option<IntrinsicReporting>) {
        self.alarm
    }

    fn store_intrinsic(&mut self, reporting: IntrinsicReporting) {
        if self.alarm.is_some() {
            self.alarm = Some(reporting);
        }
    }

    fn evaluate_alarm(&self) -> (evaluation: Option<AlarmEvaluation>) {
        evaluate_binary(self.present_value, self.alarm_value, self.reliability, self.alarm)
    }

    fn apply_event_state(&mut self, state: EventState) {
        self.event_state = state;
    }

    fn is_out_of_service(&self) -> (decoupled: bool) {
        self.out_of_service
    }
}

/// Binary Output object.
#[derive(Debug, Clone)]
pub struct BinaryOutput {
    /// Object identifier.
    pub identifier: ObjectIdentifier,
    /// Object name.
    pub object_name: String,
    /// Present value.
    pub present_value: BinaryPV,
    /// Description.
    pub description: String,
    /// Device type.
    pub device_type: String,
    /// Whether an operator has overridden the point. The other Status_Flags bits
    /// are derived from Event_State, Reliability and Out_Of_Service.
    pub overridden: bool,
    /// Event state.
    pub event_state: EventState,
    /// Reliability.
    pub reliability: Reliability,
    /// Out of service.
    pub out_of_service: bool,
    /// Polarity.
    pub polarity: Polarity,
    /// Inactive text.
    pub inactive_text: String,
    /// Active text.
    pub active_text: String,
    /// Priority array (16 levels).
    pub priority_array: [Option<BinaryPV>; PRIORITIES],
    /// Relinquish default.
    pub relinquish_default: BinaryPV,
    /// Minimum off time.
    pub minimum_off_time: u32,
    /// Minimum on time.
    pub minimum_on_time: u32,
    /// Present value that puts the object into an off-normal event state.
    pub alarm_value: BinaryPV,
    /// Intrinsic reporting state; `None` when event detection is not configured.
    pub alarm: Option<IntrinsicReporting>,
}

impl BinaryOutput {
    /// The state the object answers from.
    pub open spec fn answers(&self) -> BinaryView<'_> {
        BinaryView {
            identifier: self.identifier,
            object_type: ObjectType::BinaryOutput,
            object_name: &self.object_name,
            description: &self.description,
            present_value: self.present_value,
            overridden: self.overridden,
            event_state: self.event_state,
            reliability: self.reliability,
            out_of_service: self.out_of_service,
            inactive_text: &self.inactive_text,
            active_text: &self.active_text,
            alarm_value: self.alarm_value,
            alarm: self.alarm,
        }
    }

    /// The shared fields that clients may write.
    pub open spec fn state(self) -> BinaryState {
        BinaryState {
            common: CommonState {
                object_name: self.object_name,
                description: self.description,
                reliability: self.reliability,
                out_of_service: self.out_of_service,
            },
            alarm_value: self.alarm_value,
            alarm: self.alarm,
        }
    }

    /// This object with other shared fields.
    pub open spec fn with_state(self, state: BinaryState) -> BinaryOutput {
        BinaryOutput {
            object_name: state.common.object_name,
            description: state.common.description,
            reliability: state.common.reliability,
            out_of_service: state.common.out_of_service,
            alarm_value: state.alarm_value,
            alarm: state.alarm,
            ..self
        }
    }

    /// What writing a shared property leaves.
    pub open spec fn with_shared(
        self,
        property: PropertyIdentifier,
        value: PropertyValue,
    ) -> Result<BinaryOutput, ObjectErrorView> {
        match binary_writing(self.state(), property, value) {
            Some(Ok(state)) => Ok(self.with_state(state)),
            Some(Err(error)) => Err(error),
            None => Err(ObjectErrorView::PropertyNotWritable),
        }
    }

    /// This object with a command put into its slot, or taken out of it.
    pub open spec fn with_command(self, priority: u8, value: Option<BinaryPV>) -> BinaryOutput {
        let slots = vstd::array::spec_array_update(self.priority_array, priority - 1, value);
        BinaryOutput {
            priority_array: slots,
            present_value: common::commanded(slots@, self.relinquish_default),
            ..self
        }
    }

    /// What a command at a priority leaves.
    pub open spec fn commanding(self, priority: u8, value: Option<BinaryPV>) -> Result<
        BinaryOutput,
        ObjectErrorView,
    > {
        if 1 <= priority <= PRIORITIES {
            Ok(self.with_command(priority, value))
        } else {
            Err(common::wrong_priority())
        }
    }

    /// What writing Present_Value at a priority leaves. Without a priority the
    /// lowest is meant.
    pub open spec fn with_present_value(self, value: PropertyValue, priority: Option<u8>) -> Result<
        BinaryOutput,
        ObjectErrorView,
    > {
        match binary_command(value) {
            Err(error) => Err(error),
            Ok(command) => self.commanding(
                match priority {
                    Some(priority) => priority,
                    None => 16,
                },
                command,
            ),
        }
    }

    /// Create a new Binary Output object.
    pub fn new(instance: u32, object_name: String) -> (object: BinaryOutput)
        ensures
            object.identifier == (ObjectIdentifier { object_type: ObjectType::BinaryOutput, instance }),
            object.object_name == object_name,
            object.present_value == BinaryPV::Inactive,
            object.description@ == Seq::<char>::empty(),
            object.device_type@ == Seq::<char>::empty(),
            !object.overridden,
            object.event_state == EventState::Normal,
            object.reliability == Reliability::NoFaultDetected,
            !object.out_of_service,
            object.polarity == Polarity::Normal,
            object.inactive_text@ == "INACTIVE"@,
            object.active_text@ == "ACTIVE"@,
            forall|i: int| 0 <= i < PRIORITIES ==> (#[trigger] object.priority_array@[i]) is None,
            object.relinquish_default == BinaryPV::Inactive,
            object.minimum_off_time == 0,
            object.minimum_on_time == 0,
            object.alarm_value == BinaryPV::Active,
            object.alarm is None,
    {
        BinaryOutput {
            identifier: ObjectIdentifier::new(ObjectType::BinaryOutput, instance),
            object_name,
            present_value: BinaryPV::Inactive,
            description: String::new(),
            device_type: String::new(),
            overridden: false,
            event_state: EventState::Normal,
            reliability: Reliability::NoFaultDetected,
            out_of_service: false,
            polarity: Polarity::Normal,
            inactive_text: "INACTIVE".to_owned(),
            active_text: "ACTIVE".to_owned(),
            priority_array: [None; PRIORITIES],
            relinquish_default: BinaryPV::Inactive,
            minimum_off_time: 0,
            minimum_on_time: 0,
            alarm_value: BinaryPV::Active,
            alarm: None,
        }
    }

    /// Enable CHANGE_OF_STATE reporting through `notification_class`, alarming when
    /// Present_Value equals `alarm_value`.
    pub fn with_intrinsic_reporting(
        self,
        notification_class: u32,
        alarm_value: BinaryPV,
    ) -> (object: BinaryOutput)
        ensures
            object == (BinaryOutput { alarm: object.alarm, alarm_value, ..self }),
            object.alarm matches Some(alarm) && alarm.starts(notification_class),
    {
        let mut object = self;
        object.alarm_value = alarm_value;
        object.alarm = Some(IntrinsicReporting::new(notification_class));
        object
    }

    /// Write to the priority array at the specified priority level (1-16).
    pub fn write_priority(&mut self, priority: u8, value: Option<BinaryPV>) -> (result: Result<
        (),
        ObjectError,
    >)
        ensures
            base::left(
                *old(self),
                *final(self),
                old(self).commanding(priority, value),
                base::outcome(result),
            ),
    {
        match write_priority_slot(
            &mut self.priority_array,
            priority,
            value,
            self.relinquish_default,
        ) {
            Ok(in_force) => {
                self.present_value = in_force;
                Ok(())
            },
            Err(error) => Err(error),
        }
    }

    /// Get the effective priority level for the current present value.
    pub fn get_effective_priority(&self) -> (priority: Option<u8>)
        ensures
            priority == common::priority_in_force(self.priority_array@),
    {
        effective_priority(&self.priority_array)
    }

    fn borrowed(&self) -> (view: BinaryView<'_>)
        ensures
            view == self.answers(),
    {
        BinaryView {
            identifier: self.identifier,
            object_type: ObjectType::BinaryOutput,
            object_name: &self.object_name,
            description: &self.description,
            present_value: self.present_value,
            overridden: self.overridden,
            event_state: self.event_state,
            reliability: self.reliability,
            out_of_service: self.out_of_service,
            inactive_text: &self.inactive_text,
            active_text: &self.active_text,
            alarm_value: self.alarm_value,
            alarm: self.alarm,
        }
    }

    fn set_shared(&mut self, property: PropertyIdentifier, value: PropertyValue) -> (result: Result<
        (),
        ObjectError,
    >)
        ensures
            base::left(
                *old(self),
                *final(self),
                old(self).with_shared(property, value),
                base::outcome(result),
            ),
    {
        match shared_set(
            &mut self.object_name,
            &mut self.description,
            &mut self.reliability,
            &mut self.out_of_service,
            &mut self.alarm_value,
            &mut self.alarm,
            property,
            value,
        ) {
            Some(result) => result,
            None => Err(ObjectError::PropertyNotWritable),
        }
    }

    fn set_present(&mut self, value: PropertyValue, priority: Option<u8>) -> (result: Result<
        (),
        ObjectError,
    >)
        ensures
            base::left(
                *old(self),
                *final(self),
                old(self).with_present_value(value, priority),
                base::outcome(result),
            ),
    {
        match commandable_binary(value) {
            Err(error) => Err(error),
            Ok(command) => {
                let level: u8 = match priority {
                    Some(priority) => priority,
                    None => 16,
                };
                self.write_priority(level, command)
            },
        }
    }
}

impl BacnetObject for BinaryOutput {
    open spec fn identity(&self) -> ObjectIdentifier {
        self.identifier
    }

    open spec fn reading(&self, property: PropertyIdentifier) -> Result<
        PropertyValueView,
        ObjectErrorView,
    > {
        if property == PropertyIdentifier::PriorityArray {
            Ok(slots_reading(self.priority_array@))
        } else {
            error::or_unknown(binary_reading(self.answers(), property))
        }
    }

    open spec fn writing(
        &self,
        after: BinaryOutput,
        property: PropertyIdentifier,
        value: PropertyValue,
        priority: Option<u8>,
        outcome: Result<(), ObjectErrorView>,
    ) -> bool {
        base::left(
            *self,
            after,
            if property == PropertyIdentifier::PresentValue {
                self.with_present_value(value, priority)
            } else {
                self.with_shared(property, value)
            },
            outcome,
        )
    }

    open spec fn accepts(&self, property: PropertyIdentifier) -> bool {
        property == PropertyIdentifier::PresentValue || binary_accepts(
            property,
            self.alarm is Some,
        )
    }

    open spec fn listing(&self) -> Seq<PropertyIdentifier> {
        binary_listing(true, self.alarm is Some)
    }

    open spec fn sourcing(
        &self,
        after: BinaryOutput,
        value: PropertyValue,
        outcome: Result<(), ObjectErrorView>,
    ) -> bool {
        outcome == Err::<(), ObjectErrorView>(ObjectErrorView::OptionalFunctionalityNotSupported)
            && after == *self
    }

    open spec fn reporting(&self) -> Option<IntrinsicReporting> {
        self.alarm
    }

    open spec fn reports_as(&self, after: BinaryOutput, reporting: IntrinsicReporting) -> bool {
        after == if self.alarm is Some {
            BinaryOutput { alarm: Some(reporting), ..*self }
        } else {
            *self
        }
    }

    open spec fn evaluation(&self) -> Option<AlarmEvaluation> {
        binary_evaluation(self.present_value, self.alarm_value, self.reliability, self.alarm)
    }

    open spec fn enters(&self, after: BinaryOutput, state: EventState) -> bool {
        after == (BinaryOutput { event_state: state, ..*self })
    }

    open spec fn decoupled(&self) -> bool {
        self.out_of_service
    }

    fn identifier(&self) -> (identifier: ObjectIdentifier) {
        self.identifier
    }

    fn get_property(&self, property: PropertyIdentifier) -> (result: Result<
        PropertyValue,
        ObjectError,
    >) {
        if property == PropertyIdentifier::PriorityArray {
            Ok(priority_array_value(&self.priority_array))
        } else {
            error::answered(shared_get(&self.borrowed(), property))
        }
    }

    fn set_property(&mut self, property: PropertyIdentifier, value: PropertyValue) -> (result:
        Result<(), ObjectError>) {
        if property == PropertyIdentifier::PresentValue {
            self.set_present(value, None)
        } else {
            self.set_shared(property, value)
        }
    }

    fn set_property_with_priority(
        &mut self,
        property: PropertyIdentifier,
        value: PropertyValue,
        priority: Option<u8>,
    ) -> (result: Result<(), ObjectError>) {
        if property == PropertyIdentifier::PresentValue {
            self.set_present(value, priority)
        } else {
            self.set_shared(property, value)
        }
    }

    fn is_property_writable(&self, property: PropertyIdentifier) -> (writable: bool) {
        property == PropertyIdentifier::PresentValue || shared_writable(
            property,
            self.alarm.is_some(),
        )
    }

    fn property_list(&self) -> (properties: Vec<PropertyIdentifier>) {
        shared_property_list(true, self.alarm.is_some())
    }

    /// A commandable object has a priority array, so a source goes through the
    /// command path rather than around it.
    fn set_sourced_value(&mut self, value: PropertyValue) -> (result: Result<(), ObjectError>) {
        Err(ObjectError::OptionalFunctionalityNotSupported)
    }

    fn intrinsic(&self) -> (reporting: Option<IntrinsicReporting>) {
        self.alarm
    }

    fn store_intrinsic(&mut self, reporting: IntrinsicReporting) {
        if self.alarm.is_some() {
            self.alarm = Some(reporting);
        }
    }

    fn evaluate_alarm(&self) -> (evaluation: Option<AlarmEvaluation>) {
        evaluate_binary(self.present_value, self.alarm_value, self.reliability, self.alarm)
    }

    fn apply_event_state(&mut self, state: EventState) {
        self.event_state = state;
    }

    fn is_out_of_service(&self) -> (decoupled: bool) {
        self.out_of_service
    }
}

/// Binary Value object.
#[derive(Debug, Clone)]
pub struct BinaryValue {
    /// Object identifier.
    pub identifier: ObjectIdentifier,
    /// Object name.
    pub object_name: String,
    /// Present value.
    pub present_value: BinaryPV,
    /// Description.
    pub description: String,
    /// Whether an operator has overridden the point. The other Status_Flags bits
    /// are derived from Event_State, Reliability and Out_Of_Service.
    pub overridden: bool,
    /// Event state.
    pub event_state: EventState,
    /// Reliability.
    pub reliability: Reliability,
    /// Out of service.
    pub out_of_service: bool,
    /// Inactive text.
    pub inactive_text: String,
    /// Active text.
    pub active_text: String,
    /// Priority array (16 levels).
    pub priority_array: [Option<BinaryPV>; PRIORITIES],
    /// Relinquish default.
    pub relinquish_default: BinaryPV,
    /// Present value that puts the object into an off-normal event state.
    pub alarm_value: BinaryPV,
    /// Intrinsic reporting state; `None` when event detection is not configured.
    pub alarm: Option<IntrinsicReporting>,
}

impl BinaryValue {
    /// The state the object answers from.
    pub open spec fn answers(&self) -> BinaryView<'_> {
        BinaryView {
            identifier: self.identifier,
            object_type: ObjectType::BinaryValue,
            object_name: &self.object_name,
            description: &self.description,
            present_value: self.present_value,
            overridden: self.overridden,
            event_state: self.event_state,
            reliability: self.reliability,
            out_of_service: self.out_of_service,
            inactive_text: &self.inactive_text,
            active_text: &self.active_text,
            alarm_value: self.alarm_value,
            alarm: self.alarm,
        }
    }

    /// The shared fields that clients may write.
    pub open spec fn state(self) -> BinaryState {
        BinaryState {
            common: CommonState {
                object_name: self.object_name,
                description: self.description,
                reliability: self.reliability,
                out_of_service: self.out_of_service,
            },
            alarm_value: self.alarm_value,
            alarm: self.alarm,
        }
    }

    /// This object with other shared fields.
    pub open spec fn with_state(self, state: BinaryState) -> BinaryValue {
        BinaryValue {
            object_name: state.common.object_name,
            description: state.common.description,
            reliability: state.common.reliability,
            out_of_service: state.common.out_of_service,
            alarm_value: state.alarm_value,
            alarm: state.alarm,
            ..self
        }
    }

    /// What writing a shared property leaves.
    pub open spec fn with_shared(
        self,
        property: PropertyIdentifier,
        value: PropertyValue,
    ) -> Result<BinaryValue, ObjectErrorView> {
        match binary_writing(self.state(), property, value) {
            Some(Ok(state)) => Ok(self.with_state(state)),
            Some(Err(error)) => Err(error),
            None => Err(ObjectErrorView::PropertyNotWritable),
        }
    }

    /// This object with a command put into its slot, or taken out of it.
    pub open spec fn with_command(self, priority: u8, value: Option<BinaryPV>) -> BinaryValue {
        let slots = vstd::array::spec_array_update(self.priority_array, priority - 1, value);
        BinaryValue {
            priority_array: slots,
            present_value: common::commanded(slots@, self.relinquish_default),
            ..self
        }
    }

    /// What a command at a priority leaves.
    pub open spec fn commanding(self, priority: u8, value: Option<BinaryPV>) -> Result<
        BinaryValue,
        ObjectErrorView,
    > {
        if 1 <= priority <= PRIORITIES {
            Ok(self.with_command(priority, value))
        } else {
            Err(common::wrong_priority())
        }
    }

    /// What writing Present_Value at a priority leaves. Without a priority the
    /// lowest is meant.
    pub open spec fn with_present_value(self, value: PropertyValue, priority: Option<u8>) -> Result<
        BinaryValue,
        ObjectErrorView,
    > {
        match binary_command(value) {
            Err(error) => Err(error),
            Ok(command) => self.commanding(
                match priority {
                    Some(priority) => priority,
                    None => 16,
                },
                command,
            ),
        }
    }

    /// Create a new Binary Value object.
    pub fn new(instance: u32, object_name: String) -> (object: BinaryValue)
        ensures
            object.identifier == (ObjectIdentifier { object_type: ObjectType::BinaryValue, instance }),
            object.object_name == object_name,
            object.present_value == BinaryPV::Inactive,
            object.description@ == Seq::<char>::empty(),
            !object.overridden,
            object.event_state == EventState::Normal,
            object.reliability == Reliability::NoFaultDetected,
            !object.out_of_service,
            object.inactive_text@ == "INACTIVE"@,
            object.active_text@ == "ACTIVE"@,
            forall|i: int| 0 <= i < PRIORITIES ==> (#[trigger] object.priority_array@[i]) is None,
            object.relinquish_default == BinaryPV::Inactive,
            object.alarm_value == BinaryPV::Active,
            object.alarm is None,
    {
        BinaryValue {
            identifier: ObjectIdentifier::new(ObjectType::BinaryValue, instance),
            object_name,
            present_value: BinaryPV::Inactive,
            description: String::new(),
            overridden: false,
            event_state: EventState::Normal,
            reliability: Reliability::NoFaultDetected,
            out_of_service: false,
            inactive_text: "INACTIVE".to_owned(),
            active_text: "ACTIVE".to_owned(),
            priority_array: [None; PRIORITIES],
            relinquish_default: BinaryPV::Inactive,
            alarm_value: BinaryPV::Active,
            alarm: None,
        }
    }

    /// Enable CHANGE_OF_STATE reporting through `notification_class`, alarming when
    /// Present_Value equals `alarm_value`.
    pub fn with_intrinsic_reporting(
        self,
        notification_class: u32,
        alarm_value: BinaryPV,
    ) -> (object: BinaryValue)
        ensures
            object == (BinaryValue { alarm: object.alarm, alarm_value, ..self }),
            object.alarm matches Some(alarm) && alarm.starts(notification_class),
    {
        let mut object = self;
        object.alarm_value = alarm_value;
        object.alarm = Some(IntrinsicReporting::new(notification_class));
        object
    }

    /// Write to the priority array at the specified priority level (1-16).
    pub fn write_priority(&mut self, priority: u8, value: Option<BinaryPV>) -> (result: Result<
        (),
        ObjectError,
    >)
        ensures
            base::left(
                *old(self),
                *final(self),
                old(self).commanding(priority, value),
                base::outcome(result),
            ),
    {
        match write_priority_slot(
            &mut self.priority_array,
            priority,
            value,
            self.relinquish_default,
        ) {
            Ok(in_force) => {
                self.present_value = in_force;
                Ok(())
            },
            Err(error) => Err(error),
        }
    }

    fn borrowed(&self) -> (view: BinaryView<'_>)
        ensures
            view == self.answers(),
    {
        BinaryView {
            identifier: self.identifier,
            object_type: ObjectType::BinaryValue,
            object_name: &self.object_name,
            description: &self.description,
            present_value: self.present_value,
            overridden: self.overridden,
            event_state: self.event_state,
            reliability: self.reliability,
            out_of_service: self.out_of_service,
            inactive_text: &self.inactive_text,
            active_text: &self.active_text,
            alarm_value: self.alarm_value,
            alarm: self.alarm,
        }
    }

    fn set_shared(&mut self, property: PropertyIdentifier, value: PropertyValue) -> (result: Result<
        (),
        ObjectError,
    >)
        ensures
            base::left(
                *old(self),
                *final(self),
                old(self).with_shared(property, value),
                base::outcome(result),
            ),
    {
        match shared_set(
            &mut self.object_name,
            &mut self.description,
            &mut self.reliability,
            &mut self.out_of_service,
            &mut self.alarm_value,
            &mut self.alarm,
            property,
            value,
        ) {
            Some(result) => result,
            None => Err(ObjectError::PropertyNotWritable),
        }
    }

    fn set_present(&mut self, value: PropertyValue, priority: Option<u8>) -> (result: Result<
        (),
        ObjectError,
    >)
        ensures
            base::left(
                *old(self),
                *final(self),
                old(self).with_present_value(value, priority),
                base::outcome(result),
            ),
    {
        match commandable_binary(value) {
            Err(error) => Err(error),
            Ok(command) => {
                let level: u8 = match priority {
                    Some(priority) => priority,
                    None => 16,
                };
                self.write_priority(level, command)
            },
        }
    }
}

impl BacnetObject for BinaryValue {
    open spec fn identity(&self) -> ObjectIdentifier {
        self.identifier
    }

    open spec fn reading(&self, property: PropertyIdentifier) -> Result<
        PropertyValueView,
        ObjectErrorView,
    > {
        if property == PropertyIdentifier::PriorityArray {
            Ok(slots_reading(self.priority_array@))
        } else {
            error::or_unknown(binary_reading(self.answers(), property))
        }
    }

    open spec fn writing(
        &self,
        after: BinaryValue,
        property: PropertyIdentifier,
        value: PropertyValue,
        priority: Option<u8>,
        outcome: Result<(), ObjectErrorView>,
    ) -> bool {
        base::left(
            *self,
            after,
            if property == PropertyIdentifier::PresentValue {
                self.with_present_value(value, priority)
            } else {
                self.with_shared(property, value)
            },
            outcome,
        )
    }

    open spec fn accepts(&self, property: PropertyIdentifier) -> bool {
        property == PropertyIdentifier::PresentValue || binary_accepts(
            property,
            self.alarm is Some,
        )
    }

    open spec fn listing(&self) -> Seq<PropertyIdentifier> {
        binary_listing(true, self.alarm is Some)
    }

    open spec fn sourcing(
        &self,
        after: BinaryValue,
        value: PropertyValue,
        outcome: Result<(), ObjectErrorView>,
    ) -> bool {
        outcome == Err::<(), ObjectErrorView>(ObjectErrorView::OptionalFunctionalityNotSupported)
            && after == *self
    }

    open spec fn reporting(&self) -> Option<IntrinsicReporting> {
        self.alarm
    }

    open spec fn reports_as(&self, after: BinaryValue, reporting: IntrinsicReporting) -> bool {
        after == if self.alarm is Some {
            BinaryValue { alarm: Some(reporting), ..*self }
        } else {
            *self
        }
    }

    open spec fn evaluation(&self) -> Option<AlarmEvaluation> {
        binary_evaluation(self.present_value, self.alarm_value, self.reliability, self.alarm)
    }

    open spec fn enters(&self, after: BinaryValue, state: EventState) -> bool {
        after == (BinaryValue { event_state: state, ..*self })
    }

    open spec fn decoupled(&self) -> bool {
        self.out_of_service
    }

    fn identifier(&self) -> (identifier: ObjectIdentifier) {
        self.identifier
    }

    fn get_property(&self, property: PropertyIdentifier) -> (result: Result<
        PropertyValue,
        ObjectError,
    >) {
        if property == PropertyIdentifier::PriorityArray {
            Ok(priority_array_value(&self.priority_array))
        } else {
            error::answered(shared_get(&self.borrowed(), property))
        }
    }

    fn set_property(&mut self, property: PropertyIdentifier, value: PropertyValue) -> (result:
        Result<(), ObjectError>) {
        if property == PropertyIdentifier::PresentValue {
            self.set_present(value, None)
        } else {
            self.set_shared(property, value)
        }
    }

    fn set_property_with_priority(
        &mut self,
        property: PropertyIdentifier,
        value: PropertyValue,
        priority: Option<u8>,
    ) -> (result: Result<(), ObjectError>) {
        if property == PropertyIdentifier::PresentValue {
            self.set_present(value, priority)
        } else {
            self.set_shared(property, value)
        }
    }

    fn is_property_writable(&self, property: PropertyIdentifier) -> (writable: bool) {
        property == PropertyIdentifier::PresentValue || shared_writable(
            property,
            self.alarm.is_some(),
        )
    }

    fn property_list(&self) -> (properties: Vec<PropertyIdentifier>) {
        shared_property_list(true, self.alarm.is_some())
    }

    /// A commandable object has a priority array, so a source goes through the
    /// command path rather than around it.
    fn set_sourced_value(&mut self, value: PropertyValue) -> (result: Result<(), ObjectError>) {
        Err(ObjectError::OptionalFunctionalityNotSupported)
    }

    fn intrinsic(&self) -> (reporting: Option<IntrinsicReporting>) {
        self.alarm
    }

    fn store_intrinsic(&mut self, reporting: IntrinsicReporting) {
        if self.alarm.is_some() {
            self.alarm = Some(reporting);
        }
    }

    fn evaluate_alarm(&self) -> (evaluation: Option<AlarmEvaluation>) {
        evaluate_binary(self.present_value, self.alarm_value, self.reliability, self.alarm)
    }

    fn apply_event_state(&mut self, state: EventState) {
        self.event_state = state;
    }

    fn is_out_of_service(&self) -> (decoupled: bool) {
        self.out_of_service
    }
}

} // verus!
