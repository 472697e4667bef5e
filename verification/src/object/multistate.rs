//! Multi-state Input, Multi-state Output and Multi-state Value objects: values with
//! numbered states.

use crate::object::base;
use crate::object::base::BacnetObject;
use crate::object::common;
use crate::object::common::{
    effective_priority, write_priority_slot, CommonState, OptionalProperties, PRIORITIES,
};
use crate::object::error;
use crate::object::error::{ObjectError, ObjectErrorView};
use crate::object::identifier::{ObjectIdentifier, ObjectType, PropertyIdentifier};
use crate::object::intrinsic;
use crate::object::intrinsic::{
    intrinsic_get, intrinsic_property_list, intrinsic_set, status_flags_bits, AlarmEvaluation,
    AlarmTrigger, IntrinsicReporting,
};
use crate::object::state::{EventState, Reliability};
use crate::property::value;
use crate::property::value::{PropertyValue, PropertyValueView};
use crate::text;
use crate::text::with_number;
use vstd::prelude::*;

verus! {

/// What a value outside of the states is answered.
pub open spec fn wrong_state(sentence: Seq<char>, number_of_states: u32) -> ObjectErrorView {
    ObjectErrorView::InvalidValue(sentence + text::decimal(number_of_states as nat))
}

/// The value of a command; null relinquishes.
pub open spec fn unsigned_command(value: PropertyValue) -> Result<Option<u32>, ObjectErrorView> {
    match value {
        PropertyValue::Unsigned(value) => if value <= u32::MAX {
            Ok(Some(value as u32))
        } else {
            Err(ObjectErrorView::InvalidPropertyType)
        },
        PropertyValue::Null => Ok(None),
        _ => Err(ObjectErrorView::InvalidPropertyType),
    }
}

fn commandable_unsigned(value: PropertyValue) -> (command: Result<Option<u32>, ObjectError>)
    ensures
        match (command, unsigned_command(value)) {
            (Ok(command), Ok(stated)) => command == stated,
            (Err(error), Err(stated)) => error@ == stated,
            _ => false,
        },
{
    match value {
        PropertyValue::Unsigned(value) => if value <= u32::MAX as u64 {
            Ok(Some(value as u32))
        } else {
            Err(ObjectError::InvalidPropertyType)
        },
        PropertyValue::Null => Ok(None),
        _ => Err(ObjectError::InvalidPropertyType),
    }
}

/// The texts of new states: "State 1", "State 2" and so on.
pub open spec fn numbered_texts(number_of_states: u32) -> Seq<Seq<char>> {
    Seq::new(number_of_states as nat, |i: int| "State "@ + text::decimal((i + 1) as nat))
}

/// What texts hold.
pub open spec fn texts(strings: Seq<String>) -> Seq<Seq<char>> {
    strings.map_values(|string: String| string@)
}

fn new_texts(number_of_states: u32) -> (strings: Vec<String>)
    ensures
        texts(strings@) == numbered_texts(number_of_states),
{
    let mut strings: Vec<String> = Vec::new();
    let mut made: u32 = 0;
    while made < number_of_states
        invariant
            made <= number_of_states,
            strings@.len() == made,
            forall|i: int|
                0 <= i < made ==> (#[trigger] strings@[i])@ == "State "@ + text::decimal(
                    (i + 1) as nat,
                ),
        decreases number_of_states - made,
    {
        made += 1;
        strings.push(with_number("State ", made));
    }
    proof {
        assert(texts(strings@) =~= numbered_texts(number_of_states));
    }
    strings
}

// ---------------------------------------------------------------------------
// The event algorithm
// ---------------------------------------------------------------------------

/// What CHANGE_OF_STATE demands of a multi-state object: off-normal while the value
/// is one of the alarm values. An unreliable object goes to fault, which takes
/// precedence.
pub open spec fn multistate_evaluation(
    present_value: u32,
    alarm_values: Seq<u32>,
    reliability: Reliability,
    alarm: Option<IntrinsicReporting>,
) -> Option<AlarmEvaluation> {
    match alarm {
        None => None,
        Some(alarm) => if !alarm.event_detection_enable {
            None
        } else if reliability != Reliability::NoFaultDetected {
            Some(
                AlarmEvaluation {
                    desired_state: EventState::Fault,
                    trigger: AlarmTrigger::ReliabilityChange { reliability },
                },
            )
        } else {
            Some(
                AlarmEvaluation {
                    desired_state: if alarm_values.contains(present_value) {
                        EventState::Offnormal
                    } else {
                        EventState::Normal
                    },
                    trigger: AlarmTrigger::MultistateChange { new_state: present_value },
                },
            )
        },
    }
}

/// Whether a state is one of those listed.
fn is_listed(states: &Vec<u32>, state: u32) -> (listed: bool)
    ensures
        listed == states@.contains(state),
{
    let mut i: usize = 0;
    while i < states.len()
        invariant
            i <= states.len(),
            forall|j: int| 0 <= j < i ==> states@[j] != state,
        decreases states.len() - i,
    {
        if states[i] == state {
            assert(states@[i as int] == state);
            return true;
        }
        i += 1;
    }
    false
}

/// Run CHANGE_OF_STATE for a multi-state object.
pub fn evaluate_multistate(
    present_value: u32,
    alarm_values: &Vec<u32>,
    reliability: Reliability,
    alarm: Option<IntrinsicReporting>,
) -> (evaluation: Option<AlarmEvaluation>)
    ensures
        evaluation == multistate_evaluation(present_value, alarm_values@, reliability, alarm),
{
    match alarm {
        Some(alarm) => {
            if !alarm.event_detection_enable {
                return None;
            }
        },
        None => {
            return None;
        },
    }

    if reliability != Reliability::NoFaultDetected {
        return Some(
            AlarmEvaluation {
                desired_state: EventState::Fault,
                trigger: AlarmTrigger::ReliabilityChange { reliability },
            },
        );
    }
    let desired_state = if is_listed(alarm_values, present_value) {
        EventState::Offnormal
    } else {
        EventState::Normal
    };
    Some(
        AlarmEvaluation {
            desired_state,
            trigger: AlarmTrigger::MultistateChange { new_state: present_value },
        },
    )
}

// ---------------------------------------------------------------------------
// Properties that all multi-state objects have
// ---------------------------------------------------------------------------

/// The fields every multi-state object shares, borrowed for a property read.
pub struct MultistateView<'a> {
    pub identifier: ObjectIdentifier,
    pub object_type: ObjectType,
    pub object_name: &'a String,
    pub description: &'a String,
    pub present_value: u32,
    pub overridden: bool,
    pub event_state: EventState,
    pub reliability: Reliability,
    pub out_of_service: bool,
    pub number_of_states: u32,
    pub state_text: &'a Vec<String>,
    pub alarm_values: &'a Vec<u32>,
    pub alarm: Option<IntrinsicReporting>,
}

/// What State_Text reads.
pub open spec fn texts_reading(strings: Seq<String>) -> PropertyValueView {
    PropertyValueView::Array(
        strings.map_values(|string: String| PropertyValueView::CharacterString(string@)),
    )
}

/// What Alarm_Values reads.
pub open spec fn states_reading(states: Seq<u32>) -> PropertyValueView {
    PropertyValueView::List(
        states.map_values(|state: u32| PropertyValueView::Unsigned(state as u64)),
    )
}

/// What a property that all multi-state objects have reads; `None` for any other.
pub open spec fn multistate_reading(view: MultistateView, property: PropertyIdentifier) -> Option<
    Result<PropertyValueView, ObjectErrorView>,
> {
    match property {
        PropertyIdentifier::ObjectIdentifier => Some(
            Ok(PropertyValueView::ObjectIdentifier(view.identifier)),
        ),
        PropertyIdentifier::ObjectName => Some(
            Ok(PropertyValueView::CharacterString(view.object_name@)),
        ),
        PropertyIdentifier::ObjectType => Some(
            Ok(PropertyValueView::Enumerated(view.object_type.number())),
        ),
        PropertyIdentifier::PresentValue => Some(
            Ok(PropertyValueView::Unsigned(view.present_value as u64)),
        ),
        PropertyIdentifier::Description => Some(
            Ok(PropertyValueView::CharacterString(view.description@)),
        ),
        PropertyIdentifier::StatusFlags => Some(
            Ok(
                PropertyValueView::BitString(
                    intrinsic::flags(
                        view.event_state,
                        view.reliability,
                        view.out_of_service,
                        view.overridden,
                    ),
                ),
            ),
        ),
        PropertyIdentifier::EventState => Some(
            Ok(PropertyValueView::Enumerated(view.event_state.number() as u32)),
        ),
        PropertyIdentifier::Reliability => Some(
            Ok(PropertyValueView::Enumerated(view.reliability.number())),
        ),
        PropertyIdentifier::OutOfService => Some(
            Ok(PropertyValueView::Boolean(view.out_of_service)),
        ),
        PropertyIdentifier::NumberOfStates => Some(
            Ok(PropertyValueView::Unsigned(view.number_of_states as u64)),
        ),
        PropertyIdentifier::StateText => Some(Ok(texts_reading(view.state_text@))),
        _ => match view.alarm {
            None => None,
            Some(alarm) => if property == PropertyIdentifier::AlarmValues {
                Some(Ok(states_reading(view.alarm_values@)))
            } else {
                intrinsic::intrinsic_offer(alarm, property)
            },
        },
    }
}

fn texts_value(strings: &Vec<String>) -> (value: PropertyValue)
    ensures
        value.model() == texts_reading(strings@),
{
    let mut values: Vec<PropertyValue> = Vec::new();
    let mut i: usize = 0;
    while i < strings.len()
        invariant
            i <= strings.len(),
            values@.len() == i,
            forall|j: int|
                0 <= j < i ==> (#[trigger] values@[j]).model()
                    == PropertyValueView::CharacterString(strings@[j]@),
        decreases strings.len() - i,
    {
        values.push(PropertyValue::CharacterString(strings[i].clone()));
        i += 1;
    }
    proof {
        value::lemma_list_model(values);
        assert(value::values_model(values) =~= strings@.map_values(
            |string: String| PropertyValueView::CharacterString(string@),
        ));
    }
    PropertyValue::Array(values)
}

fn states_value(states: &Vec<u32>) -> (value: PropertyValue)
    ensures
        value.model() == states_reading(states@),
{
    let mut values: Vec<PropertyValue> = Vec::new();
    let mut i: usize = 0;
    while i < states.len()
        invariant
            i <= states.len(),
            values@.len() == i,
            forall|j: int|
                0 <= j < i ==> (#[trigger] values@[j]).model() == PropertyValueView::Unsigned(
                    states@[j] as u64,
                ),
        decreases states.len() - i,
    {
        values.push(PropertyValue::Unsigned(states[i] as u64));
        i += 1;
    }
    proof {
        value::lemma_list_model(values);
        assert(value::values_model(values) =~= states@.map_values(
            |state: u32| PropertyValueView::Unsigned(state as u64),
        ));
    }
    PropertyValue::List(values)
}

/// Read a property common to every multi-state object type.
///
/// Returns `None` for properties belonging to a single type (priority array,
/// relinquish default, device type) so callers fall through to their own arms.
fn shared_get(view: &MultistateView<'_>, property: PropertyIdentifier) -> (offer: Option<
    Result<PropertyValue, ObjectError>,
>)
    ensures
        error::same_offer(offer, multistate_reading(*view, property)),
{
    let value = match property {
        PropertyIdentifier::ObjectIdentifier => PropertyValue::ObjectIdentifier(view.identifier),
        PropertyIdentifier::ObjectName => PropertyValue::CharacterString(view.object_name.clone()),
        PropertyIdentifier::ObjectType => PropertyValue::Enumerated(view.object_type.to_number()),
        PropertyIdentifier::PresentValue => PropertyValue::Unsigned(view.present_value as u64),
        PropertyIdentifier::Description => PropertyValue::CharacterString(view.description.clone()),
        PropertyIdentifier::StatusFlags => PropertyValue::BitString(
            status_flags_bits(
                view.event_state,
                view.reliability,
                view.out_of_service,
                view.overridden,
            ),
        ),
        PropertyIdentifier::EventState => PropertyValue::Enumerated(
            view.event_state.to_number() as u32,
        ),
        PropertyIdentifier::Reliability => PropertyValue::Enumerated(view.reliability.to_number()),
        PropertyIdentifier::OutOfService => PropertyValue::Boolean(view.out_of_service),
        PropertyIdentifier::NumberOfStates => PropertyValue::Unsigned(view.number_of_states as u64),
        PropertyIdentifier::StateText => texts_value(view.state_text),
        // Alarm_Values only exists once intrinsic reporting is configured.
        _ => return match &view.alarm {
            None => None,
            Some(alarm) => if property == PropertyIdentifier::AlarmValues {
                Some(Ok(states_value(view.alarm_values)))
            } else {
                intrinsic_get(alarm, property)
            },
        },
    };
    Some(Ok(value))
}

/// The fields of a multi-state object that clients may write on every type.
pub struct MultistateState {
    pub common: CommonState,
    pub alarm_values: Seq<u32>,
    pub alarm: Option<IntrinsicReporting>,
}

/// Whether a value is the number of a state.
pub open spec fn is_state(value: PropertyValue) -> bool {
    value matches PropertyValue::Unsigned(state) && state <= u32::MAX
}

/// The states a list names, where all of its elements name one.
pub open spec fn states_of(values: Seq<PropertyValue>) -> Result<Seq<u32>, ObjectErrorView> {
    if forall|i: int| 0 <= i < values.len() ==> is_state(#[trigger] values[i]) {
        Ok(values.map_values(|value: PropertyValue| value->Unsigned_0 as u32))
    } else {
        Err(ObjectErrorView::InvalidPropertyType)
    }
}

fn read_states(values: &Vec<PropertyValue>) -> (states: Result<Vec<u32>, ObjectError>)
    ensures
        match (states, states_of(values@)) {
            (Ok(states), Ok(stated)) => states@ == stated,
            (Err(error), Err(stated)) => error@ == stated,
            _ => false,
        },
{
    let mut states: Vec<u32> = Vec::new();
    let mut i: usize = 0;
    while i < values.len()
        invariant
            i <= values.len(),
            states@.len() == i,
            forall|j: int|
                0 <= j < i ==> is_state(#[trigger] values@[j]) && states@[j]
                    == values@[j]->Unsigned_0,
        decreases values.len() - i,
    {
        match &values[i] {
            PropertyValue::Unsigned(state) => {
                if *state > u32::MAX as u64 {
                    assert(!is_state(values@[i as int]));
                    return Err(ObjectError::InvalidPropertyType);
                }
                states.push(*state as u32);
            },
            _ => {
                assert(!is_state(values@[i as int]));
                return Err(ObjectError::InvalidPropertyType);
            },
        }
        i += 1;
    }
    proof {
        assert(states@ =~= values@.map_values(|value: PropertyValue| value->Unsigned_0 as u32));
    }
    Ok(states)
}

/// What a write to a property that all multi-state objects have leaves; `None` for
/// any other property.
pub open spec fn multistate_writing(
    state: MultistateState,
    property: PropertyIdentifier,
    value: PropertyValue,
) -> Option<Result<MultistateState, ObjectErrorView>> {
    match common::common_writing(
        state.common,
        OptionalProperties { description: true, reliability: true },
        property,
        value,
    ) {
        Some(Ok(common)) => Some(Ok(MultistateState { common, ..state })),
        Some(Err(error)) => Some(Err(error)),
        None => if property == PropertyIdentifier::AlarmValues {
            match value {
                PropertyValue::List(states) | PropertyValue::Array(states) => match states_of(
                    states@,
                ) {
                    Ok(alarm_values) => Some(Ok(MultistateState { alarm_values, ..state })),
                    Err(error) => Some(Err(error)),
                },
                _ => Some(Err(ObjectErrorView::InvalidPropertyType)),
            }
        } else {
            match state.alarm {
                None => None,
                Some(alarm) => match intrinsic::intrinsic_writing(alarm, property, value) {
                    None => None,
                    Some(Ok(after)) => Some(Ok(MultistateState { alarm: Some(after), ..state })),
                    Some(Err(error)) => Some(Err(error)),
                },
            }
        },
    }
}

/// Write a property common to every multi-state object type. `None` means the
/// property is not one this helper owns.
fn shared_set(
    object_name: &mut String,
    description: &mut String,
    reliability: &mut Reliability,
    out_of_service: &mut bool,
    alarm_values: &mut Vec<u32>,
    alarm: &mut Option<IntrinsicReporting>,
    property: PropertyIdentifier,
    value: PropertyValue,
) -> (offer: Option<Result<(), ObjectError>>)
    ensures
        ({
            let before = MultistateState {
                common: CommonState {
                    object_name: *old(object_name),
                    description: *old(description),
                    reliability: *old(reliability),
                    out_of_service: *old(out_of_service),
                },
                alarm_values: old(alarm_values)@,
                alarm: *old(alarm),
            };
            let after = MultistateState {
                common: CommonState {
                    object_name: *final(object_name),
                    description: *final(description),
                    reliability: *final(reliability),
                    out_of_service: *final(out_of_service),
                },
                alarm_values: final(alarm_values)@,
                alarm: *final(alarm),
            };
            error::same_write_offer(
                offer,
                before,
                after,
                multistate_writing(before, property, value),
            )
        }),
        !(offer matches Some(Ok(_))) ==> *final(alarm_values) == *old(alarm_values),
{
    match property {
        PropertyIdentifier::ObjectName => match value {
            PropertyValue::CharacterString(text) => {
                *object_name = text;
                Some(Ok(()))
            },
            _ => Some(Err(ObjectError::InvalidPropertyType)),
        },
        PropertyIdentifier::Description => match value {
            PropertyValue::CharacterString(text) => {
                *description = text;
                Some(Ok(()))
            },
            _ => Some(Err(ObjectError::InvalidPropertyType)),
        },
        PropertyIdentifier::OutOfService => match value {
            PropertyValue::Boolean(flag) => {
                *out_of_service = flag;
                Some(Ok(()))
            },
            _ => Some(Err(ObjectError::InvalidPropertyType)),
        },
        // Writable so a simulated device can be driven into a fault state.
        PropertyIdentifier::Reliability => match value {
            PropertyValue::Enumerated(number) => {
                *reliability = Reliability::from_number(number);
                Some(Ok(()))
            },
            _ => Some(Err(ObjectError::InvalidPropertyType)),
        },
        PropertyIdentifier::AlarmValues => match value {
            PropertyValue::List(states) | PropertyValue::Array(states) => match read_states(
                &states,
            ) {
                Ok(states) => {
                    *alarm_values = states;
                    Some(Ok(()))
                },
                Err(error) => Some(Err(error)),
            },
            _ => Some(Err(ObjectError::InvalidPropertyType)),
        },
        _ => match alarm {
            Some(reporting) => intrinsic_set(reporting, property, value),
            None => None,
        },
    }
}

/// Whether a property shared by every multi-state object type accepts writes.
pub open spec fn multistate_accepts(property: PropertyIdentifier, configured: bool) -> bool {
    property == PropertyIdentifier::ObjectName || property == PropertyIdentifier::Description
        || property == PropertyIdentifier::OutOfService || property
        == PropertyIdentifier::Reliability || (configured && (property
        == PropertyIdentifier::AlarmValues || property == PropertyIdentifier::NotificationClass
        || property == PropertyIdentifier::TimeDelay || property
        == PropertyIdentifier::TimeDelayNormal || property == PropertyIdentifier::EventEnable
        || property == PropertyIdentifier::NotifyType || property
        == PropertyIdentifier::EventDetectionEnable))
}

fn shared_writable(property: PropertyIdentifier, alarm_configured: bool) -> (writable: bool)
    ensures
        writable == multistate_accepts(property, alarm_configured),
{
    match property {
        PropertyIdentifier::ObjectName
        | PropertyIdentifier::Description
        | PropertyIdentifier::OutOfService
        | PropertyIdentifier::Reliability => true,
        PropertyIdentifier::AlarmValues
        | PropertyIdentifier::NotificationClass
        | PropertyIdentifier::TimeDelay
        | PropertyIdentifier::TimeDelayNormal
        | PropertyIdentifier::EventEnable
        | PropertyIdentifier::NotifyType
        | PropertyIdentifier::EventDetectionEnable => alarm_configured,
        _ => false,
    }
}

/// Where intrinsic reporting is configured, a shared property that is not reported
/// as writable is never written.
pub proof fn law_only_writable_properties_change(
    state: MultistateState,
    property: PropertyIdentifier,
    value: PropertyValue,
)
    requires
        state.alarm is Some,
        !multistate_accepts(property, true),
    ensures
        !(multistate_writing(state, property, value) matches Some(Ok(_))),
{
}

/// The properties of a multi-state object that all types share, in their order.
pub open spec fn multistate_properties(configured: bool) -> Seq<PropertyIdentifier> {
    seq![
        PropertyIdentifier::ObjectIdentifier,
        PropertyIdentifier::ObjectName,
        PropertyIdentifier::ObjectType,
        PropertyIdentifier::PresentValue,
        PropertyIdentifier::Description,
        PropertyIdentifier::StatusFlags,
        PropertyIdentifier::EventState,
        PropertyIdentifier::Reliability,
        PropertyIdentifier::OutOfService,
        PropertyIdentifier::NumberOfStates,
        PropertyIdentifier::StateText,
    ] + (if configured {
        seq![PropertyIdentifier::AlarmValues] + intrinsic::intrinsic_properties()
    } else {
        Seq::<PropertyIdentifier>::empty()
    })
}

fn shared_property_list(configured: bool) -> (properties: Vec<PropertyIdentifier>)
    ensures
        properties@ == multistate_properties(configured),
{
    let mut properties = vec![
        PropertyIdentifier::ObjectIdentifier,
        PropertyIdentifier::ObjectName,
        PropertyIdentifier::ObjectType,
        PropertyIdentifier::PresentValue,
        PropertyIdentifier::Description,
        PropertyIdentifier::StatusFlags,
        PropertyIdentifier::EventState,
        PropertyIdentifier::Reliability,
        PropertyIdentifier::OutOfService,
        PropertyIdentifier::NumberOfStates,
        PropertyIdentifier::StateText,
    ];
    if configured {
        properties.push(PropertyIdentifier::AlarmValues);
        let mut alarms = intrinsic_property_list();
        properties.append(&mut alarms);
    }
    proof {
        assert(properties@ =~= multistate_properties(configured));
    }
    properties
}

/// What a priority slot reads.
pub open spec fn slot_reading(slot: Option<u32>) -> PropertyValueView {
    match slot {
        Some(state) => PropertyValueView::Unsigned(state as u64),
        None => PropertyValueView::Null,
    }
}

/// What Priority_Array reads.
pub open spec fn slots_reading(slots: Seq<Option<u32>>) -> PropertyValueView {
    PropertyValueView::Array(slots.map_values(|slot: Option<u32>| slot_reading(slot)))
}

/// The Priority_Array property of a commandable multi-state object.
fn priority_array_value(slots: &[Option<u32>; PRIORITIES]) -> (value: PropertyValue)
    ensures
        value.model() == slots_reading(slots@),
{
    let mut values: Vec<PropertyValue> = Vec::new();
    let mut i: usize = 0;
    while i < PRIORITIES
        invariant
            i <= PRIORITIES,
            slots@.len() == PRIORITIES,
            values@.len() == i,
            forall|j: int|
                0 <= j < i ==> (#[trigger] values@[j]).model() == slot_reading(slots@[j]),
        decreases PRIORITIES - i,
    {
        let value = match slots[i] {
            Some(state) => PropertyValue::Unsigned(state as u64),
            None => PropertyValue::Null,
        };
        values.push(value);
        i += 1;
    }
    proof {
        value::lemma_list_model(values);
        assert(value::values_model(values) =~= slots@.map_values(
            |slot: Option<u32>| slot_reading(slot),
        ));
    }
    PropertyValue::Array(values)
}

/// Multi-state Input object.
#[derive(Debug, Clone)]
pub struct MultiStateInput {
    /// Object identifier.
    pub identifier: ObjectIdentifier,
    /// Object name.
    pub object_name: String,
    /// Present value (state 1..N).
    pub present_value: u32,
    /// Description.
    pub description: String,
    /// Device type.
    pub device_type: String,
    /// Whether an operator has overridden the point. The other Status_Flags bits
    /// are derived from Event_State, Reliability and Out_Of_Service.
    pub overridden: bool,
    /// Event state.
    pub event_state: EventState,
    /// Reliability.
    pub reliability: Reliability,
    /// Out of service.
    pub out_of_service: bool,
    /// Number of states.
    pub number_of_states: u32,
    /// State text array.
    pub state_text: Vec<String>,
    /// States that put the object into an off-normal event state.
    pub alarm_values: Vec<u32>,
    /// Intrinsic reporting state; `None` when event detection is not configured.
    pub alarm: Option<IntrinsicReporting>,
}

impl MultiStateInput {
    /// The state the object answers from.
    pub open spec fn answers(&self) -> MultistateView<'_> {
        MultistateView {
            identifier: self.identifier,
            object_type: ObjectType::MultiStateInput,
            object_name: &self.object_name,
            description: &self.description,
            present_value: self.present_value,
            overridden: self.overridden,
            event_state: self.event_state,
            reliability: self.reliability,
            out_of_service: self.out_of_service,
            number_of_states: self.number_of_states,
            state_text: &self.state_text,
            alarm_values: &self.alarm_values,
            alarm: self.alarm,
        }
    }

    /// The shared fields that clients may write.
    pub open spec fn state(self) -> MultistateState {
        MultistateState {
            common: CommonState {
                object_name: self.object_name,
                description: self.description,
                reliability: self.reliability,
                out_of_service: self.out_of_service,
            },
            alarm_values: self.alarm_values@,
            alarm: self.alarm,
        }
    }

    /// Whether `after` is this object with other shared fields.
    pub open spec fn has_state(self, after: MultiStateInput, state: MultistateState) -> bool {
        &&& after == (MultiStateInput {
            object_name: after.object_name,
            description: after.description,
            reliability: after.reliability,
            out_of_service: after.out_of_service,
            alarm_values: after.alarm_values,
            alarm: after.alarm,
            ..self
        })
        &&& after.state() == state
    }

    /// Whether writing a shared property may leave `after` with this outcome.
    pub open spec fn shared_writing(
        self,
        after: MultiStateInput,
        property: PropertyIdentifier,
        value: PropertyValue,
        outcome: Result<(), ObjectErrorView>,
    ) -> bool {
        match (outcome, multistate_writing(self.state(), property, value)) {
            (Ok(_), Some(Ok(state))) => self.has_state(after, state),
            (Err(error), Some(Err(expected))) => error == expected && after == self,
            (Err(error), None) => error == ObjectErrorView::PropertyNotWritable && after == self,
            _ => false,
        }
    }

    /// Whether the object has a state of this number.
    pub open spec fn has_number(self, state: u32) -> bool {
        1 <= state <= self.number_of_states
    }

    /// Create a new Multi-state Input object.
    pub fn new(instance: u32, object_name: String, number_of_states: u32) -> (object: MultiStateInput)
        ensures
            object.identifier == (ObjectIdentifier { object_type: ObjectType::MultiStateInput, instance }),
            object.object_name == object_name,
            object.number_of_states == number_of_states,
            texts(object.state_text@) == numbered_texts(number_of_states),
            object.present_value == 1,
            object.description@ == Seq::<char>::empty(),
            object.device_type@ == Seq::<char>::empty(),
            !object.overridden,
            object.event_state == EventState::Normal,
            object.reliability == Reliability::NoFaultDetected,
            !object.out_of_service,
            object.alarm_values@ == Seq::<u32>::empty(),
            object.alarm is None,
    {
        MultiStateInput {
            identifier: ObjectIdentifier::new(ObjectType::MultiStateInput, instance),
            object_name,
            present_value: 1,
            description: String::new(),
            device_type: String::new(),
            overridden: false,
            event_state: EventState::Normal,
            reliability: Reliability::NoFaultDetected,
            out_of_service: false,
            number_of_states,
            state_text: new_texts(number_of_states),
            alarm_values: Vec::new(),
            alarm: None,
        }
    }

    /// Enable intrinsic reporting, alarming on `alarm_values` via
    /// `notification_class`.
    pub fn with_intrinsic_reporting(
        self,
        notification_class: u32,
        alarm_values: Vec<u32>,
    ) -> (object: MultiStateInput)
        ensures
            object == (MultiStateInput { alarm: object.alarm, alarm_values, ..self }),
            object.alarm matches Some(alarm) && alarm.starts(notification_class),
    {
        let mut object = self;
        object.alarm_values = alarm_values;
        object.alarm = Some(IntrinsicReporting::new(notification_class));
        object
    }

    /// Set the present value (validates range).
    pub fn set_present_value(&mut self, value: u32) -> (result: Result<(), ObjectError>)
        ensures
            base::left(
                *old(self),
                *final(self),
                if old(self).has_number(value) {
                    Ok(MultiStateInput { present_value: value, ..*old(self) })
                } else {
                    Err(wrong_state("Value must be between 1 and "@, old(self).number_of_states))
                },
                base::outcome(result),
            ),
    {
        if value < 1 || value > self.number_of_states {
            return Err(
                ObjectError::InvalidValue(
                    with_number("Value must be between 1 and ", self.number_of_states),
                ),
            );
        }
        self.present_value = value;
        Ok(())
    }

    /// Get the current state text.
    pub fn get_state_text(&self) -> (text: Option<&str>)
        ensures
            match text {
                Some(text) => {
                    &&& 0 < self.present_value <= self.state_text@.len() as u32
                    &&& self.present_value <= self.state_text@.len()
                    &&& text@ == self.state_text@[self.present_value - 1]@
                },
                None => !(0 < self.present_value <= self.state_text@.len() as u32),
            },
    {
        let length: usize = self.state_text.len();
        let count: u32 = length as u32;
        assert(length as u32 <= length) by (bit_vector);
        if self.present_value > 0 && self.present_value <= count {
            let index: usize = (self.present_value - 1) as usize;
            Some(self.state_text[index].as_str())
        } else {
            None
        }
    }

    /// Set state text for a specific state.
    pub fn set_state_text(&mut self, state: u32, text: String) -> (result: Result<(), ObjectError>)
        requires
            old(self).has_number(state) ==> state <= old(self).state_text@.len(),
        ensures
            match result {
                Ok(_) => {
                    &&& old(self).has_number(state)
                    &&& *final(self) == (MultiStateInput {
                        state_text: final(self).state_text,
                        ..*old(self)
                    })
                    &&& final(self).state_text@ == old(self).state_text@.update(state - 1, text)
                },
                Err(error) => {
                    &&& !old(self).has_number(state)
                    &&& *final(self) == *old(self)
                    &&& error@ == wrong_state(
                        "State must be between 1 and "@,
                        old(self).number_of_states,
                    )
                },
            },
    {
        if state < 1 || state > self.number_of_states {
            return Err(
                ObjectError::InvalidValue(
                    with_number("State must be between 1 and ", self.number_of_states),
                ),
            );
        }
        let index: usize = (state - 1) as usize;
        self.state_text[index] = text;
        Ok(())
    }

    fn borrowed(&self) -> (view: MultistateView<'_>)
        ensures
            view == self.answers(),
    {
        MultistateView {
            identifier: self.identifier,
            object_type: ObjectType::MultiStateInput,
            object_name: &self.object_name,
            description: &self.description,
            present_value: self.present_value,
            overridden: self.overridden,
            event_state: self.event_state,
            reliability: self.reliability,
            out_of_service: self.out_of_service,
            number_of_states: self.number_of_states,
            state_text: &self.state_text,
            alarm_values: &self.alarm_values,
            alarm: self.alarm,
        }
    }

    fn set_shared(&mut self, property: PropertyIdentifier, value: PropertyValue) -> (result: Result<
        (),
        ObjectError,
    >)
        ensures
            old(self).shared_writing(*final(self), property, value, base::outcome(result)),
    {
        match shared_set(
            &mut self.object_name,
            &mut self.description,
            &mut self.reliability,
            &mut self.out_of_service,
            &mut self.alarm_values,
            &mut self.alarm,
            property,
            value,
        ) {
            Some(result) => result,
            None => Err(ObjectError::PropertyNotWritable),
        }
    }
}

impl BacnetObject for MultiStateInput {
    open spec fn identity(&self) -> ObjectIdentifier {
        self.identifier
    }

    open spec fn reading(&self, property: PropertyIdentifier) -> Result<
        PropertyValueView,
        ObjectErrorView,
    > {
        match property {
            PropertyIdentifier::DeviceType => Ok(
                PropertyValueView::CharacterString(self.device_type@),
            ),
            _ => error::or_unknown(multistate_reading(self.answers(), property)),
        }
    }

    open spec fn writing(
        &self,
        after: MultiStateInput,
        property: PropertyIdentifier,
        value: PropertyValue,
        priority: Option<u8>,
        outcome: Result<(), ObjectErrorView>,
    ) -> bool {
        self.shared_writing(after, property, value, outcome)
    }

    open spec fn accepts(&self, property: PropertyIdentifier) -> bool {
        multistate_accepts(property, self.alarm is Some)
    }

    open spec fn listing(&self) -> Seq<PropertyIdentifier> {
        multistate_properties(self.alarm is Some) + seq![
            PropertyIdentifier::DeviceType,
        ]
    }

    open spec fn sourcing(
        &self,
        after: MultiStateInput,
        value: PropertyValue,
        outcome: Result<(), ObjectErrorView>,
    ) -> bool {
        base::left(
            *self,
            after,
            match value {
                PropertyValue::Unsigned(state) => if state > u32::MAX {
                    Err(ObjectErrorView::InvalidPropertyType)
                } else if !self.has_number(state as u32) {
                    Err(wrong_state("State must be 1-"@, self.number_of_states))
                } else {
                    Ok(MultiStateInput { present_value: state as u32, ..*self })
                },
                _ => Err(ObjectErrorView::InvalidPropertyType),
            },
            outcome,
        )
    }

    open spec fn reporting(&self) -> Option<IntrinsicReporting> {
        self.alarm
    }

    open spec fn reports_as(&self, after: MultiStateInput, reporting: IntrinsicReporting) -> bool {
        after == if self.alarm is Some {
            MultiStateInput { alarm: Some(reporting), ..*self }
        } else {
            *self
        }
    }

    open spec fn evaluation(&self) -> Option<AlarmEvaluation> {
        multistate_evaluation(
            self.present_value,
            self.alarm_values@,
            self.reliability,
            self.alarm,
        )
    }

    open spec fn enters(&self, after: MultiStateInput, state: EventState) -> bool {
        after == (MultiStateInput { event_state: state, ..*self })
    }

    open spec fn decoupled(&self) -> bool {
        self.out_of_service
    }

    fn identifier(&self) -> (identifier: ObjectIdentifier) {
        self.identifier
    }

    fn get_property(&self, property: PropertyIdentifier) -> (result: Result<
        PropertyValue,
        ObjectError,
    >) {
        match property {
            PropertyIdentifier::DeviceType => Ok(
                PropertyValue::CharacterString(self.device_type.clone()),
            ),
            _ => error::answered(shared_get(&self.borrowed(), property)),
        }
    }

    fn set_property(&mut self, property: PropertyIdentifier, value: PropertyValue) -> (result:
        Result<(), ObjectError>) {
        self.set_shared(property, value)
    }

    fn set_property_with_priority(
        &mut self,
        property: PropertyIdentifier,
        value: PropertyValue,
        priority: Option<u8>,
    ) -> (result: Result<(), ObjectError>) {
        self.set_shared(property, value)
    }

    fn is_property_writable(&self, property: PropertyIdentifier) -> (writable: bool) {
        shared_writable(property, self.alarm.is_some())
    }

    fn property_list(&self) -> (properties: Vec<PropertyIdentifier>) {
        let mut properties = shared_property_list(self.alarm.is_some());
        properties.push(PropertyIdentifier::DeviceType);
        properties
    }

    /// An input reflects a sensor, so its Present_Value has no priority array and is
    /// simply what the source last read. States are numbered from 1.
    fn set_sourced_value(&mut self, value: PropertyValue) -> (result: Result<(), ObjectError>) {
        match value {
            PropertyValue::Unsigned(state) => {
                if state > u32::MAX as u64 {
                    return Err(ObjectError::InvalidPropertyType);
                }
                let state: u32 = state as u32;
                if state < 1 || state > self.number_of_states {
                    return Err(
                        ObjectError::InvalidValue(
                            with_number("State must be 1-", self.number_of_states),
                        ),
                    );
                }
                self.present_value = state;
                Ok(())
            },
            _ => Err(ObjectError::InvalidPropertyType),
        }
    }

    fn intrinsic(&self) -> (reporting: Option<IntrinsicReporting>) {
        self.alarm
    }

    fn store_intrinsic(&mut self, reporting: IntrinsicReporting) {
        if self.alarm.is_some() {
            self.alarm = Some(reporting);
        }
    }

    fn evaluate_alarm(&self) -> (evaluation: Option<AlarmEvaluation>) {
        evaluate_multistate(
            self.present_value,
            &self.alarm_values,
            self.reliability,
            self.alarm,
        )
    }

    fn apply_event_state(&mut self, state: EventState) {
        self.event_state = state;
    }

    fn is_out_of_service(&self) -> (decoupled: bool) {
        self.out_of_service
    }
}

/// Multi-state Output object.
#[derive(Debug, Clone)]
pub struct MultiStateOutput {
    /// Object identifier.
    pub identifier: ObjectIdentifier,
    /// Object name.
    pub object_name: String,
    /// Present value (state 1..N).
    pub present_value: u32,
    /// Description.
    pub description: String,
    /// Device type.
    pub device_type: String,
    /// Whether an operator has overridden the point. The other Status_Flags bits
    /// are derived from Event_State, Reliability and Out_Of_Service.
    pub overridden: bool,
    /// Event state.
    pub event_state: EventState,
    /// Reliability.
    pub reliability: Reliability,
    /// Out of service.
    pub out_of_service: bool,
    /// Number of states.
    pub number_of_states: u32,
    /// State text array.
    pub state_text: Vec<String>,
    /// Priority array (16 levels).
    pub priority_array: [Option<u32>; PRIORITIES],
    /// Relinquish default.
    pub relinquish_default: u32,
    /// States that put the object into an off-normal event state.
    pub alarm_values: Vec<u32>,
    /// Intrinsic reporting state; `None` when event detection is not configured.
    pub alarm: Option<IntrinsicReporting>,
}

impl MultiStateOutput {
    /// The state the object answers from.
    pub open spec fn answers(&self) -> MultistateView<'_> {
        MultistateView {
            identifier: self.identifier,
            object_type: ObjectType::MultiStateOutput,
            object_name: &self.object_name,
            description: &self.description,
            present_value: self.present_value,
            overridden: self.overridden,
            event_state: self.event_state,
            reliability: self.reliability,
            out_of_service: self.out_of_service,
            number_of_states: self.number_of_states,
            state_text: &self.state_text,
            alarm_values: &self.alarm_values,
            alarm: self.alarm,
        }
    }

    /// The shared fields that clients may write.
    pub open spec fn state(self) -> MultistateState {
        MultistateState {
            common: CommonState {
                object_name: self.object_name,
                description: self.description,
                reliability: self.reliability,
                out_of_service: self.out_of_service,
            },
            alarm_values: self.alarm_values@,
            alarm: self.alarm,
        }
    }

    /// Whether `after` is this object with other shared fields.
    pub open spec fn has_state(self, after: MultiStateOutput, state: MultistateState) -> bool {
        &&& after == (MultiStateOutput {
            object_name: after.object_name,
            description: after.description,
            reliability: after.reliability,
            out_of_service: after.out_of_service,
            alarm_values: after.alarm_values,
            alarm: after.alarm,
            ..self
        })
        &&& after.state() == state
    }

    /// Whether writing a shared property may leave `after` with this outcome.
    pub open spec fn shared_writing(
        self,
        after: MultiStateOutput,
        property: PropertyIdentifier,
        value: PropertyValue,
        outcome: Result<(), ObjectErrorView>,
    ) -> bool {
        match (outcome, multistate_writing(self.state(), property, value)) {
            (Ok(_), Some(Ok(state))) => self.has_state(after, state),
            (Err(error), Some(Err(expected))) => error == expected && after == self,
            (Err(error), None) => error == ObjectErrorView::PropertyNotWritable && after == self,
            _ => false,
        }
    }

    /// Whether the object has a state of this number.
    pub open spec fn has_number(self, state: u32) -> bool {
        1 <= state <= self.number_of_states
    }

    /// Whether the value, the default and every command are numbers of states.
    pub open spec fn in_range(self) -> bool {
        &&& self.has_number(self.present_value)
        &&& self.has_number(self.relinquish_default)
        &&& forall|i: int|
            0 <= i < PRIORITIES ==> ((#[trigger] self.priority_array@[i]) matches Some(state)
                ==> self.has_number(state))
    }

    /// This object with a command put into its slot, or taken out of it.
    pub open spec fn with_command(self, priority: u8, value: Option<u32>) -> MultiStateOutput {
        let slots = vstd::array::spec_array_update(self.priority_array, priority - 1, value);
        MultiStateOutput {
            priority_array: slots,
            present_value: common::commanded(slots@, self.relinquish_default),
            ..self
        }
    }

    /// What a command at a priority leaves.
    pub open spec fn commanding(self, priority: u8, value: Option<u32>) -> Result<
        MultiStateOutput,
        ObjectErrorView,
    > {
        if value matches Some(state) && !self.has_number(state) {
            Err(wrong_state("Value must be between 1 and "@, self.number_of_states))
        } else if 1 <= priority <= PRIORITIES {
            Ok(self.with_command(priority, value))
        } else {
            Err(common::wrong_priority())
        }
    }

    /// What writing Present_Value at a priority leaves. Without a priority the
    /// lowest is meant.
    pub open spec fn with_present_value(self, value: PropertyValue, priority: Option<u8>) -> Result<
        MultiStateOutput,
        ObjectErrorView,
    > {
        match unsigned_command(value) {
            Err(error) => Err(error),
            Ok(command) => self.commanding(
                match priority {
                    Some(priority) => priority,
                    None => 16,
                },
                command,
            ),
        }
    }

    /// Create a new Multi-state Output object.
    pub fn new(instance: u32, object_name: String, number_of_states: u32) -> (object: MultiStateOutput)
        ensures
            object.identifier == (ObjectIdentifier { object_type: ObjectType::MultiStateOutput, instance }),
            object.object_name == object_name,
            object.number_of_states == number_of_states,
            texts(object.state_text@) == numbered_texts(number_of_states),
            object.present_value == 1,
            object.description@ == Seq::<char>::empty(),
            object.device_type@ == Seq::<char>::empty(),
            !object.overridden,
            object.event_state == EventState::Normal,
            object.reliability == Reliability::NoFaultDetected,
            !object.out_of_service,
            forall|i: int| 0 <= i < PRIORITIES ==> (#[trigger] object.priority_array@[i]) is None,
            object.relinquish_default == 1,
            object.alarm_values@ == Seq::<u32>::empty(),
            object.alarm is None,
    {
        MultiStateOutput {
            identifier: ObjectIdentifier::new(ObjectType::MultiStateOutput, instance),
            object_name,
            present_value: 1,
            description: String::new(),
            device_type: String::new(),
            overridden: false,
            event_state: EventState::Normal,
            reliability: Reliability::NoFaultDetected,
            out_of_service: false,
            number_of_states,
            state_text: new_texts(number_of_states),
            priority_array: [None; PRIORITIES],
            relinquish_default: 1,
            alarm_values: Vec::new(),
            alarm: None,
        }
    }

    /// Enable intrinsic reporting, alarming on `alarm_values` via
    /// `notification_class`.
    pub fn with_intrinsic_reporting(
        self,
        notification_class: u32,
        alarm_values: Vec<u32>,
    ) -> (object: MultiStateOutput)
        ensures
            object == (MultiStateOutput { alarm: object.alarm, alarm_values, ..self }),
            object.alarm matches Some(alarm) && alarm.starts(notification_class),
    {
        let mut object = self;
        object.alarm_values = alarm_values;
        object.alarm = Some(IntrinsicReporting::new(notification_class));
        object
    }

    /// Write to the priority array at the specified priority level (1-16).
    pub fn write_priority(&mut self, priority: u8, value: Option<u32>) -> (result: Result<
        (),
        ObjectError,
    >)
        ensures
            base::left(
                *old(self),
                *final(self),
                old(self).commanding(priority, value),
                base::outcome(result),
            ),
    {
        if let Some(state) = value {
            if state < 1 || state > self.number_of_states {
                return Err(
                    ObjectError::InvalidValue(
                        with_number("Value must be between 1 and ", self.number_of_states),
                    ),
                );
            }
        }
        match write_priority_slot(
            &mut self.priority_array,
            priority,
            value,
            self.relinquish_default,
        ) {
            Ok(in_force) => {
                self.present_value = in_force;
                Ok(())
            },
            Err(error) => Err(error),
        }
    }

    /// Get the effective priority level for the current present value.
    pub fn get_effective_priority(&self) -> (priority: Option<u8>)
        ensures
            priority == common::priority_in_force(self.priority_array@),
    {
        effective_priority(&self.priority_array)
    }

    fn borrowed(&self) -> (view: MultistateView<'_>)
        ensures
            view == self.answers(),
    {
        MultistateView {
            identifier: self.identifier,
            object_type: ObjectType::MultiStateOutput,
            object_name: &self.object_name,
            description: &self.description,
            present_value: self.present_value,
            overridden: self.overridden,
            event_state: self.event_state,
            reliability: self.reliability,
            out_of_service: self.out_of_service,
            number_of_states: self.number_of_states,
            state_text: &self.state_text,
            alarm_values: &self.alarm_values,
            alarm: self.alarm,
        }
    }

    fn set_shared(&mut self, property: PropertyIdentifier, value: PropertyValue) -> (result: Result<
        (),
        ObjectError,
    >)
        ensures
            old(self).shared_writing(*final(self), property, value, base::outcome(result)),
    {
        match shared_set(
            &mut self.object_name,
            &mut self.description,
            &mut self.reliability,
            &mut self.out_of_service,
            &mut self.alarm_values,
            &mut self.alarm,
            property,
            value,
        ) {
            Some(result) => result,
            None => Err(ObjectError::PropertyNotWritable),
        }
    }

    fn set_present(&mut self, value: PropertyValue, priority: Option<u8>) -> (result: Result<
        (),
        ObjectError,
    >)
        ensures
            base::left(
                *old(self),
                *final(self),
                old(self).with_present_value(value, priority),
                base::outcome(result),
            ),
    {
        match commandable_unsigned(value) {
            Err(error) => Err(error),
            Ok(command) => {
                let level: u8 = match priority {
                    Some(priority) => priority,
                    None => 16,
                };
                self.write_priority(level, command)
            },
        }
    }

    /// Commands keep the value, the default and the slots within the states.
    pub proof fn law_commands_stay_in_range(self, priority: u8, value: Option<u32>)
        requires
            self.in_range(),
        ensures
            self.commanding(priority, value) matches Ok(after) ==> after.in_range(),
    {
        if self.commanding(priority, value) is Ok {
            let after = self.with_command(priority, value);
            common::lemma_first_command(after.priority_array@);
            assert forall|i: int| 0 <= i < PRIORITIES implies ((
            #[trigger] after.priority_array@[i]) matches Some(state) ==> after.has_number(
                state,
            )) by {
                if i != priority - 1 {
                    assert(after.priority_array@[i] == self.priority_array@[i]);
                }
            }
        }
    }
}

impl BacnetObject for MultiStateOutput {
    open spec fn identity(&self) -> ObjectIdentifier {
        self.identifier
    }

    open spec fn reading(&self, property: PropertyIdentifier) -> Result<
        PropertyValueView,
        ObjectErrorView,
    > {
        match property {
            PropertyIdentifier::DeviceType => Ok(
                PropertyValueView::CharacterString(self.device_type@),
            ),
            PropertyIdentifier::PriorityArray => Ok(slots_reading(self.priority_array@)),
            PropertyIdentifier::RelinquishDefault => Ok(
                PropertyValueView::Unsigned(self.relinquish_default as u64),
            ),
            _ => error::or_unknown(multistate_reading(self.answers(), property)),
        }
    }

    open spec fn writing(
        &self,
        after: MultiStateOutput,
        property: PropertyIdentifier,
        value: PropertyValue,
        priority: Option<u8>,
        outcome: Result<(), ObjectErrorView>,
    ) -> bool {
        if property == PropertyIdentifier::PresentValue {
            base::left(*self, after, self.with_present_value(value, priority), outcome)
        } else {
            self.shared_writing(after, property, value, outcome)
        }
    }

    open spec fn accepts(&self, property: PropertyIdentifier) -> bool {
        property == PropertyIdentifier::PresentValue || multistate_accepts(
            property,
            self.alarm is Some,
        )
    }

    open spec fn listing(&self) -> Seq<PropertyIdentifier> {
        multistate_properties(self.alarm is Some) + seq![
            PropertyIdentifier::DeviceType,
            PropertyIdentifier::PriorityArray,
            PropertyIdentifier::RelinquishDefault,
        ]
    }

    open spec fn sourcing(
        &self,
        after: MultiStateOutput,
        value: PropertyValue,
        outcome: Result<(), ObjectErrorView>,
    ) -> bool {
        outcome == Err::<(), ObjectErrorView>(ObjectErrorView::OptionalFunctionalityNotSupported)
            && after == *self
    }

    open spec fn reporting(&self) -> Option<IntrinsicReporting> {
        self.alarm
    }

    open spec fn reports_as(&self, after: MultiStateOutput, reporting: IntrinsicReporting) -> bool {
        after == if self.alarm is Some {
            MultiStateOutput { alarm: Some(reporting), ..*self }
        } else {
            *self
        }
    }

    open spec fn evaluation(&self) -> Option<AlarmEvaluation> {
        multistate_evaluation(
            self.present_value,
            self.alarm_values@,
            self.reliability,
            self.alarm,
        )
    }

    open spec fn enters(&self, after: MultiStateOutput, state: EventState) -> bool {
        after == (MultiStateOutput { event_state: state, ..*self })
    }

    open spec fn decoupled(&self) -> bool {
        self.out_of_service
    }

    fn identifier(&self) -> (identifier: ObjectIdentifier) {
        self.identifier
    }

    fn get_property(&self, property: PropertyIdentifier) -> (result: Result<
        PropertyValue,
        ObjectError,
    >) {
        match property {
            PropertyIdentifier::DeviceType => Ok(
                PropertyValue::CharacterString(self.device_type.clone()),
            ),
            PropertyIdentifier::PriorityArray => Ok(priority_array_value(&self.priority_array)),
            PropertyIdentifier::RelinquishDefault => Ok(
                PropertyValue::Unsigned(self.relinquish_default as u64),
            ),
            _ => error::answered(shared_get(&self.borrowed(), property)),
        }
    }

    fn set_property(&mut self, property: PropertyIdentifier, value: PropertyValue) -> (result:
        Result<(), ObjectError>) {
        if property == PropertyIdentifier::PresentValue {
            self.set_present(value, None)
        } else {
            self.set_shared(property, value)
        }
    }

    fn set_property_with_priority(
        &mut self,
        property: PropertyIdentifier,
        value: PropertyValue,
        priority: Option<u8>,
    ) -> (result: Result<(), ObjectError>) {
        if property == PropertyIdentifier::PresentValue {
            self.set_present(value, priority)
        } else {
            self.set_shared(property, value)
        }
    }

    fn is_property_writable(&self, property: PropertyIdentifier) -> (writable: bool) {
        property == PropertyIdentifier::PresentValue || shared_writable(
            property,
            self.alarm.is_some(),
        )
    }

    fn property_list(&self) -> (properties: Vec<PropertyIdentifier>) {
        let mut properties = shared_property_list(self.alarm.is_some());
        properties.push(PropertyIdentifier::DeviceType);
        properties.push(PropertyIdentifier::PriorityArray);
        properties.push(PropertyIdentifier::RelinquishDefault);
        properties
    }

    /// A commandable object has a priority array, so a source goes through the
    /// command path rather than around it.
    fn set_sourced_value(&mut self, value: PropertyValue) -> (result: Result<(), ObjectError>) {
        Err(ObjectError::OptionalFunctionalityNotSupported)
    }

    fn intrinsic(&self) -> (reporting: Option<IntrinsicReporting>) {
        self.alarm
    }

    fn store_intrinsic(&mut self, reporting: IntrinsicReporting) {
        if self.alarm.is_some() {
            self.alarm = Some(reporting);
        }
    }

    fn evaluate_alarm(&self) -> (evaluation: Option<AlarmEvaluation>) {
        evaluate_multistate(
            self.present_value,
            &self.alarm_values,
            self.reliability,
            self.alarm,
        )
    }

    fn apply_event_state(&mut self, state: EventState) {
        self.event_state = state;
    }

    fn is_out_of_service(&self) -> (decoupled: bool) {
        self.out_of_service
    }
}

/// Multi-state Value object.
#[derive(Debug, Clone)]
pub struct MultiStateValue {
    /// Object identifier.
    pub identifier: ObjectIdentifier,
    /// Object name.
    pub object_name: String,
    /// Present value (state 1..N).
    pub present_value: u32,
    /// Description.
    pub description: String,
    /// Whether an operator has overridden the point. The other Status_Flags bits
    /// are derived from Event_State, Reliability and Out_Of_Service.
    pub overridden: bool,
    /// Event state.
    pub event_state: EventState,
    /// Reliability.
    pub reliability: Reliability,
    /// Out of service.
    pub out_of_service: bool,
    /// Number of states.
    pub number_of_states: u32,
    /// State text array.
    pub state_text: Vec<String>,
    /// Priority array (16 levels).
    pub priority_array: [Option<u32>; PRIORITIES],
    /// Relinquish default.
    pub relinquish_default: u32,
    /// States that put the object into an off-normal event state.
    pub alarm_values: Vec<u32>,
    /// Intrinsic reporting state; `None` when event detection is not configured.
    pub alarm: Option<IntrinsicReporting>,
}

impl MultiStateValue {
    /// The state the object answers from.
    pub open spec fn answers(&self) -> MultistateView<'_> {
        MultistateView {
            identifier: self.identifier,
            object_type: ObjectType::MultiStateValue,
            object_name: &self.object_name,
            description: &self.description,
            present_value: self.present_value,
            overridden: self.overridden,
            event_state: self.event_state,
            reliability: self.reliability,
            out_of_service: self.out_of_service,
            number_of_states: self.number_of_states,
            state_text: &self.state_text,
            alarm_values: &self.alarm_values,
            alarm: self.alarm,
        }
    }

    /// The shared fields that clients may write.
    pub open spec fn state(self) -> MultistateState {
        MultistateState {
            common: CommonState {
                object_name: self.object_name,
                description: self.description,
                reliability: self.reliability,
                out_of_service: self.out_of_service,
            },
            alarm_values: self.alarm_values@,
            alarm: self.alarm,
        }
    }

    /// Whether `after` is this object with other shared fields.
    pub open spec fn has_state(self, after: MultiStateValue, state: MultistateState) -> bool {
        &&& after == (MultiStateValue {
            object_name: after.object_name,
            description: after.description,
            reliability: after.reliability,
            out_of_service: after.out_of_service,
            alarm_values: after.alarm_values,
            alarm: after.alarm,
            ..self
        })
        &&& after.state() == state
    }

    /// Whether writing a shared property may leave `after` with this outcome.
    pub open spec fn shared_writing(
        self,
        after: MultiStateValue,
        property: PropertyIdentifier,
        value: PropertyValue,
        outcome: Result<(), ObjectErrorView>,
    ) -> bool {
        match (outcome, multistate_writing(self.state(), property, value)) {
            (Ok(_), Some(Ok(state))) => self.has_state(after, state),
            (Err(error), Some(Err(expected))) => error == expected && after == self,
            (Err(error), None) => error == ObjectErrorView::PropertyNotWritable && after == self,
            _ => false,
        }
    }

    /// Whether the object has a state of this number.
    pub open spec fn has_number(self, state: u32) -> bool {
        1 <= state <= self.number_of_states
    }

    /// Whether the value, the default and every command are numbers of states.
    pub open spec fn in_range(self) -> bool {
        &&& self.has_number(self.present_value)
        &&& self.has_number(self.relinquish_default)
        &&& forall|i: int|
            0 <= i < PRIORITIES ==> ((#[trigger] self.priority_array@[i]) matches Some(state)
                ==> self.has_number(state))
    }

    /// This object with a command put into its slot, or taken out of it.
    pub open spec fn with_command(self, priority: u8, value: Option<u32>) -> MultiStateValue {
        let slots = vstd::array::spec_array_update(self.priority_array, priority - 1, value);
        MultiStateValue {
            priority_array: slots,
            present_value: common::commanded(slots@, self.relinquish_default),
            ..self
        }
    }

    /// What a command at a priority leaves.
    pub open spec fn commanding(self, priority: u8, value: Option<u32>) -> Result<
        MultiStateValue,
        ObjectErrorView,
    > {
        if value matches Some(state) && !self.has_number(state) {
            Err(wrong_state("Value must be between 1 and "@, self.number_of_states))
        } else if 1 <= priority <= PRIORITIES {
            Ok(self.with_command(priority, value))
        } else {
            Err(common::wrong_priority())
        }
    }

    /// What writing Present_Value at a priority leaves. Without a priority the
    /// lowest is meant.
    pub open spec fn with_present_value(self, value: PropertyValue, priority: Option<u8>) -> Result<
        MultiStateValue,
        ObjectErrorView,
    > {
        match unsigned_command(value) {
            Err(error) => Err(error),
            Ok(command) => self.commanding(
                match priority {
                    Some(priority) => priority,
                    None => 16,
                },
                command,
            ),
        }
    }

    /// Create a new Multi-state Value object.
    pub fn new(instance: u32, object_name: String, number_of_states: u32) -> (object: MultiStateValue)
        ensures
            object.identifier == (ObjectIdentifier { object_type: ObjectType::MultiStateValue, instance }),
            object.object_name == object_name,
            object.number_of_states == number_of_states,
            texts(object.state_text@) == numbered_texts(number_of_states),
            object.present_value == 1,
            object.description@ == Seq::<char>::empty(),
            !object.overridden,
            object.event_state == EventState::Normal,
            object.reliability == Reliability::NoFaultDetected,
            !object.out_of_service,
            forall|i: int| 0 <= i < PRIORITIES ==> (#[trigger] object.priority_array@[i]) is None,
            object.relinquish_default == 1,
            object.alarm_values@ == Seq::<u32>::empty(),
            object.alarm is None,
    {
        MultiStateValue {
            identifier: ObjectIdentifier::new(ObjectType::MultiStateValue, instance),
            object_name,
            present_value: 1,
            description: String::new(),
            overridden: false,
            event_state: EventState::Normal,
            reliability: Reliability::NoFaultDetected,
            out_of_service: false,
            number_of_states,
            state_text: new_texts(number_of_states),
            priority_array: [None; PRIORITIES],
            relinquish_default: 1,
            alarm_values: Vec::new(),
            alarm: None,
        }
    }

    /// Enable intrinsic reporting, alarming on `alarm_values` via
    /// `notification_class`.
    pub fn with_intrinsic_reporting(
        self,
        notification_class: u32,
        alarm_values: Vec<u32>,
    ) -> (object: MultiStateValue)
        ensures
            object == (MultiStateValue { alarm: object.alarm, alarm_values, ..self }),
            object.alarm matches Some(alarm) && alarm.starts(notification_class),
    {
        let mut object = self;
        object.alarm_values = alarm_values;
        object.alarm = Some(IntrinsicReporting::new(notification_class));
        object
    }

    /// Write to the priority array at the specified priority level (1-16).
    pub fn write_priority(&mut self, priority: u8, value: Option<u32>) -> (result: Result<
        (),
        ObjectError,
    >)
        ensures
            base::left(
                *old(self),
                *final(self),
                old(self).commanding(priority, value),
                base::outcome(result),
            ),
    {
        if let Some(state) = value {
            if state < 1 || state > self.number_of_states {
                return Err(
                    ObjectError::InvalidValue(
                        with_number("Value must be between 1 and ", self.number_of_states),
                    ),
                );
            }
        }
        match write_priority_slot(
            &mut self.priority_array,
            priority,
            value,
            self.relinquish_default,
        ) {
            Ok(in_force) => {
                self.present_value = in_force;
                Ok(())
            },
            Err(error) => Err(error),
        }
    }

    fn borrowed(&self) -> (view: MultistateView<'_>)
        ensures
            view == self.answers(),
    {
        MultistateView {
            identifier: self.identifier,
            object_type: ObjectType::MultiStateValue,
            object_name: &self.object_name,
            description: &self.description,
            present_value: self.present_value,
            overridden: self.overridden,
            event_state: self.event_state,
            reliability: self.reliability,
            out_of_service: self.out_of_service,
            number_of_states: self.number_of_states,
            state_text: &self.state_text,
            alarm_values: &self.alarm_values,
            alarm: self.alarm,
        }
    }

    fn set_shared(&mut self, property: PropertyIdentifier, value: PropertyValue) -> (result: Result<
        (),
        ObjectError,
    >)
        ensures
            old(self).shared_writing(*final(self), property, value, base::outcome(result)),
    {
        match shared_set(
            &mut self.object_name,
            &mut self.description,
            &mut self.reliability,
            &mut self.out_of_service,
            &mut self.alarm_values,
            &mut self.alarm,
            property,
            value,
        ) {
            Some(result) => result,
            None => Err(ObjectError::PropertyNotWritable),
        }
    }

    fn set_present(&mut self, value: PropertyValue, priority: Option<u8>) -> (result: Result<
        (),
        ObjectError,
    >)
        ensures
            base::left(
                *old(self),
                *final(self),
                old(self).with_present_value(value, priority),
                base::outcome(result),
            ),
    {
        match commandable_unsigned(value) {
            Err(error) => Err(error),
            Ok(command) => {
                let level: u8 = match priority {
                    Some(priority) => priority,
                    None => 16,
                };
                self.write_priority(level, command)
            },
        }
    }

    /// Commands keep the value, the default and the slots within the states.
    pub proof fn law_commands_stay_in_range(self, priority: u8, value: Option<u32>)
        requires
            self.in_range(),
        ensures
            self.commanding(priority, value) matches Ok(after) ==> after.in_range(),
    {
        if self.commanding(priority, value) is Ok {
            let after = self.with_command(priority, value);
            common::lemma_first_command(after.priority_array@);
            assert forall|i: int| 0 <= i < PRIORITIES implies ((
            #[trigger] after.priority_array@[i]) matches Some(state) ==> after.has_number(
                state,
            )) by {
                if i != priority - 1 {
                    assert(after.priority_array@[i] == self.priority_array@[i]);
                }
            }
        }
    }
}

impl BacnetObject for MultiStateValue {
    open spec fn identity(&self) -> ObjectIdentifier {
        self.identifier
    }

    open spec fn reading(&self, property: PropertyIdentifier) -> Result<
        PropertyValueView,
        ObjectErrorView,
    > {
        match property {
            PropertyIdentifier::PriorityArray => Ok(slots_reading(self.priority_array@)),
            PropertyIdentifier::RelinquishDefault => Ok(
                PropertyValueView::Unsigned(self.relinquish_default as u64),
            ),
            _ => error::or_unknown(multistate_reading(self.answers(), property)),
        }
    }

    open spec fn writing(
        &self,
        after: MultiStateValue,
        property: PropertyIdentifier,
        value: PropertyValue,
        priority: Option<u8>,
        outcome: Result<(), ObjectErrorView>,
    ) -> bool {
        if property == PropertyIdentifier::PresentValue {
            base::left(*self, after, self.with_present_value(value, priority), outcome)
        } else {
            self.shared_writing(after, property, value, outcome)
        }
    }

    open spec fn accepts(&self, property: PropertyIdentifier) -> bool {
        property == PropertyIdentifier::PresentValue || multistate_accepts(
            property,
            self.alarm is Some,
        )
    }

    open spec fn listing(&self) -> Seq<PropertyIdentifier> {
        multistate_properties(self.alarm is Some) + seq![
            PropertyIdentifier::PriorityArray,
            PropertyIdentifier::RelinquishDefault,
        ]
    }

    open spec fn sourcing(
        &self,
        after: MultiStateValue,
        value: PropertyValue,
        outcome: Result<(), ObjectErrorView>,
    ) -> bool {
        outcome == Err::<(), ObjectErrorView>(ObjectErrorView::OptionalFunctionalityNotSupported)
            && after == *self
    }

    open spec fn reporting(&self) -> Option<IntrinsicReporting> {
        self.alarm
    }

    open spec fn reports_as(&self, after: MultiStateValue, reporting: IntrinsicReporting) -> bool {
        after == if self.alarm is Some {
            MultiStateValue { alarm: Some(reporting), ..*self }
        } else {
            *self
        }
    }

    open spec fn evaluation(&self) -> Option<AlarmEvaluation> {
        multistate_evaluation(
            self.present_value,
            self.alarm_values@,
            self.reliability,
            self.alarm,
        )
    }

    open spec fn enters(&self, after: MultiStateValue, state: EventState) -> bool {
        after == (MultiStateValue { event_state: state, ..*self })
    }

    open spec fn decoupled(&self) -> bool {
        self.out_of_service
    }

    fn identifier(&self) -> (identifier: ObjectIdentifier) {
        self.identifier
    }

    fn get_property(&self, property: PropertyIdentifier) -> (result: Result<
        PropertyValue,
        ObjectError,
    >) {
        match property {
            PropertyIdentifier::PriorityArray => Ok(priority_array_value(&self.priority_array)),
            PropertyIdentifier::RelinquishDefault => Ok(
                PropertyValue::Unsigned(self.relinquish_default as u64),
            ),
            _ => error::answered(shared_get(&self.borrowed(), property)),
        }
    }

    fn set_property(&mut self, property: PropertyIdentifier, value: PropertyValue) -> (result:
        Result<(), ObjectError>) {
        if property == PropertyIdentifier::PresentValue {
            self.set_present(value, None)
        } else {
            self.set_shared(property, value)
        }
    }

    fn set_property_with_priority(
        &mut self,
        property: PropertyIdentifier,
        value: PropertyValue,
        priority: Option<u8>,
    ) -> (result: Result<(), ObjectError>) {
        if property == PropertyIdentifier::PresentValue {
            self.set_present(value, priority)
        } else {
            self.set_shared(property, value)
        }
    }

    fn is_property_writable(&self, property: PropertyIdentifier) -> (writable: bool) {
        property == PropertyIdentifier::PresentValue || shared_writable(
            property,
            self.alarm.is_some(),
        )
    }

    fn property_list(&self) -> (properties: Vec<PropertyIdentifier>) {
        let mut properties = shared_property_list(self.alarm.is_some());
        properties.push(PropertyIdentifier::PriorityArray);
        properties.push(PropertyIdentifier::RelinquishDefault);
        properties
    }

    /// A commandable object has a priority array, so a source goes through the
    /// command path rather than around it.
    fn set_sourced_value(&mut self, value: PropertyValue) -> (result: Result<(), ObjectError>) {
        Err(ObjectError::OptionalFunctionalityNotSupported)
    }

    fn intrinsic(&self) -> (reporting: Option<IntrinsicReporting>) {
        self.alarm
    }

    fn store_intrinsic(&mut self, reporting: IntrinsicReporting) {
        if self.alarm.is_some() {
            self.alarm = Some(reporting);
        }
    }

    fn evaluate_alarm(&self) -> (evaluation: Option<AlarmEvaluation>) {
        evaluate_multistate(
            self.present_value,
            &self.alarm_values,
            self.reliability,
            self.alarm,
        )
    }

    fn apply_event_state(&mut self, state: EventState) {
        self.event_state = state;
    }

    fn is_out_of_service(&self) -> (decoupled: bool) {
        self.out_of_service
    }
}

} // verus!
