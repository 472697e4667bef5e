//! Device object: the one object every database has.

use crate::object::base;
use crate::object::base::BacnetObject;
use crate::object::error::{ObjectError, ObjectErrorView};
use crate::object::identifier::{ObjectIdentifier, ObjectType, PropertyIdentifier};
use crate::object::intrinsic::{AlarmEvaluation, IntrinsicReporting};
use crate::object::state::EventState;
use crate::property::value::{PropertyValue, PropertyValueView};
use vstd::prelude::*;

verus! {

/// The protocol revision that a new device claims.
pub const PROTOCOL_REVISION: u32 = 22;

/// Device object.
#[derive(Debug, Clone)]
pub struct Device {
    /// Object identifier.
    pub identifier: ObjectIdentifier,
    /// Object name.
    pub object_name: String,
    /// Description.
    pub description: String,
    /// The revision of the protocol the device speaks.
    pub protocol_revision: u32,
}

impl Device {
    /// Create a new device.
    pub fn new(instance: u32, object_name: String) -> (device: Device)
        ensures
            device.identifier == (ObjectIdentifier { object_type: ObjectType::Device, instance }),
            device.object_name == object_name,
            device.description@ == Seq::<char>::empty(),
            device.protocol_revision == PROTOCOL_REVISION,
    {
        Device {
            identifier: ObjectIdentifier::new(ObjectType::Device, instance),
            object_name,
            description: String::new(),
            protocol_revision: PROTOCOL_REVISION,
        }
    }

    /// What writing a property leaves.
    pub open spec fn with_property(
        self,
        property: PropertyIdentifier,
        value: PropertyValue,
    ) -> Result<Device, ObjectErrorView> {
        match property {
            PropertyIdentifier::ObjectName => match value {
                PropertyValue::CharacterString(text) => Ok(Device { object_name: text, ..self }),
                _ => Err(ObjectErrorView::InvalidPropertyType),
            },
            PropertyIdentifier::Description => match value {
                PropertyValue::CharacterString(text) => Ok(Device { description: text, ..self }),
                _ => Err(ObjectErrorView::InvalidPropertyType),
            },
            _ => Err(ObjectErrorView::PropertyNotWritable),
        }
    }
}

/// How many object types a revision of the protocol knows.
pub open spec fn known_types(protocol_revision: u32) -> nat {
    if protocol_revision < 17 {
        56
    } else if protocol_revision < 18 {
        57
    } else if protocol_revision < 20 {
        60
    } else if protocol_revision < 22 {
        61
    } else if protocol_revision < 24 {
        63
    } else {
        65
    }
}

/// The object types supported, one bit for each type that the protocol revision
/// knows.
pub open spec fn types_supported(types: Seq<ObjectType>, protocol_revision: u32) -> Seq<bool> {
    Seq::new(
        known_types(protocol_revision),
        |number: int| exists|i: int| 0 <= i < types.len() && (#[trigger] types[i]).number() == number,
    )
}

/// The Protocol_Object_Types_Supported bit string.
pub fn object_types_supported_bit_string(types: &Vec<ObjectType>, protocol_revision: u32) -> (bits:
    Vec<bool>)
    ensures
        bits@ == types_supported(types@, protocol_revision),
{
    let count: u32 = if protocol_revision < 17 {
        56
    } else if protocol_revision < 18 {
        57
    } else if protocol_revision < 20 {
        60
    } else if protocol_revision < 22 {
        61
    } else if protocol_revision < 24 {
        63
    } else {
        65
    };
    let mut bits: Vec<bool> = Vec::new();
    let mut number: u32 = 0;
    while number < count
        invariant
            number <= count,
            count == known_types(protocol_revision),
            bits@.len() == number,
            forall|n: int|
                0 <= n < number ==> (#[trigger] bits@[n]) == types_supported(
                    types@,
                    protocol_revision,
                )[n],
        decreases count - number,
    {
        let mut found = false;
        let mut i: usize = 0;
        while i < types.len()
            invariant
                i <= types.len(),
                found == exists|j: int|
                    0 <= j < i && (#[trigger] types@[j]).number() == number,
            decreases types.len() - i,
        {
            if types[i].to_number() == number {
                assert(types@[i as int].number() == number);
                found = true;
            }
            i += 1;
        }
        bits.push(found);
        number += 1;
    }
    proof {
        assert(bits@ =~= types_supported(types@, protocol_revision));
    }
    bits
}

impl BacnetObject for Device {
    open spec fn identity(&self) -> ObjectIdentifier {
        self.identifier
    }

    open spec fn reading(&self, property: PropertyIdentifier) -> Result<
        PropertyValueView,
        ObjectErrorView,
    > {
        match property {
            PropertyIdentifier::ObjectIdentifier => Ok(
                PropertyValueView::ObjectIdentifier(self.identifier),
            ),
            PropertyIdentifier::ObjectName => Ok(
                PropertyValueView::CharacterString(self.object_name@),
            ),
            PropertyIdentifier::ObjectType => Ok(
                PropertyValueView::Enumerated(ObjectType::Device.number()),
            ),
            PropertyIdentifier::Description => Ok(
                PropertyValueView::CharacterString(self.description@),
            ),
            PropertyIdentifier::ProtocolRevision => Ok(
                PropertyValueView::Unsigned(self.protocol_revision as u64),
            ),
            _ => Err(ObjectErrorView::UnknownProperty),
        }
    }

    open spec fn writing(
        &self,
        after: Device,
        property: PropertyIdentifier,
        value: PropertyValue,
        priority: Option<u8>,
        outcome: Result<(), ObjectErrorView>,
    ) -> bool {
        base::left(*self, after, self.with_property(property, value), outcome)
    }

    open spec fn accepts(&self, property: PropertyIdentifier) -> bool {
        property == PropertyIdentifier::ObjectName || property == PropertyIdentifier::Description
    }

    open spec fn listing(&self) -> Seq<PropertyIdentifier> {
        seq![
            PropertyIdentifier::ObjectIdentifier,
            PropertyIdentifier::ObjectName,
            PropertyIdentifier::ObjectType,
            PropertyIdentifier::Description,
            PropertyIdentifier::ProtocolRevision,
            PropertyIdentifier::ProtocolObjectTypesSupported,
            PropertyIdentifier::DatabaseRevision,
        ]
    }

    open spec fn sourcing(
        &self,
        after: Device,
        value: PropertyValue,
        outcome: Result<(), ObjectErrorView>,
    ) -> bool {
        outcome == Err::<(), ObjectErrorView>(ObjectErrorView::OptionalFunctionalityNotSupported)
            && after == *self
    }

    open spec fn reporting(&self) -> Option<IntrinsicReporting> {
        None
    }

    open spec fn reports_as(&self, after: Device, reporting: IntrinsicReporting) -> bool {
        after == *self
    }

    open spec fn evaluation(&self) -> Option<AlarmEvaluation> {
        None
    }

    open spec fn enters(&self, after: Device, state: EventState) -> bool {
        after == *self
    }

    open spec fn decoupled(&self) -> bool {
        false
    }

    fn identifier(&self) -> (identifier: ObjectIdentifier) {
        self.identifier
    }

    fn get_property(&self, property: PropertyIdentifier) -> (result: Result<
        PropertyValue,
        ObjectError,
    >) {
        match property {
            PropertyIdentifier::ObjectIdentifier => Ok(
                PropertyValue::ObjectIdentifier(self.identifier),
            ),
            PropertyIdentifier::ObjectName => Ok(
                PropertyValue::CharacterString(self.object_name.clone()),
            ),
            PropertyIdentifier::ObjectType => Ok(
                PropertyValue::Enumerated(ObjectType::Device.to_number()),
            ),
            PropertyIdentifier::Description => Ok(
                PropertyValue::CharacterString(self.description.clone()),
            ),
            PropertyIdentifier::ProtocolRevision => Ok(
                PropertyValue::Unsigned(self.protocol_revision as u64),
            ),
            _ => Err(ObjectError::UnknownProperty),
        }
    }

    fn set_property(&mut self, property: PropertyIdentifier, value: PropertyValue) -> (result:
        Result<(), ObjectError>) {
        match property {
            PropertyIdentifier::ObjectName => match value {
                PropertyValue::CharacterString(text) => {
                    self.object_name = text;
                    Ok(())
                },
                _ => Err(ObjectError::InvalidPropertyType),
            },
            PropertyIdentifier::Description => match value {
                PropertyValue::CharacterString(text) => {
                    self.description = text;
                    Ok(())
                },
                _ => Err(ObjectError::InvalidPropertyType),
            },
            _ => Err(ObjectError::PropertyNotWritable),
        }
    }

    fn set_property_with_priority(
        &mut self,
        property: PropertyIdentifier,
        value: PropertyValue,
        priority: Option<u8>,
    ) -> (result: Result<(), ObjectError>) {
        self.set_property(property, value)
    }

    fn is_property_writable(&self, property: PropertyIdentifier) -> (writable: bool) {
        match property {
            PropertyIdentifier::ObjectName | PropertyIdentifier::Description => true,
            _ => false,
        }
    }

    fn property_list(&self) -> (properties: Vec<PropertyIdentifier>) {
        vec![
            PropertyIdentifier::ObjectIdentifier,
            PropertyIdentifier::ObjectName,
            PropertyIdentifier::ObjectType,
            PropertyIdentifier::Description,
            PropertyIdentifier::ProtocolRevision,
            PropertyIdentifier::ProtocolObjectTypesSupported,
            PropertyIdentifier::DatabaseRevision,
        ]
    }

    fn set_sourced_value(&mut self, value: PropertyValue) -> (result: Result<(), ObjectError>) {
        Err(ObjectError::OptionalFunctionalityNotSupported)
    }

    fn intrinsic(&self) -> (reporting: Option<IntrinsicReporting>) {
        None
    }

    fn store_intrinsic(&mut self, reporting: IntrinsicReporting) {
    }

    fn evaluate_alarm(&self) -> (evaluation: Option<AlarmEvaluation>) {
        None
    }

    fn apply_event_state(&mut self, state: EventState) {
    }

    fn is_out_of_service(&self) -> (decoupled: bool) {
        false
    }
}

} // verus!
