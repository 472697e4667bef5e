//! What every hosted object can do.

use crate::object::error;
use crate::object::error::{ObjectError, ObjectErrorView};
use crate::object::identifier::{ObjectIdentifier, PropertyIdentifier};
use crate::object::intrinsic::{AlarmEvaluation, IntrinsicReporting};
use crate::object::state::EventState;
use crate::property::value::{PropertyValue, PropertyValueView};
use vstd::prelude::*;

verus! {

/// What a write came to, with an error as what it says.
pub open spec fn outcome(result: Result<(), ObjectError>) -> Result<(), ObjectErrorView> {
    match result {
        Ok(_) => Ok(()),
        Err(error) => Err(error@),
    }
}

/// Whether a write that is to leave `stated` left `after` with this outcome. A
/// refused write leaves what was there.
pub open spec fn left<T>(
    before: T,
    after: T,
    stated: Result<T, ObjectErrorView>,
    outcome: Result<(), ObjectErrorView>,
) -> bool {
    match (outcome, stated) {
        (Ok(_), Ok(expected)) => after == expected,
        (Err(error), Err(expected)) => error == expected && after == before,
        _ => false,
    }
}

/// A BACnet object: it has an identity and properties, some of which clients may
/// write, and it may report events.
pub trait BacnetObject: Sized {
    /// The identity of the object.
    spec fn identity(&self) -> ObjectIdentifier;

    /// What a property reads.
    spec fn reading(&self, property: PropertyIdentifier) -> Result<
        PropertyValueView,
        ObjectErrorView,
    >;

    /// Whether writing `value` at `priority` may leave `after` with this outcome.
    spec fn writing(
        &self,
        after: Self,
        property: PropertyIdentifier,
        value: PropertyValue,
        priority: Option<u8>,
        outcome: Result<(), ObjectErrorView>,
    ) -> bool;

    /// Whether clients may write a property.
    spec fn accepts(&self, property: PropertyIdentifier) -> bool;

    /// The properties of the object, in their order.
    spec fn listing(&self) -> Seq<PropertyIdentifier>;

    /// Whether a value that the source of the object supplies may leave `after`
    /// with this outcome.
    spec fn sourcing(
        &self,
        after: Self,
        value: PropertyValue,
        outcome: Result<(), ObjectErrorView>,
    ) -> bool;

    /// The event reporting of the object, where it is configured.
    spec fn reporting(&self) -> Option<IntrinsicReporting>;

    /// Whether `after` is this object with other event reporting.
    spec fn reports_as(&self, after: Self, reporting: IntrinsicReporting) -> bool;

    /// What the event algorithm of the object demands.
    spec fn evaluation(&self) -> Option<AlarmEvaluation>;

    /// Whether `after` is this object in another event state.
    spec fn enters(&self, after: Self, state: EventState) -> bool;

    /// Whether the object is decoupled from what it stands for.
    spec fn decoupled(&self) -> bool;

    /// The identity of the object.
    fn identifier(&self) -> (identifier: ObjectIdentifier)
        ensures
            identifier == self.identity(),
    ;

    /// Read a property.
    fn get_property(&self, property: PropertyIdentifier) -> (result: Result<
        PropertyValue,
        ObjectError,
    >)
        ensures
            error::same_reading(result, self.reading(property)),
    ;

    /// Write a property.
    fn set_property(&mut self, property: PropertyIdentifier, value: PropertyValue) -> (result:
        Result<(), ObjectError>)
        ensures
            old(self).writing(*final(self), property, value, None, outcome(result)),
            final(self).identity() == old(self).identity(),
    ;

    /// Write a property at a command priority.
    fn set_property_with_priority(
        &mut self,
        property: PropertyIdentifier,
        value: PropertyValue,
        priority: Option<u8>,
    ) -> (result: Result<(), ObjectError>)
        ensures
            old(self).writing(*final(self), property, value, priority, outcome(result)),
            final(self).identity() == old(self).identity(),
    ;

    /// Whether clients may write a property.
    fn is_property_writable(&self, property: PropertyIdentifier) -> (writable: bool)
        ensures
            writable == self.accepts(property),
    ;

    /// The properties of the object, in their order.
    fn property_list(&self) -> (properties: Vec<PropertyIdentifier>)
        ensures
            properties@ == self.listing(),
    ;

    /// Take a value from whatever the object stands for.
    fn set_sourced_value(&mut self, value: PropertyValue) -> (result: Result<(), ObjectError>)
        ensures
            old(self).sourcing(*final(self), value, outcome(result)),
            final(self).identity() == old(self).identity(),
    ;

    /// The event reporting of the object, where it is configured.
    fn intrinsic(&self) -> (reporting: Option<IntrinsicReporting>)
        ensures
            reporting == self.reporting(),
    ;

    /// Put other event reporting in place of what is configured. An object without
    /// event reporting stays without.
    fn store_intrinsic(&mut self, reporting: IntrinsicReporting)
        ensures
            old(self).reports_as(*final(self), reporting),
            final(self).identity() == old(self).identity(),
    ;

    /// Run the event algorithm of the object against its current value.
    fn evaluate_alarm(&self) -> (evaluation: Option<AlarmEvaluation>)
        ensures
            evaluation == self.evaluation(),
    ;

    /// Enter an event state.
    fn apply_event_state(&mut self, state: EventState)
        ensures
            old(self).enters(*final(self), state),
            final(self).identity() == old(self).identity(),
    ;

    /// Whether the object is decoupled from what it stands for.
    fn is_out_of_service(&self) -> (decoupled: bool)
        ensures
            decoupled == self.decoupled(),
    ;
}

} // verus!
