//! What every point object has in common: its name, its flags, what it leaves out,
//! local overrides and the command priorities.

use crate::object::error;
use crate::object::error::{ObjectError, ObjectErrorView};
use crate::object::identifier::{ObjectIdentifier, ObjectType, PropertyIdentifier};
use crate::object::intrinsic;
use crate::object::intrinsic::status_flags_bits;
use crate::object::state::{EventState, Reliability};
use crate::property::value::{PropertyValue, PropertyValueView};
use vstd::prelude::*;

verus! {

/// A time of day.
#[derive(Debug, Clone, Copy, PartialEq, Eq, Structural)]
pub struct Time {
    pub hour: u8,
    pub minute: u8,
    pub second: u8,
    pub hundredths: u8,
}

/// Which optional properties an object has.
#[derive(Debug, Clone, Copy, PartialEq, Eq, Structural)]
pub struct OptionalProperties {
    /// Whether the object has Description.
    pub description: bool,
    /// Whether the object has Reliability.
    pub reliability: bool,
}

impl Default for OptionalProperties {
    /// Everything an object can have.
    fn default() -> (all: OptionalProperties)
        ensures
            all.description && all.reliability,
    {
        OptionalProperties { description: true, reliability: true }
    }
}

/// The listed properties that an object has, in their order.
pub open spec fn retained(
    optional: OptionalProperties,
    properties: Seq<PropertyIdentifier>,
) -> Seq<PropertyIdentifier> {
    properties.filter(|property: PropertyIdentifier| optional.includes(property))
}

impl OptionalProperties {
    /// Whether the object has `property`, as far as that is optional.
    pub open spec fn includes(self, property: PropertyIdentifier) -> bool {
        match property {
            PropertyIdentifier::Description => self.description,
            PropertyIdentifier::Reliability => self.reliability,
            _ => true,
        }
    }

    /// Whether the object has `property`, as far as that is optional.
    pub fn has(&self, property: PropertyIdentifier) -> (has: bool)
        ensures
            has == self.includes(property),
    {
        match property {
            PropertyIdentifier::Description => self.description,
            PropertyIdentifier::Reliability => self.reliability,
            _ => true,
        }
    }

    /// Take out of a property list what the object does not have.
    pub fn retain(&self, properties: Vec<PropertyIdentifier>) -> (kept: Vec<PropertyIdentifier>)
        ensures
            kept@ == retained(*self, properties@),
    {
        let mut kept: Vec<PropertyIdentifier> = Vec::new();
        let mut i: usize = 0;
        proof {
            assert(properties@.take(0) =~= Seq::<PropertyIdentifier>::empty());
            reveal(Seq::filter);
        }
        while i < properties.len()
            invariant
                i <= properties.len(),
                kept@ == retained(*self, properties@.take(i as int)),
            decreases properties.len() - i,
        {
            let property = properties[i];
            proof {
                reveal(Seq::filter);
                let longer = properties@.take(i + 1);
                assert(longer.drop_last() =~= properties@.take(i as int));
                assert(longer.last() == property);
            }
            if self.has(property) {
                kept.push(property);
            }
            i += 1;
        }
        proof {
            assert(properties@.take(properties@.len() as int) =~= properties@);
        }
        kept
    }
}

/// What a local override makes of writes to Present_Value.
#[derive(Debug, Clone, Copy, PartialEq, Eq, Structural)]
pub enum OverrideWrites {
    /// They are taken and show once the override is gone.
    Accepted,
    /// They are refused.
    Denied,
}

/// A local mechanism that holds Present_Value.
#[derive(Debug, Clone, Copy)]
pub struct LocalOverride<T> {
    /// What Present_Value reads while the override lasts.
    pub value: T,
    /// What becomes of writes meanwhile.
    pub writes: OverrideWrites,
}

/// Whether an override lets a write to Present_Value through.
pub open spec fn permits_write<T>(local: Option<LocalOverride<T>>) -> bool {
    match local {
        Some(held) => held.writes == OverrideWrites::Accepted,
        None => true,
    }
}

/// Refuse a write that a local override denies.
pub fn override_permits_write<T>(local: &Option<LocalOverride<T>>) -> (result: Result<
    (),
    ObjectError,
>)
    ensures
        match result {
            Ok(_) => permits_write(*local),
            Err(error) => !permits_write(*local) && error@ == ObjectErrorView::WriteAccessDenied,
        },
{
    match local {
        Some(held) => match held.writes {
            OverrideWrites::Accepted => Ok(()),
            OverrideWrites::Denied => Err(ObjectError::WriteAccessDenied),
        },
        None => Ok(()),
    }
}

// ---------------------------------------------------------------------------
// Command priorities
// ---------------------------------------------------------------------------

/// How many command priorities there are.
pub const PRIORITIES: usize = 16;

/// The place of the most urgent command in force, counted from 0; the length
/// where no command is in force.
pub open spec fn first_command<T>(slots: Seq<Option<T>>) -> int
    decreases slots.len(),
{
    if slots.len() == 0 {
        0
    } else if slots[0] is Some {
        0
    } else {
        1 + first_command(slots.drop_first())
    }
}

/// The value in force: the most urgent command, or the default where there is none.
pub open spec fn commanded<T>(slots: Seq<Option<T>>, default: T) -> T {
    let place = first_command(slots);
    if place < slots.len() {
        slots[place]->Some_0
    } else {
        default
    }
}

/// The priority in force, counted from 1.
pub open spec fn priority_in_force<T>(slots: Seq<Option<T>>) -> Option<u8> {
    let place = first_command(slots);
    if place < slots.len() {
        Some((place + 1) as u8)
    } else {
        None
    }
}

/// Where the most urgent command stands: nothing more urgent is in force.
pub proof fn lemma_first_command<T>(slots: Seq<Option<T>>)
    ensures
        0 <= first_command(slots) <= slots.len(),
        first_command(slots) < slots.len() ==> slots[first_command(slots)] is Some,
        forall|i: int| 0 <= i < first_command(slots) ==> (#[trigger] slots[i]) is None,
    decreases slots.len(),
{
    if slots.len() > 0 && slots[0] is None {
        lemma_first_command(slots.drop_first());
        assert forall|i: int| 0 <= i < first_command(slots) implies (#[trigger] slots[i]) is None by {
            if i > 0 {
                assert(slots[i] == slots.drop_first()[i - 1]);
            }
        }
        if first_command(slots) < slots.len() {
            assert(slots[first_command(slots)] == slots.drop_first()[first_command(slots) - 1]);
        }
    }
}

/// The place found by looking from the front is the first one.
proof fn lemma_first_command_is<T>(slots: Seq<Option<T>>, place: int)
    requires
        0 <= place <= slots.len(),
        place < slots.len() ==> slots[place] is Some,
        forall|i: int| 0 <= i < place ==> (#[trigger] slots[i]) is None,
    ensures
        first_command(slots) == place,
{
    lemma_first_command(slots);
    let found = first_command(slots);
    if found < place {
        assert(slots[found] is None);
    }
    if place < found {
        assert(slots[place] is None);
    }
}

/// The place of the most urgent command in force.
fn place_in_force<T: Copy>(slots: &[Option<T>; PRIORITIES]) -> (place: usize)
    ensures
        place == first_command(slots@),
        place <= PRIORITIES,
{
    let mut i: usize = 0;
    while i < PRIORITIES
        invariant
            i <= PRIORITIES,
            slots@.len() == PRIORITIES,
            forall|j: int| 0 <= j < i ==> (#[trigger] slots@[j]) is None,
        decreases PRIORITIES - i,
    {
        if slots[i].is_some() {
            proof {
                lemma_first_command_is(slots@, i as int);
            }
            return i;
        }
        i += 1;
    }
    proof {
        lemma_first_command_is(slots@, PRIORITIES as int);
    }
    i
}

/// The priority in force, or `None` where no command is.
pub fn effective_priority<T: Copy>(slots: &[Option<T>; PRIORITIES]) -> (priority: Option<u8>)
    ensures
        priority == priority_in_force(slots@),
{
    let place: usize = place_in_force(slots);
    if place < PRIORITIES {
        Some((place + 1) as u8)
    } else {
        None
    }
}

/// What a priority outside of 1 to 16 is answered.
pub open spec fn wrong_priority() -> ObjectErrorView {
    ObjectErrorView::InvalidValue("Priority must be between 1 and 16"@)
}

/// Put a command into its slot, or take it out, and give the value then in force.
pub fn write_priority_slot<T: Copy>(
    slots: &mut [Option<T>; PRIORITIES],
    priority: u8,
    value: Option<T>,
    default: T,
) -> (result: Result<T, ObjectError>)
    ensures
        match result {
            Ok(in_force) => {
                &&& 1 <= priority <= PRIORITIES
                &&& *final(slots) == vstd::array::spec_array_update(
                    *old(slots),
                    priority - 1,
                    value,
                )
                &&& final(slots)@ == old(slots)@.update(priority - 1, value)
                &&& in_force == commanded(final(slots)@, default)
            },
            Err(error) => {
                &&& !(1 <= priority <= PRIORITIES)
                &&& *final(slots) == *old(slots)
                &&& error@ == wrong_priority()
            },
        },
{
    if priority < 1 || priority > 16 {
        return Err(error::invalid_value("Priority must be between 1 and 16"));
    }
    let index: usize = priority as usize - 1;
    slots[index] = value;
    let place: usize = place_in_force(slots);
    proof {
        lemma_first_command(slots@);
    }
    if place < PRIORITIES {
        match slots[place] {
            Some(in_force) => Ok(in_force),
            None => Ok(default),
        }
    } else {
        Ok(default)
    }
}

/// A command that is put in and taken out again leaves the value that was in
/// force, where its slot was free.
pub proof fn law_relinquish_restores<T>(slots: Seq<Option<T>>, place: int, value: T, default: T)
    requires
        0 <= place < slots.len(),
        slots[place] is None,
    ensures
        commanded(slots.update(place, Some(value)).update(place, None), default) == commanded(
            slots,
            default,
        ),
{
    assert(slots.update(place, Some(value)).update(place, None) =~= slots);
}

/// The most urgent command wins: a command is in force exactly where no more
/// urgent slot is taken.
pub proof fn law_most_urgent_wins<T>(slots: Seq<Option<T>>, place: int, value: T, default: T)
    requires
        0 <= place < slots.len(),
        forall|i: int| 0 <= i < place ==> (#[trigger] slots[i]) is None,
    ensures
        commanded(slots.update(place, Some(value)), default) == value,
{
    let written = slots.update(place, Some(value));
    assert forall|i: int| 0 <= i < place implies (#[trigger] written[i]) is None by {
        assert(slots[i] is None);
    }
    lemma_first_command_is(written, place);
}

/// A less urgent command changes nothing while a more urgent one is in force.
pub proof fn law_less_urgent_waits<T>(
    slots: Seq<Option<T>>,
    place: int,
    value: Option<T>,
    default: T,
)
    requires
        first_command(slots) < place < slots.len(),
    ensures
        commanded(slots.update(place, value), default) == commanded(slots, default),
{
    lemma_first_command(slots);
    let found = first_command(slots);
    let written = slots.update(place, value);
    assert forall|i: int| 0 <= i < found implies (#[trigger] written[i]) is None by {
        assert(slots[i] is None);
    }
    lemma_first_command_is(written, found);
}

// ---------------------------------------------------------------------------
// Common properties
// ---------------------------------------------------------------------------

/// The state that every point answers its common properties from.
pub struct CommonView<'a> {
    pub identifier: ObjectIdentifier,
    pub object_type: ObjectType,
    pub object_name: &'a String,
    pub description: &'a String,
    pub event_state: EventState,
    pub reliability: Reliability,
    pub out_of_service: bool,
    pub overridden: bool,
    pub optional: OptionalProperties,
}

/// What a common property reads; `None` for a property that is not common to all
/// points.
pub open spec fn common_reading(view: CommonView, property: PropertyIdentifier) -> Option<
    Result<PropertyValueView, ObjectErrorView>,
> {
    if !view.optional.includes(property) {
        Some(Err(ObjectErrorView::UnknownProperty))
    } else {
        match property {
            PropertyIdentifier::ObjectIdentifier => Some(
                Ok(PropertyValueView::ObjectIdentifier(view.identifier)),
            ),
            PropertyIdentifier::ObjectName => Some(
                Ok(PropertyValueView::CharacterString(view.object_name@)),
            ),
            PropertyIdentifier::ObjectType => Some(
                Ok(PropertyValueView::Enumerated(view.object_type.number())),
            ),
            PropertyIdentifier::Description => Some(
                Ok(PropertyValueView::CharacterString(view.description@)),
            ),
            PropertyIdentifier::StatusFlags => Some(
                Ok(
                    PropertyValueView::BitString(
                        intrinsic::flags(
                            view.event_state,
                            view.reliability,
                            view.out_of_service,
                            view.overridden,
                        ),
                    ),
                ),
            ),
            PropertyIdentifier::EventState => Some(
                Ok(PropertyValueView::Enumerated(view.event_state.number() as u32)),
            ),
            PropertyIdentifier::Reliability => Some(
                Ok(PropertyValueView::Enumerated(view.reliability.number())),
            ),
            PropertyIdentifier::OutOfService => Some(
                Ok(PropertyValueView::Boolean(view.out_of_service)),
            ),
            _ => None,
        }
    }
}

/// Read a property that is common to all points.
pub fn common_get(view: &CommonView<'_>, property: PropertyIdentifier) -> (offer: Option<
    Result<PropertyValue, ObjectError>,
>)
    ensures
        error::same_offer(offer, common_reading(*view, property)),
{
    if !view.optional.has(property) {
        return Some(Err(ObjectError::UnknownProperty));
    }
    match property {
        PropertyIdentifier::ObjectIdentifier => Some(
            Ok(PropertyValue::ObjectIdentifier(view.identifier)),
        ),
        PropertyIdentifier::ObjectName => Some(
            Ok(PropertyValue::CharacterString(view.object_name.clone())),
        ),
        PropertyIdentifier::ObjectType => Some(
            Ok(PropertyValue::Enumerated(view.object_type.to_number())),
        ),
        PropertyIdentifier::Description => Some(
            Ok(PropertyValue::CharacterString(view.description.clone())),
        ),
        PropertyIdentifier::StatusFlags => Some(
            Ok(
                PropertyValue::BitString(
                    status_flags_bits(
                        view.event_state,
                        view.reliability,
                        view.out_of_service,
                        view.overridden,
                    ),
                ),
            ),
        ),
        PropertyIdentifier::EventState => Some(
            Ok(PropertyValue::Enumerated(view.event_state.to_number() as u32)),
        ),
        PropertyIdentifier::Reliability => Some(
            Ok(PropertyValue::Enumerated(view.reliability.to_number())),
        ),
        PropertyIdentifier::OutOfService => Some(Ok(PropertyValue::Boolean(view.out_of_service))),
        _ => None,
    }
}

/// The fields that every point lets clients write.
pub struct CommonState {
    pub object_name: String,
    pub description: String,
    pub reliability: Reliability,
    pub out_of_service: bool,
}

/// What a write to a common property leaves; `None` for a property that is not
/// common to all points.
pub open spec fn common_writing(
    state: CommonState,
    optional: OptionalProperties,
    property: PropertyIdentifier,
    value: PropertyValue,
) -> Option<Result<CommonState, ObjectErrorView>> {
    let wrong = Some(Err::<CommonState, ObjectErrorView>(ObjectErrorView::InvalidPropertyType));
    if !optional.includes(property) {
        Some(Err(ObjectErrorView::UnknownProperty))
    } else {
        match property {
            PropertyIdentifier::ObjectName => match value {
                PropertyValue::CharacterString(text) => Some(
                    Ok(CommonState { object_name: text, ..state }),
                ),
                _ => wrong,
            },
            PropertyIdentifier::Description => match value {
                PropertyValue::CharacterString(text) => Some(
                    Ok(CommonState { description: text, ..state }),
                ),
                _ => wrong,
            },
            PropertyIdentifier::OutOfService => match value {
                PropertyValue::Boolean(flag) => Some(
                    Ok(CommonState { out_of_service: flag, ..state }),
                ),
                _ => wrong,
            },
            PropertyIdentifier::Reliability => match value {
                PropertyValue::Enumerated(number) => Some(
                    Ok(CommonState { reliability: Reliability::of(number), ..state }),
                ),
                _ => wrong,
            },
            _ => None,
        }
    }
}

/// What became of a write that common properties may claim.
pub enum CommonWrite {
    /// The property is a common one; this is the answer.
    Handled(Result<(), ObjectError>),
    /// The property belongs to someone else, who gets the value back.
    Unclaimed(PropertyValue),
}

/// Write a property that is common to all points, or hand the value back.
pub fn common_set(
    object_name: &mut String,
    description: &mut String,
    reliability: &mut Reliability,
    out_of_service: &mut bool,
    optional: OptionalProperties,
    property: PropertyIdentifier,
    value: PropertyValue,
) -> (write: CommonWrite)
    ensures
        ({
            let before = CommonState {
                object_name: *old(object_name),
                description: *old(description),
                reliability: *old(reliability),
                out_of_service: *old(out_of_service),
            };
            let after = CommonState {
                object_name: *final(object_name),
                description: *final(description),
                reliability: *final(reliability),
                out_of_service: *final(out_of_service),
            };
            match (write, common_writing(before, optional, property, value)) {
                (CommonWrite::Handled(result), Some(stated)) => error::same_writing(
                    result,
                    before,
                    after,
                    stated,
                ),
                (CommonWrite::Unclaimed(left), None) => left == value && after == before,
                _ => false,
            }
        }),
{
    if !optional.has(property) {
        return CommonWrite::Handled(Err(ObjectError::UnknownProperty));
    }
    match property {
        PropertyIdentifier::ObjectName => match value {
            PropertyValue::CharacterString(text) => {
                *object_name = text;
                CommonWrite::Handled(Ok(()))
            },
            _ => CommonWrite::Handled(Err(ObjectError::InvalidPropertyType)),
        },
        PropertyIdentifier::Description => match value {
            PropertyValue::CharacterString(text) => {
                *description = text;
                CommonWrite::Handled(Ok(()))
            },
            _ => CommonWrite::Handled(Err(ObjectError::InvalidPropertyType)),
        },
        PropertyIdentifier::OutOfService => match value {
            PropertyValue::Boolean(flag) => {
                *out_of_service = flag;
                CommonWrite::Handled(Ok(()))
            },
            _ => CommonWrite::Handled(Err(ObjectError::InvalidPropertyType)),
        },
        PropertyIdentifier::Reliability => match value {
            PropertyValue::Enumerated(number) => {
                *reliability = Reliability::from_number(number);
                CommonWrite::Handled(Ok(()))
            },
            _ => CommonWrite::Handled(Err(ObjectError::InvalidPropertyType)),
        },
        _ => CommonWrite::Unclaimed(value),
    }
}

} // verus!
