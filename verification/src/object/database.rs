//! The database that hosts a device's objects.
//!
//! Objects are found by identifier, by name and by type. Names are unique, every
//! change of what is hosted or how it is named counts the revision up, and the
//! device object is always there.

use crate::object::base;
use crate::object::base::BacnetObject;
use crate::object::calendar;
use crate::object::calendar::Calendar;
use crate::object::device;
use crate::object::device::{object_types_supported_bit_string, Device};
use crate::object::error;
use crate::object::error::{ObjectError, ObjectErrorView};
use crate::object::hostable::Hostable;
use crate::object::hosted::HostedObject;
use crate::object::identifier::{ObjectIdentifier, ObjectType, PropertyIdentifier};
use crate::object::intrinsic::IntrinsicReporting;
use crate::object::schedule::Schedule;
use crate::object::state::EventState;
use crate::property::value::{PropertyValue, PropertyValueView};
use crate::ranking;
use crate::ranking::rank;
use crate::text;
use crate::text::{quoted_text, with_number};
use vstd::prelude::*;

verus! {

/// Object database for managing BACnet objects.
///
/// It hosts the objects of this library, and with another type in place of
/// [`HostedObject`] any others.
pub struct ObjectDatabase<T = HostedObject> {
    objects: Vec<T>,
    types: Vec<ObjectType>,
    revision: u32,
    clock: u64,
    last_modified: u64,
    device_id: ObjectIdentifier,
}

/// What a database holds.
pub struct DatabaseView<T> {
    /// The objects, in the order they were added.
    pub objects: Seq<T>,
    /// The types that objects were ever added of, in the order they first were.
    pub types: Seq<ObjectType>,
    /// How often the database changed, counted from 1 and wrapping.
    pub revision: u32,
    /// The time the database was last told.
    pub clock: u64,
    /// The time of the last change.
    pub modified: u64,
    /// The identity of the device object.
    pub device: ObjectIdentifier,
}

/// The revision after this one.
pub open spec fn next_revision(revision: u32) -> u32 {
    if revision == u32::MAX {
        0
    } else {
        (revision + 1) as u32
    }
}

/// The type an object is filed under: that of its identity, but for the device of the
/// database, which is filed as a device whatever its identity says.
pub open spec fn filed_under(identifier: ObjectIdentifier, device: ObjectIdentifier) -> ObjectType {
    if identifier == device {
        ObjectType::Device
    } else {
        identifier.object_type
    }
}

/// Whether an object is filed under a type, in the database of a device.
pub open spec fn is_of<T: Hostable>(
    object: T,
    object_type: ObjectType,
    device: ObjectIdentifier,
) -> bool {
    filed_under(object.identity(), device) == object_type
}

/// The objects filed under one type, in the order they were added.
pub open spec fn of_type<T: Hostable>(
    objects: Seq<T>,
    object_type: ObjectType,
    device: ObjectIdentifier,
) -> Seq<T> {
    objects.filter(|object: T| is_of(object, object_type, device))
}

/// The identities of objects.
pub open spec fn identities<T: Hostable>(objects: Seq<T>) -> Seq<ObjectIdentifier> {
    objects.map_values(|object: T| object.identity())
}

/// The largest instance number of one type, or zero where there is none.
pub open spec fn largest_instance<T: Hostable>(
    objects: Seq<T>,
    object_type: ObjectType,
    device: ObjectIdentifier,
) -> u32
    decreases objects.len(),
{
    if objects.len() == 0 {
        0
    } else {
        let before = largest_instance(objects.drop_last(), object_type, device);
        let last = objects.last();
        if is_of(last, object_type, device) && last.identity().instance > before {
            last.identity().instance
        } else {
            before
        }
    }
}

/// The place of an object in the order of types and instance numbers.
pub open spec fn order_of(identifier: ObjectIdentifier) -> int {
    identifier.object_type.number() * 0x1_0000_0000 + identifier.instance
}

/// An object after calendars were refreshed for a date.
pub open spec fn refreshed_object<T: Hostable>(object: T, date: (u16, u8, u8, u8)) -> T {
    match object.as_calendar() {
        Some(calendar) => if object.identity().object_type == ObjectType::Calendar {
            object.with_calendar(
                Calendar {
                    present_value: calendar::list_covers(calendar.date_list@, date),
                    ..calendar
                },
            )
        } else {
            object
        },
        None => object,
    }
}

/// Whether an object is the calendar of this identity and covers a date.
pub open spec fn is_active_calendar<T: Hostable>(
    object: T,
    identifier: ObjectIdentifier,
    date: (u16, u8, u8, u8),
) -> bool {
    match object.as_calendar() {
        Some(calendar) => {
            &&& object.identity() == identifier
            &&& identifier.object_type == ObjectType::Calendar
            &&& calendar::list_covers(calendar.date_list@, date)
        },
        None => false,
    }
}

/// The identities of objects, by type number and instance.
pub open spec fn ordered_identities<T: Hostable>(objects: Seq<T>) -> Seq<ObjectIdentifier> {
    ranking::unkeyed(
        ranking::ranked(
            identities(objects).map_values(
                |identifier: ObjectIdentifier| (order_of(identifier), identifier),
            ),
        ),
    )
}

/// Whether a value is what is searched for. Numbers may differ by rounding;
/// anything but a plain value is never found.
pub open spec fn is_match(found: PropertyValueView, wanted: PropertyValueView) -> bool {
    match (found, wanted) {
        (PropertyValueView::Null, PropertyValueView::Null) => true,
        (PropertyValueView::Boolean(a), PropertyValueView::Boolean(b)) => a == b,
        (PropertyValueView::Unsigned(a), PropertyValueView::Unsigned(b)) => a == b,
        (PropertyValueView::Signed(a), PropertyValueView::Signed(b)) => a == b,
        (PropertyValueView::Real(a), PropertyValueView::Real(b)) => a.near(b),
        (PropertyValueView::Double(a), PropertyValueView::Double(b)) => a.near(b),
        (PropertyValueView::CharacterString(a), PropertyValueView::CharacterString(b)) => a == b,
        (PropertyValueView::Enumerated(a), PropertyValueView::Enumerated(b)) => a == b,
        (PropertyValueView::ObjectIdentifier(a), PropertyValueView::ObjectIdentifier(b)) => a == b,
        _ => false,
    }
}

/// Whether a property of an object reads what is searched for.
pub open spec fn has_value<T: Hostable>(
    object: T,
    property: PropertyIdentifier,
    wanted: PropertyValueView,
) -> bool {
    object.reading(property) matches Ok(found) && is_match(found, wanted)
}

/// The name a write asks for, where it asks for one.
pub open spec fn asked_name(property: PropertyIdentifier, value: PropertyValue) -> Option<
    Seq<char>,
> {
    match value {
        PropertyValue::CharacterString(name) => if property == PropertyIdentifier::ObjectName {
            Some(name@)
        } else {
            None
        },
        _ => None,
    }
}

impl<T: Hostable> DatabaseView<T> {
    /// What a database holds that was just made for a device.
    pub open spec fn fresh(device: Device) -> DatabaseView<T> {
        DatabaseView {
            objects: seq![T::hosting(device)],
            types: seq![ObjectType::Device],
            revision: 1,
            clock: 0,
            modified: 0,
            device: device.identifier,
        }
    }

    /// Whether the object at a place has this identity.
    pub open spec fn is_at(self, place: int, identifier: ObjectIdentifier) -> bool {
        0 <= place < self.objects.len() && self.objects[place].identity() == identifier
    }

    /// Whether an object of this identity is hosted.
    pub open spec fn has(self, identifier: ObjectIdentifier) -> bool {
        exists|place: int| self.is_at(place, identifier)
    }

    /// The place of the object of this identity.
    pub open spec fn place_of(self, identifier: ObjectIdentifier) -> int {
        choose|place: int| self.is_at(place, identifier)
    }

    /// The object of this identity.
    pub open spec fn object(self, identifier: ObjectIdentifier) -> T {
        self.objects[self.place_of(identifier)]
    }

    /// This database with another object in place of the one of this identity.
    pub open spec fn with_object(
        self,
        identifier: ObjectIdentifier,
        object: T,
    ) -> DatabaseView<T> {
        DatabaseView {
            objects: self.objects.update(self.place_of(identifier), object),
            ..self
        }
    }

    /// The schedule of this identity, where it is hosted.
    pub open spec fn schedule(self, identifier: ObjectIdentifier) -> Option<Schedule> {
        if self.has(identifier) {
            self.object(identifier).as_schedule()
        } else {
            None
        }
    }

    /// This database with every calendar refreshed.
    pub open spec fn calendars_refreshed(self, date: (u16, u8, u8, u8)) -> DatabaseView<T> {
        DatabaseView {
            objects: self.objects.map_values(
                |object: T| refreshed_object(object, date),
            ),
            ..self
        }
    }

    /// Whether a calendar of this identity covers a date.
    pub open spec fn is_active(
        self,
        identifier: ObjectIdentifier,
        date: (u16, u8, u8, u8),
    ) -> bool {
        exists|i: int|
            0 <= i < self.objects.len() && is_active_calendar(
                #[trigger] self.objects[i],
                identifier,
                date,
            )
    }

    /// Whether the object at a place has this name.
    pub open spec fn is_named_at(self, place: int, name: Seq<char>) -> bool {
        0 <= place < self.objects.len() && self.objects[place].name() == name
    }

    /// Whether an object of this name is hosted.
    pub open spec fn has_name(self, name: Seq<char>) -> bool {
        exists|place: int| self.is_named_at(place, name)
    }

    /// The place of the object of this name.
    pub open spec fn place_named(self, name: Seq<char>) -> int {
        choose|place: int| self.is_named_at(place, name)
    }

    /// Identities and names are unique, the device is there, and every type that is
    /// hosted is known.
    pub open spec fn wf(self) -> bool {
        &&& forall|i: int, j: int|
            0 <= i < j < self.objects.len() ==> (#[trigger] self.objects[i]).identity() != (
            #[trigger] self.objects[j]).identity()
        &&& forall|i: int, j: int|
            0 <= i < j < self.objects.len() ==> (#[trigger] self.objects[i]).name() != (
            #[trigger] self.objects[j]).name()
        &&& self.has(self.device)
        &&& forall|i: int|
            0 <= i < self.objects.len() ==> self.types.contains(
                filed_under((#[trigger] self.objects[i]).identity(), self.device),
            )
        &&& self.types.no_duplicates()
    }

    /// This database with other objects, counted as one change.
    pub open spec fn changed(
        self,
        objects: Seq<T>,
        types: Seq<ObjectType>,
    ) -> DatabaseView<T> {
        DatabaseView {
            objects,
            types,
            revision: next_revision(self.revision),
            modified: self.clock,
            ..self
        }
    }

    /// The known types, and this one.
    pub open spec fn types_with(self, object_type: ObjectType) -> Seq<ObjectType> {
        if self.types.contains(object_type) {
            self.types
        } else {
            self.types.push(object_type)
        }
    }

    /// What adding an object leaves.
    pub open spec fn adding(self, object: T) -> Result<DatabaseView<T>, ObjectErrorView> {
        if self.has(object.identity()) {
            Err(
                ObjectErrorView::InvalidConfiguration(
                    "Object "@ + text::decimal(object.identity().instance as nat)
                        + " already exists"@,
                ),
            )
        } else if self.has_name(object.name()) {
            let owner = self.objects[self.place_named(object.name())].identity();
            Err(
                ObjectErrorView::InvalidValue(
                    "Object name "@ + text::quoted(object.name()) + " is already used by "@
                        + owner.shown(),
                ),
            )
        } else {
            Ok(
                self.changed(
                    self.objects.push(object),
                    self.types_with(object.identity().object_type),
                ),
            )
        }
    }

    /// What adding objects one by one leaves, up to the first refusal.
    pub open spec fn adding_all(self, objects: Seq<T>) -> Result<
        DatabaseView<T>,
        ObjectErrorView,
    >
        decreases objects.len(),
    {
        if objects.len() == 0 {
            Ok(self)
        } else {
            match self.adding(objects[0]) {
                Err(error) => Err(error),
                Ok(next) => next.adding_all(objects.drop_first()),
            }
        }
    }

    /// What removing an object leaves. The device cannot be removed.
    pub open spec fn removing(self, identifier: ObjectIdentifier) -> Result<
        DatabaseView<T>,
        ObjectErrorView,
    > {
        if identifier == self.device {
            Err(ObjectErrorView::WriteAccessDenied)
        } else if !self.has(identifier) {
            Err(ObjectErrorView::NotFound)
        } else {
            Ok(self.changed(self.objects.remove(self.place_of(identifier)), self.types))
        }
    }

    /// What the object itself reads.
    pub open spec fn stored_reading(
        self,
        identifier: ObjectIdentifier,
        property: PropertyIdentifier,
    ) -> Result<PropertyValueView, ObjectErrorView> {
        if self.has(identifier) {
            self.object(identifier).reading(property)
        } else {
            Err(ObjectErrorView::NotFound)
        }
    }

    /// The types that have an object, by rising number.
    pub open spec fn hosted_types(self) -> Seq<ObjectType> {
        ranking::unkeyed(
            ranking::ranked(
                self.types.filter(
                    |object_type: ObjectType|
                        of_type(self.objects, object_type, self.device).len() > 0,
                ).map_values(|object_type: ObjectType| (object_type.number() as int, object_type)),
            ),
        )
    }

    /// What a property reads. The device answers its revision and the types it
    /// hosts from the database.
    pub open spec fn reading(
        self,
        identifier: ObjectIdentifier,
        property: PropertyIdentifier,
    ) -> Result<PropertyValueView, ObjectErrorView> {
        if identifier == self.device && property == PropertyIdentifier::DatabaseRevision {
            Ok(PropertyValueView::Unsigned(self.revision as u64))
        } else if identifier == self.device && property
            == PropertyIdentifier::ProtocolObjectTypesSupported {
            match self.stored_reading(identifier, PropertyIdentifier::ProtocolRevision) {
                Err(error) => Err(error),
                Ok(PropertyValueView::Unsigned(revision)) => if revision <= u32::MAX {
                    Ok(
                        PropertyValueView::BitString(
                            device::types_supported(self.hosted_types(), revision as u32),
                        ),
                    )
                } else {
                    Err(ObjectErrorView::InvalidPropertyType)
                },
                Ok(_) => Err(ObjectErrorView::InvalidPropertyType),
            }
        } else {
            self.stored_reading(identifier, property)
        }
    }

    /// Whether a write asks for a name that another object has.
    pub open spec fn takes_other_name(
        self,
        identifier: ObjectIdentifier,
        property: PropertyIdentifier,
        value: PropertyValue,
    ) -> bool {
        match asked_name(property, value) {
            Some(name) => self.has_name(name) && self.objects[self.place_named(name)].identity()
                != identifier,
            None => false,
        }
    }

    /// Whether a write may leave `after` with this outcome: one object is written,
    /// and a new name counts as a change.
    pub open spec fn writing(
        self,
        after: DatabaseView<T>,
        identifier: ObjectIdentifier,
        property: PropertyIdentifier,
        value: PropertyValue,
        priority: Option<u8>,
        outcome: Result<(), ObjectErrorView>,
    ) -> bool {
        if !self.has(identifier) {
            outcome == Err::<(), ObjectErrorView>(ObjectErrorView::NotFound) && after == self
        } else if self.takes_other_name(identifier, property, value) {
            outcome == Err::<(), ObjectErrorView>(
                ObjectErrorView::InvalidValue(
                    "Object name "@ + text::quoted(
                        asked_name(property, value)->Some_0,
                    ) + " is already in use"@,
                ),
            ) && after == self
        } else {
            let place = self.place_of(identifier);
            let objects = self.objects.update(place, after.objects[place]);
            &&& self.objects[place].writing(
                after.objects[place],
                property,
                value,
                priority,
                outcome,
            )
            &&& after == if outcome is Ok && property == PropertyIdentifier::ObjectName {
                self.changed(objects, self.types)
            } else {
                DatabaseView { objects, ..self }
            }
        }
    }

    /// The instance number to give a new object: one more than the largest, and
    /// zero for a type that was never hosted.
    pub open spec fn free_instance(self, object_type: ObjectType) -> u32 {
        if self.types.contains(object_type) {
            let largest = largest_instance(self.objects, object_type, self.device);
            if largest == u32::MAX {
                largest
            } else {
                (largest + 1) as u32
            }
        } else {
            0
        }
    }
}

// ---------------------------------------------------------------------------
// Laws
// ---------------------------------------------------------------------------

/// The place of an object is where it is: no other place has its identity.
pub proof fn lemma_place_is<T: Hostable>(
    view: DatabaseView<T>,
    place: int,
    identifier: ObjectIdentifier,
)
    requires
        view.wf(),
        view.is_at(place, identifier),
    ensures
        view.has(identifier),
        view.place_of(identifier) == place,
{
    let found = view.place_of(identifier);
    assert(view.is_at(found, identifier));
    if found < place {
        assert(view.objects[found].identity() != view.objects[place].identity());
    }
    if place < found {
        assert(view.objects[place].identity() != view.objects[found].identity());
    }
}

/// The place of a name is where it is: no other place has that name.
pub proof fn lemma_name_place_is<T: Hostable>(view: DatabaseView<T>, place: int, name: Seq<char>)
    requires
        view.wf(),
        view.is_named_at(place, name),
    ensures
        view.has_name(name),
        view.place_named(name) == place,
{
    let found = view.place_named(name);
    assert(view.is_named_at(found, name));
    if found < place {
        assert(view.objects[found].name() != view.objects[place].name());
    }
    if place < found {
        assert(view.objects[place].name() != view.objects[found].name());
    }
}

/// Adding keeps identities and names unique; what is added is found by both, and
/// everything else is as it was.
pub proof fn law_adding_keeps_order<T: Hostable>(
    view: DatabaseView<T>,
    object: T,
    other: ObjectIdentifier,
)
    requires
        view.wf(),
    ensures
        view.adding(object) matches Ok(after) ==> {
            &&& after.wf()
            &&& after.has(object.identity())
            &&& after.object(object.identity()) == object
            &&& after.has_name(object.name())
            &&& after.objects[after.place_named(object.name())] == object
            &&& after.revision == next_revision(view.revision)
            &&& other != object.identity() ==> after.has(other) == view.has(other)
            &&& other != object.identity() && view.has(other) ==> after.object(other)
                == view.object(other)
        },
{
    if let Ok(after) = view.adding(object) {
        let last = view.objects.len() as int;
        assert(after.objects[last] == object);
        assert forall|i: int, j: int| 0 <= i < j < after.objects.len() implies (
        #[trigger] after.objects[i]).identity() != (#[trigger] after.objects[j]).identity() by {
            if j == last {
                assert(!view.is_at(i, object.identity()));
            }
        }
        assert forall|i: int, j: int| 0 <= i < j < after.objects.len() implies (
        #[trigger] after.objects[i]).name() != (#[trigger] after.objects[j]).name() by {
            if j == last {
                assert(!view.is_named_at(i, object.name()));
            }
        }
        let device = view.place_of(view.device);
        assert(view.is_at(device, view.device));
        assert(after.is_at(device, view.device));
        let added = object.identity().object_type;
        assert forall|i: int| 0 <= i < after.objects.len() implies after.types.contains(
            filed_under((#[trigger] after.objects[i]).identity(), after.device),
        ) by {
            if i < last {
                let known = filed_under(view.objects[i].identity(), view.device);
                assert(view.types.contains(known));
                let k = view.types.index_of(known);
                assert(after.types[k] == known);
            } else if !view.types.contains(added) {
                assert(after.types[view.types.len() as int] == added);
            }
        }
        assert(after.types.no_duplicates()) by {
            if !view.types.contains(added) {
                assert forall|i: int, j: int|
                    0 <= i < after.types.len() && 0 <= j < after.types.len() && i
                        != j implies after.types[i] != after.types[j] by {
                    if i == view.types.len() {
                        assert(view.types.contains(view.types[j]));
                    } else if j == view.types.len() {
                        assert(view.types.contains(view.types[i]));
                    }
                }
            }
        }
        assert(after.is_at(last, object.identity()));
        lemma_place_is(after, last, object.identity());
        assert(after.is_named_at(last, object.name()));
        lemma_name_place_is(after, last, object.name());
        if other != object.identity() {
            if view.has(other) {
                let i = view.place_of(other);
                assert(view.is_at(i, other));
                assert(after.is_at(i, other));
                lemma_place_is(after, i, other);
            }
            if after.has(other) {
                let i = after.place_of(other);
                assert(after.is_at(i, other));
                assert(view.is_at(i, other));
            }
        }
    }
}

/// Removing keeps the database in order; what is removed is gone, and everything
/// else is as it was.
pub proof fn law_removing_takes_one<T: Hostable>(
    view: DatabaseView<T>,
    identifier: ObjectIdentifier,
    other: ObjectIdentifier,
)
    requires
        view.wf(),
    ensures
        view.removing(identifier) matches Ok(after) ==> {
            &&& after.wf()
            &&& !after.has(identifier)
            &&& other != identifier ==> after.has(other) == view.has(other)
            &&& other != identifier && view.has(other) ==> after.object(other) == view.object(other)
        },
{
    if let Ok(after) = view.removing(identifier) {
        let place = view.place_of(identifier);
        assert(view.is_at(place, identifier));
        lemma_removed(view, after, place);
        if after.has(identifier) {
            let i = after.place_of(identifier);
            assert(after.is_at(i, identifier));
            let origin = if i < place {
                i
            } else {
                i + 1
            };
            assert(after.objects[i] == view.objects[origin]);
            assert(view.is_at(origin, identifier));
            lemma_place_is(view, origin, identifier);
        }
        if other != identifier {
            if view.has(other) {
                let i = view.place_of(other);
                assert(view.is_at(i, other));
                let target = if i < place {
                    i
                } else {
                    i - 1
                };
                assert(after.objects[target] == view.objects[i]);
                assert(after.is_at(target, other));
                lemma_place_is(after, target, other);
            }
            if after.has(other) {
                let i = after.place_of(other);
                assert(after.is_at(i, other));
                let origin = if i < place {
                    i
                } else {
                    i + 1
                };
                assert(after.objects[i] == view.objects[origin]);
                assert(view.is_at(origin, other));
            }
        }
    }
}

proof fn lemma_removed<T: Hostable>(view: DatabaseView<T>, after: DatabaseView<T>, place: int)
    requires
        view.wf(),
        0 <= place < view.objects.len(),
        view.objects[place].identity() != view.device,
        after.objects == view.objects.remove(place),
        after.types == view.types,
        after.device == view.device,
    ensures
        after.wf(),
{
    assert forall|i: int| 0 <= i < after.objects.len() implies #[trigger] after.objects[i]
        == view.objects[if i < place {
        i
    } else {
        i + 1
    }] by {}
    let device = view.place_of(view.device);
    assert(view.is_at(device, view.device));
    let target = if device < place {
        device
    } else {
        device - 1
    };
    assert(after.objects[target] == view.objects[device]);
    assert(after.is_at(target, view.device));
}

/// A write keeps the database in order and leaves every other object alone.
pub proof fn law_writing_touches_one<T: Hostable>(
    view: DatabaseView<T>,
    after: DatabaseView<T>,
    identifier: ObjectIdentifier,
    property: PropertyIdentifier,
    value: PropertyValue,
    priority: Option<u8>,
    outcome: Result<(), ObjectErrorView>,
    other: ObjectIdentifier,
)
    requires
        view.wf(),
        view.writing(after, identifier, property, value, priority, outcome),
    ensures
        after.wf(),
        after.has(other) == view.has(other),
        other != identifier && view.has(other) ==> after.object(other) == view.object(other),
        outcome is Err ==> after == view,
{
    if view.has(identifier) && !view.takes_other_name(identifier, property, value) {
        let place = view.place_of(identifier);
        assert(view.is_at(place, identifier));
        let old = view.objects[place];
        let new = after.objects[place];
        old.law_only_naming_renames(new, property, value, priority, outcome);
        assert(view.objects.update(place, new)[place] == new);
        assert forall|i: int| 0 <= i < after.objects.len() implies (
        #[trigger] after.objects[i]).identity() == view.objects[i].identity() by {}
        assert forall|i: int, j: int| 0 <= i < j < after.objects.len() implies (
        #[trigger] after.objects[i]).name() != (#[trigger] after.objects[j]).name() by {
            if i == place || j == place {
                let k = if i == place {
                    j
                } else {
                    i
                };
                if new.name() != old.name() {
                    if view.objects[k].name() == new.name() {
                        assert(view.is_named_at(k, new.name()));
                        lemma_name_place_is(view, k, new.name());
                        assert(view.objects[k].identity() != identifier) by {
                            if view.objects[k].identity() == identifier {
                                assert(view.is_at(k, identifier));
                                lemma_place_is(view, k, identifier);
                            }
                        }
                    }
                }
            }
        }
        let device = view.place_of(view.device);
        assert(view.is_at(device, view.device));
        assert(after.is_at(device, view.device));
        if view.has(other) {
            let i = view.place_of(other);
            assert(view.is_at(i, other));
            assert(after.is_at(i, other));
            lemma_place_is(after, i, other);
            if i == place {
                assert(other == identifier);
            }
        }
        if after.has(other) {
            let i = after.place_of(other);
            assert(after.is_at(i, other));
            assert(view.is_at(i, other));
        }
        if outcome is Err {
            assert(view.objects.update(place, new) =~= view.objects);
        }
    }
}

/// An object that keeps its identity and name can take the place of what it was:
/// every other object stays as it is.
pub proof fn lemma_object_replaced<T: Hostable>(
    view: DatabaseView<T>,
    identifier: ObjectIdentifier,
    object: T,
)
    requires
        view.wf(),
        view.has(identifier),
        object.identity() == identifier,
        object.name() == view.object(identifier).name(),
    ensures
        view.with_object(identifier, object).wf(),
        view.with_object(identifier, object).has(identifier),
        view.with_object(identifier, object).object(identifier) == object,
        forall|other: ObjectIdentifier|
            #![trigger view.with_object(identifier, object).has(other)]
            #![trigger view.with_object(identifier, object).object(other)]
            view.with_object(identifier, object).has(other) == view.has(other) && (other
                != identifier && view.has(other) ==> view.with_object(identifier, object).object(
                other,
            ) == view.object(other)),
{
    let after = view.with_object(identifier, object);
    let place = view.place_of(identifier);
    assert(view.is_at(place, identifier));
    assert(after.objects[place] == object);
    assert forall|i: int| 0 <= i < after.objects.len() implies (
    #[trigger] after.objects[i]).identity() == view.objects[i].identity() && after.objects[i].name()
        == view.objects[i].name() by {}
    let device = view.place_of(view.device);
    assert(view.is_at(device, view.device));
    assert(after.is_at(device, view.device));
    assert(after.is_at(place, identifier));
    lemma_place_is(after, place, identifier);
    assert forall|other: ObjectIdentifier| after.has(other) == view.has(other) && (other
        != identifier && view.has(other) ==> after.object(other) == view.object(other)) by {
        if view.has(other) {
            let i = view.place_of(other);
            assert(view.is_at(i, other));
            assert(after.is_at(i, other));
            lemma_place_is(after, i, other);
        }
        if after.has(other) {
            let i = after.place_of(other);
            assert(after.is_at(i, other));
            assert(view.is_at(i, other));
        }
    }
}

/// Refreshing calendars changes neither identities nor names.
pub proof fn lemma_refreshed<T: Hostable>(view: DatabaseView<T>, date: (u16, u8, u8, u8))
    requires
        view.wf(),
    ensures
        view.calendars_refreshed(date).wf(),
{
    let after = view.calendars_refreshed(date);
    assert forall|i: int| 0 <= i < after.objects.len() implies (
    #[trigger] after.objects[i]).identity() == view.objects[i].identity() && after.objects[i].name()
        == view.objects[i].name() by {
        let object = view.objects[i];
        if let Some(calendar) = object.as_calendar() {
            object.law_parts_can_be_replaced(
                arbitrary(),
                Calendar {
                    present_value: calendar::list_covers(calendar.date_list@, date),
                    ..calendar
                },
            );
        }
    }
    let device = view.place_of(view.device);
    assert(view.is_at(device, view.device));
    assert(after.is_at(device, view.device));
}

/// Whether an identity comes before another: by type number, then by instance.
pub open spec fn comes_before(a: ObjectIdentifier, b: ObjectIdentifier) -> bool {
    a.object_type.number() < b.object_type.number() || (a.object_type.number()
        == b.object_type.number() && a.instance < b.instance)
}

/// The list of all objects names each hosted object once and nothing else, the device
/// among them, by rising type number and instance. Two could stand alike in that order
/// only by a type that is not the one its number stands for. A running program has no
/// such type, so `ObjectDatabase::get_all_objects` states the strict order of all.
pub proof fn law_all_objects_are_listed_in_order<T: Hostable>(view: DatabaseView<T>)
    requires
        view.wf(),
    ensures
        ordered_identities(view.objects).len() == view.objects.len(),
        ordered_identities(view.objects).no_duplicates(),
        forall|identifier: ObjectIdentifier| #[trigger]
            ordered_identities(view.objects).contains(identifier) == view.has(identifier),
        ordered_identities(view.objects).contains(view.device),
        forall|i: int, j: int|
            0 <= i < j < view.objects.len() ==> {
                let (a, b) = (
                    #[trigger] ordered_identities(view.objects)[i],
                    #[trigger] ordered_identities(view.objects)[j],
                );
                &&& !comes_before(b, a)
                &&& a.object_type.is_canonical() && b.object_type.is_canonical() ==> comes_before(
                    a,
                    b,
                )
            },
{
    broadcast use vstd::seq_lib::group_to_multiset_ensures;

    let items = identities(view.objects).map_values(
        |identifier: ObjectIdentifier| (order_of(identifier), identifier),
    );
    let sorted = ranking::ranked(items);
    let list = ordered_identities(view.objects);
    ranking::lemma_ranked_is_ranked(items);
    ranking::law_ranking_reorders(items);
    assert(items.no_duplicates()) by {
        assert forall|i: int, j: int|
            0 <= i < items.len() && 0 <= j < items.len() && i != j implies items[i] != items[j] by {
            if i < j {
                assert(view.objects[i].identity() != view.objects[j].identity());
            } else {
                assert(view.objects[j].identity() != view.objects[i].identity());
            }
        }
    }
    items.lemma_multiset_has_no_duplicates();
    sorted.lemma_multiset_has_no_duplicates_conv();
    assert forall|i: int| 0 <= i < sorted.len() implies (#[trigger] sorted[i]).0 == order_of(
        sorted[i].1,
    ) && view.has(sorted[i].1) by {
        assert(sorted.contains(sorted[i]));
        assert(sorted.to_multiset().count(sorted[i]) > 0);
        assert(items.contains(sorted[i]));
        let place = items.index_of(sorted[i]);
        assert(items[place] == sorted[i]);
        assert(view.is_at(place, sorted[i].1));
    }
    assert forall|identifier: ObjectIdentifier| view.has(identifier) implies #[trigger] list.contains(
        identifier,
    ) by {
        let place = view.place_of(identifier);
        assert(view.is_at(place, identifier));
        let item = (order_of(identifier), identifier);
        assert(items[place] == item);
        assert(items.contains(item));
        assert(items.to_multiset().count(item) > 0);
        assert(sorted.contains(item));
        let at = sorted.index_of(item);
        assert(list[at] == identifier);
    }
    assert forall|identifier: ObjectIdentifier| #[trigger] list.contains(
        identifier,
    ) implies view.has(identifier) by {
        let at = list.index_of(identifier);
        assert(list[at] == sorted[at].1);
    }
    assert forall|i: int, j: int| 0 <= i < list.len() && 0 <= j < list.len() && i != j implies list[i]
        != list[j] by {
        assert(list[i] == sorted[i].1 && list[j] == sorted[j].1);
        assert(sorted[i] != sorted[j]);
    }
    assert forall|i: int, j: int| 0 <= i < j < view.objects.len() implies {
        let (a, b) = (#[trigger] list[i], #[trigger] list[j]);
        &&& !comes_before(b, a)
        &&& a.object_type.is_canonical() && b.object_type.is_canonical() ==> comes_before(a, b)
    } by {
        assert(list[i] == sorted[i].1 && list[j] == sorted[j].1);
        assert(sorted[i].0 <= sorted[j].0);
        assert(list[i] != list[j]);
    }
}

/// An instance number that is offered is not taken, unless all numbers up to the
/// largest are counted through, or the device of the database has it under a type it
/// is not filed under.
pub proof fn law_free_instance_is_free<T: Hostable>(view: DatabaseView<T>, object_type: ObjectType)
    requires
        view.wf(),
        view.free_instance(object_type) < u32::MAX,
        view.device.object_type == ObjectType::Device || view.device != (ObjectIdentifier {
            object_type,
            instance: view.free_instance(object_type),
        }),
    ensures
        !view.has(ObjectIdentifier { object_type, instance: view.free_instance(object_type) }),
{
    let instance = view.free_instance(object_type);
    let identifier = ObjectIdentifier { object_type, instance };
    if view.has(identifier) {
        let place = view.place_of(identifier);
        assert(view.is_at(place, identifier));
        assert(view.types.contains(filed_under(view.objects[place].identity(), view.device)));
        lemma_largest_instance(view.objects, object_type, view.device, place);
    }
}

proof fn lemma_largest_instance<T: Hostable>(
    objects: Seq<T>,
    object_type: ObjectType,
    device: ObjectIdentifier,
    place: int,
)
    requires
        0 <= place < objects.len(),
        is_of(objects[place], object_type, device),
    ensures
        objects[place].identity().instance <= largest_instance(objects, object_type, device),
    decreases objects.len(),
{
    if place < objects.len() - 1 {
        assert(objects.drop_last()[place] == objects[place]);
        lemma_largest_instance(objects.drop_last(), object_type, device, place);
    }
}

// ---------------------------------------------------------------------------
// The database
// ---------------------------------------------------------------------------

impl<T: Hostable> View for ObjectDatabase<T> {
    type V = DatabaseView<T>;

    closed spec fn view(&self) -> DatabaseView<T> {
        DatabaseView {
            objects: self.objects@,
            types: self.types@,
            revision: self.revision,
            clock: self.clock,
            modified: self.last_modified,
            device: self.device_id,
        }
    }
}

/// The name a write asks for, where it asks for one.
fn requested_object_name(property: PropertyIdentifier, value: &PropertyValue) -> (name: Option<
    String,
>)
    ensures
        match (name, asked_name(property, *value)) {
            (Some(name), Some(stated)) => name@ == stated,
            (None, None) => true,
            _ => false,
        },
{
    if property == PropertyIdentifier::ObjectName {
        match value {
            PropertyValue::CharacterString(name) => Some(name.clone()),
            _ => None,
        }
    } else {
        None
    }
}

/// Compare property values for equality.
fn property_values_equal(found: &PropertyValue, wanted: &PropertyValue) -> (equal: bool)
    ensures
        equal == is_match(found.model(), wanted.model()),
{
    match (found, wanted) {
        (PropertyValue::Null, PropertyValue::Null) => true,
        (PropertyValue::Boolean(a), PropertyValue::Boolean(b)) => *a == *b,
        (PropertyValue::Unsigned(a), PropertyValue::Unsigned(b)) => *a == *b,
        (PropertyValue::Signed(a), PropertyValue::Signed(b)) => *a == *b,
        (PropertyValue::Real(a), PropertyValue::Real(b)) => a.is_near(*b),
        (PropertyValue::Double(a), PropertyValue::Double(b)) => a.is_near(*b),
        (PropertyValue::CharacterString(a), PropertyValue::CharacterString(b)) => *a == *b,
        (PropertyValue::Enumerated(a), PropertyValue::Enumerated(b)) => *a == *b,
        (PropertyValue::ObjectIdentifier(a), PropertyValue::ObjectIdentifier(b)) => *a == *b,
        _ => false,
    }
}

impl ObjectDatabase {
    /// Create a new object database with a device object.
    pub fn new(device: Device) -> (database: ObjectDatabase)
        ensures
            database@.wf(),
            database@ == DatabaseView::<HostedObject>::fresh(device),
    {
        ObjectDatabase::for_device(device)
    }
}

impl<T: Hostable> ObjectDatabase<T> {
    /// Create a database of any type of objects, with a device object.
    pub fn for_device(device: Device) -> (database: ObjectDatabase<T>)
        ensures
            database@.wf(),
            database@ == DatabaseView::<T>::fresh(device),
    {
        let device_id = device.identifier();
        let ghost object = T::hosting(device);
        proof {
            T::law_device_keeps_identity(device);
        }
        let mut objects: Vec<T> = Vec::new();
        objects.push(T::host(device));
        let mut types: Vec<ObjectType> = Vec::new();
        types.push(ObjectType::Device);
        let database = ObjectDatabase {
            objects,
            types,
            revision: 1,
            clock: 0,
            last_modified: 0,
            device_id,
        };
        proof {
            assert(database@.objects =~= seq![object]);
            assert(database@.types =~= seq![ObjectType::Device]);
            assert(database@.is_at(0, device_id));
            assert(database@.types[0] == ObjectType::Device);
        }
        database
    }

    /// Tell the database the time, which changes are stamped with.
    pub fn set_clock(&mut self, now: u64)
        ensures
            final(self)@ == (DatabaseView { clock: now, ..old(self)@ }),
    {
        self.clock = now;
    }

    /// The place of an object.
    fn find(&self, identifier: ObjectIdentifier) -> (place: Option<usize>)
        requires
            self@.wf(),
        ensures
            match place {
                Some(place) => {
                    &&& place < self.objects@.len()
                    &&& self@.is_at(place as int, identifier)
                    &&& self@.has(identifier)
                    &&& self@.place_of(identifier) == place
                },
                None => !self@.has(identifier),
            },
    {
        let mut i: usize = 0;
        while i < self.objects.len()
            invariant
                i <= self.objects.len(),
                self@.wf(),
                forall|j: int| 0 <= j < i ==> (#[trigger] self.objects@[j]).identity() != identifier,
            decreases self.objects.len() - i,
        {
            if self.objects[i].identifier() == identifier {
                proof {
                    assert(self@.is_at(i as int, identifier));
                    lemma_place_is(self@, i as int, identifier);
                }
                return Some(i);
            }
            i += 1;
        }
        proof {
            assert forall|place: int| !self@.is_at(place, identifier) by {
                if 0 <= place < self.objects@.len() {
                    assert(self.objects@[place].identity() != identifier);
                }
            }
        }
        None
    }

    /// The place of the object of a name.
    fn find_name(&self, name: &str) -> (place: Option<usize>)
        requires
            self@.wf(),
        ensures
            match place {
                Some(place) => {
                    &&& place < self.objects@.len()
                    &&& self@.is_named_at(place as int, name@)
                    &&& self@.has_name(name@)
                    &&& self@.place_named(name@) == place
                },
                None => !self@.has_name(name@),
            },
    {
        let wanted = name.to_owned();
        let mut i: usize = 0;
        while i < self.objects.len()
            invariant
                i <= self.objects.len(),
                self@.wf(),
                wanted@ == name@,
                forall|j: int| 0 <= j < i ==> (#[trigger] self.objects@[j]).name() != name@,
            decreases self.objects.len() - i,
        {
            if *self.objects[i].object_name() == wanted {
                proof {
                    assert(self@.is_named_at(i as int, name@));
                    lemma_name_place_is(self@, i as int, name@);
                }
                return Some(i);
            }
            i += 1;
        }
        proof {
            assert forall|place: int| !self@.is_named_at(place, name@) by {
                if 0 <= place < self.objects@.len() {
                    assert(self.objects@[place].name() != name@);
                }
            }
        }
        None
    }

    /// Whether objects of a type were ever added.
    fn knows_type(&self, object_type: ObjectType) -> (known: bool)
        ensures
            known == self@.types.contains(object_type),
    {
        let mut i: usize = 0;
        while i < self.types.len()
            invariant
                i <= self.types.len(),
                forall|j: int| 0 <= j < i ==> self.types@[j] != object_type,
            decreases self.types.len() - i,
        {
            if self.types[i] == object_type {
                assert(self@.types[i as int] == object_type);
                return true;
            }
            i += 1;
        }
        false
    }

    /// Count a change.
    fn increment_revision(&mut self)
        ensures
            final(self)@ == old(self)@.changed(old(self)@.objects, old(self)@.types),
    {
        if self.revision == u32::MAX {
            self.revision = 0;
        } else {
            self.revision = self.revision + 1;
        }
        self.last_modified = self.clock;
    }

    /// Add an object to the database.
    pub fn add_object(&mut self, object: T) -> (result: Result<(), ObjectError>)
        requires
            old(self)@.wf(),
        ensures
            final(self)@.wf(),
            base::left(
                old(self)@,
                final(self)@,
                old(self)@.adding(object),
                base::outcome(result),
            ),
    {
        let identifier = object.identifier();
        if self.find(identifier).is_some() {
            let mut sentence = with_number("Object ", identifier.instance);
            sentence.append(" already exists");
            return Err(ObjectError::InvalidConfiguration(sentence));
        }
        if let Some(place) = self.find_name(object.object_name().as_str()) {
            let owner = self.objects[place].identifier();
            let mut sentence = "Object name ".to_owned();
            sentence.append(quoted_text(object.object_name().as_str()).as_str());
            sentence.append(" is already used by ");
            sentence.append(owner.show().as_str());
            return Err(ObjectError::InvalidValue(sentence));
        }
        proof {
            law_adding_keeps_order(self@, object, object.identity());
        }
        if !self.knows_type(identifier.object_type) {
            self.types.push(identifier.object_type);
        }
        self.objects.push(object);
        self.increment_revision();
        Ok(())
    }

    /// Remove an object from the database.
    pub fn remove_object(&mut self, identifier: ObjectIdentifier) -> (result: Result<
        (),
        ObjectError,
    >)
        requires
            old(self)@.wf(),
        ensures
            final(self)@.wf(),
            base::left(
                old(self)@,
                final(self)@,
                old(self)@.removing(identifier),
                base::outcome(result),
            ),
    {
        // The device object cannot be removed.
        if identifier == self.device_id {
            return Err(ObjectError::WriteAccessDenied);
        }
        match self.find(identifier) {
            None => Err(ObjectError::NotFound),
            Some(place) => {
                proof {
                    law_removing_takes_one(self@, identifier, identifier);
                }
                let removed = self.objects.remove(place);
                self.increment_revision();
                Ok(())
            },
        }
    }

    /// The object of an identity.
    pub fn object(&self, identifier: ObjectIdentifier) -> (object: Option<&T>)
        requires
            self@.wf(),
        ensures
            match object {
                Some(object) => self@.has(identifier) && *object == self@.object(identifier),
                None => !self@.has(identifier),
            },
    {
        match self.find(identifier) {
            Some(place) => Some(&self.objects[place]),
            None => None,
        }
    }

    /// Enter an event state and store event reporting on an object.
    pub fn commit_event(
        &mut self,
        identifier: ObjectIdentifier,
        state: EventState,
        reporting: IntrinsicReporting,
    )
        requires
            old(self)@.wf(),
        ensures
            final(self)@.wf(),
            final(self)@ == if old(self)@.has(identifier) {
                old(self)@.with_object(
                    identifier,
                    old(self)@.object(identifier).entered(state).with_reporting(reporting),
                )
            } else {
                old(self)@
            },
    {
        if let Some(place) = self.find(identifier) {
            let ghost before = self@;
            let ghost object = before.objects[place as int];
            self.objects[place].apply_event_state(state);
            self.objects[place].store_intrinsic(reporting);
            proof {
                object.law_events_keep_identity(state, reporting);
                object.entered(state).law_events_keep_identity(state, reporting);
                let after = object.entered(state).with_reporting(reporting);
                assert(self@.objects =~= before.objects.update(place as int, after));
                lemma_object_replaced(before, identifier, after);
            }
        }
    }

    /// Put a commanded value into a schedule.
    pub fn commit_schedule(&mut self, identifier: ObjectIdentifier, value: PropertyValue)
        requires
            old(self)@.wf(),
        ensures
            final(self)@.wf(),
            final(self)@ == match old(self)@.schedule(identifier) {
                Some(schedule) => old(self)@.with_object(
                    identifier,
                    old(self)@.object(identifier).with_schedule(
                        Schedule { present_value: value, ..schedule },
                    ),
                ),
                None => old(self)@,
            },
    {
        if let Some(place) = self.find(identifier) {
            let ghost before = self@;
            if let Some(schedule) = self.objects[place].schedule_mut() {
                schedule.present_value = value;
            }
            proof {
                if let Some(schedule) = before.schedule(identifier) {
                    let object = before.object(identifier);
                    let changed = Schedule { present_value: value, ..schedule };
                    let after = object.with_schedule(changed);
                    object.law_parts_can_be_replaced(changed, arbitrary());
                    assert(self@.objects =~= before.objects.update(place as int, after));
                    lemma_object_replaced(before, identifier, after);
                } else {
                    assert(self@.objects =~= before.objects);
                }
            }
        }
    }

    /// Recompute every Calendar's Present_Value, returning those covering `date`.
    pub fn refresh_calendars(&mut self, date: (u16, u8, u8, u8)) -> (active: Vec<ObjectIdentifier>)
        requires
            old(self)@.wf(),
        ensures
            final(self)@.wf(),
            final(self)@ == old(self)@.calendars_refreshed(date),
            forall|identifier: ObjectIdentifier|
                #![trigger active@.contains(identifier)]
                active@.contains(identifier) == old(self)@.is_active(identifier, date),
    {
        let ghost before = self@;
        let mut active: Vec<ObjectIdentifier> = Vec::new();
        let mut i: usize = 0;
        while i < self.objects.len()
            invariant
                i <= self.objects@.len(),
                before.wf(),
                self.objects@.len() == before.objects.len(),
                self.types@ == before.types,
                self.revision == before.revision,
                self.clock == before.clock,
                self.last_modified == before.modified,
                self.device_id == before.device,
                forall|j: int|
                    0 <= j < i ==> (#[trigger] self.objects@[j]) == refreshed_object(
                        before.objects[j],
                        date,
                    ),
                forall|j: int|
                    i <= j < before.objects.len() ==> (#[trigger] self.objects@[j])
                        == before.objects[j],
                forall|identifier: ObjectIdentifier|
                    #![trigger active@.contains(identifier)]
                    active@.contains(identifier) == exists|j: int|
                        0 <= j < i && is_active_calendar(
                            #[trigger] before.objects[j],
                            identifier,
                            date,
                        ),
            decreases self.objects.len() - i,
        {
            let ghost earlier = active@;
            let ghost object = self.objects@[i as int];
            let mut hit: Option<ObjectIdentifier> = None;
            let identifier = self.objects[i].identifier();
            if identifier.object_type == ObjectType::Calendar {
                if let Some(calendar) = self.objects[i].calendar_mut() {
                    let changed = calendar.refresh(date);
                    if calendar.present_value {
                        hit = Some(identifier);
                    }
                }
            }
            if let Some(identifier) = hit {
                active.push(identifier);
            }
            proof {
                assert(object == before.objects[i as int]);
                assert(self.objects@[i as int] == refreshed_object(object, date));
                assert forall|identifier: ObjectIdentifier|
                    #![trigger active@.contains(identifier)]
                    active@.contains(identifier) == exists|j: int|
                        0 <= j < i + 1 && is_active_calendar(
                            #[trigger] before.objects[j],
                            identifier,
                            date,
                        ) by {
                    assert(earlier.contains(identifier) == exists|j: int|
                        0 <= j < i && is_active_calendar(
                            #[trigger] before.objects[j],
                            identifier,
                            date,
                        ));
                    if is_active_calendar(before.objects[i as int], identifier, date) {
                        assert(active@[active@.len() - 1] == identifier);
                    }
                    if earlier.contains(identifier) {
                        let k = earlier.index_of(identifier);
                        assert(active@[k] == identifier);
                    }
                    if active@.contains(identifier) {
                        let k = active@.index_of(identifier);
                        if k < earlier.len() {
                            assert(earlier[k] == identifier);
                        }
                    }
                }
            }
            i += 1;
        }
        proof {
            assert(self@.objects =~= before.calendars_refreshed(date).objects);
            lemma_refreshed(before, date);
        }
        active
    }

    /// Get a property value from an object.
    pub fn get_property(
        &self,
        identifier: ObjectIdentifier,
        property: PropertyIdentifier,
    ) -> (result: Result<PropertyValue, ObjectError>)
        requires
            self@.wf(),
        ensures
            error::same_reading(result, self@.reading(identifier, property)),
    {
        if identifier == self.device_id {
            match property {
                PropertyIdentifier::DatabaseRevision => {
                    return Ok(PropertyValue::Unsigned(self.revision as u64));
                },
                PropertyIdentifier::ProtocolObjectTypesSupported => {
                    return match self.get_stored_property(
                        identifier,
                        PropertyIdentifier::ProtocolRevision,
                    ) {
                        Err(error) => Err(error),
                        Ok(PropertyValue::Unsigned(revision)) => {
                            if revision > u32::MAX as u64 {
                                return Err(ObjectError::InvalidPropertyType);
                            }
                            let types = self.object_types();
                            Ok(
                                PropertyValue::BitString(
                                    object_types_supported_bit_string(&types, revision as u32),
                                ),
                            )
                        },
                        Ok(_) => Err(ObjectError::InvalidPropertyType),
                    };
                },
                _ => {},
            }
        }
        self.get_stored_property(identifier, property)
    }

    fn get_stored_property(
        &self,
        identifier: ObjectIdentifier,
        property: PropertyIdentifier,
    ) -> (result: Result<PropertyValue, ObjectError>)
        requires
            self@.wf(),
        ensures
            error::same_reading(result, self@.stored_reading(identifier, property)),
    {
        match self.find(identifier) {
            Some(place) => self.objects[place].get_property(property),
            None => Err(ObjectError::NotFound),
        }
    }

    /// Return the properties exposed by an object.
    pub fn property_list(&self, identifier: ObjectIdentifier) -> (result: Result<
        Vec<PropertyIdentifier>,
        ObjectError,
    >)
        requires
            self@.wf(),
        ensures
            match result {
                Ok(properties) => self@.has(identifier) && properties@ == self@.object(
                    identifier,
                ).listing(),
                Err(error) => !self@.has(identifier) && error@ == ObjectErrorView::NotFound,
            },
    {
        match self.find(identifier) {
            Some(place) => Ok(self.objects[place].property_list()),
            None => Err(ObjectError::NotFound),
        }
    }

    /// Set a property value on an object.
    pub fn set_property(
        &mut self,
        identifier: ObjectIdentifier,
        property: PropertyIdentifier,
        value: PropertyValue,
    ) -> (result: Result<(), ObjectError>)
        requires
            old(self)@.wf(),
        ensures
            final(self)@.wf(),
            old(self)@.writing(
                final(self)@,
                identifier,
                property,
                value,
                None,
                base::outcome(result),
            ),
    {
        self.update_object(identifier, property, value, None)
    }

    /// Set a property while preserving the command priority from the BACnet request.
    /// Non-commandable objects use their normal property setter.
    pub fn set_property_with_priority(
        &mut self,
        identifier: ObjectIdentifier,
        property: PropertyIdentifier,
        value: PropertyValue,
        priority: Option<u8>,
    ) -> (result: Result<(), ObjectError>)
        requires
            old(self)@.wf(),
        ensures
            final(self)@.wf(),
            old(self)@.writing(
                final(self)@,
                identifier,
                property,
                value,
                priority,
                base::outcome(result),
            ),
    {
        self.update_object(identifier, property, value, priority)
    }

    fn update_object(
        &mut self,
        identifier: ObjectIdentifier,
        property: PropertyIdentifier,
        value: PropertyValue,
        priority: Option<u8>,
    ) -> (result: Result<(), ObjectError>)
        requires
            old(self)@.wf(),
        ensures
            final(self)@.wf(),
            old(self)@.writing(
                final(self)@,
                identifier,
                property,
                value,
                priority,
                base::outcome(result),
            ),
    {
        let ghost before = self@;
        let place: usize = match self.find(identifier) {
            Some(place) => place,
            None => {
                return Err(ObjectError::NotFound);
            },
        };
        if let Some(new_name) = requested_object_name(property, &value) {
            if let Some(owner) = self.find_name(new_name.as_str()) {
                if self.objects[owner].identifier() != identifier {
                    let mut sentence = "Object name ".to_owned();
                    sentence.append(quoted_text(new_name.as_str()).as_str());
                    sentence.append(" is already in use");
                    return Err(ObjectError::InvalidValue(sentence));
                }
            }
        }
        let result = self.objects[place].set_property_with_priority(property, value, priority);
        proof {
            assert(self@.objects =~= before.objects.update(place as int, self@.objects[place as int]));
        }
        if result.is_ok() && property == PropertyIdentifier::ObjectName {
            self.increment_revision();
        }
        proof {
            law_writing_touches_one(
                before,
                self@,
                identifier,
                property,
                value,
                priority,
                base::outcome(result),
                identifier,
            );
        }
        result
    }

    /// Get an object by name.
    pub fn get_object_by_name(&self, name: &str) -> (result: Result<ObjectIdentifier, ObjectError>)
        requires
            self@.wf(),
        ensures
            match result {
                Ok(identifier) => self@.has_name(name@) && identifier
                    == self@.objects[self@.place_named(name@)].identity(),
                Err(error) => !self@.has_name(name@) && error@ == ObjectErrorView::NotFound,
            },
    {
        match self.find_name(name) {
            Some(place) => Ok(self.objects[place].identifier()),
            None => Err(ObjectError::NotFound),
        }
    }

    /// The type an object of this identity is filed under.
    fn filed_type(&self, identifier: ObjectIdentifier) -> (object_type: ObjectType)
        ensures
            object_type == filed_under(identifier, self@.device),
    {
        if identifier == self.device_id {
            ObjectType::Device
        } else {
            identifier.object_type
        }
    }

    /// Get all objects of a specific type, in the order they were added.
    pub fn get_objects_by_type(&self, object_type: ObjectType) -> (identifiers: Vec<
        ObjectIdentifier,
    >)
        ensures
            identifiers@ == identities(of_type(self@.objects, object_type, self@.device)),
    {
        let mut identifiers: Vec<ObjectIdentifier> = Vec::new();
        let mut i: usize = 0;
        proof {
            reveal(Seq::filter);
            assert(self@.objects.take(0) =~= Seq::<T>::empty());
            assert(identities(of_type(self@.objects.take(0), object_type, self@.device)) =~= Seq::<
                ObjectIdentifier,
            >::empty());
        }
        while i < self.objects.len()
            invariant
                i <= self.objects.len(),
                self@.objects == self.objects@,
                identifiers@ == identities(of_type(self@.objects.take(i as int), object_type, self@.device)),
            decreases self.objects.len() - i,
        {
            let identifier = self.objects[i].identifier();
            let ghost kept = of_type(self@.objects.take(i as int), object_type, self@.device);
            proof {
                reveal(Seq::filter);
                let longer = self@.objects.take(i + 1);
                assert(longer.drop_last() =~= self@.objects.take(i as int));
                assert(longer.last() == self.objects@[i as int]);
            }
            if self.filed_type(identifier) == object_type {
                identifiers.push(identifier);
                proof {
                    assert(identities(kept.push(self.objects@[i as int])) =~= identities(
                        kept,
                    ).push(identifier));
                }
            }
            i += 1;
        }
        proof {
            assert(self@.objects.take(self@.objects.len() as int) =~= self@.objects);
        }
        identifiers
    }

    /// Get all object identifiers in the database, each once, by type number and
    /// instance.
    pub fn get_all_objects(&self) -> (identifiers: Vec<ObjectIdentifier>)
        ensures
            identifiers@ == ordered_identities(self@.objects),
            identifiers@.len() == self@.objects.len(),
            self@.wf() ==> {
                &&& forall|i: int, j: int|
                    0 <= i < j < identifiers@.len() ==> comes_before(
                        #[trigger] identifiers@[i],
                        #[trigger] identifiers@[j],
                    )
                &&& forall|identifier: ObjectIdentifier| #[trigger]
                    identifiers@.contains(identifier) == self@.has(identifier)
                &&& identifiers@.contains(self@.device)
            },
    {
        let mut keyed: Vec<(u64, ObjectIdentifier)> = Vec::new();
        let mut i: usize = 0;
        while i < self.objects.len()
            invariant
                i <= self.objects.len(),
                keyed@.len() == i,
                forall|j: int|
                    0 <= j < i ==> (
                    #[trigger] self.objects@[j]).identity().object_type.is_canonical(),
                forall|j: int|
                    0 <= j < i ==> (#[trigger] keyed@[j]).0 == order_of(
                        self.objects@[j].identity(),
                    ) && keyed@[j].1 == self.objects@[j].identity(),
            decreases self.objects.len() - i,
        {
            let identifier = self.objects[i].identifier();
            let key: u64 = identifier.object_type.to_number() as u64 * 0x1_0000_0000
                + identifier.instance as u64;
            keyed.push((key, identifier));
            i += 1;
        }
        proof {
            assert(ranking::keyed(keyed@) =~= identities(self@.objects).map_values(
                |identifier: ObjectIdentifier| (order_of(identifier), identifier),
            ));
        }
        let identifiers = rank(&keyed);
        proof {
            ranking::lemma_ranked_is_ranked(ranking::keyed(keyed@));
            if self@.wf() {
                law_all_objects_are_listed_in_order(self@);
                assert forall|i: int| 0 <= i < identifiers@.len() implies (
                #[trigger] identifiers@[i]).object_type.is_canonical() by {
                    assert(identifiers@.contains(identifiers@[i]));
                    let place = self@.place_of(identifiers@[i]);
                    assert(self@.is_at(place, identifiers@[i]));
                    assert(self.objects@[place].identity() == identifiers@[i]);
                }
            }
        }
        identifiers
    }

    /// Get every object type that currently has at least one object, by number.
    pub fn object_types(&self) -> (types: Vec<ObjectType>)
        ensures
            types@ == self@.hosted_types(),
    {
        let ghost hosted = |object_type: ObjectType| of_type(self@.objects, object_type, self@.device).len() > 0;
        let ghost numbered = |object_type: ObjectType| (object_type.number() as int, object_type);
        let mut keyed: Vec<(u64, ObjectType)> = Vec::new();
        let mut i: usize = 0;
        proof {
            reveal(Seq::filter);
            assert(self@.types.take(0) =~= Seq::<ObjectType>::empty());
            assert(ranking::keyed(keyed@) =~= self@.types.take(0).filter(hosted).map_values(
                numbered,
            ));
        }
        while i < self.types.len()
            invariant
                i <= self.types.len(),
                self@.types == self.types@,
                hosted == (|object_type: ObjectType|
                    of_type(self@.objects, object_type, self@.device).len() > 0),
                numbered == (|object_type: ObjectType| (object_type.number() as int, object_type)),
                ranking::keyed(keyed@) == self@.types.take(i as int).filter(hosted).map_values(
                    numbered,
                ),
            decreases self.types.len() - i,
        {
            let object_type = self.types[i];
            let ghost kept = self@.types.take(i as int).filter(hosted);
            let ghost before = keyed@;
            proof {
                reveal(Seq::filter);
                let longer = self@.types.take(i + 1);
                assert(longer.drop_last() =~= self@.types.take(i as int));
                assert(longer.last() == object_type);
            }
            if self.object_count_by_type(object_type) > 0 {
                let key: u64 = object_type.to_number() as u64;
                keyed.push((key, object_type));
                proof {
                    assert(hosted(object_type));
                    assert(ranking::keyed(keyed@) =~= ranking::keyed(before).push(
                        (key as int, object_type),
                    ));
                    assert(kept.push(object_type).map_values(numbered) =~= kept.map_values(
                        numbered,
                    ).push((key as int, object_type)));
                }
            } else {
                assert(!hosted(object_type));
            }
            i += 1;
        }
        proof {
            assert(self@.types.take(self@.types.len() as int) =~= self@.types);
        }
        rank(&keyed)
    }

    /// Get object count.
    pub fn object_count(&self) -> (count: usize)
        ensures
            count == self@.objects.len(),
    {
        self.objects.len()
    }

    /// Get object count by type.
    pub fn object_count_by_type(&self, object_type: ObjectType) -> (count: usize)
        ensures
            count == of_type(self@.objects, object_type, self@.device).len(),
    {
        let identifiers = self.get_objects_by_type(object_type);
        proof {
            assert(identities(of_type(self@.objects, object_type, self@.device)).len() == of_type(
                self@.objects,
                object_type,
                self@.device,
            ).len());
        }
        identifiers.len()
    }

    /// Get the device object identifier.
    pub fn get_device_id(&self) -> (identifier: ObjectIdentifier)
        ensures
            identifier == self@.device,
    {
        self.device_id
    }

    /// Get the current database revision.
    pub fn revision(&self) -> (revision: u32)
        ensures
            revision == self@.revision,
    {
        self.revision
    }

    /// Get the last modification time.
    pub fn last_modified(&self) -> (at: u64)
        ensures
            at == self@.modified,
    {
        self.last_modified
    }

    /// Check if an object exists.
    pub fn contains(&self, identifier: ObjectIdentifier) -> (contained: bool)
        requires
            self@.wf(),
        ensures
            contained == self@.has(identifier),
    {
        self.find(identifier).is_some()
    }

    /// Check if an object name exists.
    pub fn contains_name(&self, name: &str) -> (contained: bool)
        requires
            self@.wf(),
        ensures
            contained == self@.has_name(name@),
    {
        self.find_name(name).is_some()
    }

    /// Find the next available instance number for an object type.
    pub fn next_instance(&self, object_type: ObjectType) -> (instance: u32)
        ensures
            instance == self@.free_instance(object_type),
    {
        if !self.knows_type(object_type) {
            return 0;
        }
        let mut largest: u32 = 0;
        let mut i: usize = 0;
        proof {
            assert(self@.objects.take(0) =~= Seq::<T>::empty());
        }
        while i < self.objects.len()
            invariant
                i <= self.objects.len(),
                self@.objects == self.objects@,
                largest == largest_instance(self@.objects.take(i as int), object_type, self@.device),
            decreases self.objects.len() - i,
        {
            let identifier = self.objects[i].identifier();
            proof {
                let longer = self@.objects.take(i + 1);
                assert(longer.drop_last() =~= self@.objects.take(i as int));
                assert(longer.last() == self.objects@[i as int]);
            }
            if self.filed_type(identifier) == object_type && identifier.instance > largest {
                largest = identifier.instance;
            }
            i += 1;
        }
        proof {
            assert(self@.objects.take(self@.objects.len() as int) =~= self@.objects);
        }
        if largest == u32::MAX {
            largest
        } else {
            largest + 1
        }
    }

    /// Search objects by property value, in the order they were added.
    pub fn search_by_property(&self, property: PropertyIdentifier, value: &PropertyValue) -> (found:
        Vec<ObjectIdentifier>)
        ensures
            found@ == identities(
                self@.objects.filter(
                    |object: T| has_value(object, property, value.model()),
                ),
            ),
    {
        let ghost wanted = |object: T| has_value(object, property, value.model());
        let mut found: Vec<ObjectIdentifier> = Vec::new();
        let mut i: usize = 0;
        proof {
            reveal(Seq::filter);
            assert(self@.objects.take(0) =~= Seq::<T>::empty());
            assert(found@ =~= identities(self@.objects.take(0).filter(wanted)));
        }
        while i < self.objects.len()
            invariant
                i <= self.objects.len(),
                self@.objects == self.objects@,
                wanted == (|object: T| has_value(object, property, value.model())),
                found@ == identities(self@.objects.take(i as int).filter(wanted)),
            decreases self.objects.len() - i,
        {
            let object = &self.objects[i];
            let ghost kept = self@.objects.take(i as int).filter(wanted);
            proof {
                reveal(Seq::filter);
                let longer = self@.objects.take(i + 1);
                assert(longer.drop_last() =~= self@.objects.take(i as int));
                assert(longer.last() == *object);
            }
            let hit = match object.get_property(property) {
                Ok(read) => property_values_equal(&read, value),
                Err(_) => false,
            };
            assert(hit == wanted(*object));
            if hit {
                found.push(object.identifier());
                proof {
                    assert(identities(kept.push(*object)) =~= identities(kept).push(
                        object.identity(),
                    ));
                }
            }
            i += 1;
        }
        proof {
            assert(self@.objects.take(self@.objects.len() as int) =~= self@.objects);
        }
        found
    }

    /// Export database statistics.
    pub fn statistics(&self) -> (statistics: DatabaseStatistics)
        ensures
            statistics.total_objects == self@.objects.len(),
            statistics.object_types == self@.types.len(),
            statistics.type_counts@.len() == self@.types.len(),
            forall|i: int|
                0 <= i < self@.types.len() ==> (#[trigger] statistics.type_counts@[i]).0
                    == self@.types[i] && statistics.type_counts@[i].1 == of_type(
                    self@.objects,
                    self@.types[i],
                    self@.device,
                ).len(),
            statistics.revision == self@.revision,
            statistics.last_modified == self@.modified,
    {
        let mut type_counts: Vec<(ObjectType, usize)> = Vec::new();
        let mut i: usize = 0;
        while i < self.types.len()
            invariant
                i <= self.types.len(),
                self@.types == self.types@,
                type_counts@.len() == i,
                forall|j: int|
                    0 <= j < i ==> (#[trigger] type_counts@[j]).0 == self@.types[j]
                        && type_counts@[j].1 == of_type(self@.objects, self@.types[j], self@.device).len(),
            decreases self.types.len() - i,
        {
            let object_type = self.types[i];
            let count: usize = self.object_count_by_type(object_type);
            type_counts.push((object_type, count));
            i += 1;
        }
        DatabaseStatistics {
            total_objects: self.objects.len(),
            object_types: self.types.len(),
            type_counts,
            revision: self.revision,
            last_modified: self.last_modified,
        }
    }
}

/// Database statistics.
#[derive(Debug, Clone)]
pub struct DatabaseStatistics {
    pub total_objects: usize,
    pub object_types: usize,
    pub type_counts: Vec<(ObjectType, usize)>,
    pub revision: u32,
    pub last_modified: u64,
}

/// Object database builder for convenient setup.
pub struct DatabaseBuilder<T = HostedObject> {
    pub device: Option<Device>,
    pub objects: Vec<T>,
}

impl<T: Hostable> Default for DatabaseBuilder<T> {
    fn default() -> (builder: DatabaseBuilder<T>)
        ensures
            builder.device is None,
            builder.objects@ == Seq::<T>::empty(),
    {
        DatabaseBuilder { device: None, objects: Vec::new() }
    }
}

impl DatabaseBuilder {
    /// Create a new database builder.
    pub fn new() -> (builder: DatabaseBuilder)
        ensures
            builder.device is None,
            builder.objects@ == Seq::<HostedObject>::empty(),
    {
        DatabaseBuilder::default()
    }
}

impl<T: Hostable> DatabaseBuilder<T> {
    /// Set the device object.
    pub fn with_device(self, device: Device) -> (builder: DatabaseBuilder<T>)
        ensures
            builder == (DatabaseBuilder { device: Some(device), ..self }),
    {
        let mut builder = self;
        builder.device = Some(device);
        builder
    }

    /// Add an object to be part of the database.
    pub fn add_object(self, object: T) -> (builder: DatabaseBuilder<T>)
        ensures
            builder.device == self.device,
            builder.objects@ == self.objects@.push(object),
    {
        let mut builder = self;
        builder.objects.push(object);
        builder
    }

    /// Build the database.
    #[verifier::loop_isolation(false)]
    pub fn build(self) -> (result: Result<ObjectDatabase<T>, ObjectError>)
        ensures
            match (result, self.device) {
                (Err(error), None) => error@ == ObjectErrorView::InvalidConfiguration(
                    "Device object is required"@,
                ),
                (Ok(_), None) => false,
                (result, Some(device)) => {
                    match (result, DatabaseView::<T>::fresh(device).adding_all(self.objects@)) {
                        (Ok(database), Ok(stated)) => database@ == stated && database@.wf(),
                        (Err(error), Err(stated)) => error@ == stated,
                        _ => false,
                    }
                },
            },
    {
        let device = match self.device {
            Some(device) => device,
            None => {
                return Err(error::invalid_configuration("Device object is required"));
            },
        };
        let mut database: ObjectDatabase<T> = ObjectDatabase::for_device(device);
        let mut objects = self.objects;
        let ghost stated = database@.adding_all(objects@);
        while objects.len() > 0
            invariant
                database@.wf(),
                database@.adding_all(objects@) == stated,
            decreases objects.len(),
        {
            let ghost all = objects@;
            let object = objects.remove(0);
            proof {
                assert(all.drop_first() =~= objects@);
            }
            match database.add_object(object) {
                Ok(_) => {},
                Err(error) => {
                    return Err(error);
                },
            }
        }
        Ok(database)
    }
}

} // verus!
