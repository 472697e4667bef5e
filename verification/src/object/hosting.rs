//! What a database can be relied on for: what it hosts, what is found in it, and what
//! becomes of reads and writes.

use crate::object::analog::{AnalogInput, AnalogOutput, AnalogValue};
use crate::object::base;
use crate::object::base::BacnetObject;
use crate::object::binary::{BinaryInput, BinaryOutput, BinaryValue};
use crate::object::database;
use crate::object::database::DatabaseView;
use crate::object::device;
use crate::object::device::Device;
use crate::object::either::EitherObject;
use crate::object::error;
use crate::object::error::{ObjectError, ObjectErrorView};
use crate::object::hostable::Hostable;
use crate::object::hosted::HostedObject;
use crate::object::identifier::{ObjectIdentifier, ObjectType, PropertyIdentifier};
use crate::object::intrinsic::IntrinsicReporting;
use crate::object::multistate::{MultiStateInput, MultiStateOutput, MultiStateValue};
use crate::object::state::EventState;
use crate::property::value::{PropertyValue, PropertyValueView};
use crate::ranking;
use vstd::prelude::*;

verus! {

// ---------------------------------------------------------------------------
// Hosted objects
// ---------------------------------------------------------------------------

/// Whether a hosted object is, to everybody who asks it, the object that it hosts.
pub open spec fn stands_for<H: BacnetObject, T: BacnetObject>(hosted: H, object: T) -> bool {
    &&& hosted.identity() == object.identity()
    &&& hosted.listing() == object.listing()
    &&& hosted.reporting() == object.reporting()
    &&& hosted.evaluation() == object.evaluation()
    &&& hosted.decoupled() == object.decoupled()
    &&& forall|property: PropertyIdentifier|
        #![trigger hosted.reading(property)]
        #![trigger hosted.accepts(property)]
        hosted.reading(property) == object.reading(property) && hosted.accepts(property)
            == object.accepts(property)
}

/// Whatever is hosted behaves as itself.
pub proof fn law_hosted_objects_stand_for_themselves(hosted: HostedObject)
    ensures
        match hosted {
            HostedObject::Device(object) => stands_for(hosted, object),
            HostedObject::AnalogInput(object) => stands_for(hosted, object),
            HostedObject::AnalogOutput(object) => stands_for(hosted, object),
            HostedObject::AnalogValue(object) => stands_for(hosted, object),
            HostedObject::BinaryInput(object) => stands_for(hosted, object),
            HostedObject::BinaryOutput(object) => stands_for(hosted, object),
            HostedObject::BinaryValue(object) => stands_for(hosted, object),
            HostedObject::MultiStateInput(object) => stands_for(hosted, object),
            HostedObject::MultiStateOutput(object) => stands_for(hosted, object),
            HostedObject::MultiStateValue(object) => stands_for(hosted, object),
            HostedObject::NotificationClass(object) => stands_for(hosted, object),
            HostedObject::Calendar(object) => stands_for(hosted, object),
            HostedObject::Schedule(object) => stands_for(hosted, object),
        },
{
}

/// A write to a hosted object is a write to the object itself: it stays one of its type,
/// and is left as the write leaves it.
pub proof fn law_hosted_objects_are_written_themselves(
    hosted: HostedObject,
    after: HostedObject,
    property: PropertyIdentifier,
    value: PropertyValue,
    priority: Option<u8>,
    outcome: Result<(), ObjectErrorView>,
)
    requires
        hosted.writing(after, property, value, priority, outcome),
    ensures
        match hosted {
            HostedObject::Device(object) => after is Device && object.writing(
                after->Device_0,
                property,
                value,
                priority,
                outcome,
            ),
            HostedObject::AnalogInput(object) => after is AnalogInput && object.writing(
                after->AnalogInput_0,
                property,
                value,
                priority,
                outcome,
            ),
            HostedObject::AnalogOutput(object) => after is AnalogOutput && object.writing(
                after->AnalogOutput_0,
                property,
                value,
                priority,
                outcome,
            ),
            HostedObject::AnalogValue(object) => after is AnalogValue && object.writing(
                after->AnalogValue_0,
                property,
                value,
                priority,
                outcome,
            ),
            HostedObject::BinaryInput(object) => after is BinaryInput && object.writing(
                after->BinaryInput_0,
                property,
                value,
                priority,
                outcome,
            ),
            HostedObject::BinaryOutput(object) => after is BinaryOutput && object.writing(
                after->BinaryOutput_0,
                property,
                value,
                priority,
                outcome,
            ),
            HostedObject::BinaryValue(object) => after is BinaryValue && object.writing(
                after->BinaryValue_0,
                property,
                value,
                priority,
                outcome,
            ),
            HostedObject::MultiStateInput(object) => after is MultiStateInput && object.writing(
                after->MultiStateInput_0,
                property,
                value,
                priority,
                outcome,
            ),
            HostedObject::MultiStateOutput(object) => after is MultiStateOutput && object.writing(
                after->MultiStateOutput_0,
                property,
                value,
                priority,
                outcome,
            ),
            HostedObject::MultiStateValue(object) => after is MultiStateValue && object.writing(
                after->MultiStateValue_0,
                property,
                value,
                priority,
                outcome,
            ),
            HostedObject::NotificationClass(object) => after is NotificationClass && object.writing(
                after->NotificationClass_0,
                property,
                value,
                priority,
                outcome,
            ),
            HostedObject::Calendar(object) => after is Calendar && object.writing(
                after->Calendar_0,
                property,
                value,
                priority,
                outcome,
            ),
            HostedObject::Schedule(object) => after is Schedule && object.writing(
                after->Schedule_0,
                property,
                value,
                priority,
                outcome,
            ),
        },
{
}

/// A point that is told to enter an event state is in it, and one whose reporting is
/// replaced reports by the new one; nothing else of it changes. Where a point reports no
/// events, its reporting stays away.
pub proof fn law_points_enter_states(
    hosted: HostedObject,
    state: EventState,
    reporting: IntrinsicReporting,
)
    ensures
        match hosted {
            HostedObject::AnalogInput(object) => {
                &&& hosted.entered(state) == HostedObject::AnalogInput(
                    AnalogInput { event_state: state, ..object },
                )
                &&& object.alarm is Some ==> hosted.with_reporting(reporting)
                    == HostedObject::AnalogInput(
                    AnalogInput { alarm: Some(reporting), ..object },
                )
                &&& object.alarm is None ==> hosted.with_reporting(reporting) == hosted
            },
            HostedObject::AnalogOutput(object) => {
                &&& hosted.entered(state) == HostedObject::AnalogOutput(
                    AnalogOutput { event_state: state, ..object },
                )
                &&& object.alarm is Some ==> hosted.with_reporting(reporting)
                    == HostedObject::AnalogOutput(
                    AnalogOutput { alarm: Some(reporting), ..object },
                )
                &&& object.alarm is None ==> hosted.with_reporting(reporting) == hosted
            },
            HostedObject::AnalogValue(object) => {
                &&& hosted.entered(state) == HostedObject::AnalogValue(
                    AnalogValue { event_state: state, ..object },
                )
                &&& object.alarm is Some ==> hosted.with_reporting(reporting)
                    == HostedObject::AnalogValue(
                    AnalogValue { alarm: Some(reporting), ..object },
                )
                &&& object.alarm is None ==> hosted.with_reporting(reporting) == hosted
            },
            HostedObject::BinaryInput(object) => {
                &&& hosted.entered(state) == HostedObject::BinaryInput(
                    BinaryInput { event_state: state, ..object },
                )
                &&& object.alarm is Some ==> hosted.with_reporting(reporting)
                    == HostedObject::BinaryInput(
                    BinaryInput { alarm: Some(reporting), ..object },
                )
                &&& object.alarm is None ==> hosted.with_reporting(reporting) == hosted
            },
            HostedObject::BinaryOutput(object) => {
                &&& hosted.entered(state) == HostedObject::BinaryOutput(
                    BinaryOutput { event_state: state, ..object },
                )
                &&& object.alarm is Some ==> hosted.with_reporting(reporting)
                    == HostedObject::BinaryOutput(
                    BinaryOutput { alarm: Some(reporting), ..object },
                )
                &&& object.alarm is None ==> hosted.with_reporting(reporting) == hosted
            },
            HostedObject::BinaryValue(object) => {
                &&& hosted.entered(state) == HostedObject::BinaryValue(
                    BinaryValue { event_state: state, ..object },
                )
                &&& object.alarm is Some ==> hosted.with_reporting(reporting)
                    == HostedObject::BinaryValue(
                    BinaryValue { alarm: Some(reporting), ..object },
                )
                &&& object.alarm is None ==> hosted.with_reporting(reporting) == hosted
            },
            HostedObject::MultiStateInput(object) => {
                &&& hosted.entered(state) == HostedObject::MultiStateInput(
                    MultiStateInput { event_state: state, ..object },
                )
                &&& object.alarm is Some ==> hosted.with_reporting(reporting)
                    == HostedObject::MultiStateInput(
                    MultiStateInput { alarm: Some(reporting), ..object },
                )
                &&& object.alarm is None ==> hosted.with_reporting(reporting) == hosted
            },
            HostedObject::MultiStateOutput(object) => {
                &&& hosted.entered(state) == HostedObject::MultiStateOutput(
                    MultiStateOutput { event_state: state, ..object },
                )
                &&& object.alarm is Some ==> hosted.with_reporting(reporting)
                    == HostedObject::MultiStateOutput(
                    MultiStateOutput { alarm: Some(reporting), ..object },
                )
                &&& object.alarm is None ==> hosted.with_reporting(reporting) == hosted
            },
            HostedObject::MultiStateValue(object) => {
                &&& hosted.entered(state) == HostedObject::MultiStateValue(
                    MultiStateValue { event_state: state, ..object },
                )
                &&& object.alarm is Some ==> hosted.with_reporting(reporting)
                    == HostedObject::MultiStateValue(
                    MultiStateValue { alarm: Some(reporting), ..object },
                )
                &&& object.alarm is None ==> hosted.with_reporting(reporting) == hosted
            },
            _ => hosted.entered(state) == hosted && hosted.with_reporting(reporting) == hosted,
        },
{
}

/// An object of either kind behaves as itself, and a device is hosted as one of the first.
pub proof fn law_either_object_stands_for_itself<A: Hostable, B: Hostable>(
    first: A,
    second: B,
    device: Device,
)
    ensures
        stands_for(EitherObject::<A, B>::First(first), first),
        stands_for(EitherObject::<A, B>::Second(second), second),
        EitherObject::<A, B>::First(first).name() == first.name(),
        EitherObject::<A, B>::Second(second).name() == second.name(),
        EitherObject::<A, B>::hosting(device) == EitherObject::<A, B>::First(A::hosting(device)),
{
}

// ---------------------------------------------------------------------------
// What is hosted
// ---------------------------------------------------------------------------

/// Whether a later view counts one change more than an earlier one, made at the time that
/// the database was last told.
pub open spec fn counts_a_change<T>(before: DatabaseView<T>, after: DatabaseView<T>) -> bool {
    &&& before.revision < u32::MAX ==> after.revision == before.revision + 1
    &&& before.revision == u32::MAX ==> after.revision == 0
    &&& after.modified == before.clock
    &&& after.clock == before.clock
    &&& after.device == before.device
}

/// Whether two views count the same changes.
pub open spec fn counts_no_change<T>(before: DatabaseView<T>, after: DatabaseView<T>) -> bool {
    &&& after.revision == before.revision
    &&& after.modified == before.modified
    &&& after.clock == before.clock
    &&& after.device == before.device
}

/// A new database hosts its device and nothing else, at revision one.
pub proof fn law_a_new_database_hosts_its_device<T: Hostable>(device: Device)
    ensures
        ({
            let fresh = DatabaseView::<T>::fresh(device);
            &&& fresh.objects.len() == 1
            &&& fresh.objects[0] == T::hosting(device)
            &&& fresh.objects[0].identity() == device.identifier
            &&& fresh.device == device.identifier
            &&& fresh.types == seq![ObjectType::Device]
            &&& fresh.revision == 1
            &&& fresh.clock == 0
            &&& fresh.modified == 0
        }),
{
    T::law_device_keeps_identity(device);
}

/// An object is added exactly where no hosted object has its identity or its name. It comes
/// after the others, and the change is counted.
pub proof fn law_objects_are_added<T: Hostable>(view: DatabaseView<T>, object: T)
    requires
        view.wf(),
    ensures
        view.adding(object) is Err <==> exists|i: int|
            0 <= i < view.objects.len() && ((#[trigger] view.objects[i]).identity()
                == object.identity() || view.objects[i].name() == object.name()),
        view.adding(object) matches Ok(after) ==> {
            &&& after.objects == view.objects.push(object)
            &&& counts_a_change(view, after)
            &&& after.types.contains(object.identity().object_type)
        },
{
    if view.adding(object) is Err {
        if view.has(object.identity()) {
            let place = view.place_of(object.identity());
            assert(view.is_at(place, object.identity()));
            assert(view.objects[place].identity() == object.identity());
        } else {
            let place = view.place_named(object.name());
            assert(view.is_named_at(place, object.name()));
            assert(view.objects[place].name() == object.name());
        }
    }
    assert forall|i: int|
        0 <= i < view.objects.len() && ((#[trigger] view.objects[i]).identity()
            == object.identity() || view.objects[i].name() == object.name()) implies view.adding(
        object,
    ) is Err by {
        if view.objects[i].identity() == object.identity() {
            assert(view.is_at(i, object.identity()));
        } else {
            assert(view.is_named_at(i, object.name()));
        }
    }
    if let Ok(after) = view.adding(object) {
        let kind = object.identity().object_type;
        if !view.types.contains(kind) {
            assert(after.types[view.types.len() as int] == kind);
        }
    }
}

/// A database that is built hosts its device and after it everything that was to be added,
/// in order.
pub proof fn law_a_built_database_hosts_everything<T: Hostable>(
    view: DatabaseView<T>,
    objects: Seq<T>,
)
    requires
        view.wf(),
    ensures
        view.adding_all(objects) matches Ok(after) ==> after.objects == view.objects + objects
            && after.device == view.device && after.wf(),
    decreases objects.len(),
{
    if objects.len() > 0 {
        if let Ok(next) = view.adding(objects[0]) {
            database::law_adding_keeps_order(view, objects[0], view.device);
            law_a_built_database_hosts_everything(next, objects.drop_first());
            assert(view.objects.push(objects[0]) + objects.drop_first() =~= view.objects + objects);
        }
    } else {
        assert(view.objects + objects =~= view.objects);
    }
}

/// An object is removed exactly where it is hosted and not the device, which is refused.
/// The others stay in their order, and the change is counted.
pub proof fn law_objects_are_removed<T: Hostable>(view: DatabaseView<T>, place: int)
    requires
        view.wf(),
        0 <= place < view.objects.len(),
    ensures
        ({
            let identifier = view.objects[place].identity();
            &&& identifier == view.device ==> view.removing(identifier) == Err::<
                DatabaseView<T>,
                ObjectErrorView,
            >(ObjectErrorView::WriteAccessDenied)
            &&& identifier != view.device ==> (view.removing(identifier) matches Ok(after)
                && after.objects == view.objects.take(place) + view.objects.skip(place + 1)
                && counts_a_change(view, after))
        }),
{
    let identifier = view.objects[place].identity();
    assert(view.is_at(place, identifier));
    database::lemma_place_is(view, place, identifier);
    assert(view.objects.remove(place) =~= view.objects.take(place) + view.objects.skip(place + 1));
}

/// What is not hosted can be neither removed nor read nor written, and its name not found.
pub proof fn law_what_is_not_hosted_is_not_found<T: Hostable>(
    view: DatabaseView<T>,
    after: DatabaseView<T>,
    identifier: ObjectIdentifier,
    property: PropertyIdentifier,
    value: PropertyValue,
    priority: Option<u8>,
    outcome: Result<(), ObjectErrorView>,
)
    requires
        view.wf(),
        forall|i: int| 0 <= i < view.objects.len() ==> (#[trigger] view.objects[i]).identity()
            != identifier,
        view.writing(after, identifier, property, value, priority, outcome),
    ensures
        view.removing(identifier) == Err::<DatabaseView<T>, ObjectErrorView>(
            ObjectErrorView::NotFound,
        ),
        view.reading(identifier, property) == Err::<PropertyValueView, ObjectErrorView>(
            ObjectErrorView::NotFound,
        ),
        outcome == Err::<(), ObjectErrorView>(ObjectErrorView::NotFound),
        after == view,
{
    if view.has(identifier) {
        let place = view.place_of(identifier);
        assert(view.is_at(place, identifier));
    }
    let device = view.place_of(view.device);
    assert(view.is_at(device, view.device));
}

// ---------------------------------------------------------------------------
// Reading and writing
// ---------------------------------------------------------------------------

/// A hosted object answers for itself. Of the device the database answers the revision,
/// and which types of objects it hosts: one bit for every type by its number, set where
/// an object of the type is hosted, the device counting as a device.
pub proof fn law_objects_answer_for_themselves<T: Hostable>(
    view: DatabaseView<T>,
    place: int,
    property: PropertyIdentifier,
)
    requires
        view.wf(),
        0 <= place < view.objects.len(),
    ensures
        ({
            let object = view.objects[place];
            let own = object.identity() != view.device || !(property is DatabaseRevision)
                && !(property is ProtocolObjectTypesSupported);
            own ==> view.reading(object.identity(), property) == object.reading(property)
        }),
        view.reading(view.device, PropertyIdentifier::DatabaseRevision) == Ok::<
            PropertyValueView,
            ObjectErrorView,
        >(PropertyValueView::Unsigned(view.revision as u64)),
{
    let identifier = view.objects[place].identity();
    assert(view.is_at(place, identifier));
    database::lemma_place_is(view, place, identifier);
}

/// Whether an object is hosted of the type with a number.
pub open spec fn hosts_type<T: Hostable>(view: DatabaseView<T>, place: int, number: int) -> bool {
    let identifier = view.objects[place].identity();
    &&& 0 <= place < view.objects.len()
    &&& identifier == view.device ==> number == 8
    &&& identifier != view.device ==> number == identifier.object_type.number()
}

/// The types that a device says it supports are those that it hosts objects of.
pub proof fn law_a_device_supports_what_it_hosts<T: Hostable>(
    view: DatabaseView<T>,
    revision: u32,
    number: int,
)
    requires
        view.wf(),
        view.reading(view.device, PropertyIdentifier::ProtocolRevision) == Ok::<
            PropertyValueView,
            ObjectErrorView,
        >(PropertyValueView::Unsigned(revision as u64)),
    ensures
        view.reading(
            view.device,
            PropertyIdentifier::ProtocolObjectTypesSupported,
        ) matches Ok(PropertyValueView::BitString(bits)) && bits.len() == device::known_types(
            revision,
        ) && (0 <= number < bits.len() ==> (bits[number] <==> exists|place: int|
            hosts_type(view, place, number))),
{
    let bits = device::types_supported(view.hosted_types(), revision);
    if 0 <= number < bits.len() {
        if bits[number] {
            let types = view.hosted_types();
            let i = choose|i: int|
                0 <= i < types.len() && (#[trigger] types[i]).number() == number;
            lemma_type_is_hosted(view, types[i]);
            assert(types.contains(types[i]));
            let place = choose|place: int|
                0 <= place < view.objects.len() && database::is_of(
                    #[trigger] view.objects[place],
                    types[i],
                    view.device,
                );
            assert(hosts_type(view, place, number));
        }
        if exists|place: int| hosts_type(view, place, number) {
            let place = choose|place: int| hosts_type(view, place, number);
            let kind = database::filed_under(view.objects[place].identity(), view.device);
            lemma_type_is_hosted(view, kind);
            assert(database::is_of(view.objects[place], kind, view.device));
            let types = view.hosted_types();
            let at = types.index_of(kind);
            assert(types[at] == kind);
        }
    }
}

/// A type is listed exactly where an object is filed under it.
proof fn lemma_type_is_hosted<T: Hostable>(view: DatabaseView<T>, kind: ObjectType)
    requires
        view.wf(),
    ensures
        view.hosted_types().contains(kind) <==> exists|place: int|
            0 <= place < view.objects.len() && database::is_of(
                #[trigger] view.objects[place],
                kind,
                view.device,
            ),
{
    broadcast use vstd::seq_lib::group_to_multiset_ensures;

    let hosted = |object_type: ObjectType|
        database::of_type(view.objects, object_type, view.device).len() > 0;
    let numbered = |object_type: ObjectType| (object_type.number() as int, object_type);
    let kept = view.types.filter(hosted);
    let keyed = kept.map_values(numbered);
    let sorted = ranking::ranked(keyed);
    ranking::law_ranking_reorders(keyed);
    lemma_filtered(view.types, hosted, kind);
    lemma_some_of_type(view.objects, kind, view.device);
    let listed = view.hosted_types();
    assert(listed == ranking::unkeyed(sorted));
    if listed.contains(kind) {
        let at = listed.index_of(kind);
        assert(sorted[at].1 == kind);
        assert(sorted.contains(sorted[at]));
        assert(keyed.to_multiset().count(sorted[at]) > 0);
        assert(keyed.contains(sorted[at]));
        let from = keyed.index_of(sorted[at]);
        assert(kept[from] == kind);
        assert(kept.contains(kind));
    }
    if exists|place: int|
        0 <= place < view.objects.len() && database::is_of(
            #[trigger] view.objects[place],
            kind,
            view.device,
        ) {
        assert(view.types.contains(kind));
        assert(kept.contains(kind));
        let from = kept.index_of(kind);
        assert(keyed[from] == numbered(kind));
        assert(keyed.contains(numbered(kind)));
        assert(sorted.to_multiset().count(numbered(kind)) > 0);
        assert(sorted.contains(numbered(kind)));
        let at = sorted.index_of(numbered(kind));
        assert(listed[at] == kind);
    }
}

/// There are objects of a type exactly where one is filed under it.
proof fn lemma_some_of_type<T: Hostable>(
    objects: Seq<T>,
    kind: ObjectType,
    device: ObjectIdentifier,
)
    ensures
        database::of_type(objects, kind, device).len() > 0 <==> exists|place: int|
            0 <= place < objects.len() && database::is_of(#[trigger] objects[place], kind, device),
{
    let filed = |object: T| database::is_of(object, kind, device);
    let found = objects.filter(filed);
    if found.len() > 0 {
        lemma_filtered(objects, filed, found[0]);
        assert(found.contains(found[0]));
        let place = objects.index_of(found[0]);
        assert(database::is_of(objects[place], kind, device));
    }
    if exists|place: int|
        0 <= place < objects.len() && database::is_of(#[trigger] objects[place], kind, device) {
        let place = choose|place: int|
            0 <= place < objects.len() && database::is_of(#[trigger] objects[place], kind, device);
        lemma_filtered(objects, filed, objects[place]);
        assert(objects.contains(objects[place]));
    }
}

/// What a filter keeps is what was there and passes it.
proof fn lemma_filtered<A>(list: Seq<A>, passes: spec_fn(A) -> bool, item: A)
    ensures
        list.filter(passes).contains(item) <==> list.contains(item) && passes(item),
    decreases list.len(),
{
    reveal(Seq::filter);
    if list.len() > 0 {
        let shorter = list.drop_last();
        lemma_filtered(shorter, passes, item);
        let kept = shorter.filter(passes);
        if list.contains(item) {
            let at = list.index_of(item);
            if at < shorter.len() {
                assert(shorter[at] == item);
            }
        }
        if shorter.contains(item) {
            assert(list[shorter.index_of(item)] == item);
        }
        if passes(list.last()) {
            let whole = kept.push(list.last());
            assert(list.filter(passes) == whole);
            if kept.contains(item) {
                assert(whole[kept.index_of(item)] == item);
            }
            if item == list.last() {
                assert(whole[kept.len() as int] == item);
            }
            if whole.contains(item) {
                let at = whole.index_of(item);
                if at < kept.len() {
                    assert(kept[at] == item);
                }
            }
        }
    }
}

/// Whether a write asks for a name that an object at another place has.
pub open spec fn asks_for_the_name_at<T: Hostable>(
    view: DatabaseView<T>,
    place: int,
    other: int,
    property: PropertyIdentifier,
    value: PropertyValue,
) -> bool {
    &&& 0 <= other < view.objects.len()
    &&& other != place
    &&& property is ObjectName
    &&& value is CharacterString
    &&& view.objects[other].name() == value->CharacterString_0@
}

/// A write reaches the object it is meant for, as it is and at its priority, and no other.
/// It is refused where it asks for a name that another object has. A new name is counted
/// as a change, and no other write is.
pub proof fn law_writes_reach_their_object<T: Hostable>(
    view: DatabaseView<T>,
    after: DatabaseView<T>,
    place: int,
    property: PropertyIdentifier,
    value: PropertyValue,
    priority: Option<u8>,
    outcome: Result<(), ObjectErrorView>,
    other: int,
)
    requires
        view.wf(),
        0 <= place < view.objects.len(),
        view.writing(
            after,
            view.objects[place].identity(),
            property,
            value,
            priority,
            outcome,
        ),
    ensures
        asks_for_the_name_at(view, place, other, property, value) ==> outcome is Err && after
            == view,
        (forall|k: int| !asks_for_the_name_at(view, place, k, property, value)) ==> {
            &&& view.objects[place].writing(
                after.objects[place],
                property,
                value,
                priority,
                outcome,
            )
            &&& after.objects.len() == view.objects.len()
            &&& 0 <= other < view.objects.len() && other != place ==> after.objects[other]
                == view.objects[other]
            &&& after.types == view.types
            &&& outcome is Ok && property is ObjectName ==> counts_a_change(view, after)
            &&& !(outcome is Ok && property is ObjectName) ==> counts_no_change(view, after)
        },
{
    let identifier = view.objects[place].identity();
    assert(view.is_at(place, identifier));
    database::lemma_place_is(view, place, identifier);
    if asks_for_the_name_at(view, place, other, property, value) {
        let name = value->CharacterString_0@;
        assert(view.is_named_at(other, name));
        database::lemma_name_place_is(view, other, name);
        if other < place {
            assert(view.objects[other].identity() != view.objects[place].identity());
        } else {
            assert(view.objects[place].identity() != view.objects[other].identity());
        }
    }
    if view.takes_other_name(identifier, property, value) {
        let name = value->CharacterString_0@;
        let k = view.place_named(name);
        assert(view.is_named_at(k, name));
        assert(asks_for_the_name_at(view, place, k, property, value));
    }
}

// ---------------------------------------------------------------------------
// Finding
// ---------------------------------------------------------------------------

/// An object is found by its identity and by its name.
pub proof fn law_objects_are_found<T: Hostable>(view: DatabaseView<T>, place: int)
    requires
        view.wf(),
        0 <= place < view.objects.len(),
    ensures
        view.has(view.objects[place].identity()),
        view.object(view.objects[place].identity()) == view.objects[place],
        view.has_name(view.objects[place].name()),
        view.objects[view.place_named(view.objects[place].name())] == view.objects[place],
{
    let object = view.objects[place];
    assert(view.is_at(place, object.identity()));
    database::lemma_place_is(view, place, object.identity());
    assert(view.is_named_at(place, object.name()));
    database::lemma_name_place_is(view, place, object.name());
}

/// Whether an object is filed under a type: by its own, but the device of a database as a
/// device.
pub open spec fn belongs_to<T: Hostable>(
    view: DatabaseView<T>,
    place: int,
    kind: ObjectType,
) -> bool {
    let identifier = view.objects[place].identity();
    if identifier == view.device {
        kind == ObjectType::Device
    } else {
        kind == identifier.object_type
    }
}

/// An object is listed under its type, and under no other.
pub proof fn law_objects_are_listed_by_type<T: Hostable>(
    view: DatabaseView<T>,
    place: int,
    kind: ObjectType,
)
    requires
        view.wf(),
        0 <= place < view.objects.len(),
    ensures
        database::identities(database::of_type(view.objects, kind, view.device)).contains(
            view.objects[place].identity(),
        ) <==> belongs_to(view, place, kind),
{
    let filed = |object: T| database::is_of(object, kind, view.device);
    lemma_identity_is_kept(view, filed, place);
}

/// A filter keeps the identity of an object exactly where it keeps the object.
proof fn lemma_identity_is_kept<T: Hostable>(
    view: DatabaseView<T>,
    passes: spec_fn(T) -> bool,
    place: int,
)
    requires
        view.wf(),
        0 <= place < view.objects.len(),
    ensures
        database::identities(view.objects.filter(passes)).contains(
            view.objects[place].identity(),
        ) <==> passes(view.objects[place]),
{
    let object = view.objects[place];
    let kept = view.objects.filter(passes);
    let listed = database::identities(kept);
    lemma_filtered(view.objects, passes, object);
    assert(view.objects.contains(object));
    if kept.contains(object) {
        let at = kept.index_of(object);
        assert(listed[at] == object.identity());
    }
    if listed.contains(object.identity()) {
        let at = listed.index_of(object.identity());
        assert(listed[at] == kept[at].identity());
        lemma_filtered(view.objects, passes, kept[at]);
        assert(kept.contains(kept[at]));
        let from = view.objects.index_of(kept[at]);
        assert(view.is_at(from, object.identity()));
        assert(view.is_at(place, object.identity()));
        database::lemma_place_is(view, from, object.identity());
        database::lemma_place_is(view, place, object.identity());
    }
}

/// Whether two values are the same plain value.
pub open spec fn is_same_plain_value(a: PropertyValueView, b: PropertyValueView) -> bool {
    &&& a == b
    &&& a is Null || a is Boolean || a is Unsigned || a is Signed || a is CharacterString
        || a is Enumerated || a is ObjectIdentifier
}

/// A search finds every object whose property reads the plain value that is searched for,
/// and no object that has no such property, or that reads a value of another type.
pub proof fn law_searches_find_what_reads_the_value<T: Hostable>(
    view: DatabaseView<T>,
    place: int,
    property: PropertyIdentifier,
    wanted: PropertyValueView,
)
    requires
        view.wf(),
        0 <= place < view.objects.len(),
    ensures
        ({
            let found = database::identities(
                view.objects.filter(|object: T| database::has_value(object, property, wanted)),
            );
            let object = view.objects[place];
            &&& object.reading(property) is Err ==> !found.contains(object.identity())
            &&& object.reading(property) is Ok && is_same_plain_value(
                object.reading(property)->Ok_0,
                wanted,
            ) ==> found.contains(object.identity())
            &&& object.reading(property) is Ok && object.reading(property)->Ok_0 != wanted
                && !(wanted is Real) && !(wanted is Double) ==> !found.contains(object.identity())
            &&& object.reading(property) is Ok && !(object.reading(property)->Ok_0 is Real)
                && wanted is Real ==> !found.contains(object.identity())
            &&& object.reading(property) is Ok && !(object.reading(property)->Ok_0 is Double)
                && wanted is Double ==> !found.contains(object.identity())
        }),
{
    lemma_identity_is_kept(
        view,
        |object: T| database::has_value(object, property, wanted),
        place,
    );
}

/// The next instance of a type is zero where no object of it was ever added. Otherwise it is
/// beyond every instance that is filed under the type, and the next after one of them, or
/// the first where there is none left. No number is beyond the largest.
pub proof fn law_the_next_instance_is_beyond_all<T: Hostable>(
    view: DatabaseView<T>,
    kind: ObjectType,
    place: int,
)
    requires
        view.wf(),
    ensures
        !view.types.contains(kind) ==> view.free_instance(kind) == 0,
        view.types.contains(kind) && 0 <= place < view.objects.len() && belongs_to(
            view,
            place,
            kind,
        ) ==> view.objects[place].identity().instance < view.free_instance(kind)
            || view.free_instance(kind) == u32::MAX,
        view.types.contains(kind) && view.free_instance(kind) > 1 && view.free_instance(kind)
            < u32::MAX ==> exists|i: int|
            0 <= i < view.objects.len() && belongs_to(view, i, kind) && (
            #[trigger] view.objects[i]).identity().instance + 1 == view.free_instance(kind),
{
    if view.types.contains(kind) {
        lemma_largest(view.objects, kind, view.device);
        let largest = database::largest_instance(view.objects, kind, view.device);
        if 0 <= place < view.objects.len() && belongs_to(view, place, kind) {
            assert(database::is_of(view.objects[place], kind, view.device));
        }
        if largest > 0 {
            let i = choose|i: int|
                0 <= i < view.objects.len() && database::is_of(
                    #[trigger] view.objects[i],
                    kind,
                    view.device,
                ) && view.objects[i].identity().instance == largest;
            assert(belongs_to(view, i, kind));
        }
    }
}

/// The largest instance is the instance of one, and no other's is larger.
proof fn lemma_largest<T: Hostable>(objects: Seq<T>, kind: ObjectType, device: ObjectIdentifier)
    ensures
        forall|i: int|
            0 <= i < objects.len() && database::is_of(#[trigger] objects[i], kind, device)
                ==> objects[i].identity().instance <= database::largest_instance(
                objects,
                kind,
                device,
            ),
        database::largest_instance(objects, kind, device) > 0 ==> exists|i: int|
            0 <= i < objects.len() && database::is_of(#[trigger] objects[i], kind, device)
                && objects[i].identity().instance == database::largest_instance(
                objects,
                kind,
                device,
            ),
    decreases objects.len(),
{
    if objects.len() > 0 {
        let shorter = objects.drop_last();
        lemma_largest(shorter, kind, device);
        let largest = database::largest_instance(objects, kind, device);
        assert forall|i: int|
            0 <= i < objects.len() && database::is_of(
                #[trigger] objects[i],
                kind,
                device,
            ) implies objects[i].identity().instance <= largest by {
            if i < shorter.len() {
                assert(database::is_of(shorter[i], kind, device));
            }
        }
        if largest > 0 {
            let before = database::largest_instance(shorter, kind, device);
            if largest == before {
                let i = choose|i: int|
                    0 <= i < shorter.len() && database::is_of(#[trigger] shorter[i], kind, device)
                        && shorter[i].identity().instance == before;
                assert(database::is_of(objects[i], kind, device));
            } else {
                assert(database::is_of(objects[objects.len() - 1], kind, device));
            }
        }
    }
}

// ---------------------------------------------------------------------------
// What comes back
// ---------------------------------------------------------------------------

/// What is read comes back as it is stated, as a value or as the error.
pub proof fn law_readings_come_back(
    actual: Result<PropertyValue, ObjectError>,
    stated: Result<PropertyValueView, ObjectErrorView>,
)
    requires
        error::same_reading(actual, stated),
    ensures
        actual is Ok <==> stated is Ok,
        actual is Ok ==> actual->Ok_0.model() == stated->Ok_0,
        actual is Err ==> actual->Err_0@ == stated->Err_0,
{
}

/// A write that is taken leaves what is stated, and one that is refused what was there.
pub proof fn law_writes_leave_what_is_stated<T>(
    before: T,
    after: T,
    stated: Result<T, ObjectErrorView>,
    result: Result<(), ObjectError>,
)
    requires
        base::left(before, after, stated, base::outcome(result)),
    ensures
        result is Ok <==> stated is Ok,
        result is Ok ==> after == stated->Ok_0,
        result is Err ==> result->Err_0@ == stated->Err_0 && after == before,
{
}

} // verus!
