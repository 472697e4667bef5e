//! Notification Class object.
//!
//! A notification class decides, for each of the three event transitions, how
//! urgent a notification is, whether an operator must acknowledge it, and which
//! devices receive it. Intrinsic-reporting objects point at one through their
//! `Notification_Class` property.
//!
//! `Recipient_List` is writable: a recipient, typically a gateway, registers itself
//! by writing its own device identifier into the list.

use crate::object::base::BacnetObject;
use crate::object::error;
use crate::object::error::{ObjectError, ObjectErrorView};
use crate::object::identifier::{ObjectIdentifier, ObjectType, PropertyIdentifier};
use crate::object::intrinsic;
use crate::object::intrinsic::{
    bit_at, AlarmEvaluation, EventTransition, EventTransitionBits, IntrinsicReporting,
};
use crate::object::state::EventState;
use crate::property::value;
use crate::property::value::{
    DestinationValue, DestinationView, PropertyValue, PropertyValueView, Recipient, RecipientView,
};
use vstd::prelude::*;

verus! {

/// The lowest BACnet notification priority, used as the default.
pub const DEFAULT_PRIORITY: u32 = 255;

/// Notification Class object.
#[derive(Debug, Clone, PartialEq, Eq)]
pub struct NotificationClass {
    /// Object identifier.
    pub identifier: ObjectIdentifier,
    /// Object name.
    pub object_name: String,
    /// Description.
    pub description: String,
    /// Notification priority per transition, ordered to-offnormal, to-fault,
    /// to-normal. 1 to 255, where lower is more urgent.
    pub priority: [u32; 3],
    /// Which transitions require operator acknowledgement.
    pub ack_required: EventTransitionBits,
    /// Where notifications are sent.
    pub recipient_list: Vec<DestinationValue>,
}

/// What a notification class holds.
pub struct NotificationClassView {
    pub identifier: ObjectIdentifier,
    pub object_name: Seq<char>,
    pub description: Seq<char>,
    pub priority: Seq<u32>,
    pub ack_required: EventTransitionBits,
    pub recipient_list: Seq<DestinationView>,
}

/// What a recipient list holds.
pub open spec fn destinations(list: Seq<DestinationValue>) -> Seq<DestinationView> {
    list.map_values(|destination: DestinationValue| destination@)
}

impl View for NotificationClass {
    type V = NotificationClassView;

    open spec fn view(&self) -> NotificationClassView {
        NotificationClassView {
            identifier: self.identifier,
            object_name: self.object_name@,
            description: self.description@,
            priority: self.priority@,
            ack_required: self.ack_required,
            recipient_list: destinations(self.recipient_list@),
        }
    }
}

/// Whether a recipient is subscribed to the transition at this place.
pub open spec fn is_subscribed(destination: DestinationView, place: int) -> bool {
    intrinsic::bit_or_false(destination.transitions, place)
}

/// The recipients subscribed to the transition at this place, in their order.
pub open spec fn subscribed(list: Seq<DestinationView>, place: int) -> Seq<DestinationView> {
    list.filter(|destination: DestinationView| is_subscribed(destination, place))
}

/// What borrowed recipients hold.
pub open spec fn borrowed_destinations(list: Seq<&DestinationValue>) -> Seq<DestinationView> {
    list.map_values(|destination: &DestinationValue| destination@)
}

/// What Priority reads.
pub open spec fn priorities_reading(priority: Seq<u32>) -> PropertyValueView {
    PropertyValueView::Array(
        priority.map_values(|level: u32| PropertyValueView::Unsigned(level as u64)),
    )
}

/// What Recipient_List reads.
pub open spec fn recipients_reading(list: Seq<DestinationView>) -> PropertyValueView {
    PropertyValueView::List(
        list.map_values(|destination: DestinationView| PropertyValueView::Destination(destination)),
    )
}

/// Whether a value is a notification priority.
pub open spec fn is_priority(value: PropertyValue) -> bool {
    value matches PropertyValue::Unsigned(level) && level <= u32::MAX
}

/// The three priorities a list names.
pub open spec fn priorities_of(values: Seq<PropertyValue>) -> Result<Seq<u32>, ObjectErrorView> {
    if values.len() != 3 {
        Err(ObjectErrorView::InvalidValue("Priority must have exactly 3 entries"@))
    } else if forall|i: int| 0 <= i < 3 ==> is_priority(#[trigger] values[i]) {
        Ok(values.map_values(|value: PropertyValue| value->Unsigned_0 as u32))
    } else {
        Err(ObjectErrorView::InvalidPropertyType)
    }
}

/// The recipients a list names, where all of its elements name one.
pub open spec fn recipients_of(values: Seq<PropertyValue>) -> Result<
    Seq<DestinationView>,
    ObjectErrorView,
> {
    if forall|i: int| 0 <= i < values.len() ==> (#[trigger] values[i]) is Destination {
        Ok(values.map_values(|value: PropertyValue| value->Destination_0@))
    } else {
        Err(ObjectErrorView::InvalidPropertyType)
    }
}

impl NotificationClassView {
    /// What a property reads.
    pub open spec fn reading(self, property: PropertyIdentifier) -> Result<
        PropertyValueView,
        ObjectErrorView,
    > {
        match property {
            PropertyIdentifier::ObjectIdentifier => Ok(
                PropertyValueView::ObjectIdentifier(self.identifier),
            ),
            PropertyIdentifier::ObjectName => Ok(
                PropertyValueView::CharacterString(self.object_name),
            ),
            PropertyIdentifier::ObjectType => Ok(
                PropertyValueView::Enumerated(ObjectType::NotificationClass.number()),
            ),
            PropertyIdentifier::Description => Ok(
                PropertyValueView::CharacterString(self.description),
            ),
            PropertyIdentifier::NotificationClass => Ok(
                PropertyValueView::Unsigned(self.identifier.instance as u64),
            ),
            PropertyIdentifier::Priority => Ok(priorities_reading(self.priority)),
            PropertyIdentifier::AckRequired => Ok(
                PropertyValueView::BitString(self.ack_required.bits()),
            ),
            PropertyIdentifier::RecipientList => Ok(recipients_reading(self.recipient_list)),
            _ => Err(ObjectErrorView::UnknownProperty),
        }
    }

    /// What a write leaves.
    pub open spec fn writing(self, property: PropertyIdentifier, value: PropertyValue) -> Result<
        NotificationClassView,
        ObjectErrorView,
    > {
        let wrong = Err::<NotificationClassView, ObjectErrorView>(
            ObjectErrorView::InvalidPropertyType,
        );
        match property {
            PropertyIdentifier::ObjectName => match value {
                PropertyValue::CharacterString(text) => Ok(
                    NotificationClassView { object_name: text@, ..self },
                ),
                _ => wrong,
            },
            PropertyIdentifier::Description => match value {
                PropertyValue::CharacterString(text) => Ok(
                    NotificationClassView { description: text@, ..self },
                ),
                _ => wrong,
            },
            PropertyIdentifier::Priority => match value {
                PropertyValue::Array(entries) | PropertyValue::List(entries) => match priorities_of(
                    entries@,
                ) {
                    Ok(priority) => Ok(NotificationClassView { priority, ..self }),
                    Err(error) => Err(error),
                },
                _ => wrong,
            },
            PropertyIdentifier::AckRequired => match value {
                PropertyValue::BitString(bits) => Ok(
                    NotificationClassView {
                        ack_required: EventTransitionBits::of_bits(bits@),
                        ..self
                    },
                ),
                _ => wrong,
            },
            PropertyIdentifier::RecipientList => match value {
                PropertyValue::List(entries) | PropertyValue::Array(entries) => match recipients_of(
                    entries@,
                ) {
                    Ok(recipient_list) => Ok(NotificationClassView { recipient_list, ..self }),
                    Err(error) => Err(error),
                },
                _ => wrong,
            },
            _ => Err(ObjectErrorView::PropertyNotWritable),
        }
    }
}

/// The priorities a list names.
fn read_priorities(values: &Vec<PropertyValue>) -> (priority: Result<[u32; 3], ObjectError>)
    ensures
        match (priority, priorities_of(values@)) {
            (Ok(priority), Ok(stated)) => priority@ == stated,
            (Err(error), Err(stated)) => error@ == stated,
            _ => false,
        },
{
    if values.len() != 3 {
        return Err(error::invalid_value("Priority must have exactly 3 entries"));
    }
    let mut priority: [u32; 3] = [DEFAULT_PRIORITY; 3];
    let mut i: usize = 0;
    while i < 3
        invariant
            i <= 3,
            values@.len() == 3,
            priority@.len() == 3,
            forall|j: int|
                0 <= j < i ==> is_priority(#[trigger] values@[j]) && priority@[j]
                    == values@[j]->Unsigned_0,
        decreases 3 - i,
    {
        match &values[i] {
            PropertyValue::Unsigned(level) => {
                if *level > u32::MAX as u64 {
                    assert(!is_priority(values@[i as int]));
                    return Err(ObjectError::InvalidPropertyType);
                }
                priority[i] = *level as u32;
            },
            _ => {
                assert(!is_priority(values@[i as int]));
                return Err(ObjectError::InvalidPropertyType);
            },
        }
        i += 1;
    }
    proof {
        assert(priority@ =~= values@.map_values(|value: PropertyValue| value->Unsigned_0 as u32));
    }
    Ok(priority)
}

/// The recipients a list names.
fn read_recipients(values: &Vec<PropertyValue>) -> (list: Result<Vec<DestinationValue>, ObjectError>)
    ensures
        match (list, recipients_of(values@)) {
            (Ok(list), Ok(stated)) => destinations(list@) == stated,
            (Err(error), Err(stated)) => error@ == stated,
            _ => false,
        },
{
    let mut list: Vec<DestinationValue> = Vec::new();
    let mut i: usize = 0;
    while i < values.len()
        invariant
            i <= values.len(),
            list@.len() == i,
            forall|j: int|
                0 <= j < i ==> (#[trigger] values@[j]) is Destination && list@[j]@
                    == values@[j]->Destination_0@,
        decreases values.len() - i,
    {
        match &values[i] {
            PropertyValue::Destination(destination) => {
                list.push(destination.clone());
            },
            _ => {
                assert(!(values@[i as int] is Destination));
                return Err(ObjectError::InvalidPropertyType);
            },
        }
        i += 1;
    }
    proof {
        assert(destinations(list@) =~= values@.map_values(
            |value: PropertyValue| value->Destination_0@,
        ));
    }
    Ok(list)
}

fn recipients_value(list: &Vec<DestinationValue>) -> (value: PropertyValue)
    ensures
        value.model() == recipients_reading(destinations(list@)),
{
    let mut values: Vec<PropertyValue> = Vec::new();
    let mut i: usize = 0;
    while i < list.len()
        invariant
            i <= list.len(),
            values@.len() == i,
            forall|j: int|
                0 <= j < i ==> (#[trigger] values@[j]).model() == PropertyValueView::Destination(
                    list@[j]@,
                ),
        decreases list.len() - i,
    {
        values.push(PropertyValue::Destination(list[i].clone()));
        i += 1;
    }
    proof {
        value::lemma_list_model(values);
        assert(value::values_model(values) =~= destinations(list@).map_values(
            |destination: DestinationView| PropertyValueView::Destination(destination),
        ));
    }
    PropertyValue::List(values)
}

impl NotificationClass {
    /// Create a notification class that sends every transition at the lowest
    /// priority, requires no acknowledgement, and has no recipients yet.
    pub fn new(instance: u32, object_name: String) -> (class: NotificationClass)
        ensures
            class.identifier == (ObjectIdentifier {
                object_type: ObjectType::NotificationClass,
                instance,
            }),
            class.object_name == object_name,
            class.description@ == Seq::<char>::empty(),
            class.priority@ == seq![DEFAULT_PRIORITY, DEFAULT_PRIORITY, DEFAULT_PRIORITY],
            class.ack_required.bits() == seq![false, false, false],
            class.recipient_list@ == Seq::<DestinationValue>::empty(),
    {
        NotificationClass {
            identifier: ObjectIdentifier::new(ObjectType::NotificationClass, instance),
            object_name,
            description: String::new(),
            priority: [DEFAULT_PRIORITY, DEFAULT_PRIORITY, DEFAULT_PRIORITY],
            ack_required: EventTransitionBits::none(),
            recipient_list: Vec::new(),
        }
    }

    /// Set the per-transition priorities (to-offnormal, to-fault, to-normal).
    pub fn with_priority(self, to_offnormal: u32, to_fault: u32, to_normal: u32) -> (class:
        NotificationClass)
        ensures
            class == (NotificationClass { priority: class.priority, ..self }),
            class.priority@ == seq![to_offnormal, to_fault, to_normal],
    {
        let mut class = self;
        class.priority = [to_offnormal, to_fault, to_normal];
        class
    }

    /// Set which transitions require acknowledgement.
    pub fn with_ack_required(self, ack_required: EventTransitionBits) -> (class: NotificationClass)
        ensures
            class == (NotificationClass { ack_required, ..self }),
    {
        let mut class = self;
        class.ack_required = ack_required;
        class
    }

    /// Add a recipient device that receives every transition at all times.
    pub fn with_recipient(self, device: ObjectIdentifier, process_identifier: u32) -> (class:
        NotificationClass)
        ensures
            class == (NotificationClass { recipient_list: class.recipient_list, ..self }),
            class.recipient_list@.len() == self.recipient_list@.len() + 1,
            class.recipient_list@.drop_last() == self.recipient_list@,
            class.recipient_list@.last()@ == (DestinationView {
                valid_days: seq![true, true, true, true, true, true, true],
                from_time: (0, 0, 0, 0),
                to_time: (23, 59, 59, 99),
                recipient: RecipientView::Device(device),
                process_identifier,
                issue_confirmed_notifications: false,
                transitions: seq![true, true, true],
            }),
    {
        let mut class = self;
        let destination = DestinationValue {
            valid_days: vec![true, true, true, true, true, true, true],
            from_time: (0, 0, 0, 0),
            to_time: (23, 59, 59, 99),
            recipient: Recipient::Device(device),
            process_identifier,
            issue_confirmed_notifications: false,
            transitions: EventTransitionBits::all().to_bits(),
        };
        class.recipient_list.push(destination);
        proof {
            assert(class.recipient_list@.drop_last() =~= self.recipient_list@);
        }
        class
    }

    /// Notification priority for `transition`.
    pub fn priority_for(&self, transition: EventTransition) -> (priority: u32)
        ensures
            priority == self.priority@[transition.place()],
    {
        self.priority[transition.bit_index()]
    }

    /// Whether `transition` requires operator acknowledgement.
    pub fn ack_required_for(&self, transition: EventTransition) -> (required: bool)
        ensures
            required == self.ack_required.bits()[transition.place()],
    {
        self.ack_required.contains(transition)
    }

    /// Recipients subscribed to `transition`, in their order.
    ///
    /// Time-of-day and day-of-week filtering is deliberately not applied here:
    /// the caller knows the current time and can filter further if it needs to.
    pub fn recipients_for(&self, transition: EventTransition) -> (recipients: Vec<
        &DestinationValue,
    >)
        ensures
            borrowed_destinations(recipients@) == subscribed(
                self@.recipient_list,
                transition.place(),
            ),
    {
        let index: usize = transition.bit_index();
        let ghost all = self@.recipient_list;
        let mut recipients: Vec<&DestinationValue> = Vec::new();
        let mut i: usize = 0;
        proof {
            assert(all.take(0) =~= Seq::<DestinationView>::empty());
            reveal(Seq::filter);
            assert(borrowed_destinations(recipients@) =~= subscribed(
                all.take(0),
                transition.place(),
            ));
        }
        while i < self.recipient_list.len()
            invariant
                i <= self.recipient_list.len(),
                all == destinations(self.recipient_list@),
                index == transition.place(),
                borrowed_destinations(recipients@) == subscribed(
                    all.take(i as int),
                    transition.place(),
                ),
            decreases self.recipient_list.len() - i,
        {
            let destination = &self.recipient_list[i];
            let ghost before = recipients@;
            if bit_at(&destination.transitions, index) {
                recipients.push(destination);
            }
            proof {
                reveal(Seq::filter);
                let longer = all.take(i + 1);
                assert(longer.drop_last() =~= all.take(i as int));
                assert(longer.last() == destination@);
                if is_subscribed(destination@, index as int) {
                    assert(borrowed_destinations(recipients@) =~= borrowed_destinations(
                        before,
                    ).push(destination@));
                }
            }
            i += 1;
        }
        proof {
            assert(all.take(all.len() as int) =~= all);
        }
        recipients
    }
}

impl BacnetObject for NotificationClass {
    open spec fn identity(&self) -> ObjectIdentifier {
        self.identifier
    }

    open spec fn reading(&self, property: PropertyIdentifier) -> Result<
        PropertyValueView,
        ObjectErrorView,
    > {
        self@.reading(property)
    }

    open spec fn writing(
        &self,
        after: NotificationClass,
        property: PropertyIdentifier,
        value: PropertyValue,
        priority: Option<u8>,
        outcome: Result<(), ObjectErrorView>,
    ) -> bool {
        match (outcome, self@.writing(property, value)) {
            (Ok(_), Ok(expected)) => after@ == expected,
            (Err(error), Err(expected)) => error == expected && after == *self,
            _ => false,
        }
    }

    open spec fn accepts(&self, property: PropertyIdentifier) -> bool {
        property == PropertyIdentifier::ObjectName || property == PropertyIdentifier::Description
            || property == PropertyIdentifier::Priority || property
            == PropertyIdentifier::AckRequired || property == PropertyIdentifier::RecipientList
    }

    open spec fn listing(&self) -> Seq<PropertyIdentifier> {
        seq![
            PropertyIdentifier::ObjectIdentifier,
            PropertyIdentifier::ObjectName,
            PropertyIdentifier::ObjectType,
            PropertyIdentifier::Description,
            PropertyIdentifier::NotificationClass,
            PropertyIdentifier::Priority,
            PropertyIdentifier::AckRequired,
            PropertyIdentifier::RecipientList,
        ]
    }

    open spec fn sourcing(
        &self,
        after: NotificationClass,
        value: PropertyValue,
        outcome: Result<(), ObjectErrorView>,
    ) -> bool {
        outcome == Err::<(), ObjectErrorView>(ObjectErrorView::OptionalFunctionalityNotSupported)
            && after == *self
    }

    open spec fn reporting(&self) -> Option<IntrinsicReporting> {
        None
    }

    open spec fn reports_as(&self, after: NotificationClass, reporting: IntrinsicReporting) -> bool {
        after == *self
    }

    open spec fn evaluation(&self) -> Option<AlarmEvaluation> {
        None
    }

    open spec fn enters(&self, after: NotificationClass, state: EventState) -> bool {
        after == *self
    }

    open spec fn decoupled(&self) -> bool {
        false
    }

    fn identifier(&self) -> (identifier: ObjectIdentifier) {
        self.identifier
    }

    fn get_property(&self, property: PropertyIdentifier) -> (result: Result<
        PropertyValue,
        ObjectError,
    >) {
        match property {
            PropertyIdentifier::ObjectIdentifier => Ok(
                PropertyValue::ObjectIdentifier(self.identifier),
            ),
            PropertyIdentifier::ObjectName => Ok(
                PropertyValue::CharacterString(self.object_name.clone()),
            ),
            PropertyIdentifier::ObjectType => Ok(
                PropertyValue::Enumerated(ObjectType::NotificationClass.to_number()),
            ),
            PropertyIdentifier::Description => Ok(
                PropertyValue::CharacterString(self.description.clone()),
            ),
            // A notification class reports its own instance number here.
            PropertyIdentifier::NotificationClass => Ok(
                PropertyValue::Unsigned(self.identifier.instance as u64),
            ),
            PropertyIdentifier::Priority => {
                let levels = vec![
                    PropertyValue::Unsigned(self.priority[0] as u64),
                    PropertyValue::Unsigned(self.priority[1] as u64),
                    PropertyValue::Unsigned(self.priority[2] as u64),
                ];
                proof {
                    value::lemma_list_model(levels);
                    assert(value::values_model(levels) =~= self.priority@.map_values(
                        |level: u32| PropertyValueView::Unsigned(level as u64),
                    ));
                }
                Ok(PropertyValue::Array(levels))
            },
            PropertyIdentifier::AckRequired => Ok(
                PropertyValue::BitString(self.ack_required.to_bits()),
            ),
            PropertyIdentifier::RecipientList => Ok(recipients_value(&self.recipient_list)),
            _ => Err(ObjectError::UnknownProperty),
        }
    }

    fn set_property(&mut self, property: PropertyIdentifier, value: PropertyValue) -> (result:
        Result<(), ObjectError>) {
        match property {
            PropertyIdentifier::ObjectName => match value {
                PropertyValue::CharacterString(name) => {
                    self.object_name = name;
                    Ok(())
                },
                _ => Err(ObjectError::InvalidPropertyType),
            },
            PropertyIdentifier::Description => match value {
                PropertyValue::CharacterString(text) => {
                    self.description = text;
                    Ok(())
                },
                _ => Err(ObjectError::InvalidPropertyType),
            },
            PropertyIdentifier::Priority => match value {
                PropertyValue::Array(entries) | PropertyValue::List(entries) => {
                    match read_priorities(&entries) {
                        Ok(priority) => {
                            self.priority = priority;
                            Ok(())
                        },
                        Err(error) => Err(error),
                    }
                },
                _ => Err(ObjectError::InvalidPropertyType),
            },
            PropertyIdentifier::AckRequired => match value {
                PropertyValue::BitString(bits) => {
                    self.ack_required = EventTransitionBits::from_bits(bits.as_slice());
                    Ok(())
                },
                _ => Err(ObjectError::InvalidPropertyType),
            },
            PropertyIdentifier::RecipientList => match value {
                PropertyValue::List(entries) | PropertyValue::Array(entries) => {
                    match read_recipients(&entries) {
                        Ok(recipients) => {
                            self.recipient_list = recipients;
                            Ok(())
                        },
                        Err(error) => Err(error),
                    }
                },
                _ => Err(ObjectError::InvalidPropertyType),
            },
            _ => Err(ObjectError::PropertyNotWritable),
        }
    }

    fn set_property_with_priority(
        &mut self,
        property: PropertyIdentifier,
        value: PropertyValue,
        priority: Option<u8>,
    ) -> (result: Result<(), ObjectError>) {
        self.set_property(property, value)
    }

    fn is_property_writable(&self, property: PropertyIdentifier) -> (writable: bool) {
        match property {
            PropertyIdentifier::ObjectName
            | PropertyIdentifier::Description
            | PropertyIdentifier::Priority
            | PropertyIdentifier::AckRequired
            | PropertyIdentifier::RecipientList => true,
            _ => false,
        }
    }

    fn property_list(&self) -> (properties: Vec<PropertyIdentifier>) {
        vec![
            PropertyIdentifier::ObjectIdentifier,
            PropertyIdentifier::ObjectName,
            PropertyIdentifier::ObjectType,
            PropertyIdentifier::Description,
            PropertyIdentifier::NotificationClass,
            PropertyIdentifier::Priority,
            PropertyIdentifier::AckRequired,
            PropertyIdentifier::RecipientList,
        ]
    }

    fn set_sourced_value(&mut self, value: PropertyValue) -> (result: Result<(), ObjectError>) {
        Err(ObjectError::OptionalFunctionalityNotSupported)
    }

    fn intrinsic(&self) -> (reporting: Option<IntrinsicReporting>) {
        None
    }

    fn store_intrinsic(&mut self, reporting: IntrinsicReporting) {
    }

    fn evaluate_alarm(&self) -> (evaluation: Option<AlarmEvaluation>) {
        None
    }

    fn apply_event_state(&mut self, state: EventState) {
    }

    fn is_out_of_service(&self) -> (decoupled: bool) {
        false
    }
}

/// A notification class refuses every write to what it does not report as writable.
pub proof fn law_only_writable_properties_change(
    class: NotificationClass,
    property: PropertyIdentifier,
    value: PropertyValue,
)
    requires
        !class.accepts(property),
    ensures
        class@.writing(property, value) == Err::<NotificationClassView, ObjectErrorView>(
            ObjectErrorView::PropertyNotWritable,
        ),
{
}

/// What Recipient_List reads can be written to any notification class, which then
/// has the same recipients.
pub proof fn law_recipients_carry_over(
    source: NotificationClassView,
    target: NotificationClassView,
    list: PropertyValue,
)
    requires
        source.reading(PropertyIdentifier::RecipientList) == Ok::<
            PropertyValueView,
            ObjectErrorView,
        >(list.model()),
    ensures
        target.writing(PropertyIdentifier::RecipientList, list) == Ok::<
            NotificationClassView,
            ObjectErrorView,
        >(NotificationClassView { recipient_list: source.recipient_list, ..target }),
{
    let views = source.recipient_list.map_values(
        |destination: DestinationView| PropertyValueView::Destination(destination),
    );
    match list {
        PropertyValue::List(values) => {
            value::lemma_list_model(values);
            assert(value::values_model(values) == views);
            assert(values@.len() == source.recipient_list.len());
            assert forall|i: int| 0 <= i < values@.len() implies (
            #[trigger] values@[i]) is Destination && values@[i]->Destination_0@
                == source.recipient_list[i] by {
                assert(value::values_model(values)[i] == values@[i].model());
                assert(views[i] == PropertyValueView::Destination(source.recipient_list[i]));
            }
            assert(values@.map_values(|value: PropertyValue| value->Destination_0@)
                =~= source.recipient_list);
        },
        _ => {
            assert(false);
        },
    }
}

/// Exactly the recipients subscribed to a transition are told of it.
pub proof fn law_only_subscribed_recipients(
    list: Seq<DestinationView>,
    place: int,
    destination: DestinationView,
)
    ensures
        subscribed(list, place).contains(destination) <==> list.contains(destination)
            && is_subscribed(destination, place),
    decreases list.len(),
{
    reveal(Seq::filter);
    if list.len() > 0 {
        let front = list.drop_last();
        law_only_subscribed_recipients(front, place, destination);
        assert(list =~= front.push(list.last()));
        assert(list.contains(destination) <==> front.contains(destination) || list.last()
            == destination) by {
            if front.contains(destination) {
                let i = front.index_of(destination);
                assert(list[i] == destination);
            }
            if list.last() == destination {
                assert(list[list.len() - 1] == destination);
            }
            if list.contains(destination) {
                let i = list.index_of(destination);
                if i < front.len() {
                    assert(front[i] == destination);
                }
            }
        }
        let kept = subscribed(front, place);
        if is_subscribed(list.last(), place) {
            assert(subscribed(list, place) == kept.push(list.last()));
            assert(kept.push(list.last()).contains(destination) <==> kept.contains(destination)
                || list.last() == destination) by {
                if kept.contains(destination) {
                    let i = kept.index_of(destination);
                    assert(kept.push(list.last())[i] == destination);
                }
                if list.last() == destination {
                    assert(kept.push(list.last())[kept.len() as int] == destination);
                }
                if kept.push(list.last()).contains(destination) {
                    let i = kept.push(list.last()).index_of(destination);
                    if i < kept.len() {
                        assert(kept[i] == destination);
                    }
                }
            }
        } else {
            assert(subscribed(list, place) == kept);
        }
    }
}

} // verus!
