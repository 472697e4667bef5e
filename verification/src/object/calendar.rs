//! Calendar object.
//!
//! A calendar is a named list of dates (holidays, shutdown weeks, every last Friday
//! of the month) that schedules point at through a `calendarReference` special
//! event, so several schedules can share one list.
//!
//! `Present_Value` is true while today is in `Date_List`. The object does not read a
//! clock; [`covers`](Calendar::covers) answers for a supplied date and
//! [`refresh`](Calendar::refresh) commits the answer, which is what the schedule
//! engine calls each tick.

use crate::object::base::BacnetObject;
use crate::object::error::{ObjectError, ObjectErrorView};
use crate::object::identifier::{ObjectIdentifier, ObjectType, PropertyIdentifier};
use crate::object::intrinsic::{AlarmEvaluation, IntrinsicReporting};
use crate::object::state::EventState;
use crate::property::calendar::CalendarEntryValue;
use crate::property::value;
use crate::property::value::{PropertyValue, PropertyValueView};
use vstd::prelude::*;

verus! {

/// Calendar object.
#[derive(Debug, Clone, PartialEq, Eq)]
pub struct Calendar {
    /// Object identifier.
    pub identifier: ObjectIdentifier,
    /// Object name.
    pub object_name: String,
    /// Description.
    pub description: String,
    /// The dates this calendar covers.
    pub date_list: Vec<CalendarEntryValue>,
    /// Whether the last refreshed date was one of them.
    pub present_value: bool,
}

/// What a calendar holds.
pub struct CalendarView {
    pub identifier: ObjectIdentifier,
    pub object_name: Seq<char>,
    pub description: Seq<char>,
    pub date_list: Seq<CalendarEntryValue>,
    pub present_value: bool,
}

impl View for Calendar {
    type V = CalendarView;

    open spec fn view(&self) -> CalendarView {
        CalendarView {
            identifier: self.identifier,
            object_name: self.object_name@,
            description: self.description@,
            date_list: self.date_list@,
            present_value: self.present_value,
        }
    }
}

/// Whether any entry of a date list covers a date.
pub open spec fn list_covers(list: Seq<CalendarEntryValue>, date: (u16, u8, u8, u8)) -> bool {
    exists|i: int| 0 <= i < list.len() && (#[trigger] list[i]).covers(date)
}

/// What Date_List reads.
pub open spec fn dates_reading(list: Seq<CalendarEntryValue>) -> PropertyValueView {
    PropertyValueView::List(
        list.map_values(|entry: CalendarEntryValue| PropertyValueView::CalendarEntry(entry)),
    )
}

/// Whether a value names an entry: a calendar entry, or a bare date.
pub open spec fn is_entry(value: PropertyValue) -> bool {
    value is CalendarEntry || value is Date
}

/// The entry a value names.
pub open spec fn entry_of(value: PropertyValue) -> CalendarEntryValue {
    match value {
        PropertyValue::Date(year, month, day, weekday) => CalendarEntryValue::Date(
            year,
            month,
            day,
            weekday,
        ),
        _ => value->CalendarEntry_0,
    }
}

/// The entries a list names, where all of its elements name one.
pub open spec fn entries_of(values: Seq<PropertyValue>) -> Result<
    Seq<CalendarEntryValue>,
    ObjectErrorView,
> {
    if forall|i: int| 0 <= i < values.len() ==> is_entry(#[trigger] values[i]) {
        Ok(values.map_values(|value: PropertyValue| entry_of(value)))
    } else {
        Err(ObjectErrorView::InvalidPropertyType)
    }
}

impl CalendarView {
    /// What a property reads.
    pub open spec fn reading(self, property: PropertyIdentifier) -> Result<
        PropertyValueView,
        ObjectErrorView,
    > {
        match property {
            PropertyIdentifier::ObjectIdentifier => Ok(
                PropertyValueView::ObjectIdentifier(self.identifier),
            ),
            PropertyIdentifier::ObjectName => Ok(
                PropertyValueView::CharacterString(self.object_name),
            ),
            PropertyIdentifier::ObjectType => Ok(
                PropertyValueView::Enumerated(ObjectType::Calendar.number()),
            ),
            PropertyIdentifier::Description => Ok(
                PropertyValueView::CharacterString(self.description),
            ),
            PropertyIdentifier::PresentValue => Ok(PropertyValueView::Boolean(self.present_value)),
            PropertyIdentifier::DateList => Ok(dates_reading(self.date_list)),
            _ => Err(ObjectErrorView::UnknownProperty),
        }
    }

    /// What a write leaves.
    pub open spec fn writing(self, property: PropertyIdentifier, value: PropertyValue) -> Result<
        CalendarView,
        ObjectErrorView,
    > {
        let wrong = Err::<CalendarView, ObjectErrorView>(ObjectErrorView::InvalidPropertyType);
        match property {
            PropertyIdentifier::ObjectName => match value {
                PropertyValue::CharacterString(text) => Ok(
                    CalendarView { object_name: text@, ..self },
                ),
                _ => wrong,
            },
            PropertyIdentifier::Description => match value {
                PropertyValue::CharacterString(text) => Ok(
                    CalendarView { description: text@, ..self },
                ),
                _ => wrong,
            },
            PropertyIdentifier::DateList => match value {
                PropertyValue::List(entries) | PropertyValue::Array(entries) => match entries_of(
                    entries@,
                ) {
                    Ok(date_list) => Ok(CalendarView { date_list, ..self }),
                    Err(error) => Err(error),
                },
                _ => wrong,
            },
            _ => Err(ObjectErrorView::PropertyNotWritable),
        }
    }
}

/// The entries a list names.
fn read_entries(values: &Vec<PropertyValue>) -> (list: Result<Vec<CalendarEntryValue>, ObjectError>)
    ensures
        match (list, entries_of(values@)) {
            (Ok(list), Ok(stated)) => list@ == stated,
            (Err(error), Err(stated)) => error@ == stated,
            _ => false,
        },
{
    let mut list: Vec<CalendarEntryValue> = Vec::new();
    let mut i: usize = 0;
    while i < values.len()
        invariant
            i <= values.len(),
            list@.len() == i,
            forall|j: int|
                0 <= j < i ==> is_entry(#[trigger] values@[j]) && list@[j] == entry_of(values@[j]),
        decreases values.len() - i,
    {
        match &values[i] {
            PropertyValue::CalendarEntry(entry) => {
                list.push(*entry);
            },
            // A bare date is the commonest thing an operator writes.
            PropertyValue::Date(year, month, day, weekday) => {
                list.push(CalendarEntryValue::Date(*year, *month, *day, *weekday));
            },
            _ => {
                assert(!is_entry(values@[i as int]));
                return Err(ObjectError::InvalidPropertyType);
            },
        }
        i += 1;
    }
    proof {
        assert(list@ =~= values@.map_values(|value: PropertyValue| entry_of(value)));
    }
    Ok(list)
}

impl Calendar {
    /// Create an empty calendar, which covers no date at all.
    pub fn new(instance: u32, object_name: String) -> (calendar: Calendar)
        ensures
            calendar.identifier == (ObjectIdentifier {
                object_type: ObjectType::Calendar,
                instance,
            }),
            calendar.object_name == object_name,
            calendar.description@ == Seq::<char>::empty(),
            calendar.date_list@ == Seq::<CalendarEntryValue>::empty(),
            !calendar.present_value,
    {
        Calendar {
            identifier: ObjectIdentifier::new(ObjectType::Calendar, instance),
            object_name,
            description: String::new(),
            date_list: Vec::new(),
            present_value: false,
        }
    }

    /// Set the description, which some clients require before they will accept a
    /// calendar object at all.
    pub fn with_description(self, description: String) -> (calendar: Calendar)
        ensures
            calendar == (Calendar { description, ..self }),
    {
        let mut calendar = self;
        calendar.description = description;
        calendar
    }

    /// Add a date, range or recurring pattern to the list.
    pub fn with_entry(self, entry: CalendarEntryValue) -> (calendar: Calendar)
        ensures
            calendar == (Calendar { date_list: calendar.date_list, ..self }),
            calendar.date_list@ == self.date_list@.push(entry),
    {
        let mut calendar = self;
        calendar.date_list.push(entry);
        calendar
    }

    /// Whether any entry covers `date`, given as (year, month, day, weekday) with
    /// weekday 1 for Monday.
    pub fn covers(&self, date: (u16, u8, u8, u8)) -> (covered: bool)
        ensures
            covered == list_covers(self.date_list@, date),
    {
        let mut i: usize = 0;
        while i < self.date_list.len()
            invariant
                i <= self.date_list.len(),
                forall|j: int| 0 <= j < i ==> !(#[trigger] self.date_list@[j]).covers(date),
            decreases self.date_list.len() - i,
        {
            if self.date_list[i].matches(date) {
                assert(self.date_list@[i as int].covers(date));
                return true;
            }
            i += 1;
        }
        false
    }

    /// Recompute `Present_Value` for `date` and report whether it changed.
    pub fn refresh(&mut self, date: (u16, u8, u8, u8)) -> (changed: bool)
        ensures
            *final(self) == (Calendar {
                present_value: list_covers(old(self).date_list@, date),
                ..*old(self)
            }),
            changed == (final(self).present_value != old(self).present_value),
    {
        let present_value = self.covers(date);
        let changed = present_value != self.present_value;
        self.present_value = present_value;
        changed
    }
}

impl BacnetObject for Calendar {
    open spec fn identity(&self) -> ObjectIdentifier {
        self.identifier
    }

    open spec fn reading(&self, property: PropertyIdentifier) -> Result<
        PropertyValueView,
        ObjectErrorView,
    > {
        self@.reading(property)
    }

    open spec fn writing(
        &self,
        after: Calendar,
        property: PropertyIdentifier,
        value: PropertyValue,
        priority: Option<u8>,
        outcome: Result<(), ObjectErrorView>,
    ) -> bool {
        match (outcome, self@.writing(property, value)) {
            (Ok(_), Ok(expected)) => after@ == expected,
            (Err(error), Err(expected)) => error == expected && after == *self,
            _ => false,
        }
    }

    open spec fn accepts(&self, property: PropertyIdentifier) -> bool {
        property == PropertyIdentifier::ObjectName || property == PropertyIdentifier::Description
            || property == PropertyIdentifier::DateList
    }

    open spec fn listing(&self) -> Seq<PropertyIdentifier> {
        seq![
            PropertyIdentifier::ObjectIdentifier,
            PropertyIdentifier::ObjectName,
            PropertyIdentifier::ObjectType,
            PropertyIdentifier::Description,
            PropertyIdentifier::PresentValue,
            PropertyIdentifier::DateList,
        ]
    }

    open spec fn sourcing(
        &self,
        after: Calendar,
        value: PropertyValue,
        outcome: Result<(), ObjectErrorView>,
    ) -> bool {
        outcome == Err::<(), ObjectErrorView>(ObjectErrorView::OptionalFunctionalityNotSupported)
            && after == *self
    }

    open spec fn reporting(&self) -> Option<IntrinsicReporting> {
        None
    }

    open spec fn reports_as(&self, after: Calendar, reporting: IntrinsicReporting) -> bool {
        after == *self
    }

    open spec fn evaluation(&self) -> Option<AlarmEvaluation> {
        None
    }

    open spec fn enters(&self, after: Calendar, state: EventState) -> bool {
        after == *self
    }

    open spec fn decoupled(&self) -> bool {
        false
    }

    fn identifier(&self) -> (identifier: ObjectIdentifier) {
        self.identifier
    }

    fn get_property(&self, property: PropertyIdentifier) -> (result: Result<
        PropertyValue,
        ObjectError,
    >) {
        match property {
            PropertyIdentifier::ObjectIdentifier => Ok(
                PropertyValue::ObjectIdentifier(self.identifier),
            ),
            PropertyIdentifier::ObjectName => Ok(
                PropertyValue::CharacterString(self.object_name.clone()),
            ),
            PropertyIdentifier::ObjectType => Ok(
                PropertyValue::Enumerated(ObjectType::Calendar.to_number()),
            ),
            PropertyIdentifier::Description => Ok(
                PropertyValue::CharacterString(self.description.clone()),
            ),
            PropertyIdentifier::PresentValue => Ok(PropertyValue::Boolean(self.present_value)),
            PropertyIdentifier::DateList => Ok(dates_value(&self.date_list)),
            _ => Err(ObjectError::UnknownProperty),
        }
    }

    fn set_property(&mut self, property: PropertyIdentifier, value: PropertyValue) -> (result:
        Result<(), ObjectError>) {
        match property {
            PropertyIdentifier::ObjectName => match value {
                PropertyValue::CharacterString(name) => {
                    self.object_name = name;
                    Ok(())
                },
                _ => Err(ObjectError::InvalidPropertyType),
            },
            PropertyIdentifier::Description => match value {
                PropertyValue::CharacterString(text) => {
                    self.description = text;
                    Ok(())
                },
                _ => Err(ObjectError::InvalidPropertyType),
            },
            PropertyIdentifier::DateList => match value {
                PropertyValue::List(entries) | PropertyValue::Array(entries) => {
                    match read_entries(&entries) {
                        Ok(list) => {
                            self.date_list = list;
                            Ok(())
                        },
                        Err(error) => Err(error),
                    }
                },
                _ => Err(ObjectError::InvalidPropertyType),
            },
            _ => Err(ObjectError::PropertyNotWritable),
        }
    }

    fn set_property_with_priority(
        &mut self,
        property: PropertyIdentifier,
        value: PropertyValue,
        priority: Option<u8>,
    ) -> (result: Result<(), ObjectError>) {
        self.set_property(property, value)
    }

    fn is_property_writable(&self, property: PropertyIdentifier) -> (writable: bool) {
        match property {
            PropertyIdentifier::ObjectName
            | PropertyIdentifier::Description
            | PropertyIdentifier::DateList => true,
            _ => false,
        }
    }

    fn property_list(&self) -> (properties: Vec<PropertyIdentifier>) {
        vec![
            PropertyIdentifier::ObjectIdentifier,
            PropertyIdentifier::ObjectName,
            PropertyIdentifier::ObjectType,
            PropertyIdentifier::Description,
            PropertyIdentifier::PresentValue,
            PropertyIdentifier::DateList,
        ]
    }

    fn set_sourced_value(&mut self, value: PropertyValue) -> (result: Result<(), ObjectError>) {
        Err(ObjectError::OptionalFunctionalityNotSupported)
    }

    fn intrinsic(&self) -> (reporting: Option<IntrinsicReporting>) {
        None
    }

    fn store_intrinsic(&mut self, reporting: IntrinsicReporting) {
    }

    fn evaluate_alarm(&self) -> (evaluation: Option<AlarmEvaluation>) {
        None
    }

    fn apply_event_state(&mut self, state: EventState) {
    }

    fn is_out_of_service(&self) -> (decoupled: bool) {
        false
    }
}

fn dates_value(list: &Vec<CalendarEntryValue>) -> (value: PropertyValue)
    ensures
        value.model() == dates_reading(list@),
{
    let mut values: Vec<PropertyValue> = Vec::new();
    let mut i: usize = 0;
    while i < list.len()
        invariant
            i <= list.len(),
            values@.len() == i,
            forall|j: int|
                0 <= j < i ==> (#[trigger] values@[j]).model() == PropertyValueView::CalendarEntry(
                    list@[j],
                ),
        decreases list.len() - i,
    {
        values.push(PropertyValue::CalendarEntry(list[i]));
        i += 1;
    }
    proof {
        value::lemma_list_model(values);
        assert(value::values_model(values) =~= list@.map_values(
            |entry: CalendarEntryValue| PropertyValueView::CalendarEntry(entry),
        ));
    }
    PropertyValue::List(values)
}

/// What Date_List reads can be written to any calendar, which then covers the same
/// dates.
pub proof fn law_date_list_carries_over(
    source: CalendarView,
    target: CalendarView,
    list: PropertyValue,
)
    requires
        source.reading(PropertyIdentifier::DateList) == Ok::<PropertyValueView, ObjectErrorView>(
            list.model(),
        ),
    ensures
        target.writing(PropertyIdentifier::DateList, list) == Ok::<CalendarView, ObjectErrorView>(
            CalendarView { date_list: source.date_list, ..target },
        ),
{
    let views = source.date_list.map_values(
        |entry: CalendarEntryValue| PropertyValueView::CalendarEntry(entry),
    );
    match list {
        PropertyValue::List(values) => {
            value::lemma_list_model(values);
            assert(value::values_model(values) == views);
            assert(values@.len() == source.date_list.len());
            assert forall|i: int| 0 <= i < values@.len() implies is_entry(#[trigger] values@[i])
                && entry_of(values@[i]) == source.date_list[i] by {
                assert(value::values_model(values)[i] == values@[i].model());
                assert(views[i] == PropertyValueView::CalendarEntry(source.date_list[i]));
            }
            assert(values@.map_values(|value: PropertyValue| entry_of(value))
                =~= source.date_list);
        },
        _ => {
            assert(false);
        },
    }
}

/// One more entry covers what was covered and what the entry covers.
pub proof fn law_entry_adds_dates(
    list: Seq<CalendarEntryValue>,
    entry: CalendarEntryValue,
    date: (u16, u8, u8, u8),
)
    ensures
        list_covers(list.push(entry), date) <==> list_covers(list, date) || entry.covers(date),
{
    let longer = list.push(entry);
    if list_covers(list, date) {
        let i = choose|i: int| 0 <= i < list.len() && (#[trigger] list[i]).covers(date);
        assert(longer[i].covers(date));
    }
    if entry.covers(date) {
        assert(longer[list.len() as int].covers(date));
    }
    if list_covers(longer, date) {
        let i = choose|i: int| 0 <= i < longer.len() && (#[trigger] longer[i]).covers(date);
        if i < list.len() {
            assert(list[i].covers(date));
        }
    }
}

} // verus!
