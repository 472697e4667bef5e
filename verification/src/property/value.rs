//! The values a property can have.

use crate::number::{Double, Real};
use crate::object::identifier::{ObjectIdentifier, PropertyIdentifier};
use crate::property::calendar::{CalendarEntryValue, DateRangeValue};
use vstd::prelude::*;

verus! {

/// BACnet address used by constructed application values.
#[derive(Debug, PartialEq, Eq)]
pub struct BacnetAddress {
    pub network: u16,
    pub mac_address: Vec<u8>,
}

/// One BACnetAddressBinding entry from Device_Address_Binding.
#[derive(Debug, PartialEq, Eq)]
pub struct AddressBindingValue {
    pub device_identifier: ObjectIdentifier,
    pub address: BacnetAddress,
}

/// Recipient choice used by BACnetRecipientProcess.
#[derive(Debug, PartialEq, Eq)]
pub enum Recipient {
    Device(ObjectIdentifier),
    Address(BacnetAddress),
}

/// Destination and process identifier for notifications.
#[derive(Debug, PartialEq, Eq)]
pub struct RecipientProcess {
    pub recipient: Recipient,
    pub process_identifier: u32,
}

/// One entry in a Notification Class Recipient_List.
#[derive(Debug, PartialEq, Eq)]
pub struct DestinationValue {
    pub valid_days: Vec<bool>,
    pub from_time: (u8, u8, u8, u8),
    pub to_time: (u8, u8, u8, u8),
    pub recipient: Recipient,
    pub process_identifier: u32,
    pub issue_confirmed_notifications: bool,
    pub transitions: Vec<bool>,
}

/// A scheduled application value at a particular time.
#[derive(Debug, PartialEq)]
pub struct TimeValueValue {
    pub time: (u8, u8, u8, u8),
    pub value: Box<PropertyValue>,
}

/// One BACnetDailySchedule entry in Weekly_Schedule.
#[derive(Debug, PartialEq)]
pub struct DailyScheduleValue {
    pub time_values: Vec<TimeValueValue>,
}

/// BACnetValueSource choice.
#[derive(Debug, Clone, Copy, PartialEq, Eq, Structural)]
pub enum ValueSourceValue {
    /// The value has no source.
    NoSource,
}

/// Reference to a property on a BACnet object.
#[derive(Debug, Clone, Copy, PartialEq, Eq, Structural)]
pub struct ObjectPropertyReference {
    pub object_identifier: ObjectIdentifier,
    pub property_identifier: PropertyIdentifier,
    pub array_index: Option<u32>,
}

/// BACnetTimeStamp choice.
#[derive(Debug, Clone, Copy, PartialEq, Eq)]
pub enum TimestampValue {
    Time(u8, u8, u8, u8),
    SequenceNumber(u32),
    DateTime { date: (u16, u8, u8, u8), time: (u8, u8, u8, u8) },
}

/// One entry in the Device object's Active_COV_Subscriptions property.
#[derive(Debug, PartialEq)]
pub struct CovSubscriptionValue {
    pub recipient: RecipientProcess,
    pub monitored_property: ObjectPropertyReference,
    pub issue_confirmed_notifications: bool,
    pub time_remaining: u32,
    pub cov_increment: Option<Real>,
}

/// When a special event applies.
#[derive(Debug, Clone, Copy, PartialEq, Eq)]
pub enum SpecialEventPeriod {
    /// On the days of one calendar entry.
    CalendarEntry(CalendarEntryValue),
    /// On the days of a Calendar object.
    CalendarReference(ObjectIdentifier),
}

/// One dated override of a schedule.
#[derive(Debug, PartialEq)]
pub struct SpecialEventValue {
    pub period: SpecialEventPeriod,
    pub time_values: Vec<TimeValueValue>,
    pub priority: u8,
}

/// A property value.
#[derive(Debug, PartialEq)]
pub enum PropertyValue {
    Null,
    Boolean(bool),
    Unsigned(u64),
    Signed(i64),
    Real(Real),
    Double(Double),
    OctetString(Vec<u8>),
    CharacterString(String),
    BitString(Vec<bool>),
    Enumerated(u32),
    Date(u16, u8, u8, u8),
    Time(u8, u8, u8, u8),
    ObjectIdentifier(ObjectIdentifier),
    Array(Vec<PropertyValue>),
    List(Vec<PropertyValue>),
    AddressBinding(AddressBindingValue),
    CovSubscription(CovSubscriptionValue),
    Timestamp(TimestampValue),
    Destination(DestinationValue),
    DailySchedule(DailyScheduleValue),
    ValueSource(ValueSourceValue),
    ObjectPropertyReference(ObjectPropertyReference),
    DateRange(DateRangeValue),
    CalendarEntry(CalendarEntryValue),
    SpecialEvent(SpecialEventValue),
}

// ---------------------------------------------------------------------------
// What the values hold
// ---------------------------------------------------------------------------

/// A network address: network number and station address.
pub struct AddressView {
    pub network: u16,
    pub mac_address: Seq<u8>,
}

/// A recipient of notifications.
pub enum RecipientView {
    Device(ObjectIdentifier),
    Address(AddressView),
}

/// One entry of a recipient list.
pub struct DestinationView {
    pub valid_days: Seq<bool>,
    pub from_time: (u8, u8, u8, u8),
    pub to_time: (u8, u8, u8, u8),
    pub recipient: RecipientView,
    pub process_identifier: u32,
    pub issue_confirmed_notifications: bool,
    pub transitions: Seq<bool>,
}

/// An active COV subscription.
pub struct CovSubscriptionView {
    pub recipient: RecipientView,
    pub process_identifier: u32,
    pub monitored_property: ObjectPropertyReference,
    pub issue_confirmed_notifications: bool,
    pub time_remaining: u32,
    pub cov_increment: Option<Real>,
}

/// A value at a time of day.
pub struct TimeValueView {
    pub time: (u8, u8, u8, u8),
    pub value: PropertyValueView,
}

/// A property value, with its strings and lists as sequences.
pub enum PropertyValueView {
    Null,
    Boolean(bool),
    Unsigned(u64),
    Signed(i64),
    Real(Real),
    Double(Double),
    OctetString(Seq<u8>),
    CharacterString(Seq<char>),
    BitString(Seq<bool>),
    Enumerated(u32),
    Date(u16, u8, u8, u8),
    Time(u8, u8, u8, u8),
    ObjectIdentifier(ObjectIdentifier),
    Array(Seq<PropertyValueView>),
    List(Seq<PropertyValueView>),
    AddressBinding(ObjectIdentifier, AddressView),
    CovSubscription(CovSubscriptionView),
    Timestamp(TimestampValue),
    Destination(DestinationView),
    DailySchedule(Seq<TimeValueView>),
    ValueSource(ValueSourceValue),
    ObjectPropertyReference(ObjectPropertyReference),
    DateRange(DateRangeValue),
    CalendarEntry(CalendarEntryValue),
    SpecialEvent(SpecialEventPeriod, Seq<TimeValueView>, u8),
}

impl View for BacnetAddress {
    type V = AddressView;

    open spec fn view(&self) -> AddressView {
        AddressView { network: self.network, mac_address: self.mac_address@ }
    }
}

impl View for Recipient {
    type V = RecipientView;

    open spec fn view(&self) -> RecipientView {
        match self {
            Recipient::Device(device) => RecipientView::Device(*device),
            Recipient::Address(address) => RecipientView::Address(address@),
        }
    }
}

impl View for DestinationValue {
    type V = DestinationView;

    open spec fn view(&self) -> DestinationView {
        DestinationView {
            valid_days: self.valid_days@,
            from_time: self.from_time,
            to_time: self.to_time,
            recipient: self.recipient@,
            process_identifier: self.process_identifier,
            issue_confirmed_notifications: self.issue_confirmed_notifications,
            transitions: self.transitions@,
        }
    }
}

impl View for CovSubscriptionValue {
    type V = CovSubscriptionView;

    open spec fn view(&self) -> CovSubscriptionView {
        CovSubscriptionView {
            recipient: self.recipient.recipient@,
            process_identifier: self.recipient.process_identifier,
            monitored_property: self.monitored_property,
            issue_confirmed_notifications: self.issue_confirmed_notifications,
            time_remaining: self.time_remaining,
            cov_increment: self.cov_increment,
        }
    }
}

impl TimeValueValue {
    /// What the entry holds.
    pub open spec fn model(self) -> TimeValueView
        decreases self,
    {
        TimeValueView { time: self.time, value: (*self.value).model() }
    }
}

/// What the entries of a day hold.
pub open spec fn time_values_model(entries: Vec<TimeValueValue>) -> Seq<TimeValueView>
    decreases entries,
{
    Seq::new(
        entries@.len(),
        |i: int|
            if 0 <= i < entries@.len() {
                entries[i].model()
            } else {
                arbitrary()
            },
    )
}

/// What the elements of a list hold.
pub open spec fn values_model(values: Vec<PropertyValue>) -> Seq<PropertyValueView>
    decreases values,
{
    Seq::new(
        values@.len(),
        |i: int|
            if 0 <= i < values@.len() {
                values[i].model()
            } else {
                arbitrary()
            },
    )
}

impl PropertyValue {
    /// What the value holds.
    pub open spec fn model(self) -> PropertyValueView
        decreases self,
    {
        match self {
            PropertyValue::Null => PropertyValueView::Null,
            PropertyValue::Boolean(v) => PropertyValueView::Boolean(v),
            PropertyValue::Unsigned(v) => PropertyValueView::Unsigned(v),
            PropertyValue::Signed(v) => PropertyValueView::Signed(v),
            PropertyValue::Real(v) => PropertyValueView::Real(v),
            PropertyValue::Double(v) => PropertyValueView::Double(v),
            PropertyValue::OctetString(v) => PropertyValueView::OctetString(v@),
            PropertyValue::CharacterString(v) => PropertyValueView::CharacterString(v@),
            PropertyValue::BitString(v) => PropertyValueView::BitString(v@),
            PropertyValue::Enumerated(v) => PropertyValueView::Enumerated(v),
            PropertyValue::Date(y, m, d, w) => PropertyValueView::Date(y, m, d, w),
            PropertyValue::Time(h, m, s, f) => PropertyValueView::Time(h, m, s, f),
            PropertyValue::ObjectIdentifier(v) => PropertyValueView::ObjectIdentifier(v),
            PropertyValue::Array(v) => PropertyValueView::Array(values_model(v)),
            PropertyValue::List(v) => PropertyValueView::List(values_model(v)),
            PropertyValue::AddressBinding(v) => PropertyValueView::AddressBinding(
                v.device_identifier,
                v.address@,
            ),
            PropertyValue::CovSubscription(v) => PropertyValueView::CovSubscription(v@),
            PropertyValue::Timestamp(v) => PropertyValueView::Timestamp(v),
            PropertyValue::Destination(v) => PropertyValueView::Destination(v@),
            PropertyValue::DailySchedule(v) => PropertyValueView::DailySchedule(
                time_values_model(v.time_values),
            ),
            PropertyValue::ValueSource(v) => PropertyValueView::ValueSource(v),
            PropertyValue::ObjectPropertyReference(
                v,
            ) => PropertyValueView::ObjectPropertyReference(v),
            PropertyValue::DateRange(v) => PropertyValueView::DateRange(v),
            PropertyValue::CalendarEntry(v) => PropertyValueView::CalendarEntry(v),
            PropertyValue::SpecialEvent(v) => PropertyValueView::SpecialEvent(
                v.period,
                time_values_model(v.time_values),
                v.priority,
            ),
        }
    }
}

/// Element by element, a list holds what its elements hold.
pub proof fn lemma_list_model(values: Vec<PropertyValue>)
    ensures
        values_model(values).len() == values@.len(),
        forall|i: int|
            0 <= i < values@.len() ==> (#[trigger] values_model(values)[i]) == values@[i].model(),
        PropertyValue::Array(values).model() == PropertyValueView::Array(values_model(values)),
        PropertyValue::List(values).model() == PropertyValueView::List(values_model(values)),
{
    reveal_with_fuel(PropertyValue::model, 2);
    reveal_with_fuel(values_model, 2);
}

/// Entry by entry, a day holds what its entries hold.
pub proof fn lemma_entries_model(entries: Vec<TimeValueValue>)
    ensures
        time_values_model(entries).len() == entries@.len(),
        forall|i: int|
            0 <= i < entries@.len() ==> (#[trigger] time_values_model(entries)[i])
                == entries@[i].model(),
        forall|i: int|
            0 <= i < entries@.len() ==> (#[trigger] entries@[i]).model() == (TimeValueView {
                time: entries@[i].time,
                value: entries@[i].value.model(),
            }),
{
    reveal_with_fuel(time_values_model, 2);
    reveal_with_fuel(TimeValueValue::model, 2);
}

// ---------------------------------------------------------------------------
// Equality
// ---------------------------------------------------------------------------

/// Whether two optional numbers are both absent or the same number.
pub open spec fn same_increment(a: Option<Real>, b: Option<Real>) -> bool {
    match (a, b) {
        (Some(a), Some(b)) => a.same_number(b),
        (None, None) => true,
        _ => false,
    }
}

impl CovSubscriptionView {
    /// Whether two subscriptions are equal, comparing increments as numbers.
    pub open spec fn same(self, other: CovSubscriptionView) -> bool {
        &&& self.recipient == other.recipient
        &&& self.process_identifier == other.process_identifier
        &&& self.monitored_property == other.monitored_property
        &&& self.issue_confirmed_notifications == other.issue_confirmed_notifications
        &&& self.time_remaining == other.time_remaining
        &&& same_increment(self.cov_increment, other.cov_increment)
    }
}

/// Whether two days hold the same values at the same times.
pub open spec fn same_time_values(a: Seq<TimeValueView>, b: Seq<TimeValueView>) -> bool
    decreases a,
{
    &&& a.len() == b.len()
    &&& forall|i: int| 0 <= i < a.len() ==> (#[trigger] a[i]).same(b[i])
}

impl TimeValueView {
    /// Whether two entries hold the same value at the same time.
    pub open spec fn same(self, other: TimeValueView) -> bool
        decreases self,
    {
        self.time == other.time && self.value.same(other.value)
    }
}

impl PropertyValueView {
    /// Whether two values are equal. Real and double precision numbers are
    /// compared as numbers: the two zeros are equal, and what is not a number
    /// equals nothing.
    pub open spec fn same(self, other: PropertyValueView) -> bool
        decreases self,
    {
        match (self, other) {
            (PropertyValueView::Real(a), PropertyValueView::Real(b)) => a.same_number(b),
            (PropertyValueView::Double(a), PropertyValueView::Double(b)) => a.same_number(b),
            (PropertyValueView::Array(a), PropertyValueView::Array(b)) => {
                &&& a.len() == b.len()
                &&& forall|i: int| 0 <= i < a.len() ==> (#[trigger] a[i]).same(b[i])
            },
            (PropertyValueView::List(a), PropertyValueView::List(b)) => {
                &&& a.len() == b.len()
                &&& forall|i: int| 0 <= i < a.len() ==> (#[trigger] a[i]).same(b[i])
            },
            (
                PropertyValueView::CovSubscription(a),
                PropertyValueView::CovSubscription(b),
            ) => a.same(b),
            (
                PropertyValueView::DailySchedule(a),
                PropertyValueView::DailySchedule(b),
            ) => same_time_values(a, b),
            (
                PropertyValueView::SpecialEvent(p, a, n),
                PropertyValueView::SpecialEvent(q, b, m),
            ) => p == q && n == m && same_time_values(a, b),
            _ => self == other,
        }
    }
}

/// Whether two octet sequences are equal.
pub fn same_octets(a: &Vec<u8>, b: &Vec<u8>) -> (same: bool)
    ensures
        same == (a@ == b@),
{
    if a.len() != b.len() {
        return false;
    }
    let mut i: usize = 0;
    while i < a.len()
        invariant
            a@.len() == b@.len(),
            i <= a@.len(),
            forall|k: int| 0 <= k < i ==> a@[k] == b@[k],
        decreases a@.len() - i,
    {
        if a[i] != b[i] {
            return false;
        }
        i = i + 1;
    }
    assert(a@ =~= b@);
    true
}

/// Whether two bit strings are equal.
pub fn same_bits(a: &Vec<bool>, b: &Vec<bool>) -> (same: bool)
    ensures
        same == (a@ == b@),
{
    if a.len() != b.len() {
        return false;
    }
    let mut i: usize = 0;
    while i < a.len()
        invariant
            a@.len() == b@.len(),
            i <= a@.len(),
            forall|k: int| 0 <= k < i ==> a@[k] == b@[k],
        decreases a@.len() - i,
    {
        if a[i] != b[i] {
            return false;
        }
        i = i + 1;
    }
    assert(a@ =~= b@);
    true
}

/// Whether two times are equal.
pub fn same_time(a: (u8, u8, u8, u8), b: (u8, u8, u8, u8)) -> (same: bool)
    ensures
        same == (a == b),
{
    a.0 == b.0 && a.1 == b.1 && a.2 == b.2 && a.3 == b.3
}

/// Whether two dates are equal.
pub fn same_date(a: (u16, u8, u8, u8), b: (u16, u8, u8, u8)) -> (same: bool)
    ensures
        same == (a == b),
{
    a.0 == b.0 && a.1 == b.1 && a.2 == b.2 && a.3 == b.3
}

impl BacnetAddress {
    /// Whether two addresses are equal.
    pub fn same_as(&self, other: &BacnetAddress) -> (same: bool)
        ensures
            same == (self@ == other@),
    {
        self.network == other.network && same_octets(&self.mac_address, &other.mac_address)
    }
}

impl Recipient {
    /// Whether two recipients are equal.
    pub fn same_as(&self, other: &Recipient) -> (same: bool)
        ensures
            same == (self@ == other@),
    {
        match (self, other) {
            (Recipient::Device(a), Recipient::Device(b)) => *a == *b,
            (Recipient::Address(a), Recipient::Address(b)) => a.same_as(b),
            _ => false,
        }
    }
}

impl DestinationValue {
    /// Whether two destinations are equal.
    pub fn same_as(&self, other: &DestinationValue) -> (same: bool)
        ensures
            same == (self@ == other@),
    {
        same_bits(&self.valid_days, &other.valid_days) && same_time(self.from_time, other.from_time)
            && same_time(self.to_time, other.to_time) && self.recipient.same_as(&other.recipient)
            && self.process_identifier == other.process_identifier
            && self.issue_confirmed_notifications == other.issue_confirmed_notifications
            && same_bits(&self.transitions, &other.transitions)
    }
}

impl TimestampValue {
    /// Whether two timestamps are equal.
    pub fn same_as(&self, other: &TimestampValue) -> (same: bool)
        ensures
            same == (*self == *other),
    {
        match (self, other) {
            (TimestampValue::Time(a, b, c, d), TimestampValue::Time(e, f, g, h)) => {
                *a == *e && *b == *f && *c == *g && *d == *h
            },
            (TimestampValue::SequenceNumber(a), TimestampValue::SequenceNumber(b)) => *a == *b,
            (
                TimestampValue::DateTime { date: a, time: b },
                TimestampValue::DateTime { date: c, time: d },
            ) => same_date(*a, *c) && same_time(*b, *d),
            _ => false,
        }
    }
}

impl DateRangeValue {
    /// Whether two ranges are equal.
    pub fn same_as(&self, other: &DateRangeValue) -> (same: bool)
        ensures
            same == (*self == *other),
    {
        same_date(self.start, other.start) && same_date(self.end, other.end)
    }
}

impl CalendarEntryValue {
    /// Whether two calendar entries are equal.
    pub fn same_as(&self, other: &CalendarEntryValue) -> (same: bool)
        ensures
            same == (*self == *other),
    {
        match (self, other) {
            (CalendarEntryValue::Date(a, b, c, d), CalendarEntryValue::Date(e, f, g, h)) => {
                *a == *e && *b == *f && *c == *g && *d == *h
            },
            (CalendarEntryValue::DateRange(a), CalendarEntryValue::DateRange(b)) => a.same_as(b),
            (CalendarEntryValue::WeekNDay(a, b, c), CalendarEntryValue::WeekNDay(d, e, f)) => {
                *a == *d && *b == *e && *c == *f
            },
            _ => false,
        }
    }
}

impl SpecialEventPeriod {
    /// Whether two periods are equal.
    pub fn same_as(&self, other: &SpecialEventPeriod) -> (same: bool)
        ensures
            same == (*self == *other),
    {
        match (self, other) {
            (
                SpecialEventPeriod::CalendarEntry(a),
                SpecialEventPeriod::CalendarEntry(b),
            ) => a.same_as(b),
            (
                SpecialEventPeriod::CalendarReference(a),
                SpecialEventPeriod::CalendarReference(b),
            ) => *a == *b,
            _ => false,
        }
    }
}

impl ObjectPropertyReference {
    /// Whether two references are equal.
    pub fn same_as(&self, other: &ObjectPropertyReference) -> (same: bool)
        ensures
            same == (*self == *other),
    {
        self.object_identifier == other.object_identifier && self.property_identifier
            == other.property_identifier && match (self.array_index, other.array_index) {
            (Some(a), Some(b)) => a == b,
            (None, None) => true,
            _ => false,
        }
    }
}

impl CovSubscriptionValue {
    /// Whether two subscriptions are equal, comparing increments as numbers.
    pub fn same_as(&self, other: &CovSubscriptionValue) -> (same: bool)
        ensures
            same == self@.same(other@),
    {
        self.recipient.recipient.same_as(&other.recipient.recipient)
            && self.recipient.process_identifier == other.recipient.process_identifier
            && self.monitored_property.same_as(&other.monitored_property)
            && self.issue_confirmed_notifications == other.issue_confirmed_notifications
            && self.time_remaining == other.time_remaining && match (
            self.cov_increment,
            other.cov_increment,
        ) {
            (Some(a), Some(b)) => a.equals(b),
            (None, None) => true,
            _ => false,
        }
    }
}

/// Whether two days hold the same values at the same times.
pub fn same_entries(a: &Vec<TimeValueValue>, b: &Vec<TimeValueValue>) -> (same: bool)
    ensures
        same == same_time_values(time_values_model(*a), time_values_model(*b)),
    decreases a,
{
    if a.len() != b.len() {
        return false;
    }
    let ghost left = time_values_model(*a);
    let ghost right = time_values_model(*b);
    let mut i: usize = 0;
    while i < a.len()
        invariant
            a@.len() == b@.len(),
            i <= a@.len(),
            left == time_values_model(*a),
            right == time_values_model(*b),
            forall|k: int| 0 <= k < i ==> (#[trigger] left[k]).same(right[k]),
        decreases a@.len() - i,
    {
        let first = &a[i];
        let second = &b[i];
        assert(left[i as int] == first.model() && right[i as int] == second.model());
        if !same_time(first.time, second.time) || !first.value.same_as(&second.value) {
            assert(!left[i as int].same(right[i as int]));
            return false;
        }
        i = i + 1;
    }
    true
}

/// Whether two lists hold the same values.
pub fn same_values(a: &Vec<PropertyValue>, b: &Vec<PropertyValue>) -> (same: bool)
    ensures
        same == (values_model(*a).len() == values_model(*b).len() && forall|i: int|
            0 <= i < values_model(*a).len() ==> (#[trigger] values_model(*a)[i]).same(
                values_model(*b)[i],
            )),
    decreases a,
{
    if a.len() != b.len() {
        return false;
    }
    let ghost left = values_model(*a);
    let ghost right = values_model(*b);
    let mut i: usize = 0;
    while i < a.len()
        invariant
            a@.len() == b@.len(),
            i <= a@.len(),
            left == values_model(*a),
            right == values_model(*b),
            forall|k: int| 0 <= k < i ==> (#[trigger] left[k]).same(right[k]),
        decreases a@.len() - i,
    {
        assert(left[i as int] == a[i as int].model() && right[i as int] == b[i as int].model());
        if !a[i].same_as(&b[i]) {
            assert(!left[i as int].same(right[i as int]));
            return false;
        }
        i = i + 1;
    }
    true
}

impl PropertyValue {
    /// Whether two values are equal, comparing numbers as numbers.
    pub fn same_as(&self, other: &PropertyValue) -> (same: bool)
        ensures
            same == self.model().same(other.model()),
        decreases self,
    {
        match (self, other) {
            (PropertyValue::Null, PropertyValue::Null) => true,
            (PropertyValue::Boolean(a), PropertyValue::Boolean(b)) => *a == *b,
            (PropertyValue::Unsigned(a), PropertyValue::Unsigned(b)) => *a == *b,
            (PropertyValue::Signed(a), PropertyValue::Signed(b)) => *a == *b,
            (PropertyValue::Real(a), PropertyValue::Real(b)) => a.equals(*b),
            (PropertyValue::Double(a), PropertyValue::Double(b)) => a.equals(*b),
            (PropertyValue::OctetString(a), PropertyValue::OctetString(b)) => same_octets(a, b),
            (PropertyValue::CharacterString(a), PropertyValue::CharacterString(b)) => a.eq(b),
            (PropertyValue::BitString(a), PropertyValue::BitString(b)) => same_bits(a, b),
            (PropertyValue::Enumerated(a), PropertyValue::Enumerated(b)) => *a == *b,
            (PropertyValue::Date(a, b, c, d), PropertyValue::Date(e, f, g, h)) => {
                *a == *e && *b == *f && *c == *g && *d == *h
            },
            (PropertyValue::Time(a, b, c, d), PropertyValue::Time(e, f, g, h)) => {
                *a == *e && *b == *f && *c == *g && *d == *h
            },
            (PropertyValue::ObjectIdentifier(a), PropertyValue::ObjectIdentifier(b)) => *a == *b,
            (PropertyValue::Array(a), PropertyValue::Array(b)) => same_values(a, b),
            (PropertyValue::List(a), PropertyValue::List(b)) => same_values(a, b),
            (PropertyValue::AddressBinding(a), PropertyValue::AddressBinding(b)) => {
                a.device_identifier == b.device_identifier && a.address.same_as(&b.address)
            },
            (PropertyValue::CovSubscription(a), PropertyValue::CovSubscription(b)) => a.same_as(b),
            (PropertyValue::Timestamp(a), PropertyValue::Timestamp(b)) => a.same_as(b),
            (PropertyValue::Destination(a), PropertyValue::Destination(b)) => a.same_as(b),
            (PropertyValue::DailySchedule(a), PropertyValue::DailySchedule(b)) => same_entries(
                &a.time_values,
                &b.time_values,
            ),
            (PropertyValue::ValueSource(a), PropertyValue::ValueSource(b)) => *a == *b,
            (
                PropertyValue::ObjectPropertyReference(a),
                PropertyValue::ObjectPropertyReference(b),
            ) => a.same_as(b),
            (PropertyValue::DateRange(a), PropertyValue::DateRange(b)) => a.same_as(b),
            (PropertyValue::CalendarEntry(a), PropertyValue::CalendarEntry(b)) => a.same_as(b),
            (PropertyValue::SpecialEvent(a), PropertyValue::SpecialEvent(b)) => {
                a.period.same_as(&b.period) && a.priority == b.priority && same_entries(
                    &a.time_values,
                    &b.time_values,
                )
            },
            _ => false,
        }
    }
}

// ---------------------------------------------------------------------------
// Copies
// ---------------------------------------------------------------------------

impl Clone for BacnetAddress {
    fn clone(&self) -> (copy: BacnetAddress)
        ensures
            copy@ == self@,
    {
        let mac_address = self.mac_address.clone();
        assert(mac_address@ =~= self.mac_address@);
        BacnetAddress { network: self.network, mac_address }
    }
}

impl Clone for AddressBindingValue {
    fn clone(&self) -> (copy: AddressBindingValue)
        ensures
            copy.device_identifier == self.device_identifier,
            copy.address@ == self.address@,
    {
        AddressBindingValue {
            device_identifier: self.device_identifier,
            address: self.address.clone(),
        }
    }
}

impl Clone for Recipient {
    fn clone(&self) -> (copy: Recipient)
        ensures
            copy@ == self@,
    {
        match self {
            Recipient::Device(device) => Recipient::Device(*device),
            Recipient::Address(address) => Recipient::Address(address.clone()),
        }
    }
}

impl Clone for RecipientProcess {
    fn clone(&self) -> (copy: RecipientProcess)
        ensures
            copy.recipient@ == self.recipient@,
            copy.process_identifier == self.process_identifier,
    {
        RecipientProcess {
            recipient: self.recipient.clone(),
            process_identifier: self.process_identifier,
        }
    }
}

impl Clone for DestinationValue {
    fn clone(&self) -> (copy: DestinationValue)
        ensures
            copy@ == self@,
    {
        let valid_days = self.valid_days.clone();
        assert(valid_days@ =~= self.valid_days@);
        let transitions = self.transitions.clone();
        assert(transitions@ =~= self.transitions@);
        DestinationValue {
            valid_days,
            from_time: self.from_time,
            to_time: self.to_time,
            recipient: self.recipient.clone(),
            process_identifier: self.process_identifier,
            issue_confirmed_notifications: self.issue_confirmed_notifications,
            transitions,
        }
    }
}

impl Clone for CovSubscriptionValue {
    fn clone(&self) -> (copy: CovSubscriptionValue)
        ensures
            copy@ == self@,
    {
        CovSubscriptionValue {
            recipient: self.recipient.clone(),
            monitored_property: self.monitored_property,
            issue_confirmed_notifications: self.issue_confirmed_notifications,
            time_remaining: self.time_remaining,
            cov_increment: self.cov_increment,
        }
    }
}

/// A copy of the entries of a day.
pub fn copy_entries(entries: &Vec<TimeValueValue>) -> (copy: Vec<TimeValueValue>)
    ensures
        time_values_model(copy) == time_values_model(*entries),
        copy@.len() == entries@.len(),
    decreases entries,
{
    let mut copy: Vec<TimeValueValue> = Vec::new();
    let mut i: usize = 0;
    while i < entries.len()
        invariant
            i <= entries@.len(),
            copy@.len() == i,
            forall|k: int| 0 <= k < i ==> (#[trigger] copy@[k]).model() == entries@[k].model(),
        decreases entries@.len() - i,
    {
        let entry = &entries[i];
        let value = entry.value.duplicate();
        copy.push(TimeValueValue { time: entry.time, value: Box::new(value) });
        assert(copy@[i as int].model() == entries@[i as int].model());
        i = i + 1;
    }
    assert(time_values_model(copy) =~= time_values_model(*entries));
    copy
}

/// A copy of a list of values.
pub fn copy_values(values: &Vec<PropertyValue>) -> (copy: Vec<PropertyValue>)
    ensures
        values_model(copy) == values_model(*values),
        copy@.len() == values@.len(),
    decreases values,
{
    let mut copy: Vec<PropertyValue> = Vec::new();
    let mut i: usize = 0;
    while i < values.len()
        invariant
            i <= values@.len(),
            copy@.len() == i,
            forall|k: int| 0 <= k < i ==> (#[trigger] copy@[k]).model() == values@[k].model(),
        decreases values@.len() - i,
    {
        let value = values[i].duplicate();
        copy.push(value);
        i = i + 1;
    }
    assert(values_model(copy) =~= values_model(*values));
    copy
}

impl PropertyValue {
    /// A copy of this value.
    pub fn duplicate(&self) -> (copy: PropertyValue)
        ensures
            copy.model() == self.model(),
        decreases self,
    {
        match self {
            PropertyValue::Null => PropertyValue::Null,
            PropertyValue::Boolean(v) => PropertyValue::Boolean(*v),
            PropertyValue::Unsigned(v) => PropertyValue::Unsigned(*v),
            PropertyValue::Signed(v) => PropertyValue::Signed(*v),
            PropertyValue::Real(v) => PropertyValue::Real(*v),
            PropertyValue::Double(v) => PropertyValue::Double(*v),
            PropertyValue::OctetString(v) => {
                let copy = v.clone();
                assert(copy@ =~= v@);
                PropertyValue::OctetString(copy)
            },
            PropertyValue::CharacterString(v) => PropertyValue::CharacterString(v.clone()),
            PropertyValue::BitString(v) => {
                let copy = v.clone();
                assert(copy@ =~= v@);
                PropertyValue::BitString(copy)
            },
            PropertyValue::Enumerated(v) => PropertyValue::Enumerated(*v),
            PropertyValue::Date(y, m, d, w) => PropertyValue::Date(*y, *m, *d, *w),
            PropertyValue::Time(h, m, s, f) => PropertyValue::Time(*h, *m, *s, *f),
            PropertyValue::ObjectIdentifier(v) => PropertyValue::ObjectIdentifier(*v),
            PropertyValue::Array(v) => PropertyValue::Array(copy_values(v)),
            PropertyValue::List(v) => PropertyValue::List(copy_values(v)),
            PropertyValue::AddressBinding(v) => PropertyValue::AddressBinding(v.clone()),
            PropertyValue::CovSubscription(v) => PropertyValue::CovSubscription(v.clone()),
            PropertyValue::Timestamp(v) => PropertyValue::Timestamp(*v),
            PropertyValue::Destination(v) => PropertyValue::Destination(v.clone()),
            PropertyValue::DailySchedule(v) => PropertyValue::DailySchedule(
                DailyScheduleValue { time_values: copy_entries(&v.time_values) },
            ),
            PropertyValue::ValueSource(v) => PropertyValue::ValueSource(*v),
            PropertyValue::ObjectPropertyReference(
                v,
            ) => PropertyValue::ObjectPropertyReference(*v),
            PropertyValue::DateRange(v) => PropertyValue::DateRange(*v),
            PropertyValue::CalendarEntry(v) => PropertyValue::CalendarEntry(*v),
            PropertyValue::SpecialEvent(v) => PropertyValue::SpecialEvent(
                SpecialEventValue {
                    period: v.period,
                    time_values: copy_entries(&v.time_values),
                    priority: v.priority,
                },
            ),
        }
    }
}

impl Clone for PropertyValue {
    fn clone(&self) -> (copy: PropertyValue)
        ensures
            copy.model() == self.model(),
    {
        self.duplicate()
    }
}

impl Clone for TimeValueValue {
    fn clone(&self) -> (copy: TimeValueValue)
        ensures
            copy.model() == self.model(),
    {
        TimeValueValue { time: self.time, value: Box::new(self.value.duplicate()) }
    }
}

impl Clone for DailyScheduleValue {
    fn clone(&self) -> (copy: DailyScheduleValue)
        ensures
            time_values_model(copy.time_values) == time_values_model(self.time_values),
    {
        DailyScheduleValue { time_values: copy_entries(&self.time_values) }
    }
}

impl Clone for SpecialEventValue {
    fn clone(&self) -> (copy: SpecialEventValue)
        ensures
            copy.period == self.period,
            copy.priority == self.priority,
            time_values_model(copy.time_values) == time_values_model(self.time_values),
    {
        SpecialEventValue {
            period: self.period,
            time_values: copy_entries(&self.time_values),
            priority: self.priority,
        }
    }
}

} // verus!
