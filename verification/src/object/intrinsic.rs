//! Intrinsic reporting (alarm and event) state shared by alarm-capable objects.
//!
//! Every intrinsic-reporting object has the same alarm properties whichever event
//! algorithm it runs. [`IntrinsicReporting`] holds that shared state, and
//! [`intrinsic_get`] and [`intrinsic_set`] answer for it.
//!
//! Objects carry `alarm: Option<IntrinsicReporting>`; `None` means event detection
//! is not configured.

use crate::number::Real;
use crate::object::error;
use crate::object::error::{ObjectError, ObjectErrorView};
use crate::object::identifier::PropertyIdentifier;
use crate::object::state::{EventState, Reliability};
use crate::property::value;
use crate::property::value::{PropertyValue, PropertyValueView, TimestampValue};
use vstd::prelude::*;

verus! {

/// A BACnet event transition.
#[derive(Debug, Clone, Copy, PartialEq, Eq, Structural)]
pub enum EventTransition {
    /// Into an off-normal state (off-normal, high-limit or low-limit).
    ToOffnormal,
    /// Into the fault state.
    ToFault,
    /// Back into the normal state.
    ToNormal,
}

impl EventTransition {
    /// The transition implied by entering `state`.
    pub open spec fn entering(state: EventState) -> EventTransition {
        match state {
            EventState::Normal => EventTransition::ToNormal,
            EventState::Fault => EventTransition::ToFault,
            _ => EventTransition::ToOffnormal,
        }
    }

    /// The place of this transition in a transition bit string.
    pub open spec fn place(self) -> int {
        match self {
            EventTransition::ToOffnormal => 0,
            EventTransition::ToFault => 1,
            EventTransition::ToNormal => 2,
        }
    }

    /// The transition implied by entering `state`.
    ///
    /// High-limit and low-limit are off-normal transitions: they share the
    /// `to_offnormal` acknowledgement and priority bucket.
    pub fn for_state(state: EventState) -> (transition: EventTransition)
        ensures
            transition == EventTransition::entering(state),
    {
        match state {
            EventState::Normal => EventTransition::ToNormal,
            EventState::Fault => EventTransition::ToFault,
            _ => EventTransition::ToOffnormal,
        }
    }

    /// Index of this transition in a `BACnetEventTransitionBits` bit string.
    pub fn bit_index(self) -> (index: usize)
        ensures
            index == self.place(),
    {
        match self {
            EventTransition::ToOffnormal => 0,
            EventTransition::ToFault => 1,
            EventTransition::ToNormal => 2,
        }
    }
}

/// `BACnetEventTransitionBits`: a three-bit string ordered to-offnormal, to-fault,
/// to-normal. Used by `Event_Enable`, `Acked_Transitions` and the notification
/// class `Ack_Required`.
#[derive(Debug, Clone, Copy, PartialEq, Eq, Structural)]
pub struct EventTransitionBits {
    /// to-offnormal bit.
    pub to_offnormal: bool,
    /// to-fault bit.
    pub to_fault: bool,
    /// to-normal bit.
    pub to_normal: bool,
}

/// The bit at a place of a bit string; missing trailing bits read as `false`.
pub open spec fn bit_or_false(bits: Seq<bool>, place: int) -> bool {
    place < bits.len() && bits[place]
}

/// The bit at a place; missing trailing bits read as `false`.
pub fn bit_at(bits: &[bool], place: usize) -> (bit: bool)
    ensures
        bit == bit_or_false(bits@, place as int),
{
    place < bits.len() && bits[place]
}

impl EventTransitionBits {
    /// The bits as a bit string.
    pub open spec fn bits(self) -> Seq<bool> {
        seq![self.to_offnormal, self.to_fault, self.to_normal]
    }

    /// What a bit string stands for.
    pub open spec fn of_bits(bits: Seq<bool>) -> EventTransitionBits {
        EventTransitionBits {
            to_offnormal: bit_or_false(bits, 0),
            to_fault: bit_or_false(bits, 1),
            to_normal: bit_or_false(bits, 2),
        }
    }

    /// These bits with one transition set or cleared.
    pub open spec fn with(self, transition: EventTransition, value: bool) -> EventTransitionBits {
        match transition {
            EventTransition::ToOffnormal => EventTransitionBits { to_offnormal: value, ..self },
            EventTransition::ToFault => EventTransitionBits { to_fault: value, ..self },
            EventTransition::ToNormal => EventTransitionBits { to_normal: value, ..self },
        }
    }

    /// All three transitions set.
    pub fn all() -> (bits: EventTransitionBits)
        ensures
            bits.bits() == seq![true, true, true],
    {
        EventTransitionBits { to_offnormal: true, to_fault: true, to_normal: true }
    }

    /// No transitions set.
    pub fn none() -> (bits: EventTransitionBits)
        ensures
            bits.bits() == seq![false, false, false],
    {
        EventTransitionBits { to_offnormal: false, to_fault: false, to_normal: false }
    }

    /// Whether `transition` is set.
    pub fn contains(&self, transition: EventTransition) -> (set: bool)
        ensures
            set == self.bits()[transition.place()],
    {
        match transition {
            EventTransition::ToOffnormal => self.to_offnormal,
            EventTransition::ToFault => self.to_fault,
            EventTransition::ToNormal => self.to_normal,
        }
    }

    /// Set or clear `transition`.
    pub fn set(&mut self, transition: EventTransition, value: bool)
        ensures
            *final(self) == old(self).with(transition, value),
    {
        match transition {
            EventTransition::ToOffnormal => {
                self.to_offnormal = value;
            },
            EventTransition::ToFault => {
                self.to_fault = value;
            },
            EventTransition::ToNormal => {
                self.to_normal = value;
            },
        }
    }

    /// The bit string in BACnet order.
    pub fn to_bits(self) -> (bits: Vec<bool>)
        ensures
            bits@ == self.bits(),
    {
        vec![self.to_offnormal, self.to_fault, self.to_normal]
    }

    /// Read the bit string in BACnet order. Missing trailing bits read as `false`.
    pub fn from_bits(bits: &[bool]) -> (value: EventTransitionBits)
        ensures
            value == EventTransitionBits::of_bits(bits@),
    {
        EventTransitionBits {
            to_offnormal: bit_at(bits, 0),
            to_fault: bit_at(bits, 1),
            to_normal: bit_at(bits, 2),
        }
    }
}

/// Transition bits read back from their bit string as they were.
pub proof fn law_transition_bits_round_trip(bits: EventTransitionBits)
    ensures
        EventTransitionBits::of_bits(bits.bits()) == bits,
{
}

/// Setting a transition sets that one and leaves the other two.
pub proof fn law_setting_one_transition(
    bits: EventTransitionBits,
    transition: EventTransition,
    other: EventTransition,
    value: bool,
)
    ensures
        bits.with(transition, value).bits()[transition.place()] == value,
        other != transition ==> bits.with(transition, value).bits()[other.place()]
            == bits.bits()[other.place()],
{
}

/// `BACnetNotifyType`: whether a notification is an alarm, a plain event, or an
/// acknowledgement notification.
#[derive(Debug, Clone, Copy, PartialEq, Eq, Structural)]
pub enum NotifyType {
    /// Alarm (0).
    Alarm,
    /// Event (1).
    Event,
    /// Acknowledgement notification (2).
    AckNotification,
}

impl NotifyType {
    /// The number that stands for this value on the wire.
    pub open spec fn number(self) -> u32 {
        match self {
            NotifyType::Alarm => 0,
            NotifyType::Event => 1,
            NotifyType::AckNotification => 2,
        }
    }

    /// The number that stands for this value on the wire.
    pub fn to_number(self) -> (number: u32)
        ensures
            number == self.number(),
    {
        match self {
            NotifyType::Alarm => 0,
            NotifyType::Event => 1,
            NotifyType::AckNotification => 2,
        }
    }

    /// The value that a number on the wire stands for.
    pub fn try_from(value: u32) -> (kind: Result<NotifyType, ObjectError>)
        ensures
            match kind {
                Ok(kind) => kind.number() == value,
                Err(error) => value > 2 && error@ == ObjectErrorView::InvalidPropertyType,
            },
    {
        match value {
            0 => Ok(NotifyType::Alarm),
            1 => Ok(NotifyType::Event),
            2 => Ok(NotifyType::AckNotification),
            _ => Err(ObjectError::InvalidPropertyType),
        }
    }
}

impl From<NotifyType> for u32 {
    fn from(value: NotifyType) -> (number: u32) {
        value.to_number()
    }
}

impl vstd::std_specs::convert::FromSpecImpl<NotifyType> for u32 {
    open spec fn obeys_from_spec() -> bool {
        true
    }

    open spec fn from_spec(value: NotifyType) -> u32 {
        value.number()
    }
}

/// The timestamp of a transition that was not recorded yet.
pub open spec fn no_time() -> TimestampValue {
    TimestampValue::Time(255, 255, 255, 255)
}

/// The timestamp BACnet uses for "no transition recorded yet": an unspecified time.
pub fn unspecified_timestamp() -> (stamp: TimestampValue)
    ensures
        stamp == no_time(),
{
    TimestampValue::Time(255, 255, 255, 255)
}

/// What an event algorithm observed, in terms of the object's own value type.
#[derive(Debug, Clone, Copy, PartialEq)]
pub enum AlarmTrigger {
    /// CHANGE_OF_STATE on a multi-state object.
    MultistateChange {
        /// The state the object moved to.
        new_state: u32,
    },
    /// CHANGE_OF_STATE on a binary object.
    BinaryChange {
        /// Whether Present_Value is now active.
        active: bool,
    },
    /// OUT_OF_RANGE on an analog object.
    OutOfRange {
        /// The value that breached the limit.
        exceeding_value: Real,
        /// The limit it breached.
        exceeded_limit: Real,
        /// Configured deadband.
        deadband: Real,
    },
    /// CHANGE_OF_RELIABILITY.
    ReliabilityChange {
        /// The object's current reliability.
        reliability: Reliability,
    },
}

/// The outcome of running an object's event algorithm against its current value.
#[derive(Debug, Clone, Copy, PartialEq)]
pub struct AlarmEvaluation {
    /// The event state the algorithm currently demands.
    pub desired_state: EventState,
    /// Algorithm-specific detail for the notification.
    pub trigger: AlarmTrigger,
}

/// The four Status_Flags bits: in-alarm, fault, overridden, out-of-service.
///
/// Fault follows Reliability and not just Event_State: an object with event
/// detection disabled stays in the normal state but is still faulted.
pub open spec fn flags(
    event_state: EventState,
    reliability: Reliability,
    out_of_service: bool,
    overridden: bool,
) -> Seq<bool> {
    seq![
        event_state != EventState::Normal,
        reliability != Reliability::NoFaultDetected || event_state == EventState::Fault,
        overridden,
        out_of_service,
    ]
}

/// The four `Status_Flags` bits, in the BACnet in-alarm / fault / overridden /
/// out-of-service order.
///
/// Derived on read rather than stored: every input is a property an object already
/// carries, and a copy beside them would go stale the moment a client writes one.
pub fn status_flags_bits(
    event_state: EventState,
    reliability: Reliability,
    out_of_service: bool,
    overridden: bool,
) -> (bits: Vec<bool>)
    ensures
        bits@ == flags(event_state, reliability, out_of_service, overridden),
{
    vec![
        event_state != EventState::Normal,
        reliability != Reliability::NoFaultDetected || event_state == EventState::Fault,
        overridden,
        out_of_service,
    ]
}

/// Intrinsic reporting configuration and transition bookkeeping.
///
/// The event algorithm itself lives with the object, because it depends on the
/// object's value type; this holds only what every algorithm shares.
#[derive(Debug, Clone, Copy, PartialEq, Eq)]
pub struct IntrinsicReporting {
    /// Instance number of the notification class object that routes notifications.
    pub notification_class: u32,
    /// Seconds the algorithm's condition must persist before leaving `Normal`.
    pub time_delay: u32,
    /// Seconds the condition must clear before returning to `Normal`.
    /// `None` means reuse `time_delay`.
    pub time_delay_normal: Option<u32>,
    /// Which transitions generate notifications.
    pub event_enable: EventTransitionBits,
    /// Which transitions have been acknowledged. A set bit means "no ack pending".
    pub acked_transitions: EventTransitionBits,
    /// Whether notifications are alarms or plain events.
    pub notify_type: NotifyType,
    /// Master switch for event detection on this object.
    pub event_detection_enable: bool,
    /// Timestamps of the last to-offnormal, to-fault and to-normal transitions.
    pub event_time_stamps: [TimestampValue; 3],
}

impl IntrinsicReporting {
    /// Seconds a condition must clear before the object returns to normal.
    pub open spec fn normal_delay(self) -> u32 {
        match self.time_delay_normal {
            Some(delay) => delay,
            None => self.time_delay,
        }
    }

    /// Seconds the condition must hold before transitioning to `state`.
    pub open spec fn dwell(self, state: EventState) -> u32 {
        if state == EventState::Normal {
            self.normal_delay()
        } else {
            self.time_delay
        }
    }

    /// Whether a notification should be sent for entering `state`.
    pub open spec fn reports(self, state: EventState) -> bool {
        self.event_detection_enable && self.event_enable.bits()[EventTransition::entering(
            state,
        ).place()]
    }

    /// This state after the transition into `state` was stamped.
    pub open spec fn stamped(self, state: EventState, at: TimestampValue) -> IntrinsicReporting {
        IntrinsicReporting {
            event_time_stamps: vstd::array::spec_array_update(
                self.event_time_stamps,
                EventTransition::entering(state).place(),
                at,
            ),
            ..self
        }
    }

    /// This state with the transition into `state` awaiting acknowledgement.
    pub open spec fn awaiting(self, state: EventState) -> IntrinsicReporting {
        IntrinsicReporting {
            acked_transitions: self.acked_transitions.with(EventTransition::entering(state), false),
            ..self
        }
    }

    /// Whether this reports all three transitions through `notification_class` as
    /// alarms, with no dwell time, nothing pending acknowledgement and nothing stamped.
    pub open spec fn starts(self, notification_class: u32) -> bool {
        &&& self.notification_class == notification_class
        &&& self.time_delay == 0
        &&& self.time_delay_normal is None
        &&& self.event_enable.bits() == seq![true, true, true]
        &&& self.acked_transitions.bits() == seq![true, true, true]
        &&& self.notify_type == NotifyType::Alarm
        &&& self.event_detection_enable
        &&& self.event_time_stamps@ == seq![no_time(), no_time(), no_time()]
    }

    /// Configuration reporting all three transitions through `notification_class`
    /// with no dwell time and nothing pending acknowledgement.
    pub fn new(notification_class: u32) -> (reporting: IntrinsicReporting)
        ensures
            reporting.starts(notification_class),
    {
        IntrinsicReporting {
            notification_class,
            time_delay: 0,
            time_delay_normal: None,
            event_enable: EventTransitionBits::all(),
            acked_transitions: EventTransitionBits::all(),
            notify_type: NotifyType::Alarm,
            event_detection_enable: true,
            event_time_stamps: [
                unspecified_timestamp(),
                unspecified_timestamp(),
                unspecified_timestamp(),
            ],
        }
    }

    /// Seconds the condition must hold before transitioning to `state`.
    pub fn dwell_for(&self, state: EventState) -> (seconds: u32)
        ensures
            seconds == self.dwell(state),
    {
        if state == EventState::Normal {
            match self.time_delay_normal {
                Some(delay) => delay,
                None => self.time_delay,
            }
        } else {
            self.time_delay
        }
    }

    /// Stamp the time of a completed transition.
    ///
    /// This follows the transition itself, so it happens whether or not a
    /// notification is sent. Acknowledgement is tracked separately by
    /// [`Self::await_acknowledgement`].
    pub fn record_transition(&mut self, state: EventState, at: TimestampValue)
        ensures
            *final(self) == old(self).stamped(state, at),
            final(self).event_time_stamps@ == old(self).event_time_stamps@.update(
                EventTransition::entering(state).place(),
                at,
            ),
    {
        let index: usize = EventTransition::for_state(state).bit_index();
        self.event_time_stamps[index] = at;
    }

    /// Mark a transition as awaiting operator acknowledgement.
    ///
    /// Only a notification that was actually transmitted can be acknowledged:
    /// clearing the bit for a transition nobody was told about would leave it clear
    /// forever.
    pub fn await_acknowledgement(&mut self, state: EventState)
        ensures
            *final(self) == old(self).awaiting(state),
    {
        self.acked_transitions.set(EventTransition::for_state(state), false);
    }

    /// Whether a notification should be sent for entering `state`.
    pub fn notifies(&self, state: EventState) -> (notifies: bool)
        ensures
            notifies == self.reports(state),
    {
        self.event_detection_enable && self.event_enable.contains(EventTransition::for_state(state))
    }
}

/// Without a delay of its own, the return to normal takes the delay of the way out.
pub proof fn law_normal_dwell_falls_back(reporting: IntrinsicReporting, state: EventState)
    requires
        reporting.time_delay_normal is None,
    ensures
        reporting.dwell(state) == reporting.time_delay,
{
}

/// What an alarm property reads; `None` for a property that is none.
pub open spec fn intrinsic_reading(
    reporting: IntrinsicReporting,
    property: PropertyIdentifier,
) -> Option<PropertyValueView> {
    match property {
        PropertyIdentifier::NotificationClass => Some(
            PropertyValueView::Unsigned(reporting.notification_class as u64),
        ),
        PropertyIdentifier::TimeDelay => Some(
            PropertyValueView::Unsigned(reporting.time_delay as u64),
        ),
        PropertyIdentifier::TimeDelayNormal => Some(
            PropertyValueView::Unsigned(reporting.normal_delay() as u64),
        ),
        PropertyIdentifier::EventEnable => Some(
            PropertyValueView::BitString(reporting.event_enable.bits()),
        ),
        PropertyIdentifier::AckedTransitions => Some(
            PropertyValueView::BitString(reporting.acked_transitions.bits()),
        ),
        PropertyIdentifier::NotifyType => Some(
            PropertyValueView::Enumerated(reporting.notify_type.number()),
        ),
        PropertyIdentifier::EventDetectionEnable => Some(
            PropertyValueView::Boolean(reporting.event_detection_enable),
        ),
        PropertyIdentifier::EventTimeStamps => Some(
            PropertyValueView::Array(
                seq![
                    PropertyValueView::Timestamp(reporting.event_time_stamps@[0]),
                    PropertyValueView::Timestamp(reporting.event_time_stamps@[1]),
                    PropertyValueView::Timestamp(reporting.event_time_stamps@[2]),
                ],
            ),
        ),
        _ => None,
    }
}

/// What reading an alarm property is answered.
pub open spec fn intrinsic_offer(
    reporting: IntrinsicReporting,
    property: PropertyIdentifier,
) -> Option<Result<PropertyValueView, ObjectErrorView>> {
    match intrinsic_reading(reporting, property) {
        Some(value) => Some(Ok(value)),
        None => None,
    }
}

/// Read an intrinsic-reporting property.
///
/// Returns `None` when `property` is not an alarm property, so callers fall
/// through to their own match arms.
pub fn intrinsic_get(reporting: &IntrinsicReporting, property: PropertyIdentifier) -> (offer:
    Option<Result<PropertyValue, ObjectError>>)
    ensures
        error::same_offer(offer, intrinsic_offer(*reporting, property)),
{
    let value = match property {
        PropertyIdentifier::NotificationClass => PropertyValue::Unsigned(
            reporting.notification_class as u64,
        ),
        PropertyIdentifier::TimeDelay => PropertyValue::Unsigned(reporting.time_delay as u64),
        PropertyIdentifier::TimeDelayNormal => PropertyValue::Unsigned(
            reporting.dwell_for(EventState::Normal) as u64,
        ),
        PropertyIdentifier::EventEnable => PropertyValue::BitString(
            reporting.event_enable.to_bits(),
        ),
        PropertyIdentifier::AckedTransitions => PropertyValue::BitString(
            reporting.acked_transitions.to_bits(),
        ),
        PropertyIdentifier::NotifyType => PropertyValue::Enumerated(
            reporting.notify_type.to_number(),
        ),
        PropertyIdentifier::EventDetectionEnable => PropertyValue::Boolean(
            reporting.event_detection_enable,
        ),
        PropertyIdentifier::EventTimeStamps => {
            let stamps = vec![
                PropertyValue::Timestamp(reporting.event_time_stamps[0]),
                PropertyValue::Timestamp(reporting.event_time_stamps[1]),
                PropertyValue::Timestamp(reporting.event_time_stamps[2]),
            ];
            proof {
                value::lemma_list_model(stamps);
                assert(value::values_model(stamps) =~= intrinsic_reading(
                    *reporting,
                    property,
                )->Some_0->Array_0);
            }
            PropertyValue::Array(stamps)
        },
        _ => return None,
    };
    Some(Ok(value))
}

/// The sentence that refuses ack-notification as a configuration.
pub open spec fn wrong_notify_type() -> ObjectErrorView {
    ObjectErrorView::InvalidValue("Notify_Type must be alarm or event"@)
}

/// What a write to an alarm property leaves; `None` for a property that is none.
///
/// Only alarm and event configure an object: ack-notification describes a
/// notification. `Acked_Transitions` and `Event_Time_Stamps` are maintained by the
/// event algorithm and not by clients.
pub open spec fn intrinsic_writing(
    reporting: IntrinsicReporting,
    property: PropertyIdentifier,
    value: PropertyValue,
) -> Option<Result<IntrinsicReporting, ObjectErrorView>> {
    let wrong = Some(
        Err::<IntrinsicReporting, ObjectErrorView>(ObjectErrorView::InvalidPropertyType),
    );
    match property {
        PropertyIdentifier::NotificationClass => match value {
            PropertyValue::Unsigned(class) => if class <= u32::MAX {
                Some(Ok(IntrinsicReporting { notification_class: class as u32, ..reporting }))
            } else {
                wrong
            },
            _ => wrong,
        },
        PropertyIdentifier::TimeDelay => match value {
            PropertyValue::Unsigned(delay) => if delay <= u32::MAX {
                Some(Ok(IntrinsicReporting { time_delay: delay as u32, ..reporting }))
            } else {
                wrong
            },
            _ => wrong,
        },
        PropertyIdentifier::TimeDelayNormal => match value {
            PropertyValue::Unsigned(delay) => if delay <= u32::MAX {
                Some(
                    Ok(IntrinsicReporting { time_delay_normal: Some(delay as u32), ..reporting }),
                )
            } else {
                wrong
            },
            PropertyValue::Null => Some(
                Ok(IntrinsicReporting { time_delay_normal: None, ..reporting }),
            ),
            _ => wrong,
        },
        PropertyIdentifier::EventEnable => match value {
            PropertyValue::BitString(bits) => Some(
                Ok(
                    IntrinsicReporting {
                        event_enable: EventTransitionBits::of_bits(bits@),
                        ..reporting
                    },
                ),
            ),
            _ => wrong,
        },
        PropertyIdentifier::NotifyType => match value {
            PropertyValue::Enumerated(raw) => if raw == 0 {
                Some(Ok(IntrinsicReporting { notify_type: NotifyType::Alarm, ..reporting }))
            } else if raw == 1 {
                Some(Ok(IntrinsicReporting { notify_type: NotifyType::Event, ..reporting }))
            } else if raw == 2 {
                Some(Err(wrong_notify_type()))
            } else {
                wrong
            },
            _ => wrong,
        },
        PropertyIdentifier::EventDetectionEnable => match value {
            PropertyValue::Boolean(enabled) => Some(
                Ok(IntrinsicReporting { event_detection_enable: enabled, ..reporting }),
            ),
            _ => wrong,
        },
        PropertyIdentifier::AckedTransitions | PropertyIdentifier::EventTimeStamps => Some(
            Err(ObjectErrorView::PropertyNotWritable),
        ),
        _ => None,
    }
}

/// Write an intrinsic-reporting property.
///
/// Returns `None` when `property` is not an alarm property.
pub fn intrinsic_set(
    reporting: &mut IntrinsicReporting,
    property: PropertyIdentifier,
    value: PropertyValue,
) -> (offer: Option<Result<(), ObjectError>>)
    ensures
        error::same_write_offer(
            offer,
            *old(reporting),
            *final(reporting),
            intrinsic_writing(*old(reporting), property, value),
        ),
{
    match property {
        PropertyIdentifier::NotificationClass => match value {
            PropertyValue::Unsigned(class) => if class <= u32::MAX as u64 {
                reporting.notification_class = class as u32;
                Some(Ok(()))
            } else {
                Some(Err(ObjectError::InvalidPropertyType))
            },
            _ => Some(Err(ObjectError::InvalidPropertyType)),
        },
        PropertyIdentifier::TimeDelay => match value {
            PropertyValue::Unsigned(delay) => if delay <= u32::MAX as u64 {
                reporting.time_delay = delay as u32;
                Some(Ok(()))
            } else {
                Some(Err(ObjectError::InvalidPropertyType))
            },
            _ => Some(Err(ObjectError::InvalidPropertyType)),
        },
        PropertyIdentifier::TimeDelayNormal => match value {
            PropertyValue::Unsigned(delay) => if delay <= u32::MAX as u64 {
                reporting.time_delay_normal = Some(delay as u32);
                Some(Ok(()))
            } else {
                Some(Err(ObjectError::InvalidPropertyType))
            },
            PropertyValue::Null => {
                reporting.time_delay_normal = None;
                Some(Ok(()))
            },
            _ => Some(Err(ObjectError::InvalidPropertyType)),
        },
        PropertyIdentifier::EventEnable => match value {
            PropertyValue::BitString(bits) => {
                reporting.event_enable = EventTransitionBits::from_bits(bits.as_slice());
                Some(Ok(()))
            },
            _ => Some(Err(ObjectError::InvalidPropertyType)),
        },
        PropertyIdentifier::NotifyType => match value {
            PropertyValue::Enumerated(raw) => match NotifyType::try_from(raw) {
                Ok(NotifyType::AckNotification) => Some(
                    Err(error::invalid_value("Notify_Type must be alarm or event")),
                ),
                Ok(kind) => {
                    reporting.notify_type = kind;
                    Some(Ok(()))
                },
                Err(error) => Some(Err(error)),
            },
            _ => Some(Err(ObjectError::InvalidPropertyType)),
        },
        PropertyIdentifier::EventDetectionEnable => match value {
            PropertyValue::Boolean(enabled) => {
                reporting.event_detection_enable = enabled;
                Some(Ok(()))
            },
            _ => Some(Err(ObjectError::InvalidPropertyType)),
        },
        PropertyIdentifier::AckedTransitions | PropertyIdentifier::EventTimeStamps => Some(
            Err(ObjectError::PropertyNotWritable),
        ),
        _ => None,
    }
}

/// The alarm properties, in the order they are listed.
pub open spec fn intrinsic_properties() -> Seq<PropertyIdentifier> {
    seq![
        PropertyIdentifier::NotificationClass,
        PropertyIdentifier::TimeDelay,
        PropertyIdentifier::TimeDelayNormal,
        PropertyIdentifier::EventEnable,
        PropertyIdentifier::AckedTransitions,
        PropertyIdentifier::NotifyType,
        PropertyIdentifier::EventDetectionEnable,
        PropertyIdentifier::EventTimeStamps,
    ]
}

/// Properties contributed by intrinsic reporting, for `property_list`.
pub fn intrinsic_property_list() -> (properties: Vec<PropertyIdentifier>)
    ensures
        properties@ == intrinsic_properties(),
{
    vec![
        PropertyIdentifier::NotificationClass,
        PropertyIdentifier::TimeDelay,
        PropertyIdentifier::TimeDelayNormal,
        PropertyIdentifier::EventEnable,
        PropertyIdentifier::AckedTransitions,
        PropertyIdentifier::NotifyType,
        PropertyIdentifier::EventDetectionEnable,
        PropertyIdentifier::EventTimeStamps,
    ]
}

/// Exactly the listed alarm properties read as something.
pub proof fn law_listed_alarm_properties_read(
    reporting: IntrinsicReporting,
    property: PropertyIdentifier,
)
    ensures
        intrinsic_reading(reporting, property) is Some <==> intrinsic_properties().contains(
            property,
        ),
{
    let list = intrinsic_properties();
    match property {
        PropertyIdentifier::NotificationClass => assert(list[0] == property),
        PropertyIdentifier::TimeDelay => assert(list[1] == property),
        PropertyIdentifier::TimeDelayNormal => assert(list[2] == property),
        PropertyIdentifier::EventEnable => assert(list[3] == property),
        PropertyIdentifier::AckedTransitions => assert(list[4] == property),
        PropertyIdentifier::NotifyType => assert(list[5] == property),
        PropertyIdentifier::EventDetectionEnable => assert(list[6] == property),
        PropertyIdentifier::EventTimeStamps => assert(list[7] == property),
        _ => {},
    }
}

/// An alarm property that took a value reads it back, but for a delay that was
/// taken away and a bit string of another length than three.
pub proof fn law_alarm_write_reads_back(
    reporting: IntrinsicReporting,
    property: PropertyIdentifier,
    value: PropertyValue,
)
    requires
        intrinsic_writing(reporting, property, value) matches Some(Ok(_)),
        value !is Null,
        value matches PropertyValue::BitString(bits) ==> bits@.len() == 3,
    ensures
        intrinsic_reading(intrinsic_writing(reporting, property, value)->Some_0->Ok_0, property)
            == Some(value.model()),
{
    if let PropertyValue::BitString(bits) = value {
        assert(EventTransitionBits::of_bits(bits@).bits() =~= bits@);
    }
}

} // verus!
