//! What an event notification says.

use crate::number::Real;
use crate::object::identifier::ObjectIdentifier;
use crate::object::intrinsic::{AlarmTrigger, NotifyType};
use crate::object::state::{EventState, Reliability};
use crate::property::value::TimestampValue;
use vstd::prelude::*;

verus! {

/// The Status_Flags that a notification carries.
#[derive(Debug, Clone, Copy, PartialEq, Eq, Structural)]
pub struct StatusFlags {
    pub in_alarm: bool,
    pub fault: bool,
    pub overridden: bool,
    pub out_of_service: bool,
}

impl Default for StatusFlags {
    /// No flag is set.
    fn default() -> (flags: StatusFlags)
        ensures
            flags == (StatusFlags {
                in_alarm: false,
                fault: false,
                overridden: false,
                out_of_service: false,
            }),
    {
        StatusFlags { in_alarm: false, fault: false, overridden: false, out_of_service: false }
    }
}

impl StatusFlags {
    /// The flags of an object that is in an event state.
    pub open spec fn of_state(state: EventState, out_of_service: bool) -> StatusFlags {
        StatusFlags {
            in_alarm: state != EventState::Normal,
            fault: state == EventState::Fault,
            overridden: false,
            out_of_service,
        }
    }

    /// The flags of an object that is in an event state.
    pub fn for_event_state(state: EventState, out_of_service: bool) -> (flags: StatusFlags)
        ensures
            flags == StatusFlags::of_state(state, out_of_service),
    {
        StatusFlags {
            in_alarm: state != EventState::Normal,
            fault: state == EventState::Fault,
            overridden: false,
            out_of_service,
        }
    }
}

/// A state that an object changed to.
#[derive(Debug, Clone, Copy, PartialEq, Eq, Structural)]
pub enum PropertyStates {
    /// Whether a binary value is active.
    BinaryValue(bool),
    /// The state of a multi-state value.
    UnsignedValue(u32),
}

/// What is specific to the event algorithm that reports.
#[derive(Debug, Clone, Copy, PartialEq)]
pub enum NotificationParameters {
    ChangeOfState { new_state: PropertyStates, status_flags: StatusFlags },
    OutOfRange {
        exceeding_value: Real,
        status_flags: StatusFlags,
        deadband: Real,
        exceeded_limit: Real,
    },
    ChangeOfReliability { reliability: Reliability, status_flags: StatusFlags },
}

/// An event notification.
#[derive(Debug, Clone, PartialEq)]
pub struct EventNotification {
    /// The process of the recipient that handles it.
    pub process_identifier: u32,
    /// The device that reports.
    pub initiating_device: ObjectIdentifier,
    /// The object that changed state.
    pub event_object: ObjectIdentifier,
    /// When it changed.
    pub timestamp: TimestampValue,
    /// The notification class that routed it.
    pub notification_class: u32,
    /// How urgent it is; lower is more urgent.
    pub priority: u32,
    /// Whether it is an alarm or a plain event.
    pub notify_type: NotifyType,
    /// Whether an operator must acknowledge it.
    pub ack_required: bool,
    /// The state that was left.
    pub from_state: EventState,
    /// The state that was entered.
    pub to_state: EventState,
    /// A text for the operator.
    pub message_text: Option<String>,
    /// What is specific to the event algorithm.
    pub parameters: NotificationParameters,
}

/// What an algorithm's observation is reported as.
pub open spec fn parameters_of(
    trigger: AlarmTrigger,
    status_flags: StatusFlags,
) -> NotificationParameters {
    match trigger {
        AlarmTrigger::MultistateChange { new_state } => NotificationParameters::ChangeOfState {
            new_state: PropertyStates::UnsignedValue(new_state),
            status_flags,
        },
        AlarmTrigger::BinaryChange { active } => NotificationParameters::ChangeOfState {
            new_state: PropertyStates::BinaryValue(active),
            status_flags,
        },
        AlarmTrigger::OutOfRange {
            exceeding_value,
            exceeded_limit,
            deadband,
        } => NotificationParameters::OutOfRange {
            exceeding_value,
            status_flags,
            deadband,
            exceeded_limit,
        },
        AlarmTrigger::ReliabilityChange {
            reliability,
        } => NotificationParameters::ChangeOfReliability { reliability, status_flags },
    }
}

/// Map an algorithm's observation onto the wire parameters for its event type.
pub fn parameters_for(trigger: AlarmTrigger, status_flags: StatusFlags) -> (parameters:
    NotificationParameters)
    ensures
        parameters == parameters_of(trigger, status_flags),
{
    match trigger {
        AlarmTrigger::MultistateChange { new_state } => NotificationParameters::ChangeOfState {
            new_state: PropertyStates::UnsignedValue(new_state),
            status_flags,
        },
        AlarmTrigger::BinaryChange { active } => NotificationParameters::ChangeOfState {
            new_state: PropertyStates::BinaryValue(active),
            status_flags,
        },
        AlarmTrigger::OutOfRange {
            exceeding_value,
            exceeded_limit,
            deadband,
        } => NotificationParameters::OutOfRange {
            exceeding_value,
            status_flags,
            deadband,
            exceeded_limit,
        },
        AlarmTrigger::ReliabilityChange {
            reliability,
        } => NotificationParameters::ChangeOfReliability { reliability, status_flags },
    }
}

} // verus!
