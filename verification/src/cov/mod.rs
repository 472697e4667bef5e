//! Change-of-value subscriptions and reporting.
//!
//! A subscriber asks the device to tell it when a property changes, instead of
//! polling for it. The device keeps a subscription table, watches the monitored
//! objects, and sends a [`CovNotification`] when a value moves far enough to
//! matter.
//!
//! "Far enough" is what `COV_Increment` decides for analog objects: without it, a
//! noisy sensor would emit a notification per evaluation. Discrete objects have no
//! increment, so any change reports.
//!
//! Like the event engine, time is passed in rather than read from a clock, so
//! subscription lifetimes are testable without sleeping.

pub mod engine;
pub mod laws;
pub mod subscriptions;

pub use engine::{AddressedCovNotification, CovEngine, CovNotification, CovPropertyValue};
pub use subscriptions::{CovSubscriptions, Subscription, SubscriptionKey};
