//! BACnet building blocks: the tagged octet encoding, property values, hosted
//! objects, the object database, the scheduling, event and change-of-value
//! engines, and the decisions of a concurrent client endpoint.

pub mod address;
pub mod client;
pub mod cov;
pub mod encoding;
pub mod event;
pub mod number;
pub mod object;
pub mod octets;
pub mod property;
pub mod ranking;
pub mod schedule;
pub mod table;
pub mod text;

