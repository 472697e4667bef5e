//! Schedules at work: which value each commands now, and where it is written.

pub mod engine;
pub mod laws;

pub use engine::{ScheduleEngine, ScheduledWrite};
