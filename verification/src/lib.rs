//! Alarm multiplexing for a cooperative scheduler on a small, fixed pool of
//! one-shot hardware timers.
//!
//! The crate holds the decisions of the time driver: which slot an alarm
//! gets, which callback a slot carries, and which operations a timer has to
//! perform when alarms are allocated, armed and dispatched. It touches no
//! hardware itself. Every operation hands back the timer commands that its
//! caller carries out inside the same critical section.

pub mod alarm;
pub mod command;
pub mod laws;
pub mod model;
pub mod section;
pub mod time_driver;
