//! Reading Mitsuba 2 scene files.
pub mod frames;
pub mod reader;
pub mod spec;
pub mod types;
pub mod xml_events;
