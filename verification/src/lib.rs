//! Flight-log analysis: the data model and the rules that turn a list of
//! telemetry records into typed series, vessel metadata and plot spans.

pub mod modes;
pub mod text;
pub mod entry;
pub mod data;
pub mod spans;
