//! Bridge between a byte-oriented serial telemetry stream and a text-format
//! metrics sink: line framing, sample parsing, windowed aggregation and
//! payload serialization, with contracts proved by Verus.

pub mod aggregate;
pub mod config;
pub mod frame;
pub mod labels;
pub mod measurement;
pub mod parse;
pub mod reader;
