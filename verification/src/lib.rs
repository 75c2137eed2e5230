//! Decoder for the ISO Base Media File Format (the container format
//! underlying MP4).
//!
//! The library walks a recursive hierarchy of typed, length-prefixed records
//! ("boxes"), extracts the subset of metadata needed to enumerate tracks
//! (type, duration, dimensions, sample format), and never trusts the input's
//! declared sizes or field widths: every parser is verified to consume only
//! bytes that exist and to report malformed input as a typed error instead of
//! panicking.
//!
//! The modules, leaves first:
//! - [`error`]: the decode error taxonomy.
//! - [`reader`]: a bounded byte cursor with big-endian integer reads.
//! - [`boxes`]: the box header codec and the fixed-box parsers.
//! - [`context`]: the accumulated decode result (tracks and their metadata).
//! - [`walker`]: recursive descent over a box stream.
//! - [`api`]: the stateful parser handle with its poisoning state machine,
//!   status codes, and track metadata queries.

pub mod api;
pub mod boxes;
pub mod context;
pub mod error;
pub mod reader;
pub mod walker;
