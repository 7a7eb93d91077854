//! A redaction pipeline engine.
//!
//! The engine runs an ordered list of configurable detection steps over a
//! byte text. Each step finds sensitive spans, replaces every occurrence
//! with a rendered substitute, and records a canonical entry per distinct
//! value, keyed by a session-scoped fingerprint.

pub mod bytes;
pub mod chars;
pub mod claims;
pub mod config;
pub mod detect;
pub mod engine;
pub mod fingerprint;
pub mod laws;
pub mod refind;
pub mod render;
pub mod step;
pub mod store;
