//! Decision core of a budgeted document scanner.
//!
//! The crate holds the rules of the scanner as verified functions over plain
//! values: how a run is planned and finished, when a cached parse may be used,
//! which rows a retention pass removes, when a run lease is live, and what a
//! terminal record has to satisfy before it may be committed.
pub mod contract;
pub mod hash;
pub mod json;
pub mod ordered;
pub mod profile;
pub mod scheduler;
pub mod session;
pub mod source_guard;
pub mod store;
pub mod text;
pub mod windows_job;
