//! The course of a run: planning, classification, parsing, and its outcome.
pub mod adapter;
pub mod classify;
pub mod execute;
pub mod outcome;
pub mod parse;
pub mod plan;
pub mod ports;
pub mod records;
pub mod request_id;
pub mod results;
pub mod stage;
pub mod warnings;
