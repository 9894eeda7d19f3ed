//! Duplicate-tag monitor: the rules that decide, from a text file's contents,
//! whether the tag identifiers written into it repeat, and the polling cycle
//! that re-evaluates a watched file.
pub mod engine;
pub mod registry;
pub mod tags;
