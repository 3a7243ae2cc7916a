//! From exchange messages to canonical events.
pub mod book;
