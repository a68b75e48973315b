//! Parses the plain-text export of a chat conversation into a
//! structured, queryable record: a mapping from calendar date to that
//! day's messages, in a zero-copy borrowed form and an owned form,
//! with lookup by date, keyword search and random selection on top.

pub mod dates;
pub mod history;
pub mod parse;
pub mod processing;
pub mod random;
pub mod text;
pub mod traits;
