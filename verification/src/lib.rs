//! Parsing of operating-system release descriptors: `KEY=VALUE` lines are
//! read into a record of well-known fields plus an ordered map of every other
//! key that was met.
//!
//! Whether a line matches a pattern, and which parts of the line the pattern
//! captures, is decided by the `regex` crate. Everything around that decision
//! is verified: the order in which the patterns are tried, what a match does
//! to the record, and the map that keeps the other keys in order.

pub mod extra;
pub mod field;
pub mod laws;
pub mod matching;
pub mod order;
pub mod release;

pub use extra::ExtraMap;
pub use field::Field;
pub use release::{parse_line, Assignment, OsRelease};
