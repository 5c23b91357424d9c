//! Finds text files whose last byte is not a line feed, and says how to mend them.
//!
//! The library holds the decisions: which paths are excluded, which directory
//! entries are worth opening, whether a sample of bytes is binary or uses
//! CRLF line ends, whether a file ends with a newline, what has to be
//! appended to it, and what a run reports. Reading directories and files is
//! left to the caller, who hands in plain values.

pub mod classify;
pub mod fix;
pub mod guarantees;
pub mod listing;
pub mod pattern;
pub mod report;
pub mod target;
