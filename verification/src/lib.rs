//! Line-change statistics for unified diffs.
//!
//! The library reads the text of a unified diff, decides for every added or
//! removed line which language it belongs to, whether it is code or a comment
//! and whether its file is a test, and lays the resulting counts out as a
//! table.

pub mod chars;
pub mod diff;
pub mod language;
pub mod path;
pub mod report;
pub mod stats;
