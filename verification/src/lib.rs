//! Journal habit tallies: extracts YAML frontmatter from markdown notes,
//! decodes dated entries with three habit flags, and reports per-habit
//! completion counts over sorted, filtered, capped entries.

pub mod aggregate;
pub mod date;
pub mod entry;
pub mod frontmatter;
pub mod pipeline;
pub mod report;
pub mod sort;
pub mod text;
pub mod yaml;

pub use crate::pipeline::run;
