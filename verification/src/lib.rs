//! Per-line coverage model for source-based coverage exports.
//!
//! The library decodes a coverage export document (positional-array wire
//! format) into typed records, reduces a file's segment list into inclusive
//! line ranges, projects function instantiation data onto lines, and
//! classifies each line as covered, uncovered, or unknown.

use vstd::prelude::*;

pub mod report;
pub mod schema;
pub mod templates;
pub mod version;

verus! {

} // verus!
