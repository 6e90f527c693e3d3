//! Per-line classification of the coverage model, and the enums the
//! rendering layer reads.

use vstd::prelude::*;

use crate::report::FileInfo;
use crate::report::covered_map;
use crate::report::ranges_of;
use crate::report::uncovered_set;
use crate::schema::Segment;

verus! {

broadcast use vstd::std_specs::hash::group_hash_axioms;

/// The coverage state of a single line of code.
#[derive(Clone, Copy, PartialEq, Eq, Structural, Debug)]
pub enum Coverage {
    /// The line is covered and ran the given number of times.
    Covered(u64),
    /// The line is displayed as uncovered; the count is kept, since a line
    /// can be covered as a whole while a part of it never ran.
    Uncovered(u64),
    /// No coverage information is available for the line.
    Unknown,
}

/// Quality bands of a coverage percentage, for coloring.
#[derive(Clone, Copy, PartialEq, Eq, Structural, Debug)]
pub enum CoverageLevel {
    /// More than 90 percent.
    VeryHigh,
    /// More than 75 percent.
    High,
    /// More than 50 percent.
    Medium,
    /// Anything else.
    Low,
}

/// Where the coverage color marker is placed.
#[derive(Clone, Copy, PartialEq, Eq, Structural, Debug)]
pub enum CoverageStyle {
    /// Highlight the whole source line.
    Line,
    /// Only highlight the gutter.
    Gutter,
}

impl CoverageStyle {
    /// The style's name on the command line.
    pub fn as_str(&self) -> (r: &'static str)
        ensures
            *self == CoverageStyle::Line ==> r@ == "line"@,
            *self == CoverageStyle::Gutter ==> r@ == "gutter"@,
    {
        match self {
            CoverageStyle::Line => "line",
            CoverageStyle::Gutter => "gutter",
        }
    }
}

/// Classifies one line from the model's parts, with strict precedence: a
/// covered line downgraded by the overlay comes before a plain uncovered
/// line, which comes before unknown.
pub open spec fn classify(
    covered: Map<u64, u64>,
    uncovered: Set<u64>,
    uncalled_lines: Set<u64>,
    line: u64,
    overlay: bool,
) -> Coverage {
    if covered.dom().contains(line) {
        if overlay && uncalled_lines.contains(line) {
            Coverage::Uncovered(covered[line])
        } else {
            Coverage::Covered(covered[line])
        }
    } else if uncovered.contains(line) {
        Coverage::Uncovered(0)
    } else {
        Coverage::Unknown
    }
}

impl FileInfo {
    /// Classifies one line of the file.
    ///
    /// A covered line is reported covered with its hit count, unless the
    /// overlay is on and some instantiation on the line never ran: the
    /// count is kept but the line is displayed as uncovered. A line only
    /// zero-count ranges span is uncovered with count zero, and a line no
    /// range spans at all is unknown.
    pub fn get_coverage(&self, index: u64, overlay_instantiations: bool) -> (r: Coverage)
        ensures
            r == classify(
                self.covered@,
                self.uncovered@,
                self.uncalled@.dom(),
                index,
                overlay_instantiations,
            ),
    {
        match self.covered.get(&index) {
            Some(count) => {
                if overlay_instantiations && self.uncalled.contains_key(&index) {
                    Coverage::Uncovered(*count)
                } else {
                    Coverage::Covered(*count)
                }
            },
            None => {
                if self.uncovered.contains(&index) {
                    Coverage::Uncovered(0)
                } else {
                    Coverage::Unknown
                }
            },
        }
    }
}

/// Disjoint default: a file with an empty segment list and no function
/// data classifies every line as unknown.
pub proof fn lemma_disjoint_default(segments: Seq<Segment>, line: u64, overlay: bool)
    requires
        segments.len() == 0,
    ensures
        classify(
            covered_map(ranges_of(segments)),
            uncovered_set(ranges_of(segments)),
            Set::empty(),
            line,
            overlay,
        ) == Coverage::Unknown,
{
}

/// Overlay downgrade: a covered line that also carries an uncalled
/// instantiation classifies as uncovered with its original count when the
/// overlay is on, and as covered with that count when it is off.
pub proof fn lemma_overlay_downgrade(
    covered: Map<u64, u64>,
    uncovered: Set<u64>,
    uncalled_lines: Set<u64>,
    line: u64,
)
    requires
        covered.dom().contains(line),
        uncalled_lines.contains(line),
    ensures
        classify(covered, uncovered, uncalled_lines, line, true) == Coverage::Uncovered(
            covered[line],
        ),
        classify(covered, uncovered, uncalled_lines, line, false) == Coverage::Covered(
            covered[line],
        ),
{
}

} // verus!
