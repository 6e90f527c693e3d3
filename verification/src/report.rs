//! Reduction of decoded coverage records into a per-line model.
//!
//! A file's ordered segment list is paired into inclusive line ranges; a
//! function's regions are projected onto the lines they span. The results
//! meet in [`FileInfo`], the per-file line model the classifier reads.

use vstd::prelude::*;

use std::collections::HashMap;
use std::collections::HashSet;

use crate::schema::CoverageCounts;
use crate::schema::CoverageCounts2;
use crate::schema::File;
use crate::schema::Function;
use crate::schema::Region;
use crate::schema::Segment;
use crate::schema::Summary;
use vstd::string::StrSliceExecFns;

verus! {

/// An inclusive range of source lines tagged with a hit count.
#[derive(Clone, Copy, PartialEq, Eq, Structural, Debug)]
pub struct LineRange {
    pub start: u64,
    pub end: u64,
    pub count: u64,
}

/// The first index at or after `i` whose segment closes a region.
pub open spec fn first_end_from(s: Seq<Segment>, i: int) -> Option<int>
    decreases s.len() - i,
{
    if i < 0 || i >= s.len() {
        None
    } else if s[i].spec_is_end() {
        Some(i)
    } else {
        first_end_from(s, i + 1)
    }
}

/// The ranges the reducer emits for the segments at index `i` and after:
/// every start segment with a matching end downstream emits one range; a
/// start with no matching end emits nothing.
pub open spec fn ranges_from(s: Seq<Segment>, i: int) -> Seq<LineRange>
    decreases s.len() - i,
{
    if i < 0 || i >= s.len() {
        Seq::empty()
    } else {
        let rest = ranges_from(s, i + 1);
        if s[i].spec_is_start() {
            match first_end_from(s, i) {
                Some(j) => seq![
                    LineRange { start: s[i].line, end: s[j].line, count: s[i].count },
                ] + rest,
                None => rest,
            }
        } else {
            rest
        }
    }
}

/// The ranges the reducer emits for a whole segment list.
pub open spec fn ranges_of(s: Seq<Segment>) -> Seq<LineRange> {
    ranges_from(s, 0)
}

proof fn lemma_first_end_found(s: Seq<Segment>, i: int, j: int)
    requires
        0 <= i <= j < s.len(),
        forall|k: int| i <= k < j ==> !s[k].spec_is_end(),
        s[j].spec_is_end(),
    ensures
        first_end_from(s, i) == Some(j),
    decreases j - i,
{
    if i < j {
        lemma_first_end_found(s, i + 1, j);
    }
}

proof fn lemma_first_end_missing(s: Seq<Segment>, i: int)
    requires
        0 <= i,
        forall|k: int| i <= k < s.len() ==> !s[k].spec_is_end(),
    ensures
        first_end_from(s, i) is None,
    decreases s.len() - i,
{
    if i < s.len() {
        lemma_first_end_missing(s, i + 1);
    }
}

/// Pairs region starts with the first region end at or after them.
///
/// Scans the segments by index: every segment that opens a counted region
/// emits the inclusive line range down to the first closing segment in the
/// remainder of the list, with the opening segment's count; a start with no
/// closing segment downstream emits nothing.
pub fn segments_to_ranges(segments: &Vec<Segment>) -> (r: Vec<LineRange>)
    ensures
        r@ == ranges_of(segments@),
{
    let mut out: Vec<LineRange> = Vec::new();
    let mut i: usize = 0;
    while i < segments.len()
        invariant
            0 <= i <= segments@.len(),
            out@ + ranges_from(segments@, i as int) == ranges_of(segments@),
        decreases segments@.len() - i,
    {
        if segments[i].is_start() {
            let mut j: usize = i;
            let mut found: Option<u64> = None;
            while j < segments.len() && found.is_none()
                invariant
                    i <= j <= segments@.len(),
                    match found {
                        Some(line) => j < segments@.len() && segments@[j as int].spec_is_end()
                            && line == segments@[j as int].line && forall|k: int|
                            i <= k < j ==> !segments@[k].spec_is_end(),
                        None => forall|k: int| i <= k < j ==> !segments@[k].spec_is_end(),
                    },
                decreases segments@.len() - j + (if found is None { 1int } else { 0 }),
            {
                if segments[j].is_end() {
                    found = Some(segments[j].line);
                } else {
                    j = j + 1;
                }
            }
            match found {
                Some(end_line) => {
                    proof {
                        lemma_first_end_found(segments@, i as int, j as int);
                        assert(out@ + seq![
                            LineRange {
                                start: segments@[i as int].line,
                                end: end_line,
                                count: segments@[i as int].count,
                            },
                        ] + ranges_from(segments@, i as int + 1) =~= out@ + ranges_from(
                            segments@,
                            i as int,
                        ));
                    }
                    out.push(
                        LineRange {
                            start: segments[i].line,
                            end: end_line,
                            count: segments[i].count,
                        },
                    );
                },
                None => {
                    proof {
                        lemma_first_end_missing(segments@, i as int);
                    }
                },
            }
        }
        i = i + 1;
    }
    proof {
        assert(out@ + ranges_from(segments@, segments@.len() as int) =~= out@);
    }
    out
}

/// The indices of the start segments at or after index `i`.
pub open spec fn start_indices_from(s: Seq<Segment>, i: int) -> Seq<int>
    decreases s.len() - i,
{
    if i < 0 || i >= s.len() {
        Seq::empty()
    } else if s[i].spec_is_start() {
        seq![i] + start_indices_from(s, i + 1)
    } else {
        start_indices_from(s, i + 1)
    }
}

/// The indices of the start segments of a whole list.
pub open spec fn start_indices(s: Seq<Segment>) -> Seq<int> {
    start_indices_from(s, 0)
}

proof fn lemma_exists_end_first_some(s: Seq<Segment>, i: int)
    requires
        0 <= i,
        exists|j: int| i <= j < s.len() && s[j].spec_is_end(),
    ensures
        first_end_from(s, i) is Some,
        i <= first_end_from(s, i)->Some_0 < s.len(),
        s[first_end_from(s, i)->Some_0].spec_is_end(),
    decreases s.len() - i,
{
    if !s[i].spec_is_end() {
        lemma_exists_end_first_some(s, i + 1);
    }
}

proof fn lemma_pairing_from(s: Seq<Segment>, i: int)
    requires
        0 <= i <= s.len(),
        forall|k: int|
            i <= k < s.len() && s[k].spec_is_start() ==> exists|j: int|
                k <= j < s.len() && s[j].spec_is_end(),
    ensures
        ranges_from(s, i).len() == start_indices_from(s, i).len(),
        forall|n: int|
            0 <= n < start_indices_from(s, i).len() ==> {
                let k = #[trigger] start_indices_from(s, i)[n];
                &&& i <= k < s.len()
                &&& s[k].spec_is_start()
                &&& first_end_from(s, k) is Some
                &&& ranges_from(s, i)[n] == LineRange {
                    start: s[k].line,
                    end: s[first_end_from(s, k)->Some_0].line,
                    count: s[k].count,
                }
            },
    decreases s.len() - i,
{
    if i < s.len() {
        lemma_pairing_from(s, i + 1);
        if s[i].spec_is_start() {
            lemma_exists_end_first_some(s, i);
        }
    }
}

/// Pairing correctness: in a segment list where every start segment has a
/// region end at or after it, the reducer emits exactly one range per start
/// segment, in order, and each range runs from the start segment's line to
/// the line of the first region end at or after it, with the start
/// segment's count.
pub proof fn lemma_pairing_correctness(s: Seq<Segment>)
    requires
        forall|k: int|
            0 <= k < s.len() && s[k].spec_is_start() ==> exists|j: int|
                k <= j < s.len() && s[j].spec_is_end(),
    ensures
        ranges_of(s).len() == start_indices(s).len(),
        forall|n: int|
            0 <= n < start_indices(s).len() ==> {
                let k = #[trigger] start_indices(s)[n];
                &&& 0 <= k < s.len()
                &&& s[k].spec_is_start()
                &&& first_end_from(s, k) is Some
                &&& ranges_of(s)[n] == LineRange {
                    start: s[k].line,
                    end: s[first_end_from(s, k)->Some_0].line,
                    count: s[k].count,
                }
            },
{
    lemma_pairing_from(s, 0);
}

} // verus!

verus! {

broadcast use {
    vstd::std_specs::hash::group_hash_axioms,
    vstd::seq_lib::group_to_multiset_ensures,
    vstd::multiset::group_multiset_axioms,
};

// ---------------------------------------------------------------------------
// Projection of ranges onto lines
// ---------------------------------------------------------------------------

/// Writes `count` for every line of `lo..=hi` into the map, in ascending
/// order.
pub open spec fn insert_lines(m: Map<u64, u64>, lo: int, hi: int, count: u64) -> Map<u64, u64>
    decreases hi + 1 - lo,
{
    if lo > hi {
        m
    } else {
        insert_lines(m.insert(lo as u64, count), lo + 1, hi, count)
    }
}

/// Adds every line of `lo..=hi` to the set.
pub open spec fn add_lines(s: Set<u64>, lo: int, hi: int) -> Set<u64>
    decreases hi + 1 - lo,
{
    if lo > hi {
        s
    } else {
        add_lines(s.insert(lo as u64), lo + 1, hi)
    }
}

/// The covered-line map after the first `k` ranges: ranges with a positive
/// count write their count to every line they span, and a later range
/// overwrites an earlier one.
pub open spec fn covered_upto(ranges: Seq<LineRange>, k: int) -> Map<u64, u64>
    decreases k,
{
    if k <= 0 {
        Map::empty()
    } else {
        let m = covered_upto(ranges, k - 1);
        let r = ranges[k - 1];
        if r.count > 0 {
            insert_lines(m, r.start as int, r.end as int, r.count)
        } else {
            m
        }
    }
}

/// The covered-line map of a whole range list: last written wins.
pub open spec fn covered_map(ranges: Seq<LineRange>) -> Map<u64, u64> {
    covered_upto(ranges, ranges.len() as int)
}

/// The uncovered-line set after the first `k` ranges: ranges with count
/// zero contribute every line they span.
pub open spec fn uncovered_upto(ranges: Seq<LineRange>, k: int) -> Set<u64>
    decreases k,
{
    if k <= 0 {
        Set::empty()
    } else {
        let s = uncovered_upto(ranges, k - 1);
        let r = ranges[k - 1];
        if r.count == 0 {
            add_lines(s, r.start as int, r.end as int)
        } else {
            s
        }
    }
}

/// The uncovered-line set of a whole range list.
pub open spec fn uncovered_set(ranges: Seq<LineRange>) -> Set<u64> {
    uncovered_upto(ranges, ranges.len() as int)
}

/// Expands a file's segment list into its covered-line map and its
/// uncovered-line set: ranges are paired as in [`segments_to_ranges`], a
/// positive-count range writes its count over every line it spans with
/// later ranges overwriting earlier ones, and a zero-count range adds its
/// lines to the uncovered set.
pub fn project_segments(segments: &Vec<Segment>) -> (r: (HashMap<u64, u64>, HashSet<u64>))
    ensures
        r.0@ == covered_map(ranges_of(segments@)),
        r.1@ == uncovered_set(ranges_of(segments@)),
{
    let ranges = segments_to_ranges(segments);
    let mut covered: HashMap<u64, u64> = HashMap::new();
    let mut uncovered: HashSet<u64> = HashSet::new();
    let mut k: usize = 0;
    while k < ranges.len()
        invariant
            0 <= k <= ranges@.len(),
            ranges@ == ranges_of(segments@),
            covered@ == covered_upto(ranges@, k as int),
            uncovered@ == uncovered_upto(ranges@, k as int),
        decreases ranges@.len() - k,
    {
        let r = ranges[k];
        if r.count > 0 {
            let ghost goal = insert_lines(covered@, r.start as int, r.end as int, r.count);
            if r.start <= r.end {
                let mut l: u64 = r.start;
                while l < r.end
                    invariant
                        r.start <= l <= r.end,
                        insert_lines(covered@, l as int, r.end as int, r.count) == goal,
                    decreases r.end - l,
                {
                    covered.insert(l, r.count);
                    l = l + 1;
                }
                covered.insert(r.end, r.count);
                proof {
                    reveal_with_fuel(insert_lines, 2);
                }
            }
        } else {
            let ghost goal = add_lines(uncovered@, r.start as int, r.end as int);
            if r.start <= r.end {
                let mut l: u64 = r.start;
                while l < r.end
                    invariant
                        r.start <= l <= r.end,
                        add_lines(uncovered@, l as int, r.end as int) == goal,
                    decreases r.end - l,
                {
                    uncovered.insert(l);
                    l = l + 1;
                }
                uncovered.insert(r.end);
                proof {
                    reveal_with_fuel(add_lines, 2);
                }
            }
        }
        k = k + 1;
    }
    (covered, uncovered)
}

} // verus!

verus! {

// ---------------------------------------------------------------------------
// The per-file line model
// ---------------------------------------------------------------------------

/// Location and per-line coverage model of a single matched source file.
///
/// `covered` and `uncovered` need not be disjoint; `called` keeps every
/// instantiation of a line, while `uncalled` holds each missing function
/// name once.
#[derive(Debug)]
pub struct FileInfo {
    /// Absolute path to the file.
    pub path: String,
    /// File path relative to the project root.
    pub relative_path: String,
    /// Aggregate counters of the file.
    pub summary: Summary,
    /// Mapping from source lines to coverage hit counts.
    pub covered: HashMap<u64, u64>,
    /// Set of uncovered lines.
    pub uncovered: HashSet<u64>,
    /// Mapping from source lines to instantiated function calls and their
    /// hit counts.
    pub called: HashMap<u64, Vec<(String, u64)>>,
    /// Mapping from source lines to the names of functions never called
    /// there, each name held once.
    pub uncalled: HashMap<u64, Vec<String>>,
}

/// Whether a path is absolute: it starts with the path separator.
pub open spec fn path_is_absolute(p: Seq<char>) -> bool {
    p.len() > 0 && p[0] == '/'
}

/// Whether a path starts with the path separator.
pub fn is_absolute_path(p: &str) -> (r: bool)
    ensures
        r == path_is_absolute(p@),
{
    p.unicode_len() > 0 && p.get_char(0) == '/'
}

/// Whether a file record belongs to an enumerated source file: an absolute
/// record path must equal the absolute path, any other record path must
/// equal the relative path.
pub open spec fn record_matches(record: File, abs: Seq<char>, rel: Seq<char>) -> bool {
    if path_is_absolute(record.filename@) {
        record.filename@ == abs
    } else {
        record.filename@ == rel
    }
}

/// The first file record at or after index `i` that belongs to the
/// enumerated source file.
pub open spec fn first_match_from(coverage: Seq<File>, abs: Seq<char>, rel: Seq<char>, i: int) -> Option<int>
    decreases coverage.len() - i,
{
    if i < 0 || i >= coverage.len() {
        None
    } else if record_matches(coverage[i], abs, rel) {
        Some(i)
    } else {
        first_match_from(coverage, abs, rel, i + 1)
    }
}

/// The first file record that belongs to the enumerated source file.
pub open spec fn first_match(coverage: Seq<File>, abs: Seq<char>, rel: Seq<char>) -> Option<int> {
    first_match_from(coverage, abs, rel, 0)
}

proof fn lemma_first_match_skip(coverage: Seq<File>, abs: Seq<char>, rel: Seq<char>, i: int)
    requires
        0 <= i <= coverage.len(),
        forall|j: int| 0 <= j < i ==> !record_matches(coverage[j], abs, rel),
    ensures
        first_match(coverage, abs, rel) == first_match_from(coverage, abs, rel, i),
    decreases i,
{
    if i > 0 {
        lemma_first_match_skip(coverage, abs, rel, i - 1);
    }
}

/// The all-zero summary an unmatched file carries.
pub open spec fn zero_summary() -> Summary {
    Summary {
        lines: CoverageCounts { count: 0, covered: 0 },
        functions: CoverageCounts { count: 0, covered: 0 },
        instantiations: CoverageCounts { count: 0, covered: 0 },
        regions: CoverageCounts2 { count: 0, covered: 0, notcovered: 0 },
        branches: CoverageCounts2 { count: 0, covered: 0, notcovered: 0 },
    }
}

/// How one merged entry relates to its enumerated file and its record: the
/// paths and the summary are carried over, the segment list is projected
/// onto lines, and the instantiation maps start empty.
pub open spec fn info_corresponds(info: FileInfo, file: (String, String), record: File) -> bool {
    &&& info.path@ == file.0@
    &&& info.relative_path@ == file.1@
    &&& info.summary == record.summary
    &&& info.covered@ == covered_map(ranges_of(record.segments@))
    &&& info.uncovered@ == uncovered_set(ranges_of(record.segments@))
    &&& info.called@ == Map::<u64, Vec<(String, u64)>>::empty()
    &&& info.uncalled@ == Map::<u64, Vec<String>>::empty()
}

/// The fully-unknown model of an enumerated file with no record: every map
/// is empty and the summary is all zeroes, so every line is unknown.
pub open spec fn info_empty(info: FileInfo, file: (String, String)) -> bool {
    &&& info.path@ == file.0@
    &&& info.relative_path@ == file.1@
    &&& info.summary == zero_summary()
    &&& info.covered@ == Map::<u64, u64>::empty()
    &&& info.uncovered@ == Set::<u64>::empty()
    &&& info.called@ == Map::<u64, Vec<(String, u64)>>::empty()
    &&& info.uncalled@ == Map::<u64, Vec<String>>::empty()
}

/// Matches enumerated source files against the decoded file records and
/// builds the per-line model of every enumerated file.
///
/// Each enumerated file, given as an `(absolute path, relative path)` pair,
/// takes the first record that belongs to it. A file with no record gets
/// the fully-unknown model; records that belong to no enumerated file are
/// silently dropped. The order of the enumerated files is kept.
pub fn merge_file_info(files: &Vec<(String, String)>, coverage: &Vec<File>) -> (r: Vec<FileInfo>)
    ensures
        r@.len() == files@.len(),
        forall|n: int|
            0 <= n < files@.len() ==> (match first_match(coverage@, files@[n].0@, files@[n].1@) {
                Some(j) => info_corresponds(#[trigger] r@[n], files@[n], coverage@[j]),
                None => info_empty(r@[n], files@[n]),
            }),
{
    let mut out: Vec<FileInfo> = Vec::new();
    let mut i: usize = 0;
    while i < files.len()
        invariant
            0 <= i <= files@.len(),
            out@.len() == i,
            forall|n: int|
                0 <= n < i ==> (match first_match(coverage@, files@[n].0@, files@[n].1@) {
                    Some(j) => info_corresponds(#[trigger] out@[n], files@[n], coverage@[j]),
                    None => info_empty(out@[n], files@[n]),
                }),
        decreases files@.len() - i,
    {
        let pair = &files[i];
        let mut j: usize = 0;
        let mut found: bool = false;
        while j < coverage.len() && !found
            invariant
                0 <= j <= coverage@.len(),
                if found {
                    j < coverage@.len() && record_matches(coverage@[j as int], pair.0@, pair.1@)
                        && forall|k: int|
                        0 <= k < j ==> !record_matches(coverage@[k], pair.0@, pair.1@)
                } else {
                    forall|k: int| 0 <= k < j ==> !record_matches(coverage@[k], pair.0@, pair.1@)
                },
            decreases coverage@.len() - j + (if found { 0int } else { 1 }),
        {
            let record = &coverage[j];
            let matches = if is_absolute_path(record.filename.as_str()) {
                record.filename == pair.0
            } else {
                record.filename == pair.1
            };
            if matches {
                found = true;
            } else {
                j = j + 1;
            }
        }
        if found {
            proof {
                lemma_first_match_skip(coverage@, pair.0@, pair.1@, j as int);
                assert(first_match(coverage@, pair.0@, pair.1@) == Some(j as int));
            }
            let record = &coverage[j];
            let (covered, uncovered) = project_segments(&record.segments);
            out.push(
                FileInfo {
                    path: pair.0.clone(),
                    relative_path: pair.1.clone(),
                    summary: record.summary,
                    covered,
                    uncovered,
                    called: HashMap::new(),
                    uncalled: HashMap::new(),
                },
            );
        } else {
            proof {
                lemma_first_match_skip(coverage@, pair.0@, pair.1@, coverage@.len() as int);
                assert(first_match(coverage@, pair.0@, pair.1@) is None);
            }
            out.push(
                FileInfo {
                    path: pair.0.clone(),
                    relative_path: pair.1.clone(),
                    summary: Summary {
                        lines: CoverageCounts { count: 0, covered: 0 },
                        functions: CoverageCounts { count: 0, covered: 0 },
                        instantiations: CoverageCounts { count: 0, covered: 0 },
                        regions: CoverageCounts2 { count: 0, covered: 0, notcovered: 0 },
                        branches: CoverageCounts2 { count: 0, covered: 0, notcovered: 0 },
                    },
                    covered: HashMap::new(),
                    uncovered: HashSet::new(),
                    called: HashMap::new(),
                    uncalled: HashMap::new(),
                },
            );
        }
        i = i + 1;
    }
    out
}

} // verus!

verus! {

// ---------------------------------------------------------------------------
// Projection of function regions onto lines
// ---------------------------------------------------------------------------

/// One call entry as mathematics: the name's characters and the count.
pub open spec fn call_views(v: Seq<(String, u64)>) -> Seq<(Seq<char>, u64)> {
    v.map_values(|p: (String, u64)| (p.0@, p.1))
}

/// A name list as mathematics: each name's characters.
pub open spec fn name_views(v: Seq<String>) -> Seq<Seq<char>> {
    v.map_values(|s: String| s@)
}

/// A name list as the set it stands for.
pub open spec fn name_set(v: Seq<String>) -> Set<Seq<char>> {
    name_views(v).to_set()
}

/// The `called` map as mathematics: per line, the instantiations in the
/// order they were recorded.
pub open spec fn called_view(m: Map<u64, Vec<(String, u64)>>) -> Map<u64, Seq<(Seq<char>, u64)>> {
    m.map_values(|v: Vec<(String, u64)>| call_views(v@))
}

/// The `uncalled` map as mathematics: per line, the set of names of
/// functions never called there.
pub open spec fn uncalled_view(m: Map<u64, Vec<String>>) -> Map<u64, Set<Seq<char>>> {
    m.map_values(|v: Vec<String>| name_set(v@))
}

/// Whether every line's uncalled list holds each name once.
pub open spec fn uncalled_nodup(m: Map<u64, Vec<String>>) -> bool {
    forall|l: u64| m.dom().contains(l) ==> name_views((#[trigger] m[l])@).no_duplicates()
}

/// Appends one instantiation to a line's call list.
pub open spec fn called_add(
    m: Map<u64, Seq<(Seq<char>, u64)>>,
    line: u64,
    name: Seq<char>,
    count: u64,
) -> Map<u64, Seq<(Seq<char>, u64)>> {
    let cur = if m.dom().contains(line) { m[line] } else { Seq::empty() };
    m.insert(line, cur.push((name, count)))
}

/// Appends one instantiation to every line of `lo..=hi`, in ascending
/// order.
pub open spec fn called_add_lines(
    m: Map<u64, Seq<(Seq<char>, u64)>>,
    lo: int,
    hi: int,
    name: Seq<char>,
    count: u64,
) -> Map<u64, Seq<(Seq<char>, u64)>>
    decreases hi + 1 - lo,
{
    if lo > hi {
        m
    } else {
        called_add_lines(called_add(m, lo as u64, name, count), lo + 1, hi, name, count)
    }
}

/// Inserts one name into a line's uncalled set: inserting a name a second
/// time changes nothing.
pub open spec fn uncalled_add(m: Map<u64, Set<Seq<char>>>, line: u64, name: Seq<char>) -> Map<
    u64,
    Set<Seq<char>>,
> {
    let cur = if m.dom().contains(line) { m[line] } else { Set::empty() };
    m.insert(line, cur.insert(name))
}

/// Inserts one name into the uncalled set of every line of `lo..=hi`.
pub open spec fn uncalled_add_lines(
    m: Map<u64, Set<Seq<char>>>,
    lo: int,
    hi: int,
    name: Seq<char>,
) -> Map<u64, Set<Seq<char>>>
    decreases hi + 1 - lo,
{
    if lo > hi {
        m
    } else {
        uncalled_add_lines(uncalled_add(m, lo as u64, name), lo + 1, hi, name)
    }
}

/// What one region contributes: a region that ran adds an instantiation to
/// every line it spans; one that never ran adds its function's name to
/// every line's uncalled set.
pub open spec fn project_region(
    called: Map<u64, Seq<(Seq<char>, u64)>>,
    uncalled: Map<u64, Set<Seq<char>>>,
    r: Region,
    name: Seq<char>,
) -> (Map<u64, Seq<(Seq<char>, u64)>>, Map<u64, Set<Seq<char>>>) {
    if r.execution_count > 0 {
        (
            called_add_lines(called, r.line_start as int, r.line_end as int, name, r.execution_count),
            uncalled,
        )
    } else {
        (called, uncalled_add_lines(uncalled, r.line_start as int, r.line_end as int, name))
    }
}

/// What the first `k` regions of one function contribute, in order.
pub open spec fn project_regions(
    called: Map<u64, Seq<(Seq<char>, u64)>>,
    uncalled: Map<u64, Set<Seq<char>>>,
    regions: Seq<Region>,
    name: Seq<char>,
    k: int,
) -> (Map<u64, Seq<(Seq<char>, u64)>>, Map<u64, Set<Seq<char>>>)
    decreases k,
{
    if k <= 0 {
        (called, uncalled)
    } else {
        let prev = project_regions(called, uncalled, regions, name, k - 1);
        project_region(prev.0, prev.1, regions[k - 1], name)
    }
}

/// Whether a function touches a file: any of its filenames equals the
/// file's path, not only the first.
pub open spec fn function_touches(f: Function, path: Seq<char>) -> bool {
    exists|j: int| 0 <= j < f.filenames@.len() && f.filenames@[j]@ == path
}

/// What the first `k` functions contribute to the file at `path`: every
/// function that touches the file projects its regions, in order.
pub open spec fn project_functions(
    called: Map<u64, Seq<(Seq<char>, u64)>>,
    uncalled: Map<u64, Set<Seq<char>>>,
    functions: Seq<Function>,
    path: Seq<char>,
    k: int,
) -> (Map<u64, Seq<(Seq<char>, u64)>>, Map<u64, Set<Seq<char>>>)
    decreases k,
{
    if k <= 0 {
        (called, uncalled)
    } else {
        let prev = project_functions(called, uncalled, functions, path, k - 1);
        let f = functions[k - 1];
        if function_touches(f, path) {
            project_regions(prev.0, prev.1, f.regions@, f.name@, f.regions@.len() as int)
        } else {
            prev
        }
    }
}

/// Appends one instantiation to one line's call list.
fn called_push(map: &mut HashMap<u64, Vec<(String, u64)>>, line: u64, name: &String, count: u64)
    ensures
        called_view(final(map)@) == called_add(called_view(old(map)@), line, name@, count),
{
    let mut cur: Vec<(String, u64)> = match map.remove(&line) {
        Some(v) => v,
        None => Vec::new(),
    };
    cur.push((name.clone(), count));
    map.insert(line, cur);
    proof {
        let m0 = old(map)@;
        let lhs = called_view(map@);
        let rhs = called_add(called_view(m0), line, name@, count);
        assert(map@ =~= m0.insert(line, cur));
        assert(lhs.dom() =~= rhs.dom());
        assert(lhs[line] =~= rhs[line]);
        assert forall|l: u64| #[trigger] lhs.dom().contains(l) && l != line implies lhs[l]
            == rhs[l] by {
            assert(map@[l] == m0[l]);
        }
        assert(lhs =~~= rhs);
    }
}

/// Inserts one name into one line's uncalled list, keeping the list free of
/// duplicates: inserting a name a second time changes nothing.
fn uncalled_insert(map: &mut HashMap<u64, Vec<String>>, line: u64, name: &String)
    requires
        uncalled_nodup(old(map)@),
    ensures
        uncalled_view(final(map)@) == uncalled_add(uncalled_view(old(map)@), line, name@),
        uncalled_nodup(final(map)@),
{
    let mut cur: Vec<String> = match map.remove(&line) {
        Some(v) => v,
        None => Vec::new(),
    };
    let ghost old_cur = cur@;
    let ghost old_len: int = cur@.len() as int;
    let mut present: bool = false;
    let mut t: usize = 0;
    while t < cur.len() && !present
        invariant
            0 <= t <= cur@.len(),
            if present {
                t < cur@.len() && cur@[t as int]@ == name@
            } else {
                forall|u: int| 0 <= u < t ==> cur@[u]@ != name@
            },
        decreases cur@.len() - t + (if present { 0int } else { 1 }),
    {
        if cur[t] == *name {
            present = true;
        } else {
            t = t + 1;
        }
    }
    if !present {
        cur.push(name.clone());
    }
    map.insert(line, cur);
    proof {
        let m0 = old(map)@;
        let lhs = uncalled_view(map@);
        let rhs = uncalled_add(uncalled_view(m0), line, name@);
        let s0 = if uncalled_view(m0).dom().contains(line) {
            uncalled_view(m0)[line]
        } else {
            Set::<Seq<char>>::empty()
        };
        assert(map@ =~= m0.insert(line, cur));
        assert(lhs.dom() =~= rhs.dom());
        assert(lhs[line] == name_set(cur@));
        if present {
            assert(name_views(cur@)[t as int] == name@);
        } else {
            assert forall|u: int| 0 <= u < old_len implies name_views(old_cur)[u] != name@ by {}
            assert(name_views(cur@) =~= name_views(old_cur).push(name@));
            assert(name_views(cur@)[old_len] == name@);
        }
        assert(name_set(cur@).contains(name@));
        assert forall|x: Seq<char>| #[trigger] name_set(cur@).contains(x) implies s0.contains(x)
            || x == name@ by {
            let i = choose|i: int| 0 <= i < name_views(cur@).len() && name_views(cur@)[i] == x;
            if i < old_len {
                assert(name_views(old_cur)[i] == x);
                assert(cur@[i] == old_cur[i]);
                if uncalled_view(m0).dom().contains(line) {
                    assert(name_views(m0[line]@)[i] == x);
                }
            }
        }
        assert forall|x: Seq<char>| s0.contains(x) implies #[trigger] name_set(
            cur@,
        ).contains(x) by {
            let i = choose|i: int|
                0 <= i < name_views(old_cur).len() && name_views(old_cur)[i] == x;
            assert(name_views(cur@)[i] == x);
        }
        assert(lhs[line] =~= rhs[line]);
        assert forall|l: u64| #[trigger] lhs.dom().contains(l) && l != line implies lhs[l]
            == rhs[l] by {
            assert(map@[l] == m0[l]);
        }
        assert(lhs =~~= rhs);
        assert forall|l: u64| map@.dom().contains(l) implies name_views(
            (#[trigger] map@[l])@,
        ).no_duplicates() by {
            if l != line {
                assert(map@[l] == m0[l]);
            }
        }
    }
}

} // verus!

verus! {

/// Projects one region of a function onto the file's maps.
fn apply_region(
    called: &mut HashMap<u64, Vec<(String, u64)>>,
    uncalled: &mut HashMap<u64, Vec<String>>,
    region: &Region,
    name: &String,
)
    requires
        uncalled_nodup(old(uncalled)@),
    ensures
        ({
            let p = project_region(
                called_view(old(called)@),
                uncalled_view(old(uncalled)@),
                *region,
                name@,
            );
            called_view(final(called)@) == p.0 && uncalled_view(final(uncalled)@) == p.1
        }),
        uncalled_nodup(final(uncalled)@),
{
    let lo = region.line_start;
    let hi = region.line_end;
    if region.execution_count > 0 {
        let ghost goal = called_add_lines(
            called_view(called@),
            lo as int,
            hi as int,
            name@,
            region.execution_count,
        );
        if lo <= hi {
            let mut l: u64 = lo;
            while l < hi
                invariant
                    lo <= l <= hi,
                    called_add_lines(
                        called_view(called@),
                        l as int,
                        hi as int,
                        name@,
                        region.execution_count,
                    ) == goal,
                decreases hi - l,
            {
                called_push(called, l, name, region.execution_count);
                l = l + 1;
            }
            called_push(called, hi, name, region.execution_count);
            proof {
                reveal_with_fuel(called_add_lines, 2);
            }
        }
    } else {
        let ghost goal = uncalled_add_lines(uncalled_view(uncalled@), lo as int, hi as int, name@);
        if lo <= hi {
            let mut l: u64 = lo;
            while l < hi
                invariant
                    lo <= l <= hi,
                    uncalled_add_lines(uncalled_view(uncalled@), l as int, hi as int, name@)
                        == goal,
                    uncalled_nodup(uncalled@),
                decreases hi - l,
            {
                uncalled_insert(uncalled, l, name);
                l = l + 1;
            }
            uncalled_insert(uncalled, hi, name);
            proof {
                reveal_with_fuel(uncalled_add_lines, 2);
            }
        }
    }
}

/// Projects every region of one function onto the file's maps, in order.
fn apply_function(
    called: &mut HashMap<u64, Vec<(String, u64)>>,
    uncalled: &mut HashMap<u64, Vec<String>>,
    f: &Function,
)
    requires
        uncalled_nodup(old(uncalled)@),
    ensures
        ({
            let p = project_regions(
                called_view(old(called)@),
                uncalled_view(old(uncalled)@),
                f.regions@,
                f.name@,
                f.regions@.len() as int,
            );
            called_view(final(called)@) == p.0 && uncalled_view(final(uncalled)@) == p.1
        }),
        uncalled_nodup(final(uncalled)@),
{
    let ghost c0 = called_view(called@);
    let ghost u0 = uncalled_view(uncalled@);
    let mut k: usize = 0;
    while k < f.regions.len()
        invariant
            0 <= k <= f.regions@.len(),
            c0 == called_view(old(called)@),
            u0 == uncalled_view(old(uncalled)@),
            ({
                let p = project_regions(c0, u0, f.regions@, f.name@, k as int);
                called_view(called@) == p.0 && uncalled_view(uncalled@) == p.1
            }),
            uncalled_nodup(uncalled@),
        decreases f.regions@.len() - k,
    {
        apply_region(called, uncalled, &f.regions[k], &f.name);
        k = k + 1;
    }
}

/// Whether any of a function's filenames equals the given path.
fn function_touches_file(f: &Function, path: &String) -> (r: bool)
    ensures
        r == function_touches(*f, path@),
{
    let mut j: usize = 0;
    while j < f.filenames.len()
        invariant
            0 <= j <= f.filenames@.len(),
            forall|k: int| 0 <= k < j ==> f.filenames@[k]@ != path@,
        decreases f.filenames@.len() - j,
    {
        if f.filenames[j] == *path {
            return true;
        }
        j = j + 1;
    }
    proof {
        if function_touches(*f, path@) {
            let w = choose|w: int| 0 <= w < f.filenames@.len() && f.filenames@[w]@ == path@;
            assert(false);
        }
    }
    false
}

/// How one merged entry relates to its state before the merge: the paths,
/// the summary and the line coverage are untouched, and the instantiation
/// maps gain the projection of every function that touches the file.
pub open spec fn merged_corresponds(before: FileInfo, after: FileInfo, functions: Seq<Function>) -> bool {
    let p = project_functions(
        called_view(before.called@),
        uncalled_view(before.uncalled@),
        functions,
        before.path@,
        functions.len() as int,
    );
    &&& after.path@ == before.path@
    &&& after.relative_path@ == before.relative_path@
    &&& after.summary == before.summary
    &&& after.covered@ == before.covered@
    &&& after.uncovered@ == before.uncovered@
    &&& called_view(after.called@) == p.0
    &&& uncalled_view(after.uncalled@) == p.1
    &&& uncalled_nodup(after.uncalled@)
}

/// Projects the function records onto every file of the model.
///
/// A function is attributed to a file when any of its filenames equals the
/// file's absolute path. Regions that ran append `(name, count)` facts to
/// `called`; regions that never ran add the name to `uncalled`, which keeps
/// each name once per line.
pub fn merge_function_info(files: Vec<FileInfo>, functions: &Vec<Function>) -> (r: Vec<FileInfo>)
    requires
        forall|n: int| 0 <= n < files@.len() ==> uncalled_nodup(#[trigger] files@[n].uncalled@),
    ensures
        r@.len() == files@.len(),
        forall|n: int|
            0 <= n < files@.len() ==> merged_corresponds(files@[n], #[trigger] r@[n], functions@),
{
    let ghost orig = files@;
    let mut files = files;
    let mut out: Vec<FileInfo> = Vec::new();
    while files.len() > 0
        invariant
            out@.len() + files@.len() == orig.len(),
            files@ == orig.skip(out@.len() as int),
            forall|n: int| 0 <= n < orig.len() ==> uncalled_nodup(#[trigger] orig[n].uncalled@),
            forall|n: int|
                0 <= n < out@.len() ==> merged_corresponds(orig[n], #[trigger] out@[n], functions@),
        decreases files@.len(),
    {
        let ghost done: int = out@.len() as int;
        let info = files.remove(0);
        proof {
            assert(orig.skip(done)[0] == orig[done]);
            assert(orig.skip(done).remove(0) =~= orig.skip(done + 1));
        }
        let FileInfo { path, relative_path, summary, covered, uncovered, mut called, mut uncalled } =
            info;
        let ghost c0 = called_view(called@);
        let ghost u0 = uncalled_view(uncalled@);
        let mut k: usize = 0;
        while k < functions.len()
            invariant
                0 <= k <= functions@.len(),
                c0 == called_view(orig[done].called@),
                u0 == uncalled_view(orig[done].uncalled@),
                path@ == orig[done].path@,
                uncalled_nodup(orig[done].uncalled@),
                ({
                    let p = project_functions(c0, u0, functions@, path@, k as int);
                    called_view(called@) == p.0 && uncalled_view(uncalled@) == p.1
                }),
                uncalled_nodup(uncalled@),
            decreases functions@.len() - k,
        {
            let f = &functions[k];
            if function_touches_file(f, &path) {
                apply_function(&mut called, &mut uncalled, f);
            }
            k = k + 1;
        }
        out.push(
            FileInfo { path, relative_path, summary, covered, uncovered, called, uncalled },
        );
    }
    proof {
        assert(files@.len() == 0);
    }
    out
}

} // verus!

verus! {

// ---------------------------------------------------------------------------
// Laws of the projection
// ---------------------------------------------------------------------------

/// Whether a range writes a covered count for the given line.
pub open spec fn covers(r: LineRange, line: u64) -> bool {
    r.count > 0 && r.start <= line && line <= r.end
}

/// The last range among the first `k` that writes the given line.
pub open spec fn last_writer_upto(ranges: Seq<LineRange>, line: u64, k: int) -> Option<int>
    decreases k,
{
    if k <= 0 {
        None
    } else if covers(ranges[k - 1], line) {
        Some(k - 1)
    } else {
        last_writer_upto(ranges, line, k - 1)
    }
}

proof fn lemma_insert_lines_at(m: Map<u64, u64>, lo: int, hi: int, c: u64, x: u64)
    requires
        0 <= lo,
        hi <= u64::MAX,
    ensures
        insert_lines(m, lo, hi, c).dom().contains(x) <==> (m.dom().contains(x) || (lo <= x <= hi)),
        (lo <= x <= hi) ==> insert_lines(m, lo, hi, c)[x] == c,
        (!(lo <= x <= hi) && m.dom().contains(x)) ==> insert_lines(m, lo, hi, c)[x] == m[x],
    decreases hi + 1 - lo,
{
    if lo <= hi {
        lemma_insert_lines_at(m.insert(lo as u64, c), lo + 1, hi, c, x);
    }
}

proof fn lemma_covered_upto_at(ranges: Seq<LineRange>, line: u64, k: int)
    requires
        0 <= k <= ranges.len(),
    ensures
        match last_writer_upto(ranges, line, k) {
            Some(j) => covered_upto(ranges, k).dom().contains(line) && covered_upto(ranges, k)[line]
                == ranges[j].count,
            None => !covered_upto(ranges, k).dom().contains(line),
        },
    decreases k,
{
    if k > 0 {
        lemma_covered_upto_at(ranges, line, k - 1);
        let r = ranges[k - 1];
        if r.count > 0 {
            lemma_insert_lines_at(
                covered_upto(ranges, k - 1),
                r.start as int,
                r.end as int,
                r.count,
                line,
            );
        }
    }
}

/// Last write wins: a line's covered count is the count of the last range
/// in segment order that spans the line with a positive count, and a line
/// no such range spans is absent from the map.
pub proof fn lemma_last_write_wins(ranges: Seq<LineRange>, line: u64)
    ensures
        match last_writer_upto(ranges, line, ranges.len() as int) {
            Some(j) => covered_map(ranges).dom().contains(line) && covered_map(ranges)[line]
                == ranges[j].count,
            None => !covered_map(ranges).dom().contains(line),
        },
{
    lemma_covered_upto_at(ranges, line, ranges.len() as int);
}

/// Idempotent set semantics: inserting the same function name into a
/// line's uncalled set a second time changes nothing.
pub proof fn lemma_uncalled_insert_idempotent(
    m: Map<u64, Set<Seq<char>>>,
    line: u64,
    name: Seq<char>,
)
    ensures
        uncalled_add(uncalled_add(m, line, name), line, name) == uncalled_add(m, line, name),
{
    assert(uncalled_add(uncalled_add(m, line, name), line, name) =~~= uncalled_add(m, line, name));
}

} // verus!

verus! {

// ---------------------------------------------------------------------------
// Index ordering
// ---------------------------------------------------------------------------

/// Lexicographic order of two character sequences, decided at the first
/// index from `i` where they differ; a prefix comes first.
pub open spec fn chars_le_from(a: Seq<char>, b: Seq<char>, i: int) -> bool
    decreases a.len() - i,
{
    if i < 0 || i >= a.len() {
        true
    } else if i >= b.len() {
        false
    } else if a[i] == b[i] {
        chars_le_from(a, b, i + 1)
    } else {
        (a[i] as u32) < (b[i] as u32)
    }
}

/// Lexicographic order of two character sequences.
pub open spec fn chars_le(a: Seq<char>, b: Seq<char>) -> bool {
    chars_le_from(a, b, 0)
}

proof fn lemma_chars_le_total(a: Seq<char>, b: Seq<char>, i: int)
    requires
        0 <= i,
    ensures
        chars_le_from(a, b, i) || chars_le_from(b, a, i),
    decreases a.len() - i,
{
    if i < a.len() && i < b.len() && a[i] == b[i] {
        lemma_chars_le_total(a, b, i + 1);
    }
    if i < a.len() && i < b.len() && a[i] != b[i] {
        vstd::utf8::char_u32_cast(a[i], a[i] as u32);
        vstd::utf8::char_u32_cast(b[i], b[i] as u32);
    }
}

proof fn lemma_chars_le_trans(a: Seq<char>, b: Seq<char>, c: Seq<char>, i: int)
    requires
        0 <= i,
        chars_le_from(a, b, i),
        chars_le_from(b, c, i),
    ensures
        chars_le_from(a, c, i),
    decreases a.len() - i,
{
    if i < a.len() && i < b.len() && i < c.len() && a[i] == b[i] && b[i] == c[i] {
        lemma_chars_le_trans(a, b, c, i + 1);
    }
}

/// Compares two strings lexicographically by character.
fn string_le(a: &str, b: &str) -> (r: bool)
    ensures
        r == chars_le(a@, b@),
{
    let la = a.unicode_len();
    let lb = b.unicode_len();
    let mut i: usize = 0;
    while i < la && i < lb
        invariant
            0 <= i,
            la == a@.len(),
            lb == b@.len(),
            chars_le(a@, b@) == chars_le_from(a@, b@, i as int),
        decreases la - i,
    {
        let ca = a.get_char(i);
        let cb = b.get_char(i);
        if ca == cb {
            i = i + 1;
        } else {
            return (ca as u32) < (cb as u32);
        }
    }
    i >= la
}

/// Whether the model list is ordered by relative path.
pub open spec fn files_sorted(s: Seq<FileInfo>) -> bool {
    forall|i: int, j: int|
        0 <= i < j < s.len() ==> chars_le(
            (#[trigger] s[i]).relative_path@,
            (#[trigger] s[j]).relative_path@,
        )
}

/// Orders the per-file models by relative path for the index listing,
/// keeping exactly the models that came in.
pub fn sort_file_info(files: Vec<FileInfo>) -> (r: Vec<FileInfo>)
    ensures
        files_sorted(r@),
        r@.to_multiset() == files@.to_multiset(),
{
    let ghost orig = files@;
    let mut input = files;
    let mut out: Vec<FileInfo> = Vec::new();
    while input.len() > 0
        invariant
            files_sorted(out@),
            out@.to_multiset().add(input@.to_multiset()) == orig.to_multiset(),
        decreases input@.len(),
    {
        let ghost out0 = out@;
        let ghost in0 = input@;
        let x = input.remove(0);
        proof {
            assert(in0.remove(0).to_multiset() =~= in0.to_multiset().remove(in0[0]));
            assert(out0.to_multiset().add(input@.to_multiset()).insert(x) =~= orig.to_multiset());
        }
        let mut pos: usize = 0;
        let mut stop: bool = false;
        while pos < out.len() && !stop
            invariant
                0 <= pos <= out@.len(),
                out@ == out0,
                forall|k: int|
                    0 <= k < pos ==> chars_le((#[trigger] out@[k]).relative_path@, x.relative_path@),
                stop ==> pos < out@.len() && !chars_le(
                    out@[pos as int].relative_path@,
                    x.relative_path@,
                ),
            decreases out@.len() - pos + (if stop { 0int } else { 1 }),
        {
            if string_le(out[pos].relative_path.as_str(), x.relative_path.as_str()) {
                pos = pos + 1;
            } else {
                stop = true;
            }
        }
        proof {
            if stop {
                lemma_chars_le_total(out@[pos as int].relative_path@, x.relative_path@, 0);
            }
            assert forall|k: int| pos <= k < out@.len() implies chars_le(
                x.relative_path@,
                (#[trigger] out@[k]).relative_path@,
            ) by {
                if pos < k {
                    lemma_chars_le_trans(
                        x.relative_path@,
                        out@[pos as int].relative_path@,
                        out@[k].relative_path@,
                        0,
                    );
                }
            }
        }
        out.insert(pos, x);
        proof {
            let t = out@;
            assert(t == out0.insert(pos as int, x));
            assert(out0.insert(pos as int, x).to_multiset() == out0.to_multiset().insert(x));
            assert forall|i: int, j: int| 0 <= i < j < t.len() implies chars_le(
                (#[trigger] t[i]).relative_path@,
                (#[trigger] t[j]).relative_path@,
            ) by {
                if j < pos {
                } else if i < pos && j == pos {
                } else if i == pos {
                } else if i < pos && j > pos {
                    assert(t[j] == out0[j - 1]);
                } else if i > pos {
                    assert(t[i] == out0[i - 1]);
                    assert(t[j] == out0[j - 1]);
                }
            }
        }
    }
    out
}

} // verus!
