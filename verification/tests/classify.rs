use llvm_cov_pretty::report::{merge_file_info, merge_function_info, FileInfo};
use llvm_cov_pretty::schema::{
    CoverageCounts, CoverageCounts2, File, Function, Region, RegionKind, Segment, Summary,
};
use llvm_cov_pretty::templates::{Coverage, CoverageStyle};
use std::collections::{HashMap, HashSet};

fn seg(line: u64, col: u64, count: u64, hc: bool, re: bool, gap: bool) -> Segment {
    Segment { line, col, count, has_count: hc, is_region_entry: re, is_gap_region: gap }
}

fn summary() -> Summary {
    Summary {
        lines: CoverageCounts { count: 0, covered: 0 },
        functions: CoverageCounts { count: 0, covered: 0 },
        instantiations: CoverageCounts { count: 0, covered: 0 },
        regions: CoverageCounts2 { count: 0, covered: 0, notcovered: 0 },
        branches: CoverageCounts2 { count: 0, covered: 0, notcovered: 0 },
    }
}

fn file(name: &str, segments: Vec<Segment>) -> File {
    File {
        filename: String::from(name),
        segments,
        branches: vec![],
        expansions: vec![],
        summary: summary(),
    }
}

fn scenario_model(segments: Vec<Segment>, functions: Vec<Function>) -> FileInfo {
    let infos = merge_file_info(
        &vec![(String::from("/p/a.x"), String::from("a.x"))],
        &vec![file("/p/a.x", segments)],
    );
    let mut infos = merge_function_info(infos, &functions);
    infos.remove(0)
}

#[test]
fn empty_segment_list_classifies_every_line_unknown() {
    let info = scenario_model(vec![], vec![]);
    for line in [1, 2, 3, 100, 100000] {
        assert_eq!(info.get_coverage(line, false), Coverage::Unknown);
        assert_eq!(info.get_coverage(line, true), Coverage::Unknown);
    }
}

#[test]
fn overlay_downgrades_covered_line() {
    // A line covered with count 5 that also carries an uncalled entry.
    let mut covered = HashMap::new();
    covered.insert(7u64, 5u64);
    let mut uncalled = HashMap::new();
    uncalled.insert(7u64, vec![String::from("f")]);
    let info = FileInfo {
        path: String::from("/p/a.x"),
        relative_path: String::from("a.x"),
        summary: summary(),
        covered,
        uncovered: HashSet::new(),
        called: HashMap::new(),
        uncalled,
    };
    assert_eq!(info.get_coverage(7, true), Coverage::Uncovered(5));
    assert_eq!(info.get_coverage(7, false), Coverage::Covered(5));
}

#[test]
fn plain_uncovered_line_has_count_zero() {
    let mut uncovered = HashSet::new();
    uncovered.insert(4u64);
    let info = FileInfo {
        path: String::from("/p/a.x"),
        relative_path: String::from("a.x"),
        summary: summary(),
        covered: HashMap::new(),
        uncovered,
        called: HashMap::new(),
        uncalled: HashMap::new(),
    };
    assert_eq!(info.get_coverage(4, true), Coverage::Uncovered(0));
}

#[test]
fn scenario_single_range_covers_lines_one_to_three() {
    let segments = vec![
        seg(1, 1, 5, true, true, false),
        seg(3, 1, 0, false, false, false),
    ];
    let info = scenario_model(segments, vec![]);
    for line in [1, 2, 3] {
        assert_eq!(info.get_coverage(line, true), Coverage::Covered(5));
    }
    assert!(info.uncovered.is_empty());
    assert_eq!(info.get_coverage(4, true), Coverage::Unknown);
}

#[test]
fn scenario_uncalled_instantiation_downgrades_middle_line() {
    let segments = vec![
        seg(1, 1, 5, true, true, false),
        seg(3, 1, 0, false, false, false),
    ];
    let f = Function {
        name: String::from("f"),
        count: 0,
        regions: vec![Region {
            line_start: 2,
            column_start: 1,
            line_end: 2,
            column_end: 9,
            execution_count: 0,
            file_id: 0,
            expanded_file_id: 0,
            kind: RegionKind::Code,
        }],
        branches: vec![],
        filenames: vec![String::from("/p/a.x")],
    };
    let info = scenario_model(segments, vec![f]);
    assert_eq!(info.get_coverage(2, true), Coverage::Uncovered(5));
    assert_eq!(info.get_coverage(1, true), Coverage::Covered(5));
    assert_eq!(info.get_coverage(3, true), Coverage::Covered(5));
    // With the overlay disabled the middle line stays covered.
    assert_eq!(info.get_coverage(2, false), Coverage::Covered(5));
}

#[test]
fn coverage_style_names() {
    assert_eq!(CoverageStyle::Line.as_str(), "line");
    assert_eq!(CoverageStyle::Gutter.as_str(), "gutter");
}
