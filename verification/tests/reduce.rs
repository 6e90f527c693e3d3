use llvm_cov_pretty::report::{
    merge_file_info, merge_function_info, segments_to_ranges, sort_file_info, FileInfo, LineRange,
};
use llvm_cov_pretty::schema::{
    CoverageCounts, CoverageCounts2, File, Function, Region, RegionKind, Segment, Summary,
};
use std::collections::{HashMap, HashSet};

fn seg(line: u64, col: u64, count: u64, hc: bool, re: bool, gap: bool) -> Segment {
    Segment { line, col, count, has_count: hc, is_region_entry: re, is_gap_region: gap }
}

fn start(line: u64, count: u64) -> Segment {
    seg(line, 1, count, true, true, false)
}

fn end(line: u64) -> Segment {
    seg(line, 1, 0, false, false, false)
}

fn zero_counts() -> CoverageCounts {
    CoverageCounts { count: 0, covered: 0 }
}

fn zero_counts2() -> CoverageCounts2 {
    CoverageCounts2 { count: 0, covered: 0, notcovered: 0 }
}

fn summary() -> Summary {
    Summary {
        lines: zero_counts(),
        functions: zero_counts(),
        instantiations: zero_counts(),
        regions: zero_counts2(),
        branches: zero_counts2(),
    }
}

fn file(name: &str, segments: Vec<Segment>) -> File {
    File {
        filename: String::from(name),
        segments,
        branches: vec![],
        expansions: vec![],
        summary: summary(),
    }
}

fn region(line_start: u64, line_end: u64, execution_count: u64) -> Region {
    Region {
        line_start,
        column_start: 1,
        line_end,
        column_end: 2,
        execution_count,
        file_id: 0,
        expanded_file_id: 0,
        kind: RegionKind::Code,
    }
}

fn function(name: &str, filenames: Vec<&str>, regions: Vec<Region>) -> Function {
    Function {
        name: String::from(name),
        count: 1,
        regions,
        branches: vec![],
        filenames: filenames.into_iter().map(String::from).collect(),
    }
}

fn empty_info(rel: &str) -> FileInfo {
    FileInfo {
        path: format!("/p/{rel}"),
        relative_path: String::from(rel),
        summary: summary(),
        covered: HashMap::new(),
        uncovered: HashSet::new(),
        called: HashMap::new(),
        uncalled: HashMap::new(),
    }
}

#[test]
fn every_start_pairs_with_first_end() {
    let segments = vec![start(1, 5), end(3), start(4, 2), end(6)];
    let ranges = segments_to_ranges(&segments);
    assert_eq!(
        ranges,
        vec![
            LineRange { start: 1, end: 3, count: 5 },
            LineRange { start: 4, end: 6, count: 2 },
        ]
    );
}

#[test]
fn unmatched_start_emits_nothing() {
    let segments = vec![start(1, 5)];
    assert!(segments_to_ranges(&segments).is_empty());
}

#[test]
fn gap_segment_is_searched_over_but_emits_nothing() {
    let segments = vec![start(1, 5), seg(2, 1, 0, true, true, true), end(3)];
    let ranges = segments_to_ranges(&segments);
    assert_eq!(ranges, vec![LineRange { start: 1, end: 3, count: 5 }]);
}

#[test]
fn later_range_overwrites_earlier_count() {
    // Two overlapping covered ranges on line 2 with counts 3 then 7.
    let segments = vec![start(1, 3), end(2), start(2, 7), end(3)];
    let infos = merge_file_info(
        &vec![(String::from("/p/a.x"), String::from("a.x"))],
        &vec![file("/p/a.x", segments)],
    );
    assert_eq!(infos.len(), 1);
    assert_eq!(infos[0].covered.get(&2), Some(&7));
    assert_eq!(infos[0].covered.get(&1), Some(&3));
    assert_eq!(infos[0].covered.get(&3), Some(&7));
}

#[test]
fn zero_count_ranges_fill_uncovered() {
    let segments = vec![start(1, 0), end(2)];
    let infos = merge_file_info(
        &vec![(String::from("/p/a.x"), String::from("a.x"))],
        &vec![file("/p/a.x", segments)],
    );
    assert!(infos[0].covered.is_empty());
    assert!(infos[0].uncovered.contains(&1));
    assert!(infos[0].uncovered.contains(&2));
    assert!(!infos[0].uncovered.contains(&3));
}

#[test]
fn absolute_record_matches_absolute_path() {
    let infos = merge_file_info(
        &vec![(String::from("/p/a.x"), String::from("a.x"))],
        &vec![file("/p/a.x", vec![start(1, 4), end(1)])],
    );
    assert_eq!(infos.len(), 1);
    assert_eq!(infos[0].covered.get(&1), Some(&4));
}

#[test]
fn relative_record_matches_relative_path() {
    let infos = merge_file_info(
        &vec![(String::from("/p/a.x"), String::from("a.x"))],
        &vec![file("a.x", vec![start(1, 4), end(1)])],
    );
    assert_eq!(infos.len(), 1);
    assert_eq!(infos[0].covered.get(&1), Some(&4));
}

#[test]
fn unknown_record_produces_no_model() {
    // A record for a file outside the project tree matches nothing and is
    // silently dropped: no model carries its path, and the index stays
    // empty when nothing was enumerated.
    let records = vec![file("/tmp/generated.x", vec![start(1, 9), end(1)])];
    let infos = merge_file_info(&vec![], &records);
    assert!(infos.is_empty());
    let index = sort_file_info(infos);
    assert!(index.is_empty());
}

#[test]
fn unmatched_source_file_gets_empty_model() {
    let records = vec![file("/tmp/generated.x", vec![start(1, 9), end(1)])];
    let infos = merge_file_info(
        &vec![(String::from("/p/a.x"), String::from("a.x"))],
        &records,
    );
    assert_eq!(infos.len(), 1);
    assert_eq!(infos[0].path, "/p/a.x");
    assert!(infos[0].covered.is_empty());
    assert!(infos[0].uncovered.is_empty());
}

#[test]
fn uncalled_name_is_inserted_once() {
    // The same function projects the same zero-count line twice; the
    // uncalled list keeps one entry.
    let mut infos = merge_file_info(
        &vec![(String::from("/p/a.x"), String::from("a.x"))],
        &vec![file("/p/a.x", vec![])],
    );
    let f = function("f", vec!["/p/a.x"], vec![region(2, 2, 0), region(2, 2, 0)]);
    infos = merge_function_info(infos, &vec![f]);
    let names = infos[0].uncalled.get(&2).unwrap();
    assert_eq!(names.len(), 1);
    assert_eq!(names[0], "f");
}

#[test]
fn called_keeps_every_instantiation() {
    let mut infos = merge_file_info(
        &vec![(String::from("/p/a.x"), String::from("a.x"))],
        &vec![file("/p/a.x", vec![])],
    );
    let f = function("g", vec!["/p/a.x"], vec![region(3, 3, 4), region(3, 3, 9)]);
    infos = merge_function_info(infos, &vec![f]);
    let calls = infos[0].called.get(&3).unwrap();
    assert_eq!(calls.len(), 2);
    assert_eq!(calls[0], (String::from("g"), 4));
    assert_eq!(calls[1], (String::from("g"), 9));
}

#[test]
fn function_matches_any_of_its_filenames() {
    let mut infos = merge_file_info(
        &vec![(String::from("/p/a.x"), String::from("a.x"))],
        &vec![file("/p/a.x", vec![])],
    );
    let f = function("h", vec!["/p/other.x", "/p/a.x"], vec![region(1, 1, 2)]);
    infos = merge_function_info(infos, &vec![f]);
    assert_eq!(infos[0].called.get(&1).unwrap().len(), 1);
}

#[test]
fn function_of_another_file_is_ignored() {
    let mut infos = merge_file_info(
        &vec![(String::from("/p/a.x"), String::from("a.x"))],
        &vec![file("/p/a.x", vec![])],
    );
    let f = function("h", vec!["/p/other.x"], vec![region(1, 1, 2)]);
    infos = merge_function_info(infos, &vec![f]);
    assert!(infos[0].called.is_empty());
    assert!(infos[0].uncalled.is_empty());
}

#[test]
fn index_is_ordered_by_relative_path() {
    let infos = vec![empty_info("src/b.x"), empty_info("a.x"), empty_info("src/a.x")];
    let sorted = sort_file_info(infos);
    let rels: Vec<&str> = sorted.iter().map(|i| i.relative_path.as_str()).collect();
    assert_eq!(rels, vec!["a.x", "src/a.x", "src/b.x"]);
}
