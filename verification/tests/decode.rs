use llvm_cov_pretty::schema::{
    decode_branch_region, decode_counts, decode_export, decode_file, decode_function,
    decode_region, decode_segment, decode_summary, DecodeError, RawValue, RegionKind,
};

fn u(n: u64) -> RawValue {
    RawValue::Uint(n)
}

fn b(v: bool) -> RawValue {
    RawValue::Bool(v)
}

fn s(v: &str) -> RawValue {
    RawValue::Str(String::from(v))
}

fn arr(items: Vec<RawValue>) -> RawValue {
    RawValue::Arr(items)
}

fn obj(fields: Vec<(&str, RawValue)>) -> RawValue {
    RawValue::Obj(fields.into_iter().map(|(k, v)| (String::from(k), v)).collect())
}

fn counts(count: u64, covered: u64) -> RawValue {
    obj(vec![
        ("count", u(count)),
        ("covered", u(covered)),
        ("percent", RawValue::Num),
    ])
}

fn counts2(count: u64, covered: u64, notcovered: u64) -> RawValue {
    obj(vec![
        ("count", u(count)),
        ("covered", u(covered)),
        ("notcovered", u(notcovered)),
        ("percent", RawValue::Num),
    ])
}

fn summary() -> RawValue {
    obj(vec![
        ("lines", counts(10, 7)),
        ("functions", counts(3, 2)),
        ("instantiations", counts(4, 2)),
        ("regions", counts2(6, 5, 1)),
        ("branches", counts2(2, 1, 1)),
    ])
}

fn segment(line: u64, col: u64, count: u64, hc: bool, re: bool, gap: bool) -> RawValue {
    arr(vec![u(line), u(col), u(count), b(hc), b(re), b(gap)])
}

fn region(ls: u64, le: u64, count: u64, tag: u64) -> RawValue {
    arr(vec![u(ls), u(1), u(le), u(2), u(count), u(0), u(0), u(tag)])
}

#[test]
fn segment_decodes_positionally() {
    let v = segment(1, 2, 5, true, true, false);
    let seg = decode_segment(&v).unwrap();
    assert_eq!(seg.line, 1);
    assert_eq!(seg.col, 2);
    assert_eq!(seg.count, 5);
    assert!(seg.has_count);
    assert!(seg.is_region_entry);
    assert!(!seg.is_gap_region);
    assert!(seg.is_start());
    assert!(!seg.is_end());
}

#[test]
fn segment_end_marker() {
    let v = segment(3, 1, 0, false, false, false);
    let seg = decode_segment(&v).unwrap();
    assert!(!seg.is_start());
    assert!(seg.is_end());
}

#[test]
fn segment_rejects_extra_trailing_elements() {
    let v = arr(vec![u(1), u(2), u(5), b(true), b(true), b(false), u(9)]);
    assert_eq!(decode_segment(&v), Err(DecodeError::WrongArity));
}

#[test]
fn segment_rejects_short_record() {
    let v = arr(vec![u(1), u(2), u(5)]);
    assert_eq!(decode_segment(&v), Err(DecodeError::WrongArity));
}

#[test]
fn segment_rejects_wrong_element_type() {
    let v = arr(vec![s("1"), u(2), u(5), b(true), b(true), b(false)]);
    assert_eq!(decode_segment(&v), Err(DecodeError::WrongType));
}

#[test]
fn segment_rejects_non_array() {
    assert_eq!(decode_segment(&obj(vec![])), Err(DecodeError::WrongType));
}

#[test]
fn region_known_kind_tags() {
    assert_eq!(decode_region(&region(1, 2, 9, 0)).unwrap().kind, RegionKind::Code);
    assert_eq!(decode_region(&region(1, 2, 9, 1)).unwrap().kind, RegionKind::Expansion);
    assert_eq!(decode_region(&region(1, 2, 9, 2)).unwrap().kind, RegionKind::Skipped);
    assert_eq!(decode_region(&region(1, 2, 9, 3)).unwrap().kind, RegionKind::Gap);
    assert_eq!(decode_region(&region(1, 2, 9, 4)).unwrap().kind, RegionKind::Branch);
}

#[test]
fn region_unknown_kind_tag_is_preserved() {
    let r = decode_region(&region(1, 2, 9, 77)).unwrap();
    assert_eq!(r.kind, RegionKind::Unknown(77));
    assert_eq!(r.line_start, 1);
    assert_eq!(r.line_end, 2);
    assert_eq!(r.execution_count, 9);
}

#[test]
fn region_kind_tag_over_byte_range_is_refused() {
    assert_eq!(decode_region(&region(1, 2, 9, 300)), Err(DecodeError::IntOutOfRange));
}

#[test]
fn region_rejects_wrong_arity() {
    let v = arr(vec![u(1), u(1), u(2), u(2), u(9), u(0), u(0)]);
    assert_eq!(decode_region(&v), Err(DecodeError::WrongArity));
}

#[test]
fn branch_region_decodes_both_counts() {
    let v = arr(vec![u(4), u(1), u(4), u(9), u(3), u(8), u(0), u(0), u(4)]);
    let br = decode_branch_region(&v).unwrap();
    assert_eq!(br.execution_count, 3);
    assert_eq!(br.false_execution_count, 8);
    assert_eq!(br.kind, RegionKind::Branch);
}

#[test]
fn counts_requires_percent_field() {
    let v = obj(vec![("count", u(10)), ("covered", u(7))]);
    assert_eq!(decode_counts(&v), Err(DecodeError::MissingField));
}

#[test]
fn counts_accepts_integer_and_fractional_percent() {
    let whole = obj(vec![("count", u(10)), ("covered", u(10)), ("percent", u(100))]);
    assert_eq!(decode_counts(&whole).unwrap().covered, 10);
    let frac = counts(10, 7);
    let c = decode_counts(&frac).unwrap();
    assert_eq!(c.count, 10);
    assert_eq!(c.covered, 7);
}

#[test]
fn summary_decodes_all_sections() {
    let sm = decode_summary(&summary()).unwrap();
    assert_eq!(sm.lines.count, 10);
    assert_eq!(sm.lines.covered, 7);
    assert_eq!(sm.functions.count, 3);
    assert_eq!(sm.instantiations.covered, 2);
    assert_eq!(sm.regions.notcovered, 1);
    assert_eq!(sm.branches.count, 2);
}

#[test]
fn function_name_is_demangled() {
    let v = obj(vec![
        ("name", s("_ZN4main4loop17h0123456789abcdefE")),
        ("count", u(2)),
        ("regions", arr(vec![region(1, 3, 2, 0)])),
        ("branches", arr(vec![])),
        ("filenames", arr(vec![s("src/main.x")])),
    ]);
    let f = decode_function(&v).unwrap();
    assert_eq!(f.name, "main::loop");
    assert_eq!(f.count, 2);
    assert_eq!(f.regions.len(), 1);
    assert_eq!(f.filenames, vec![String::from("src/main.x")]);
}

#[test]
fn plain_function_name_passes_through() {
    let v = obj(vec![
        ("name", s("already_plain")),
        ("count", u(0)),
        ("regions", arr(vec![])),
        ("branches", arr(vec![])),
        ("filenames", arr(vec![])),
    ]);
    let f = decode_function(&v).unwrap();
    assert_eq!(f.name, "already_plain");
}

#[test]
fn function_requires_every_field() {
    let v = obj(vec![("name", s("f")), ("count", u(0))]);
    assert_eq!(decode_function(&v).unwrap_err(), DecodeError::MissingField);
}

#[test]
fn file_lists_default_to_empty() {
    let v = obj(vec![("filename", s("src/lib.x")), ("summary", summary())]);
    let f = decode_file(&v).unwrap();
    assert_eq!(f.filename, "src/lib.x");
    assert!(f.segments.is_empty());
    assert!(f.branches.is_empty());
    assert!(f.expansions.is_empty());
}

#[test]
fn file_decodes_segments() {
    let v = obj(vec![
        ("filename", s("/abs/src/lib.x")),
        ("segments", arr(vec![segment(1, 1, 5, true, true, false)])),
        ("summary", summary()),
    ]);
    let f = decode_file(&v).unwrap();
    assert_eq!(f.segments.len(), 1);
    assert_eq!(f.segments[0].line, 1);
}

#[test]
fn file_propagates_bad_segment() {
    let v = obj(vec![
        ("filename", s("src/lib.x")),
        ("segments", arr(vec![arr(vec![u(1)])])),
        ("summary", summary()),
    ]);
    assert_eq!(decode_file(&v).unwrap_err(), DecodeError::WrongArity);
}

#[test]
fn document_decodes_one_result() {
    let file = obj(vec![("filename", s("src/lib.x")), ("summary", summary())]);
    let export = obj(vec![
        ("files", arr(vec![file])),
        ("totals", summary()),
    ]);
    let doc = obj(vec![
        ("version", s("2.0.1")),
        ("type", s("llvm.coverage.json.export")),
        ("data", arr(vec![export])),
    ]);
    let parsed = decode_export(&doc).unwrap();
    assert_eq!(parsed.version, "2.0.1");
    assert_eq!(parsed.ty, "llvm.coverage.json.export");
    assert_eq!(parsed.data.files.len(), 1);
    assert!(parsed.data.functions.is_empty());
    assert_eq!(parsed.data.totals.lines.count, 10);
}

#[test]
fn document_rejects_two_results() {
    let export = obj(vec![("files", arr(vec![])), ("totals", summary())]);
    let export2 = obj(vec![("files", arr(vec![])), ("totals", summary())]);
    let doc = obj(vec![
        ("version", s("2.0.1")),
        ("type", s("llvm.coverage.json.export")),
        ("data", arr(vec![export, export2])),
    ]);
    assert_eq!(decode_export(&doc).unwrap_err(), DecodeError::WrongResultCount);
}

#[test]
fn document_rejects_empty_data() {
    let doc = obj(vec![
        ("version", s("2.0.1")),
        ("type", s("llvm.coverage.json.export")),
        ("data", arr(vec![])),
    ]);
    assert_eq!(decode_export(&doc).unwrap_err(), DecodeError::WrongResultCount);
}

#[test]
fn expansion_decodes_all_parts() {
    let v = obj(vec![
        ("filenames", arr(vec![s("src/a.x"), s("src/b.x")])),
        ("source_region", region(1, 2, 9, 1)),
        ("target_regions", arr(vec![region(3, 4, 9, 0)])),
        ("branches", arr(vec![])),
    ]);
    let e = llvm_cov_pretty::schema::decode_expansion(&v).unwrap();
    assert_eq!(e.filenames.len(), 2);
    assert_eq!(e.source_region.kind, RegionKind::Expansion);
    assert_eq!(e.target_regions.len(), 1);
    assert!(e.branches.is_empty());
}

#[test]
fn document_decodes_function_records() {
    let file = obj(vec![("filename", s("src/lib.x")), ("summary", summary())]);
    let func = obj(vec![
        ("name", s("f")),
        ("count", u(1)),
        ("regions", arr(vec![region(1, 1, 1, 0)])),
        ("branches", arr(vec![])),
        ("filenames", arr(vec![s("src/lib.x")])),
    ]);
    let export = obj(vec![
        ("files", arr(vec![file])),
        ("functions", arr(vec![func])),
        ("totals", summary()),
    ]);
    let doc = obj(vec![
        ("version", s("2.0.1")),
        ("type", s("llvm.coverage.json.export")),
        ("data", arr(vec![export])),
    ]);
    let parsed = decode_export(&doc).unwrap();
    assert_eq!(parsed.data.functions.len(), 1);
    assert_eq!(parsed.data.functions[0].name, "f");
    assert_eq!(parsed.data.functions[0].regions[0].execution_count, 1);
}
