//! Typed schema for the coverage export and its positional-array decoder.
//!
//! The export document is a tree of plain values ([`RawValue`]): the
//! surrounding layer parses the document text and hands the tree in here.
//! All records below the top level use dense positional-array encoding; the
//! decoder checks each record's arity exactly and maps open-ended kind tags
//! to a fallback variant instead of failing.

use vstd::prelude::*;

verus! {

/// A plain value of the export document: the decoder's input tree.
pub enum RawValue {
    Null,
    Bool(bool),
    /// A number with an exact unsigned 64-bit value.
    Uint(u64),
    /// Any other number (fractional, negative, or out of unsigned range).
    /// The decoder accepts such numbers only where it ignores the value.
    Num,
    Str(String),
    Arr(Vec<RawValue>),
    Obj(Vec<(String, RawValue)>),
}

/// A shape error: the document does not fit the schema. Fatal, aborts the
/// run before any output is produced.
#[derive(Clone, Copy, PartialEq, Eq, Structural, Debug)]
pub enum DecodeError {
    /// A value has a different type than the schema expects.
    WrongType,
    /// A positional-array record whose arity differs from its field count.
    WrongArity,
    /// A required named field is missing.
    MissingField,
    /// A number does not fit the expected integer width.
    IntOutOfRange,
    /// The document's data list does not hold exactly one analysis result.
    WrongResultCount,
}

/// A point marker in a file's coverage data, decoded from the fixed-length
/// ordered tuple `(line, column, count, has_count, is_region_entry,
/// is_gap_region)`.
#[derive(Clone, Copy, PartialEq, Eq, Structural, Debug)]
pub struct Segment {
    pub line: u64,
    pub col: u64,
    pub count: u64,
    pub has_count: bool,
    pub is_region_entry: bool,
    pub is_gap_region: bool,
}

impl Segment {
    /// Whether this segment opens a counted region.
    pub open spec fn spec_is_start(&self) -> bool {
        self.has_count && self.is_region_entry && !self.is_gap_region
    }

    /// Whether this segment closes a region.
    pub open spec fn spec_is_end(&self) -> bool {
        !self.has_count && !self.is_region_entry && !self.is_gap_region
    }

    #[verifier::when_used_as_spec(spec_is_start)]
    pub fn is_start(&self) -> (r: bool)
        ensures
            r == self.spec_is_start(),
    {
        self.has_count && self.is_region_entry && !self.is_gap_region
    }

    #[verifier::when_used_as_spec(spec_is_end)]
    pub fn is_end(&self) -> (r: bool)
        ensures
            r == self.spec_is_end(),
    {
        !self.has_count && !self.is_region_entry && !self.is_gap_region
    }
}

/// The kind of a coverage region. The tag space of the wire format is
/// open-ended across toolchain versions, so tags outside the known set are
/// preserved in a fallback variant rather than rejected.
#[derive(Clone, Copy, PartialEq, Eq, Structural, Debug)]
pub enum RegionKind {
    Code,
    Expansion,
    Skipped,
    Gap,
    Branch,
    Unknown(u8),
}

/// A line/column span of source attributed to a function, with an execution
/// count. Decoded from an 8-tuple.
#[derive(Clone, Copy, PartialEq, Eq, Structural, Debug)]
pub struct Region {
    pub line_start: u64,
    pub column_start: u64,
    pub line_end: u64,
    pub column_end: u64,
    pub execution_count: u64,
    pub file_id: u64,
    pub expanded_file_id: u64,
    pub kind: RegionKind,
}

/// A region with a second execution count for the false outcome of a
/// conditional branch. Decoded from a 9-tuple.
#[derive(Clone, Copy, PartialEq, Eq, Structural, Debug)]
pub struct BranchRegion {
    pub line_start: u64,
    pub column_start: u64,
    pub line_end: u64,
    pub column_end: u64,
    pub execution_count: u64,
    pub false_execution_count: u64,
    pub file_id: u64,
    pub expanded_file_id: u64,
    pub kind: RegionKind,
}

/// Maps a raw kind tag to its region kind; tags outside the known set keep
/// their value in the fallback variant.
pub open spec fn spec_kind_from_tag(tag: u8) -> RegionKind {
    if tag == 0 {
        RegionKind::Code
    } else if tag == 1 {
        RegionKind::Expansion
    } else if tag == 2 {
        RegionKind::Skipped
    } else if tag == 3 {
        RegionKind::Gap
    } else if tag == 4 {
        RegionKind::Branch
    } else {
        RegionKind::Unknown(tag)
    }
}

#[verifier::when_used_as_spec(spec_kind_from_tag)]
pub fn kind_from_tag(tag: u8) -> (r: RegionKind)
    ensures
        r == spec_kind_from_tag(tag),
{
    if tag == 0 {
        RegionKind::Code
    } else if tag == 1 {
        RegionKind::Expansion
    } else if tag == 2 {
        RegionKind::Skipped
    } else if tag == 3 {
        RegionKind::Gap
    } else if tag == 4 {
        RegionKind::Branch
    } else {
        RegionKind::Unknown(tag)
    }
}

/// What decoding one segment record yields: the exact result, error included.
pub open spec fn segment_decode(v: RawValue) -> Result<Segment, DecodeError> {
    match v {
        RawValue::Arr(items) => if items@.len() != 6 {
            Err(DecodeError::WrongArity)
        } else {
            match (items@[0], items@[1], items@[2], items@[3], items@[4], items@[5]) {
                (
                    RawValue::Uint(line),
                    RawValue::Uint(col),
                    RawValue::Uint(count),
                    RawValue::Bool(has_count),
                    RawValue::Bool(is_region_entry),
                    RawValue::Bool(is_gap_region),
                ) => Ok(Segment { line, col, count, has_count, is_region_entry, is_gap_region }),
                _ => Err(DecodeError::WrongType),
            }
        },
        _ => Err(DecodeError::WrongType),
    }
}

/// Decodes one segment record from its positional 6-tuple.
pub fn decode_segment(v: &RawValue) -> (r: Result<Segment, DecodeError>)
    ensures
        r == segment_decode(*v),
{
    let items = match v {
        RawValue::Arr(items) => items,
        _ => {
            return Err(DecodeError::WrongType);
        },
    };
    if items.len() != 6 {
        return Err(DecodeError::WrongArity);
    }
    match (&items[0], &items[1], &items[2], &items[3], &items[4], &items[5]) {
        (
            RawValue::Uint(line),
            RawValue::Uint(col),
            RawValue::Uint(count),
            RawValue::Bool(has_count),
            RawValue::Bool(is_region_entry),
            RawValue::Bool(is_gap_region),
        ) => Ok(
            Segment {
                line: *line,
                col: *col,
                count: *count,
                has_count: *has_count,
                is_region_entry: *is_region_entry,
                is_gap_region: *is_gap_region,
            },
        ),
        _ => Err(DecodeError::WrongType),
    }
}

/// What decoding one region record yields: the exact result, error included.
pub open spec fn region_decode(v: RawValue) -> Result<Region, DecodeError> {
    match v {
        RawValue::Arr(items) => if items@.len() != 8 {
            Err(DecodeError::WrongArity)
        } else {
            match (
                items@[0],
                items@[1],
                items@[2],
                items@[3],
                items@[4],
                items@[5],
                items@[6],
                items@[7],
            ) {
                (
                    RawValue::Uint(line_start),
                    RawValue::Uint(column_start),
                    RawValue::Uint(line_end),
                    RawValue::Uint(column_end),
                    RawValue::Uint(execution_count),
                    RawValue::Uint(file_id),
                    RawValue::Uint(expanded_file_id),
                    RawValue::Uint(tag),
                ) => if tag > 255 {
                    Err(DecodeError::IntOutOfRange)
                } else {
                    Ok(
                        Region {
                            line_start,
                            column_start,
                            line_end,
                            column_end,
                            execution_count,
                            file_id,
                            expanded_file_id,
                            kind: spec_kind_from_tag(tag as u8),
                        },
                    )
                },
                _ => Err(DecodeError::WrongType),
            }
        },
        _ => Err(DecodeError::WrongType),
    }
}

/// Decodes one region record from its positional 8-tuple.
pub fn decode_region(v: &RawValue) -> (r: Result<Region, DecodeError>)
    ensures
        r == region_decode(*v),
{
    let items = match v {
        RawValue::Arr(items) => items,
        _ => {
            return Err(DecodeError::WrongType);
        },
    };
    if items.len() != 8 {
        return Err(DecodeError::WrongArity);
    }
    match (
        &items[0],
        &items[1],
        &items[2],
        &items[3],
        &items[4],
        &items[5],
        &items[6],
        &items[7],
    ) {
        (
            RawValue::Uint(line_start),
            RawValue::Uint(column_start),
            RawValue::Uint(line_end),
            RawValue::Uint(column_end),
            RawValue::Uint(execution_count),
            RawValue::Uint(file_id),
            RawValue::Uint(expanded_file_id),
            RawValue::Uint(tag),
        ) => if *tag > 255 {
            Err(DecodeError::IntOutOfRange)
        } else {
            Ok(
                Region {
                    line_start: *line_start,
                    column_start: *column_start,
                    line_end: *line_end,
                    column_end: *column_end,
                    execution_count: *execution_count,
                    file_id: *file_id,
                    expanded_file_id: *expanded_file_id,
                    kind: kind_from_tag(*tag as u8),
                },
            )
        },
        _ => Err(DecodeError::WrongType),
    }
}

/// What decoding one branch-region record yields: the exact result, error
/// included.
pub open spec fn branch_region_decode(v: RawValue) -> Result<BranchRegion, DecodeError> {
    match v {
        RawValue::Arr(items) => if items@.len() != 9 {
            Err(DecodeError::WrongArity)
        } else {
            match (
                items@[0],
                items@[1],
                items@[2],
                items@[3],
                items@[4],
                items@[5],
                items@[6],
                items@[7],
                items@[8],
            ) {
                (
                    RawValue::Uint(line_start),
                    RawValue::Uint(column_start),
                    RawValue::Uint(line_end),
                    RawValue::Uint(column_end),
                    RawValue::Uint(execution_count),
                    RawValue::Uint(false_execution_count),
                    RawValue::Uint(file_id),
                    RawValue::Uint(expanded_file_id),
                    RawValue::Uint(tag),
                ) => if tag > 255 {
                    Err(DecodeError::IntOutOfRange)
                } else {
                    Ok(
                        BranchRegion {
                            line_start,
                            column_start,
                            line_end,
                            column_end,
                            execution_count,
                            false_execution_count,
                            file_id,
                            expanded_file_id,
                            kind: spec_kind_from_tag(tag as u8),
                        },
                    )
                },
                _ => Err(DecodeError::WrongType),
            }
        },
        _ => Err(DecodeError::WrongType),
    }
}

/// Decodes one branch-region record from its positional 9-tuple.
pub fn decode_branch_region(v: &RawValue) -> (r: Result<BranchRegion, DecodeError>)
    ensures
        r == branch_region_decode(*v),
{
    let items = match v {
        RawValue::Arr(items) => items,
        _ => {
            return Err(DecodeError::WrongType);
        },
    };
    if items.len() != 9 {
        return Err(DecodeError::WrongArity);
    }
    match (
        &items[0],
        &items[1],
        &items[2],
        &items[3],
        &items[4],
        &items[5],
        &items[6],
        &items[7],
        &items[8],
    ) {
        (
            RawValue::Uint(line_start),
            RawValue::Uint(column_start),
            RawValue::Uint(line_end),
            RawValue::Uint(column_end),
            RawValue::Uint(execution_count),
            RawValue::Uint(false_execution_count),
            RawValue::Uint(file_id),
            RawValue::Uint(expanded_file_id),
            RawValue::Uint(tag),
        ) => if *tag > 255 {
            Err(DecodeError::IntOutOfRange)
        } else {
            Ok(
                BranchRegion {
                    line_start: *line_start,
                    column_start: *column_start,
                    line_end: *line_end,
                    column_end: *column_end,
                    execution_count: *execution_count,
                    false_execution_count: *false_execution_count,
                    file_id: *file_id,
                    expanded_file_id: *expanded_file_id,
                    kind: kind_from_tag(*tag as u8),
                },
            )
        },
        _ => Err(DecodeError::WrongType),
    }
}

} // verus!

verus! {

// ---------------------------------------------------------------------------
// Named-field records
// ---------------------------------------------------------------------------

/// Looks a field name up among `fields`, scanning from index `i`: the first
/// occurrence wins.
pub open spec fn field_from(fields: Seq<(String, RawValue)>, name: Seq<char>, i: int) -> Option<
    RawValue,
>
    decreases fields.len() - i,
{
    if i < 0 || i >= fields.len() {
        None
    } else if fields[i].0@ == name {
        Some(fields[i].1)
    } else {
        field_from(fields, name, i + 1)
    }
}

/// The value of the first field named `name`, if any.
pub open spec fn field_of(fields: Seq<(String, RawValue)>, name: Seq<char>) -> Option<RawValue> {
    field_from(fields, name, 0)
}

proof fn lemma_field_skip(fields: Seq<(String, RawValue)>, name: Seq<char>, i: int)
    requires
        0 <= i <= fields.len(),
        forall|j: int| 0 <= j < i ==> fields[j].0@ != name,
    ensures
        field_of(fields, name) == field_from(fields, name, i),
    decreases i,
{
    if i > 0 {
        lemma_field_skip(fields, name, i - 1);
    }
}

/// Finds the first field with the given name in a decoded object.
fn get_field<'a>(fields: &'a Vec<(String, RawValue)>, name: &str) -> (r: Option<&'a RawValue>)
    ensures
        match r {
            Some(x) => field_of(fields@, name@) == Some(*x),
            None => field_of(fields@, name@) is None,
        },
{
    let owned = name.to_owned();
    let mut i: usize = 0;
    while i < fields.len()
        invariant
            0 <= i <= fields@.len(),
            owned@ == name@,
            forall|j: int| 0 <= j < i ==> fields@[j].0@ != name@,
        decreases fields@.len() - i,
    {
        let pair = &fields[i];
        if pair.0 == owned {
            proof {
                lemma_field_skip(fields@, name@, i as int);
            }
            return Some(&pair.1);
        }
        i = i + 1;
    }
    proof {
        lemma_field_skip(fields@, name@, fields@.len() as int);
    }
    None
}

// ---------------------------------------------------------------------------
// Record lists
// ---------------------------------------------------------------------------

/// Runs an element decoder over a list, from index `i` on: the first
/// element it refuses decides the error.
pub open spec fn list_shape_from<T>(
    f: spec_fn(RawValue) -> Result<T, DecodeError>,
    items: Seq<RawValue>,
    i: int,
) -> Result<(), DecodeError>
    decreases items.len() - i,
{
    if i < 0 || i >= items.len() {
        Ok(())
    } else {
        match f(items[i]) {
            Ok(_) => list_shape_from(f, items, i + 1),
            Err(e) => Err(e),
        }
    }
}

/// Whether every element of a list decodes, and the first error otherwise.
pub open spec fn list_shape<T>(
    f: spec_fn(RawValue) -> Result<T, DecodeError>,
    items: Seq<RawValue>,
) -> Result<(), DecodeError> {
    list_shape_from(f, items, 0)
}

proof fn lemma_list_shape_ok<T>(
    f: spec_fn(RawValue) -> Result<T, DecodeError>,
    items: Seq<RawValue>,
    i: int,
)
    requires
        0 <= i <= items.len(),
        forall|j: int| i <= j < items.len() ==> f(items[j]) is Ok,
    ensures
        list_shape_from(f, items, i) is Ok,
    decreases items.len() - i,
{
    if i < items.len() {
        lemma_list_shape_ok(f, items, i + 1);
    }
}

proof fn lemma_list_shape_err<T>(
    f: spec_fn(RawValue) -> Result<T, DecodeError>,
    items: Seq<RawValue>,
    i: int,
    k: int,
)
    requires
        0 <= i <= k < items.len(),
        forall|j: int| i <= j < k ==> f(items[j]) is Ok,
        f(items[k]) is Err,
    ensures
        list_shape_from(f, items, i) == Err::<(), DecodeError>(f(items[k])->Err_0),
    decreases k - i,
{
    if i < k {
        lemma_list_shape_err(f, items, i + 1, k);
    }
}

/// The segment list a well-shaped list of segment records decodes to.
pub open spec fn segment_list_model(items: Seq<RawValue>) -> Seq<Segment> {
    items.map_values(|x: RawValue| segment_decode(x)->Ok_0)
}

/// The region list a well-shaped list of region records decodes to.
pub open spec fn region_list_model(items: Seq<RawValue>) -> Seq<Region> {
    items.map_values(|x: RawValue| region_decode(x)->Ok_0)
}

/// The branch-region list a well-shaped list of branch records decodes to.
pub open spec fn branch_list_model(items: Seq<RawValue>) -> Seq<BranchRegion> {
    items.map_values(|x: RawValue| branch_region_decode(x)->Ok_0)
}

/// Element decoder for lists of strings.
pub open spec fn string_decode(v: RawValue) -> Result<(), DecodeError> {
    match v {
        RawValue::Str(_) => Ok(()),
        _ => Err(DecodeError::WrongType),
    }
}

/// The segment decoder as a value, for use with the list combinators.
pub open spec fn segment_decoder() -> spec_fn(RawValue) -> Result<Segment, DecodeError> {
    |x: RawValue| segment_decode(x)
}

/// The region decoder as a value, for use with the list combinators.
pub open spec fn region_decoder() -> spec_fn(RawValue) -> Result<Region, DecodeError> {
    |x: RawValue| region_decode(x)
}

/// The branch-region decoder as a value, for use with the list combinators.
pub open spec fn branch_decoder() -> spec_fn(RawValue) -> Result<BranchRegion, DecodeError> {
    |x: RawValue| branch_region_decode(x)
}

/// The string decoder as a value, for use with the list combinators.
pub open spec fn string_decoder() -> spec_fn(RawValue) -> Result<(), DecodeError> {
    |x: RawValue| string_decode(x)
}

/// Decodes a list of segment records, stopping at the first refused element.
pub fn decode_segment_list(items: &Vec<RawValue>) -> (r: Result<Vec<Segment>, DecodeError>)
    ensures
        r is Ok <==> list_shape(segment_decoder(), items@) is Ok,
        (r matches Ok(out) ==> out@ == segment_list_model(items@)),
        (r matches Err(e) ==> list_shape(segment_decoder(), items@) == Err::<
            (),
            DecodeError,
        >(e)),
{
    let ghost f = segment_decoder();
    let mut out: Vec<Segment> = Vec::new();
    let mut i: usize = 0;
    while i < items.len()
        invariant
            0 <= i <= items@.len(),
            f == segment_decoder(),
            out@.len() == i,
            forall|j: int| 0 <= j < i ==> f(items@[j]) is Ok,
            forall|j: int| 0 <= j < i ==> out@[j] == f(items@[j])->Ok_0,
        decreases items@.len() - i,
    {
        match decode_segment(&items[i]) {
            Ok(s) => out.push(s),
            Err(e) => {
                proof {
                    lemma_list_shape_err(f, items@, 0, i as int);
                }
                return Err(e);
            },
        }
        i = i + 1;
    }
    proof {
        lemma_list_shape_ok(f, items@, 0);
        assert(out@ =~= segment_list_model(items@));
    }
    Ok(out)
}

/// Decodes a list of region records, stopping at the first refused element.
pub fn decode_region_list(items: &Vec<RawValue>) -> (r: Result<Vec<Region>, DecodeError>)
    ensures
        r is Ok <==> list_shape(region_decoder(), items@) is Ok,
        (r matches Ok(out) ==> out@ == region_list_model(items@)),
        (r matches Err(e) ==> list_shape(region_decoder(), items@) == Err::<
            (),
            DecodeError,
        >(e)),
{
    let ghost f = region_decoder();
    let mut out: Vec<Region> = Vec::new();
    let mut i: usize = 0;
    while i < items.len()
        invariant
            0 <= i <= items@.len(),
            f == region_decoder(),
            out@.len() == i,
            forall|j: int| 0 <= j < i ==> f(items@[j]) is Ok,
            forall|j: int| 0 <= j < i ==> out@[j] == f(items@[j])->Ok_0,
        decreases items@.len() - i,
    {
        match decode_region(&items[i]) {
            Ok(s) => out.push(s),
            Err(e) => {
                proof {
                    lemma_list_shape_err(f, items@, 0, i as int);
                }
                return Err(e);
            },
        }
        i = i + 1;
    }
    proof {
        lemma_list_shape_ok(f, items@, 0);
        assert(out@ =~= region_list_model(items@));
    }
    Ok(out)
}

/// Decodes a list of branch-region records, stopping at the first refused
/// element.
pub fn decode_branch_list(items: &Vec<RawValue>) -> (r: Result<Vec<BranchRegion>, DecodeError>)
    ensures
        r is Ok <==> list_shape(branch_decoder(), items@) is Ok,
        (r matches Ok(out) ==> out@ == branch_list_model(items@)),
        (r matches Err(e) ==> list_shape(branch_decoder(), items@) == Err::<
            (),
            DecodeError,
        >(e)),
{
    let ghost f = branch_decoder();
    let mut out: Vec<BranchRegion> = Vec::new();
    let mut i: usize = 0;
    while i < items.len()
        invariant
            0 <= i <= items@.len(),
            f == branch_decoder(),
            out@.len() == i,
            forall|j: int| 0 <= j < i ==> f(items@[j]) is Ok,
            forall|j: int| 0 <= j < i ==> out@[j] == f(items@[j])->Ok_0,
        decreases items@.len() - i,
    {
        match decode_branch_region(&items[i]) {
            Ok(s) => out.push(s),
            Err(e) => {
                proof {
                    lemma_list_shape_err(f, items@, 0, i as int);
                }
                return Err(e);
            },
        }
        i = i + 1;
    }
    proof {
        lemma_list_shape_ok(f, items@, 0);
        assert(out@ =~= branch_list_model(items@));
    }
    Ok(out)
}

/// Decodes a list of strings, stopping at the first element that is not one.
pub fn decode_string_list(items: &Vec<RawValue>) -> (r: Result<Vec<String>, DecodeError>)
    ensures
        r is Ok <==> list_shape(string_decoder(), items@) is Ok,
        (r matches Ok(out) ==> out@.len() == items@.len() && forall|j: int|
            0 <= j < items@.len() ==> out@[j]@ == items@[j]->Str_0@),
        (r matches Err(e) ==> list_shape(string_decoder(), items@) == Err::<
            (),
            DecodeError,
        >(e)),
{
    let ghost f = string_decoder();
    let mut out: Vec<String> = Vec::new();
    let mut i: usize = 0;
    while i < items.len()
        invariant
            0 <= i <= items@.len(),
            f == string_decoder(),
            out@.len() == i,
            forall|j: int| 0 <= j < i ==> f(items@[j]) is Ok,
            forall|j: int| 0 <= j < i ==> out@[j]@ == items@[j]->Str_0@,
        decreases items@.len() - i,
    {
        match &items[i] {
            RawValue::Str(s) => out.push(s.clone()),
            _ => {
                proof {
                    lemma_list_shape_err(f, items@, 0, i as int);
                }
                return Err(DecodeError::WrongType);
            },
        }
        i = i + 1;
    }
    proof {
        lemma_list_shape_ok(f, items@, 0);
    }
    Ok(out)
}

} // verus!

verus! {

// ---------------------------------------------------------------------------
// Typed records above the positional layer
// ---------------------------------------------------------------------------

/// Aggregate counters for lines, functions or instantiations. The export
/// also carries a derived percentage, which the decoder checks for presence
/// and otherwise ignores: it is a quotient of the two counts.
#[derive(Clone, Copy, PartialEq, Eq, Structural, Debug)]
pub struct CoverageCounts {
    pub count: u64,
    pub covered: u64,
}

/// Aggregate counters for regions or branches, with an explicit not-covered
/// count beside the derived percentage.
#[derive(Clone, Copy, PartialEq, Eq, Structural, Debug)]
pub struct CoverageCounts2 {
    pub count: u64,
    pub covered: u64,
    pub notcovered: u64,
}

/// Aggregate counters of one file, or of the whole export.
#[derive(Clone, Copy, PartialEq, Eq, Structural, Debug)]
pub struct Summary {
    pub lines: CoverageCounts,
    pub functions: CoverageCounts,
    pub instantiations: CoverageCounts,
    pub regions: CoverageCounts2,
    pub branches: CoverageCounts2,
}

/// One function of the export: its demangled name, its invocation count,
/// and its regions, attributed to the files it touches.
#[derive(Debug)]
pub struct Function {
    pub name: String,
    pub count: u64,
    pub regions: Vec<Region>,
    pub branches: Vec<BranchRegion>,
    pub filenames: Vec<String>,
}

/// A region produced by macro or generic expansion, mapping a source region
/// to target regions in another file context.
#[derive(Debug)]
pub struct Expansion {
    pub filenames: Vec<String>,
    pub source_region: Region,
    pub target_regions: Vec<Region>,
    pub branches: Vec<BranchRegion>,
}

/// One file of the export, with its ordered segment list.
#[derive(Debug)]
pub struct File {
    pub filename: String,
    pub segments: Vec<Segment>,
    pub branches: Vec<BranchRegion>,
    pub expansions: Vec<Expansion>,
    pub summary: Summary,
}

/// One analysis result: the files, the functions, and the overall totals.
#[derive(Debug)]
pub struct Export {
    pub files: Vec<File>,
    pub functions: Vec<Function>,
    pub totals: Summary,
}

/// The whole export document. The wire format wraps the one analysis result
/// in a single-element list; the decoder checks that count and unwraps it.
#[derive(Debug)]
pub struct JsonExport {
    pub version: String,
    pub ty: String,
    pub data: Export,
}

/// What demangling a symbol yields. The demangled form of a symbol depends
/// on its characters alone.
pub uninterp spec fn demangled_of(s: Seq<char>) -> Seq<char>;

/// Relies on `rustc_demangle::demangle`, printed in its alternate form
/// (without the trailing hash). A name that is not a mangled symbol is
/// printed back as it came; demangling never fails.
#[verifier::external_body]
fn demangle_name(s: &str) -> (r: String)
    ensures
        r@ == demangled_of(s@),
{
    format!("{:#}", rustc_demangle::demangle(s))
}

/// What decoding one counters record yields: the exact result, error
/// included.
pub open spec fn counts_decode(v: RawValue) -> Result<CoverageCounts, DecodeError> {
    match v {
        RawValue::Obj(fields) => match field_of(fields@, "count"@) {
            None => Err(DecodeError::MissingField),
            Some(cv) => match cv {
                RawValue::Uint(count) => match field_of(fields@, "covered"@) {
                    None => Err(DecodeError::MissingField),
                    Some(av) => match av {
                        RawValue::Uint(covered) => match field_of(fields@, "percent"@) {
                            None => Err(DecodeError::MissingField),
                            Some(pv) => match pv {
                                RawValue::Uint(_) => Ok(CoverageCounts { count, covered }),
                                RawValue::Num => Ok(CoverageCounts { count, covered }),
                                _ => Err(DecodeError::WrongType),
                            },
                        },
                        _ => Err(DecodeError::WrongType),
                    },
                },
                _ => Err(DecodeError::WrongType),
            },
        },
        _ => Err(DecodeError::WrongType),
    }
}

/// Decodes one counters record from its named fields.
pub fn decode_counts(v: &RawValue) -> (r: Result<CoverageCounts, DecodeError>)
    ensures
        r == counts_decode(*v),
{
    let fields = match v {
        RawValue::Obj(fields) => fields,
        _ => {
            return Err(DecodeError::WrongType);
        },
    };
    let count = match get_field(fields, "count") {
        None => {
            return Err(DecodeError::MissingField);
        },
        Some(RawValue::Uint(n)) => *n,
        Some(_) => {
            return Err(DecodeError::WrongType);
        },
    };
    let covered = match get_field(fields, "covered") {
        None => {
            return Err(DecodeError::MissingField);
        },
        Some(RawValue::Uint(n)) => *n,
        Some(_) => {
            return Err(DecodeError::WrongType);
        },
    };
    match get_field(fields, "percent") {
        None => Err(DecodeError::MissingField),
        Some(RawValue::Uint(_)) => Ok(CoverageCounts { count, covered }),
        Some(RawValue::Num) => Ok(CoverageCounts { count, covered }),
        Some(_) => Err(DecodeError::WrongType),
    }
}

/// What decoding one extended counters record yields: the exact result,
/// error included.
pub open spec fn counts2_decode(v: RawValue) -> Result<CoverageCounts2, DecodeError> {
    match v {
        RawValue::Obj(fields) => match field_of(fields@, "count"@) {
            None => Err(DecodeError::MissingField),
            Some(cv) => match cv {
                RawValue::Uint(count) => match field_of(fields@, "covered"@) {
                    None => Err(DecodeError::MissingField),
                    Some(av) => match av {
                        RawValue::Uint(covered) => match field_of(fields@, "notcovered"@) {
                            None => Err(DecodeError::MissingField),
                            Some(nv) => match nv {
                                RawValue::Uint(notcovered) => match field_of(
                                    fields@,
                                    "percent"@,
                                ) {
                                    None => Err(DecodeError::MissingField),
                                    Some(pv) => match pv {
                                        RawValue::Uint(_) => Ok(
                                            CoverageCounts2 { count, covered, notcovered },
                                        ),
                                        RawValue::Num => Ok(
                                            CoverageCounts2 { count, covered, notcovered },
                                        ),
                                        _ => Err(DecodeError::WrongType),
                                    },
                                },
                                _ => Err(DecodeError::WrongType),
                            },
                        },
                        _ => Err(DecodeError::WrongType),
                    },
                },
                _ => Err(DecodeError::WrongType),
            },
        },
        _ => Err(DecodeError::WrongType),
    }
}

/// Decodes one extended counters record from its named fields.
pub fn decode_counts2(v: &RawValue) -> (r: Result<CoverageCounts2, DecodeError>)
    ensures
        r == counts2_decode(*v),
{
    let fields = match v {
        RawValue::Obj(fields) => fields,
        _ => {
            return Err(DecodeError::WrongType);
        },
    };
    let count = match get_field(fields, "count") {
        None => {
            return Err(DecodeError::MissingField);
        },
        Some(RawValue::Uint(n)) => *n,
        Some(_) => {
            return Err(DecodeError::WrongType);
        },
    };
    let covered = match get_field(fields, "covered") {
        None => {
            return Err(DecodeError::MissingField);
        },
        Some(RawValue::Uint(n)) => *n,
        Some(_) => {
            return Err(DecodeError::WrongType);
        },
    };
    let notcovered = match get_field(fields, "notcovered") {
        None => {
            return Err(DecodeError::MissingField);
        },
        Some(RawValue::Uint(n)) => *n,
        Some(_) => {
            return Err(DecodeError::WrongType);
        },
    };
    match get_field(fields, "percent") {
        None => Err(DecodeError::MissingField),
        Some(RawValue::Uint(_)) => Ok(CoverageCounts2 { count, covered, notcovered }),
        Some(RawValue::Num) => Ok(CoverageCounts2 { count, covered, notcovered }),
        Some(_) => Err(DecodeError::WrongType),
    }
}

/// What decoding one summary record yields: the exact result, error
/// included.
pub open spec fn summary_decode(v: RawValue) -> Result<Summary, DecodeError> {
    match v {
        RawValue::Obj(fields) => match field_of(fields@, "lines"@) {
            None => Err(DecodeError::MissingField),
            Some(lv) => match counts_decode(lv) {
                Err(e) => Err(e),
                Ok(lines) => match field_of(fields@, "functions"@) {
                    None => Err(DecodeError::MissingField),
                    Some(fv) => match counts_decode(fv) {
                        Err(e) => Err(e),
                        Ok(functions) => match field_of(fields@, "instantiations"@) {
                            None => Err(DecodeError::MissingField),
                            Some(iv) => match counts_decode(iv) {
                                Err(e) => Err(e),
                                Ok(instantiations) => match field_of(fields@, "regions"@) {
                                    None => Err(DecodeError::MissingField),
                                    Some(rv) => match counts2_decode(rv) {
                                        Err(e) => Err(e),
                                        Ok(regions) => match field_of(fields@, "branches"@) {
                                            None => Err(DecodeError::MissingField),
                                            Some(bv) => match counts2_decode(bv) {
                                                Err(e) => Err(e),
                                                Ok(branches) => Ok(
                                                    Summary {
                                                        lines,
                                                        functions,
                                                        instantiations,
                                                        regions,
                                                        branches,
                                                    },
                                                ),
                                            },
                                        },
                                    },
                                },
                            },
                        },
                    },
                },
            },
        },
        _ => Err(DecodeError::WrongType),
    }
}

/// Decodes one summary record from its named fields.
pub fn decode_summary(v: &RawValue) -> (r: Result<Summary, DecodeError>)
    ensures
        r == summary_decode(*v),
{
    let fields = match v {
        RawValue::Obj(fields) => fields,
        _ => {
            return Err(DecodeError::WrongType);
        },
    };
    let lines = match get_field(fields, "lines") {
        None => {
            return Err(DecodeError::MissingField);
        },
        Some(x) => match decode_counts(x) {
            Ok(c) => c,
            Err(e) => {
                return Err(e);
            },
        },
    };
    let functions = match get_field(fields, "functions") {
        None => {
            return Err(DecodeError::MissingField);
        },
        Some(x) => match decode_counts(x) {
            Ok(c) => c,
            Err(e) => {
                return Err(e);
            },
        },
    };
    let instantiations = match get_field(fields, "instantiations") {
        None => {
            return Err(DecodeError::MissingField);
        },
        Some(x) => match decode_counts(x) {
            Ok(c) => c,
            Err(e) => {
                return Err(e);
            },
        },
    };
    let regions = match get_field(fields, "regions") {
        None => {
            return Err(DecodeError::MissingField);
        },
        Some(x) => match decode_counts2(x) {
            Ok(c) => c,
            Err(e) => {
                return Err(e);
            },
        },
    };
    let branches = match get_field(fields, "branches") {
        None => {
            return Err(DecodeError::MissingField);
        },
        Some(x) => match decode_counts2(x) {
            Ok(c) => c,
            Err(e) => {
                return Err(e);
            },
        },
    };
    Ok(Summary { lines, functions, instantiations, regions, branches })
}

} // verus!

verus! {

// ---------------------------------------------------------------------------
// Function, expansion and file records
// ---------------------------------------------------------------------------

/// Whether one function record decodes, and the first error otherwise.
/// Fields are checked in order: name, count, regions, branches, filenames;
/// all are required.
pub open spec fn function_shape(v: RawValue) -> Result<(), DecodeError> {
    match v {
        RawValue::Obj(fields) => match field_of(fields@, "name"@) {
            None => Err(DecodeError::MissingField),
            Some(nv) => match nv {
                RawValue::Str(_) => match field_of(fields@, "count"@) {
                    None => Err(DecodeError::MissingField),
                    Some(cv) => match cv {
                        RawValue::Uint(_) => match field_of(fields@, "regions"@) {
                            None => Err(DecodeError::MissingField),
                            Some(rv) => match rv {
                                RawValue::Arr(ritems) => match list_shape(
                                    region_decoder(),
                                    ritems@,
                                ) {
                                    Err(e) => Err(e),
                                    Ok(_) => match field_of(fields@, "branches"@) {
                                        None => Err(DecodeError::MissingField),
                                        Some(bv) => match bv {
                                            RawValue::Arr(bitems) => match list_shape(
                                                branch_decoder(),
                                                bitems@,
                                            ) {
                                                Err(e) => Err(e),
                                                Ok(_) => match field_of(fields@, "filenames"@) {
                                                    None => Err(DecodeError::MissingField),
                                                    Some(fv) => match fv {
                                                        RawValue::Arr(fitems) => match list_shape(
                                                            string_decoder(),
                                                            fitems@,
                                                        ) {
                                                            Err(e) => Err(e),
                                                            Ok(_) => Ok(()),
                                                        },
                                                        _ => Err(DecodeError::WrongType),
                                                    },
                                                },
                                            },
                                            _ => Err(DecodeError::WrongType),
                                        },
                                    },
                                },
                                _ => Err(DecodeError::WrongType),
                            },
                        },
                        _ => Err(DecodeError::WrongType),
                    },
                },
                _ => Err(DecodeError::WrongType),
            },
        },
        _ => Err(DecodeError::WrongType),
    }
}

/// How a decoded function relates to its well-shaped record: the name is
/// demangled, the rest is decoded in place.
pub open spec fn function_corresponds(f: Function, v: RawValue) -> bool {
    let fields = v->Obj_0@;
    &&& f.name@ == demangled_of(field_of(fields, "name"@)->Some_0->Str_0@)
    &&& f.count == field_of(fields, "count"@)->Some_0->Uint_0
    &&& f.regions@ == region_list_model(field_of(fields, "regions"@)->Some_0->Arr_0@)
    &&& f.branches@ == branch_list_model(field_of(fields, "branches"@)->Some_0->Arr_0@)
    &&& f.filenames@.len() == field_of(fields, "filenames"@)->Some_0->Arr_0@.len()
    &&& forall|j: int|
        0 <= j < f.filenames@.len() ==> f.filenames@[j]@ == field_of(
            fields,
            "filenames"@,
        )->Some_0->Arr_0@[j]->Str_0@
}

/// Decodes one function record from its named fields, demangling the name.
pub fn decode_function(v: &RawValue) -> (r: Result<Function, DecodeError>)
    ensures
        r is Ok <==> function_shape(*v) is Ok,
        (r matches Err(e) ==> function_shape(*v) == Err::<(), DecodeError>(e)),
        (r matches Ok(f) ==> function_corresponds(f, *v)),
{
    let fields = match v {
        RawValue::Obj(fields) => fields,
        _ => {
            return Err(DecodeError::WrongType);
        },
    };
    let name = match get_field(fields, "name") {
        None => {
            return Err(DecodeError::MissingField);
        },
        Some(RawValue::Str(s)) => demangle_name(s.as_str()),
        Some(_) => {
            return Err(DecodeError::WrongType);
        },
    };
    let count = match get_field(fields, "count") {
        None => {
            return Err(DecodeError::MissingField);
        },
        Some(RawValue::Uint(n)) => *n,
        Some(_) => {
            return Err(DecodeError::WrongType);
        },
    };
    let regions = match get_field(fields, "regions") {
        None => {
            return Err(DecodeError::MissingField);
        },
        Some(RawValue::Arr(items)) => match decode_region_list(items) {
            Ok(rs) => rs,
            Err(e) => {
                return Err(e);
            },
        },
        Some(_) => {
            return Err(DecodeError::WrongType);
        },
    };
    let branches = match get_field(fields, "branches") {
        None => {
            return Err(DecodeError::MissingField);
        },
        Some(RawValue::Arr(items)) => match decode_branch_list(items) {
            Ok(bs) => bs,
            Err(e) => {
                return Err(e);
            },
        },
        Some(_) => {
            return Err(DecodeError::WrongType);
        },
    };
    let filenames = match get_field(fields, "filenames") {
        None => {
            return Err(DecodeError::MissingField);
        },
        Some(RawValue::Arr(items)) => match decode_string_list(items) {
            Ok(fs) => fs,
            Err(e) => {
                return Err(e);
            },
        },
        Some(_) => {
            return Err(DecodeError::WrongType);
        },
    };
    Ok(Function { name, count, regions, branches, filenames })
}

/// Whether one expansion record decodes, and the first error otherwise.
/// Fields are checked in order: filenames, source_region, target_regions,
/// branches; all are required.
pub open spec fn expansion_shape(v: RawValue) -> Result<(), DecodeError> {
    match v {
        RawValue::Obj(fields) => match field_of(fields@, "filenames"@) {
            None => Err(DecodeError::MissingField),
            Some(fv) => match fv {
                RawValue::Arr(fitems) => match list_shape(string_decoder(), fitems@) {
                    Err(e) => Err(e),
                    Ok(_) => match field_of(fields@, "source_region"@) {
                        None => Err(DecodeError::MissingField),
                        Some(sv) => match region_decode(sv) {
                            Err(e) => Err(e),
                            Ok(_) => match field_of(fields@, "target_regions"@) {
                                None => Err(DecodeError::MissingField),
                                Some(tv) => match tv {
                                    RawValue::Arr(titems) => match list_shape(
                                        region_decoder(),
                                        titems@,
                                    ) {
                                        Err(e) => Err(e),
                                        Ok(_) => match field_of(fields@, "branches"@) {
                                            None => Err(DecodeError::MissingField),
                                            Some(bv) => match bv {
                                                RawValue::Arr(bitems) => match list_shape(
                                                    branch_decoder(),
                                                    bitems@,
                                                ) {
                                                    Err(e) => Err(e),
                                                    Ok(_) => Ok(()),
                                                },
                                                _ => Err(DecodeError::WrongType),
                                            },
                                        },
                                    },
                                    _ => Err(DecodeError::WrongType),
                                },
                            },
                        },
                    },
                },
                _ => Err(DecodeError::WrongType),
            },
        },
        _ => Err(DecodeError::WrongType),
    }
}

/// How a decoded expansion relates to its well-shaped record.
pub open spec fn expansion_corresponds(e: Expansion, v: RawValue) -> bool {
    let fields = v->Obj_0@;
    &&& e.filenames@.len() == field_of(fields, "filenames"@)->Some_0->Arr_0@.len()
    &&& forall|j: int|
        0 <= j < e.filenames@.len() ==> e.filenames@[j]@ == field_of(
            fields,
            "filenames"@,
        )->Some_0->Arr_0@[j]->Str_0@
    &&& e.source_region == region_decode(field_of(fields, "source_region"@)->Some_0)->Ok_0
    &&& e.target_regions@ == region_list_model(
        field_of(fields, "target_regions"@)->Some_0->Arr_0@,
    )
    &&& e.branches@ == branch_list_model(field_of(fields, "branches"@)->Some_0->Arr_0@)
}

/// Decodes one expansion record from its named fields.
pub fn decode_expansion(v: &RawValue) -> (r: Result<Expansion, DecodeError>)
    ensures
        r is Ok <==> expansion_shape(*v) is Ok,
        (r matches Err(e) ==> expansion_shape(*v) == Err::<(), DecodeError>(e)),
        (r matches Ok(ex) ==> expansion_corresponds(ex, *v)),
{
    let fields = match v {
        RawValue::Obj(fields) => fields,
        _ => {
            return Err(DecodeError::WrongType);
        },
    };
    let filenames = match get_field(fields, "filenames") {
        None => {
            return Err(DecodeError::MissingField);
        },
        Some(RawValue::Arr(items)) => match decode_string_list(items) {
            Ok(fs) => fs,
            Err(e) => {
                return Err(e);
            },
        },
        Some(_) => {
            return Err(DecodeError::WrongType);
        },
    };
    let source_region = match get_field(fields, "source_region") {
        None => {
            return Err(DecodeError::MissingField);
        },
        Some(x) => match decode_region(x) {
            Ok(reg) => reg,
            Err(e) => {
                return Err(e);
            },
        },
    };
    let target_regions = match get_field(fields, "target_regions") {
        None => {
            return Err(DecodeError::MissingField);
        },
        Some(RawValue::Arr(items)) => match decode_region_list(items) {
            Ok(rs) => rs,
            Err(e) => {
                return Err(e);
            },
        },
        Some(_) => {
            return Err(DecodeError::WrongType);
        },
    };
    let branches = match get_field(fields, "branches") {
        None => {
            return Err(DecodeError::MissingField);
        },
        Some(RawValue::Arr(items)) => match decode_branch_list(items) {
            Ok(bs) => bs,
            Err(e) => {
                return Err(e);
            },
        },
        Some(_) => {
            return Err(DecodeError::WrongType);
        },
    };
    Ok(Expansion { filenames, source_region, target_regions, branches })
}

} // verus!

verus! {

/// The expansion shape check as a value, for use with the list combinators.
pub open spec fn expansion_decoder() -> spec_fn(RawValue) -> Result<(), DecodeError> {
    |x: RawValue| expansion_shape(x)
}

/// Decodes a list of expansion records, stopping at the first refused
/// element.
pub fn decode_expansion_list(items: &Vec<RawValue>) -> (r: Result<Vec<Expansion>, DecodeError>)
    ensures
        r is Ok <==> list_shape(expansion_decoder(), items@) is Ok,
        (r matches Ok(out) ==> out@.len() == items@.len() && forall|j: int|
            0 <= j < items@.len() ==> expansion_corresponds(out@[j], items@[j])),
        (r matches Err(e) ==> list_shape(expansion_decoder(), items@) == Err::<
            (),
            DecodeError,
        >(e)),
{
    let ghost f = expansion_decoder();
    let mut out: Vec<Expansion> = Vec::new();
    let mut i: usize = 0;
    while i < items.len()
        invariant
            0 <= i <= items@.len(),
            f == expansion_decoder(),
            out@.len() == i,
            forall|j: int| 0 <= j < i ==> f(items@[j]) is Ok,
            forall|j: int| 0 <= j < i ==> expansion_corresponds(out@[j], items@[j]),
        decreases items@.len() - i,
    {
        match decode_expansion(&items[i]) {
            Ok(e) => out.push(e),
            Err(e) => {
                proof {
                    lemma_list_shape_err(f, items@, 0, i as int);
                }
                return Err(e);
            },
        }
        i = i + 1;
    }
    proof {
        lemma_list_shape_ok(f, items@, 0);
    }
    Ok(out)
}

/// Whether one file record decodes, and the first error otherwise. Fields
/// are checked in order: filename, segments, branches, expansions, summary;
/// the three lists default to empty when absent.
pub open spec fn file_shape(v: RawValue) -> Result<(), DecodeError> {
    match v {
        RawValue::Obj(fields) => match field_of(fields@, "filename"@) {
            None => Err(DecodeError::MissingField),
            Some(nv) => match nv {
                RawValue::Str(_) => match file_segments_shape(fields@) {
                    Err(e) => Err(e),
                    Ok(_) => match file_branches_shape(fields@) {
                        Err(e) => Err(e),
                        Ok(_) => match file_expansions_shape(fields@) {
                            Err(e) => Err(e),
                            Ok(_) => match field_of(fields@, "summary"@) {
                                None => Err(DecodeError::MissingField),
                                Some(sv) => match summary_decode(sv) {
                                    Err(e) => Err(e),
                                    Ok(_) => Ok(()),
                                },
                            },
                        },
                    },
                },
                _ => Err(DecodeError::WrongType),
            },
        },
        _ => Err(DecodeError::WrongType),
    }
}

/// Shape of a file's optional segment list: absent means empty.
pub open spec fn file_segments_shape(fields: Seq<(String, RawValue)>) -> Result<(), DecodeError> {
    match field_of(fields, "segments"@) {
        None => Ok(()),
        Some(sv) => match sv {
            RawValue::Arr(items) => list_shape(segment_decoder(), items@),
            _ => Err(DecodeError::WrongType),
        },
    }
}

/// Shape of a file's optional branch list: absent means empty.
pub open spec fn file_branches_shape(fields: Seq<(String, RawValue)>) -> Result<(), DecodeError> {
    match field_of(fields, "branches"@) {
        None => Ok(()),
        Some(bv) => match bv {
            RawValue::Arr(items) => list_shape(branch_decoder(), items@),
            _ => Err(DecodeError::WrongType),
        },
    }
}

/// Shape of a file's optional expansion list: absent means empty.
pub open spec fn file_expansions_shape(fields: Seq<(String, RawValue)>) -> Result<
    (),
    DecodeError,
> {
    match field_of(fields, "expansions"@) {
        None => Ok(()),
        Some(ev) => match ev {
            RawValue::Arr(items) => list_shape(expansion_decoder(), items@),
            _ => Err(DecodeError::WrongType),
        },
    }
}

/// How a decoded file relates to its well-shaped record: absent lists come
/// out empty.
pub open spec fn file_corresponds(f: File, v: RawValue) -> bool {
    let fields = v->Obj_0@;
    &&& f.filename@ == field_of(fields, "filename"@)->Some_0->Str_0@
    &&& match field_of(fields, "segments"@) {
        None => f.segments@ == Seq::<Segment>::empty(),
        Some(sv) => f.segments@ == segment_list_model(sv->Arr_0@),
    }
    &&& match field_of(fields, "branches"@) {
        None => f.branches@ == Seq::<BranchRegion>::empty(),
        Some(bv) => f.branches@ == branch_list_model(bv->Arr_0@),
    }
    &&& match field_of(fields, "expansions"@) {
        None => f.expansions@.len() == 0,
        Some(ev) => f.expansions@.len() == ev->Arr_0@.len() && forall|j: int|
            0 <= j < f.expansions@.len() ==> expansion_corresponds(f.expansions@[j], ev->Arr_0@[j]),
    }
    &&& f.summary == summary_decode(field_of(fields, "summary"@)->Some_0)->Ok_0
}

/// Decodes one file record from its named fields.
pub fn decode_file(v: &RawValue) -> (r: Result<File, DecodeError>)
    ensures
        r is Ok <==> file_shape(*v) is Ok,
        (r matches Err(e) ==> file_shape(*v) == Err::<(), DecodeError>(e)),
        (r matches Ok(f) ==> file_corresponds(f, *v)),
{
    let fields = match v {
        RawValue::Obj(fields) => fields,
        _ => {
            return Err(DecodeError::WrongType);
        },
    };
    let filename = match get_field(fields, "filename") {
        None => {
            return Err(DecodeError::MissingField);
        },
        Some(RawValue::Str(s)) => s.clone(),
        Some(_) => {
            return Err(DecodeError::WrongType);
        },
    };
    let segments = match get_field(fields, "segments") {
        None => Vec::new(),
        Some(RawValue::Arr(items)) => match decode_segment_list(items) {
            Ok(ss) => ss,
            Err(e) => {
                return Err(e);
            },
        },
        Some(_) => {
            return Err(DecodeError::WrongType);
        },
    };
    let branches = match get_field(fields, "branches") {
        None => Vec::new(),
        Some(RawValue::Arr(items)) => match decode_branch_list(items) {
            Ok(bs) => bs,
            Err(e) => {
                return Err(e);
            },
        },
        Some(_) => {
            return Err(DecodeError::WrongType);
        },
    };
    let expansions = match get_field(fields, "expansions") {
        None => Vec::new(),
        Some(RawValue::Arr(items)) => match decode_expansion_list(items) {
            Ok(es) => es,
            Err(e) => {
                return Err(e);
            },
        },
        Some(_) => {
            return Err(DecodeError::WrongType);
        },
    };
    let summary = match get_field(fields, "summary") {
        None => {
            return Err(DecodeError::MissingField);
        },
        Some(x) => match decode_summary(x) {
            Ok(s) => s,
            Err(e) => {
                return Err(e);
            },
        },
    };
    Ok(File { filename, segments, branches, expansions, summary })
}

} // verus!

verus! {

/// The file shape check as a value, for use with the list combinators.
pub open spec fn file_decoder() -> spec_fn(RawValue) -> Result<(), DecodeError> {
    |x: RawValue| file_shape(x)
}

/// The function shape check as a value, for use with the list combinators.
pub open spec fn function_decoder() -> spec_fn(RawValue) -> Result<(), DecodeError> {
    |x: RawValue| function_shape(x)
}

/// Decodes a list of file records, stopping at the first refused element.
pub fn decode_file_list(items: &Vec<RawValue>) -> (r: Result<Vec<File>, DecodeError>)
    ensures
        r is Ok <==> list_shape(file_decoder(), items@) is Ok,
        (r matches Ok(out) ==> out@.len() == items@.len() && forall|j: int|
            0 <= j < items@.len() ==> file_corresponds(out@[j], items@[j])),
        (r matches Err(e) ==> list_shape(file_decoder(), items@) == Err::<(), DecodeError>(e)),
{
    let ghost f = file_decoder();
    let mut out: Vec<File> = Vec::new();
    let mut i: usize = 0;
    while i < items.len()
        invariant
            0 <= i <= items@.len(),
            f == file_decoder(),
            out@.len() == i,
            forall|j: int| 0 <= j < i ==> f(items@[j]) is Ok,
            forall|j: int| 0 <= j < i ==> file_corresponds(out@[j], items@[j]),
        decreases items@.len() - i,
    {
        match decode_file(&items[i]) {
            Ok(e) => out.push(e),
            Err(e) => {
                proof {
                    lemma_list_shape_err(f, items@, 0, i as int);
                }
                return Err(e);
            },
        }
        i = i + 1;
    }
    proof {
        lemma_list_shape_ok(f, items@, 0);
    }
    Ok(out)
}

/// Decodes a list of function records, stopping at the first refused
/// element.
pub fn decode_function_list(items: &Vec<RawValue>) -> (r: Result<Vec<Function>, DecodeError>)
    ensures
        r is Ok <==> list_shape(function_decoder(), items@) is Ok,
        (r matches Ok(out) ==> out@.len() == items@.len() && forall|j: int|
            0 <= j < items@.len() ==> function_corresponds(out@[j], items@[j])),
        (r matches Err(e) ==> list_shape(function_decoder(), items@) == Err::<
            (),
            DecodeError,
        >(e)),
{
    let ghost f = function_decoder();
    let mut out: Vec<Function> = Vec::new();
    let mut i: usize = 0;
    while i < items.len()
        invariant
            0 <= i <= items@.len(),
            f == function_decoder(),
            out@.len() == i,
            forall|j: int| 0 <= j < i ==> f(items@[j]) is Ok,
            forall|j: int| 0 <= j < i ==> function_corresponds(out@[j], items@[j]),
        decreases items@.len() - i,
    {
        match decode_function(&items[i]) {
            Ok(e) => out.push(e),
            Err(e) => {
                proof {
                    lemma_list_shape_err(f, items@, 0, i as int);
                }
                return Err(e);
            },
        }
        i = i + 1;
    }
    proof {
        lemma_list_shape_ok(f, items@, 0);
    }
    Ok(out)
}

/// Whether one analysis result decodes, and the first error otherwise.
/// Fields are checked in order: files, functions, totals; the function list
/// defaults to empty when absent.
pub open spec fn export_shape(v: RawValue) -> Result<(), DecodeError> {
    match v {
        RawValue::Obj(fields) => match field_of(fields@, "files"@) {
            None => Err(DecodeError::MissingField),
            Some(fv) => match fv {
                RawValue::Arr(fitems) => match list_shape(file_decoder(), fitems@) {
                    Err(e) => Err(e),
                    Ok(_) => match export_functions_shape(fields@) {
                        Err(e) => Err(e),
                        Ok(_) => match field_of(fields@, "totals"@) {
                            None => Err(DecodeError::MissingField),
                            Some(tv) => match summary_decode(tv) {
                                Err(e) => Err(e),
                                Ok(_) => Ok(()),
                            },
                        },
                    },
                },
                _ => Err(DecodeError::WrongType),
            },
        },
        _ => Err(DecodeError::WrongType),
    }
}

/// Shape of an export's optional function list: absent means empty.
pub open spec fn export_functions_shape(fields: Seq<(String, RawValue)>) -> Result<
    (),
    DecodeError,
> {
    match field_of(fields, "functions"@) {
        None => Ok(()),
        Some(fv) => match fv {
            RawValue::Arr(items) => list_shape(function_decoder(), items@),
            _ => Err(DecodeError::WrongType),
        },
    }
}

/// How a decoded analysis result relates to its well-shaped record.
pub open spec fn export_corresponds(e: Export, v: RawValue) -> bool {
    let fields = v->Obj_0@;
    let fitems = field_of(fields, "files"@)->Some_0->Arr_0@;
    &&& e.files@.len() == fitems.len()
    &&& forall|j: int| 0 <= j < e.files@.len() ==> file_corresponds(e.files@[j], fitems[j])
    &&& match field_of(fields, "functions"@) {
        None => e.functions@.len() == 0,
        Some(fv) => e.functions@.len() == fv->Arr_0@.len() && forall|j: int|
            0 <= j < e.functions@.len() ==> function_corresponds(e.functions@[j], fv->Arr_0@[j]),
    }
    &&& e.totals == summary_decode(field_of(fields, "totals"@)->Some_0)->Ok_0
}

/// Decodes one analysis result from its named fields.
pub fn decode_export_record(v: &RawValue) -> (r: Result<Export, DecodeError>)
    ensures
        r is Ok <==> export_shape(*v) is Ok,
        (r matches Err(e) ==> export_shape(*v) == Err::<(), DecodeError>(e)),
        (r matches Ok(ex) ==> export_corresponds(ex, *v)),
{
    let fields = match v {
        RawValue::Obj(fields) => fields,
        _ => {
            return Err(DecodeError::WrongType);
        },
    };
    let files = match get_field(fields, "files") {
        None => {
            return Err(DecodeError::MissingField);
        },
        Some(RawValue::Arr(items)) => match decode_file_list(items) {
            Ok(fs) => fs,
            Err(e) => {
                return Err(e);
            },
        },
        Some(_) => {
            return Err(DecodeError::WrongType);
        },
    };
    let functions = match get_field(fields, "functions") {
        None => Vec::new(),
        Some(RawValue::Arr(items)) => match decode_function_list(items) {
            Ok(fs) => fs,
            Err(e) => {
                return Err(e);
            },
        },
        Some(_) => {
            return Err(DecodeError::WrongType);
        },
    };
    let totals = match get_field(fields, "totals") {
        None => {
            return Err(DecodeError::MissingField);
        },
        Some(x) => match decode_summary(x) {
            Ok(s) => s,
            Err(e) => {
                return Err(e);
            },
        },
    };
    Ok(Export { files, functions, totals })
}

/// Whether the whole document decodes, and the first error otherwise. The
/// document carries a version string, a type string, and a data list that
/// must hold exactly one analysis result.
pub open spec fn json_export_shape(v: RawValue) -> Result<(), DecodeError> {
    match v {
        RawValue::Obj(fields) => match field_of(fields@, "version"@) {
            None => Err(DecodeError::MissingField),
            Some(vv) => match vv {
                RawValue::Str(_) => match field_of(fields@, "type"@) {
                    None => Err(DecodeError::MissingField),
                    Some(tv) => match tv {
                        RawValue::Str(_) => match field_of(fields@, "data"@) {
                            None => Err(DecodeError::MissingField),
                            Some(dv) => match dv {
                                RawValue::Arr(ditems) => if ditems@.len() != 1 {
                                    Err(DecodeError::WrongResultCount)
                                } else {
                                    export_shape(ditems@[0])
                                },
                                _ => Err(DecodeError::WrongType),
                            },
                        },
                        _ => Err(DecodeError::WrongType),
                    },
                },
                _ => Err(DecodeError::WrongType),
            },
        },
        _ => Err(DecodeError::WrongType),
    }
}

/// How the decoded document relates to its well-shaped value.
pub open spec fn json_export_corresponds(j: JsonExport, v: RawValue) -> bool {
    let fields = v->Obj_0@;
    &&& j.version@ == field_of(fields, "version"@)->Some_0->Str_0@
    &&& j.ty@ == field_of(fields, "type"@)->Some_0->Str_0@
    &&& export_corresponds(j.data, field_of(fields, "data"@)->Some_0->Arr_0@[0])
}

/// Decodes the whole export document: the versioned wrapper and the one
/// analysis result inside it.
pub fn decode_export(v: &RawValue) -> (r: Result<JsonExport, DecodeError>)
    ensures
        r is Ok <==> json_export_shape(*v) is Ok,
        (r matches Err(e) ==> json_export_shape(*v) == Err::<(), DecodeError>(e)),
        (r matches Ok(j) ==> json_export_corresponds(j, *v)),
{
    let fields = match v {
        RawValue::Obj(fields) => fields,
        _ => {
            return Err(DecodeError::WrongType);
        },
    };
    let version = match get_field(fields, "version") {
        None => {
            return Err(DecodeError::MissingField);
        },
        Some(RawValue::Str(s)) => s.clone(),
        Some(_) => {
            return Err(DecodeError::WrongType);
        },
    };
    let ty = match get_field(fields, "type") {
        None => {
            return Err(DecodeError::MissingField);
        },
        Some(RawValue::Str(s)) => s.clone(),
        Some(_) => {
            return Err(DecodeError::WrongType);
        },
    };
    let data = match get_field(fields, "data") {
        None => {
            return Err(DecodeError::MissingField);
        },
        Some(RawValue::Arr(items)) => {
            if items.len() != 1 {
                return Err(DecodeError::WrongResultCount);
            }
            match decode_export_record(&items[0]) {
                Ok(ex) => ex,
                Err(e) => {
                    return Err(e);
                },
            }
        },
        Some(_) => {
            return Err(DecodeError::WrongType);
        },
    };
    Ok(JsonExport { version, ty, data })
}

} // verus!
