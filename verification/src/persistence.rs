use vstd::prelude::*;
use crate::error::{IoError, IoErrorKind};
use crate::model::SourceRecord;
use crate::text::{append_chars, append_str, chars_of, decimal_chars, starts_with, starts_with_chars, string_of, sub_chars};

verus! {

/// The schema version of the structured durable state store.
pub const STRUCTURED_STATE_SCHEMA_VERSION: i64 = 7;

/// The lifecycle state of a library that records none.
pub fn default_library_lifecycle_state() -> (r: String)
    ensures
        r@ == "active"@,
{
    "active".to_owned()
}

/// The message of a store whose content breaks its own rules.
pub open spec fn invalid_data_message(path: Seq<char>, message: Seq<char>) -> Seq<char> {
    "Invalid durable state store "@ + path + ": "@ + message
}

/// How a flag is stored: 1 for true, 0 for false.
pub open spec fn stored_flag(b: bool) -> i64 {
    if b { 1 } else { 0 }
}

/// The flag a stored integer holds: only 0 and 1 are flags.
pub open spec fn read_flag(v: i64) -> Option<bool> {
    if v == 0 {
        Some(false)
    } else if v == 1 {
        Some(true)
    } else {
        None
    }
}

/// How an unsigned value is stored in a signed 64-bit column, if it fits.
pub open spec fn stored_int(x: nat) -> Option<i64> {
    if x <= i64::MAX { Some(x as i64) } else { None }
}

/// The unsigned value a stored integer holds: none when it is negative.
pub open spec fn read_unsigned(v: i64) -> Option<nat> {
    if v >= 0 { Some(v as nat) } else { None }
}

/// Writing a flag and reading it back gives the flag.
pub proof fn lemma_flag_round_trip(b: bool)
    ensures
        read_flag(stored_flag(b)) == Some(b),
{
}

/// An unsigned value can be stored exactly when it fits the signed column, and then reads
/// back as itself.
pub proof fn lemma_unsigned_round_trip(x: nat)
    ensures
        stored_int(x) is Some <==> x <= i64::MAX,
        stored_int(x) matches Some(v) ==> read_unsigned(v) == Some(x),
{
}

/// A stored integer that reads back as an unsigned value is how that value is stored.
pub proof fn lemma_read_then_store(v: i64)
    ensures
        read_unsigned(v) matches Some(x) ==> stored_int(x) == Some(v),
{
}

/// The error of a store whose content breaks its own rules.
pub fn invalid_data(path: &str, message: &str) -> (r: IoError)
    ensures
        r.kind == IoErrorKind::InvalidData,
        r.message@ == invalid_data_message(path@, message@),
{
    let mut m = chars_of("Invalid durable state store ");
    append_str(&mut m, path);
    append_str(&mut m, ": ");
    append_str(&mut m, message);
    IoError { kind: IoErrorKind::InvalidData, message: string_of(&m) }
}

/// The error of a failed store operation.
pub fn sqlite_io(path: &str, action: &str, error: &str) -> (r: IoError)
    ensures
        r.kind == IoErrorKind::Other,
        r.message@ == "Failed to "@ + action@ + " in durable state store "@ + path@ + ": "@ + error@,
{
    let mut m = chars_of("Failed to ");
    append_str(&mut m, action);
    append_str(&mut m, " in durable state store ");
    append_str(&mut m, path);
    append_str(&mut m, ": ");
    append_str(&mut m, error);
    IoError { kind: IoErrorKind::Other, message: string_of(&m) }
}

/// A flag as a stored integer.
pub fn bool_to_i64(value: bool) -> (r: i64)
    ensures
        r == if value { 1i64 } else { 0i64 },
        r == stored_flag(value),
{
    if value { 1 } else { 0 }
}

/// A stored integer as a flag: 0 or 1, else an error.
pub fn i64_to_bool(path: &str, value: i64, field: &str) -> (r: Result<bool, IoError>)
    ensures
        value == 0 ==> r == Ok::<bool, IoError>(false),
        value == 1 ==> r == Ok::<bool, IoError>(true),
        value != 0 && value != 1 ==> (r matches Err(e) && e.kind == IoErrorKind::InvalidData && e.message@
            == invalid_data_message(path@, field@ + " must be 0 or 1"@)),
        match read_flag(value) {
            Some(b) => r == Ok::<bool, IoError>(b),
            None => r is Err,
        },
{
    if value == 0 {
        Ok(false)
    } else if value == 1 {
        Ok(true)
    } else {
        let mut m = chars_of(field);
        append_str(&mut m, " must be 0 or 1");
        Err(invalid_data(path, string_of(&m).as_str()))
    }
}

/// `r` is the error of a stored integer that must not be negative.
pub open spec fn negative_error(r_err: IoError, path: Seq<char>, field: Seq<char>) -> bool {
    r_err.kind == IoErrorKind::InvalidData && r_err.message@ == invalid_data_message(path, field + " must be non-negative"@)
}

fn negative(path: &str, field: &str) -> (r: IoError)
    ensures
        negative_error(r, path@, field@),
{
    let mut m = chars_of(field);
    append_str(&mut m, " must be non-negative");
    invalid_data(path, string_of(&m).as_str())
}

/// A stored integer as an unsigned 64-bit value; an error when it is negative.
pub fn i64_to_u64(path: &str, value: i64, field: &str) -> (r: Result<u64, IoError>)
    ensures
        match read_unsigned(value) {
            Some(x) => r == Ok::<u64, IoError>(x as u64),
            None => r is Err,
        },
        value >= 0 ==> r == Ok::<u64, IoError>(value as u64),
        value < 0 ==> (r matches Err(e) && negative_error(e, path@, field@)),
{
    if value >= 0 { Ok(value as u64) } else { Err(negative(path, field)) }
}

/// A stored integer as an unsigned 128-bit value; an error when it is negative.
pub fn i64_to_u128(path: &str, value: i64, field: &str) -> (r: Result<u128, IoError>)
    ensures
        match read_unsigned(value) {
            Some(x) => r == Ok::<u128, IoError>(x as u128),
            None => r is Err,
        },
        value >= 0 ==> r == Ok::<u128, IoError>(value as u128),
        value < 0 ==> (r matches Err(e) && negative_error(e, path@, field@)),
{
    if value >= 0 { Ok(value as u128) } else { Err(negative(path, field)) }
}

/// An optional stored integer as an optional unsigned 64-bit value.
pub fn optional_i64_to_u64(path: &str, value: Option<i64>, field: &str) -> (r: Result<Option<u64>, IoError>)
    ensures
        match value {
            None => r == Ok::<Option<u64>, IoError>(None),
            Some(v) => if v >= 0 {
                r == Ok::<Option<u64>, IoError>(Some(v as u64))
            } else {
                r matches Err(e) && negative_error(e, path@, field@)
            },
        },
{
    match value {
        None => Ok(None),
        Some(v) => match i64_to_u64(path, v, field) {
            Ok(x) => Ok(Some(x)),
            Err(e) => Err(e),
        },
    }
}

/// An optional stored integer as an optional unsigned 128-bit value.
pub fn optional_i64_to_u128(path: &str, value: Option<i64>, field: &str) -> (r: Result<Option<u128>, IoError>)
    ensures
        match value {
            None => r == Ok::<Option<u128>, IoError>(None),
            Some(v) => if v >= 0 {
                r == Ok::<Option<u128>, IoError>(Some(v as u128))
            } else {
                r matches Err(e) && negative_error(e, path@, field@)
            },
        },
{
    match value {
        None => Ok(None),
        Some(v) => match i64_to_u128(path, v, field) {
            Ok(x) => Ok(Some(x)),
            Err(e) => Err(e),
        },
    }
}

/// An optional stored integer as an optional size; an error when it is negative or does not
/// fit in a size.
pub fn optional_i64_to_usize(path: &str, value: Option<i64>, field: &str) -> (r: Result<Option<usize>, IoError>)
    ensures
        match value {
            None => r == Ok::<Option<usize>, IoError>(None),
            Some(v) => if 0 <= v <= usize::MAX {
                r == Ok::<Option<usize>, IoError>(Some(v as usize))
            } else {
                r matches Err(e) && negative_error(e, path@, field@)
            },
        },
{
    match value {
        None => Ok(None),
        Some(v) => {
            if v >= 0 && (v as u64) <= (usize::MAX as u64) {
                Ok(Some(v as usize))
            } else {
                Err(negative(path, field))
            }
        },
    }
}

/// The message of a value too large for a stored integer.
pub open spec fn range_message(field: Seq<char>) -> Seq<char> {
    field + " exceeds SQLite INTEGER range"@
}

fn range_error(field: &str) -> (r: String)
    ensures
        r@ == range_message(field@),
{
    let mut m = chars_of(field);
    append_str(&mut m, " exceeds SQLite INTEGER range");
    string_of(&m)
}

/// An unsigned 64-bit value as a stored integer; an error when it is too large.
pub fn u64_to_i64(value: u64, field: &str) -> (r: Result<i64, String>)
    ensures
        match stored_int(value as nat) {
            Some(v) => r == Ok::<i64, String>(v),
            None => r is Err,
        },
        value <= i64::MAX ==> r == Ok::<i64, String>(value as i64),
        value > i64::MAX ==> (r matches Err(m) && m@ == range_message(field@)),
{
    if value <= i64::MAX as u64 { Ok(value as i64) } else { Err(range_error(field)) }
}

/// An unsigned 128-bit value as a stored integer; an error when it is too large.
pub fn u128_to_i64(value: u128, field: &str) -> (r: Result<i64, String>)
    ensures
        match stored_int(value as nat) {
            Some(v) => r == Ok::<i64, String>(v),
            None => r is Err,
        },
        value <= i64::MAX ==> r == Ok::<i64, String>(value as i64),
        value > i64::MAX ==> (r matches Err(m) && m@ == range_message(field@)),
{
    if value <= i64::MAX as u128 { Ok(value as i64) } else { Err(range_error(field)) }
}

/// A size as a stored integer; an error when it is too large.
pub fn usize_to_i64(value: usize, field: &str) -> (r: Result<i64, String>)
    ensures
        match stored_int(value as nat) {
            Some(v) => r == Ok::<i64, String>(v),
            None => r is Err,
        },
        value <= i64::MAX ==> r == Ok::<i64, String>(value as i64),
        value > i64::MAX ==> (r matches Err(m) && m@ == range_message(field@)),
{
    if (value as u64) <= i64::MAX as u64 { Ok(value as i64) } else { Err(range_error(field)) }
}

/// An optional unsigned 64-bit value as an optional stored integer.
pub fn optional_u64_to_i64(value: Option<u64>, field: &str) -> (r: Result<Option<i64>, String>)
    ensures
        match value {
            None => r == Ok::<Option<i64>, String>(None),
            Some(v) => if v <= i64::MAX {
                r == Ok::<Option<i64>, String>(Some(v as i64))
            } else {
                r matches Err(m) && m@ == range_message(field@)
            },
        },
{
    match value {
        None => Ok(None),
        Some(v) => match u64_to_i64(v, field) {
            Ok(x) => Ok(Some(x)),
            Err(e) => Err(e),
        },
    }
}

/// An optional unsigned 128-bit value as an optional stored integer.
pub fn optional_u128_to_i64(value: Option<u128>, field: &str) -> (r: Result<Option<i64>, String>)
    ensures
        match value {
            None => r == Ok::<Option<i64>, String>(None),
            Some(v) => if v <= i64::MAX {
                r == Ok::<Option<i64>, String>(Some(v as i64))
            } else {
                r matches Err(m) && m@ == range_message(field@)
            },
        },
{
    match value {
        None => Ok(None),
        Some(v) => match u128_to_i64(v, field) {
            Ok(x) => Ok(Some(x)),
            Err(e) => Err(e),
        },
    }
}

/// An optional size as an optional stored integer.
pub fn optional_usize_to_i64(value: Option<usize>, field: &str) -> (r: Result<Option<i64>, String>)
    ensures
        match value {
            None => r == Ok::<Option<i64>, String>(None),
            Some(v) => if v <= i64::MAX {
                r == Ok::<Option<i64>, String>(Some(v as i64))
            } else {
                r matches Err(m) && m@ == range_message(field@)
            },
        },
{
    match value {
        None => Ok(None),
        Some(v) => match usize_to_i64(v, field) {
            Ok(x) => Ok(Some(x)),
            Err(e) => Err(e),
        },
    }
}



/// A row of the `sources` table as read, before it is checked.
#[derive(Debug)]
pub struct SourceRow {
    pub library_id: String,
    pub source_id: String,
    pub source_content_id: String,
    pub source_root_id: Option<String>,
    pub source_root_path: Option<String>,
    pub source_uri: String,
    pub relative_path: Option<String>,
    pub source_type: String,
    pub media_type: String,
    pub kind: String,
    pub status: String,
    pub status_reason: Option<String>,
    pub page_count: Option<i64>,
    pub duration_ms: Option<i64>,
    pub observed_size_bytes: Option<i64>,
    pub observed_modified_at_ms: Option<i64>,
}

/// The local path of a source: its URI without the `file://` scheme.
pub open spec fn source_path_of(uri: Seq<char>) -> Seq<char> {
    if starts_with(uri, "file://"@) { uri.skip(7) } else { uri }
}

/// A stored optional integer that must not be negative.
pub open spec fn non_negative(v: Option<i64>) -> bool {
    match v {
        Some(x) => x >= 0,
        None => true,
    }
}

/// A stored optional integer that fits a size.
pub open spec fn fits_size(v: Option<i64>) -> bool {
    match v {
        Some(x) => 0 <= x <= usize::MAX,
        None => true,
    }
}

/// The first column of a source row that holds a value out of range, by its field name.
pub open spec fn source_row_problem(row: SourceRow) -> Option<Seq<char>> {
    if !fits_size(row.page_count) {
        Some("sources.page_count"@)
    } else if !non_negative(row.duration_ms) {
        Some("sources.duration_ms"@)
    } else if !non_negative(row.observed_size_bytes) {
        Some("sources.observed_size_bytes"@)
    } else if !non_negative(row.observed_modified_at_ms) {
        Some("sources.observed_modified_at_ms"@)
    } else {
        None
    }
}

/// `s` is the source that a row in range describes: its columns, with the path derived from
/// the URI and no assets yet.
pub open spec fn source_from_row(row: SourceRow, s: SourceRecord) -> bool {
    &&& s.id == row.source_id
    &&& s.source_root_id == row.source_root_id
    &&& s.source_root_path == row.source_root_path
    &&& s.source_path@ == source_path_of(row.source_uri@)
    &&& s.source_uri == row.source_uri
    &&& s.relative_path == row.relative_path
    &&& s.source_type == row.source_type
    &&& s.media_type == row.media_type
    &&& s.kind == row.kind
    &&& s.status == row.status
    &&& s.status_reason == row.status_reason
    &&& s.page_count == match row.page_count {
        Some(x) => Some(x as usize),
        None => None,
    }
    &&& s.duration_ms == match row.duration_ms {
        Some(x) => Some(x as u64),
        None => None,
    }
    &&& s.observed_size_bytes == match row.observed_size_bytes {
        Some(x) => Some(x as u64),
        None => None,
    }
    &&& s.observed_modified_at_ms == match row.observed_modified_at_ms {
        Some(x) => Some(x as u128),
        None => None,
    }
    &&& s.source_content_id == row.source_content_id
    &&& s.asset_ids@.len() == 0
}

/// The source that a stored row describes, with its library's id; an error naming the
/// first column out of range.
pub fn source_record_from_row(path: &str, row: SourceRow) -> (r: Result<(String, SourceRecord), IoError>)
    ensures
        match source_row_problem(row) {
            Some(field) => r matches Err(e) && negative_error(e, path@, field),
            None => r matches Ok((lib, s)) && lib == row.library_id && source_from_row(row, s),
        },
{
    let ghost original = row;
    let page_count = optional_i64_to_usize(path, row.page_count, "sources.page_count")?;
    let duration_ms = optional_i64_to_u64(path, row.duration_ms, "sources.duration_ms")?;
    let observed_size_bytes = optional_i64_to_u64(path, row.observed_size_bytes, "sources.observed_size_bytes")?;
    let observed_modified_at_ms = optional_i64_to_u128(
        path,
        row.observed_modified_at_ms,
        "sources.observed_modified_at_ms",
    )?;
    let uri = chars_of(row.source_uri.as_str());
    let source_path = if starts_with_chars(&uri, &chars_of("file://")) {
        proof {
            reveal_strlit("file://");
        }
        let p = sub_chars(&uri, 7, uri.len());
        assert(p@ =~= uri@.skip(7));
        string_of(&p)
    } else {
        row.source_uri.clone()
    };
    let SourceRow {
        library_id,
        source_id,
        source_content_id,
        source_root_id,
        source_root_path,
        source_uri,
        relative_path,
        source_type,
        media_type,
        kind,
        status,
        status_reason,
        ..
    } = row;
    Ok(
        (
            library_id,
            SourceRecord {
                id: source_id,
                source_root_id,
                source_root_path,
                source_path,
                source_uri,
                relative_path,
                source_type,
                media_type,
                kind,
                status,
                status_reason,
                page_count,
                duration_ms,
                observed_size_bytes,
                observed_modified_at_ms,
                source_content_id,
                asset_ids: Vec::new(),
            },
        ),
    )
}

/// What the stored schema version says about loading: nothing to load without a version,
/// the structured snapshot at the expected version, and an error at any other.
pub fn check_schema_version(path: &str, schema_version: Option<i64>) -> (r: Result<bool, IoError>)
    ensures
        schema_version is None ==> r == Ok::<bool, IoError>(false),
        schema_version == Some(STRUCTURED_STATE_SCHEMA_VERSION) ==> r == Ok::<bool, IoError>(true),
        (schema_version matches Some(v) && v != STRUCTURED_STATE_SCHEMA_VERSION) ==> (r matches Err(e) && e.kind
            == IoErrorKind::InvalidData && e.message@ == "Unsupported durable state schema version "@
            + crate::text::signed_decimal(schema_version.unwrap() as int) + " in "@ + path@
            + "; expected 7. Reset or cut over the runtime before starting this version."@),
{
    match schema_version {
        None => Ok(false),
        Some(v) => {
            if v == STRUCTURED_STATE_SCHEMA_VERSION {
                Ok(true)
            } else {
                let mut m = chars_of("Unsupported durable state schema version ");
                append_chars(&mut m, &crate::text::signed_decimal_chars(v));
                append_str(&mut m, " in ");
                append_str(&mut m, path);
                append_str(&mut m, "; expected 7. Reset or cut over the runtime before starting this version.");
                Err(IoError { kind: IoErrorKind::InvalidData, message: string_of(&m) })
            }
        },
    }
}

/// The error of a store in the legacy snapshot format.
pub fn legacy_snapshot_store_error(path: &str) -> (r: IoError)
    ensures
        r.kind == IoErrorKind::InvalidData,
        r.message@ == "Unsupported legacy durable snapshot store "@ + path@
            + "; reset or cut over the runtime before starting this version."@,
{
    let mut m = chars_of("Unsupported legacy durable snapshot store ");
    append_str(&mut m, path);
    append_str(&mut m, "; reset or cut over the runtime before starting this version.");
    IoError { kind: IoErrorKind::InvalidData, message: string_of(&m) }
}

/// What a stored JSON column parsed to: the document, or the parser's error text.
pub type ParsedColumn = Result<crate::json::Json, String>;

/// A row of the `query_history` table as read, its JSON columns already parsed.
#[derive(Debug)]
pub struct QueryHistoryRow {
    pub query_id: String,
    pub created_at_ms: i64,
    pub source: String,
    pub query_kind: String,
    pub input_kind: String,
    pub input_summary: String,
    pub input_json: ParsedColumn,
    pub search_scope_json: ParsedColumn,
    pub filters_json: Option<ParsedColumn>,
    pub target_content_types_json: Option<ParsedColumn>,
    pub top_k: Option<i64>,
    pub status: String,
    pub result_count: Option<i64>,
    pub error_code: Option<String>,
    pub error_message: Option<String>,
    pub duration_ms: i64,
}

/// A past query, as kept.
#[derive(Debug)]
pub struct QueryHistoryRecord {
    pub id: String,
    pub created_at_ms: u128,
    pub source: String,
    pub query_kind: String,
    pub input_kind: String,
    pub input_summary: String,
    pub input_json: crate::json::Json,
    pub search_scope_json: crate::json::Json,
    pub filters_json: Option<crate::json::Json>,
    pub target_content_types_json: Option<crate::json::Json>,
    pub top_k: Option<usize>,
    pub status: String,
    pub result_count: Option<usize>,
    pub error_code: Option<String>,
    pub error_message: Option<String>,
    pub duration_ms: u128,
}

/// The message of a stored JSON column that does not parse.
pub open spec fn decode_message(field: Seq<char>, error: Seq<char>) -> Seq<char> {
    "failed to decode "@ + field + " JSON payload: "@ + error
}

/// The problem of a parsed column, if it did not parse.
pub open spec fn column_problem(c: ParsedColumn, field: Seq<char>) -> Option<Seq<char>> {
    match c {
        Ok(_) => None,
        Err(e) => Some(decode_message(field, e@)),
    }
}

/// The problem of an optional parsed column.
pub open spec fn optional_column_problem(c: Option<ParsedColumn>, field: Seq<char>) -> Option<Seq<char>> {
    match c {
        Some(x) => column_problem(x, field),
        None => None,
    }
}

/// The first problem of a query history row, in the order its columns are checked; the
/// message is what the `InvalidData` error carries after the store's path.
pub open spec fn query_history_problem(row: QueryHistoryRow) -> Option<Seq<char>> {
    if optional_column_problem(row.filters_json, "query_history.filters_json"@) is Some {
        optional_column_problem(row.filters_json, "query_history.filters_json"@)
    } else if optional_column_problem(row.target_content_types_json, "query_history.target_content_types_json"@) is Some {
        optional_column_problem(row.target_content_types_json, "query_history.target_content_types_json"@)
    } else if row.created_at_ms < 0 {
        Some("query_history.created_at_ms"@ + " must be non-negative"@)
    } else if column_problem(row.input_json, "query_history.input_json"@) is Some {
        column_problem(row.input_json, "query_history.input_json"@)
    } else if column_problem(row.search_scope_json, "query_history.search_scope_json"@) is Some {
        column_problem(row.search_scope_json, "query_history.search_scope_json"@)
    } else if !fits_size(row.top_k) {
        Some("query_history.top_k"@ + " must be non-negative"@)
    } else if !fits_size(row.result_count) {
        Some("query_history.result_count"@ + " must be non-negative"@)
    } else if row.duration_ms < 0 {
        Some("query_history.duration_ms"@ + " must be non-negative"@)
    } else {
        None
    }
}

/// The document of a column that parsed.
pub open spec fn parsed_doc(c: ParsedColumn) -> crate::json::Json {
    match c {
        Ok(j) => j,
        Err(_) => crate::json::Json::Null,
    }
}

/// An optional size column as read.
pub open spec fn size_column(v: Option<i64>) -> Option<usize> {
    match v {
        Some(x) => Some(x as usize),
        None => None,
    }
}

/// `r` is the record that a problem-free row decodes to.
pub open spec fn query_history_from_row(row: QueryHistoryRow, r: QueryHistoryRecord) -> bool {
    &&& r.id == row.query_id
    &&& r.created_at_ms == row.created_at_ms as u128
    &&& r.source == row.source
    &&& r.query_kind == row.query_kind
    &&& r.input_kind == row.input_kind
    &&& r.input_summary == row.input_summary
    &&& r.input_json == parsed_doc(row.input_json)
    &&& r.search_scope_json == parsed_doc(row.search_scope_json)
    &&& r.filters_json == match row.filters_json {
        Some(c) => Some(parsed_doc(c)),
        None => None,
    }
    &&& r.target_content_types_json == match row.target_content_types_json {
        Some(c) => Some(parsed_doc(c)),
        None => None,
    }
    &&& r.top_k == size_column(row.top_k)
    &&& r.status == row.status
    &&& r.result_count == size_column(row.result_count)
    &&& r.error_code == row.error_code
    &&& r.error_message == row.error_message
    &&& r.duration_ms == row.duration_ms as u128
}

fn decode_column(path: &str, c: ParsedColumn, field: &str) -> (r: Result<crate::json::Json, IoError>)
    ensures
        match c {
            Ok(j) => r == Ok::<crate::json::Json, IoError>(j),
            Err(e) => r matches Err(x) && x.kind == IoErrorKind::InvalidData && x.message@ == invalid_data_message(
                path@,
                decode_message(field@, e@),
            ),
        },
{
    match c {
        Ok(j) => Ok(j),
        Err(e) => {
            let mut m = chars_of("failed to decode ");
            append_str(&mut m, field);
            append_str(&mut m, " JSON payload: ");
            append_str(&mut m, e.as_str());
            Err(invalid_data(path, string_of(&m).as_str()))
        },
    }
}

fn decode_optional_column(path: &str, c: Option<ParsedColumn>, field: &str) -> (r: Result<Option<crate::json::Json>, IoError>)
    ensures
        match c {
            None => r == Ok::<Option<crate::json::Json>, IoError>(None),
            Some(Ok(j)) => r == Ok::<Option<crate::json::Json>, IoError>(Some(j)),
            Some(Err(e)) => r matches Err(x) && x.kind == IoErrorKind::InvalidData && x.message@
                == invalid_data_message(path@, decode_message(field@, e@)),
        },
{
    match c {
        None => Ok(None),
        Some(x) => match decode_column(path, x, field) {
            Ok(j) => Ok(Some(j)),
            Err(e) => Err(e),
        },
    }
}

/// Decodes a query history row (see `query_history_problem`, `query_history_from_row`).
pub fn query_history_record_from_row(path: &str, row: QueryHistoryRow) -> (r: Result<QueryHistoryRecord, IoError>)
    ensures
        match query_history_problem(row) {
            Some(m) => r matches Err(e) && e.kind == IoErrorKind::InvalidData && e.message@ == invalid_data_message(path@, m),
            None => r matches Ok(rec) && query_history_from_row(row, rec),
        },
{
    let ghost original = row;
    let QueryHistoryRow {
        query_id,
        created_at_ms,
        source,
        query_kind,
        input_kind,
        input_summary,
        input_json,
        search_scope_json,
        filters_json,
        target_content_types_json,
        top_k,
        status,
        result_count,
        error_code,
        error_message,
        duration_ms,
    } = row;
    let filters_json = decode_optional_column(path, filters_json, "query_history.filters_json")?;
    let target_content_types_json = decode_optional_column(
        path,
        target_content_types_json,
        "query_history.target_content_types_json",
    )?;
    let created_at_ms = i64_to_u128(path, created_at_ms, "query_history.created_at_ms")?;
    let input_json = decode_column(path, input_json, "query_history.input_json")?;
    let search_scope_json = decode_column(path, search_scope_json, "query_history.search_scope_json")?;
    let top_k = optional_i64_to_usize(path, top_k, "query_history.top_k")?;
    let result_count = optional_i64_to_usize(path, result_count, "query_history.result_count")?;
    let duration_ms = i64_to_u128(path, duration_ms, "query_history.duration_ms")?;
    Ok(QueryHistoryRecord {
        id: query_id,
        created_at_ms,
        source,
        query_kind,
        input_kind,
        input_summary,
        input_json,
        search_scope_json,
        filters_json,
        target_content_types_json,
        top_k,
        status,
        result_count,
        error_code,
        error_message,
        duration_ms,
    })
}

/// The query history as loaded: ids in row order, and the records by id.
#[derive(Debug)]
pub struct LoadedQueryHistory {
    pub order: Vec<String>,
    pub records: Vec<(String, QueryHistoryRecord)>,
}

/// The last of the rows with the id `k`, if any.
pub open spec fn last_row_with(rows: Seq<QueryHistoryRow>, k: Seq<char>) -> Option<QueryHistoryRow>
    decreases rows.len(),
{
    if rows.len() == 0 {
        None
    } else if rows.last().query_id@ == k {
        Some(rows.last())
    } else {
        last_row_with(rows.drop_last(), k)
    }
}

/// Under `k`, `records` holds the record of the last row with that id, or nothing.
pub open spec fn holds_last_row(rows: Seq<QueryHistoryRow>, records: Seq<(String, QueryHistoryRecord)>, k: Seq<char>) -> bool {
    match last_row_with(rows, k) {
        Some(row) => crate::config::lookup(records, k) matches Some(rec) && query_history_from_row(row, rec),
        None => crate::config::lookup(records, k) is None,
    }
}

/// `h` holds every row: ids in row order, and under each id the record of the last row
/// with that id.
pub open spec fn history_loaded(rows: Seq<QueryHistoryRow>, h: LoadedQueryHistory) -> bool {
    &&& h.order@.len() == rows.len()
    &&& forall|i: int| 0 <= i < rows.len() ==> #[trigger] h.order@[i] == rows[i].query_id
    &&& forall|k: Seq<char>| #[trigger] holds_last_row(rows, h.records@, k)
}

/// Decodes every query history row in order, stopping at the first that has a problem;
/// each id is appended to the order and its record stored under it, a later row replacing
/// an earlier one with the same id.
pub fn load_query_history(path: &str, rows: Vec<QueryHistoryRow>) -> (r: Result<LoadedQueryHistory, IoError>)
    ensures
        match r {
            Ok(h) => history_loaded(rows@, h) && forall|i: int| 0 <= i < rows@.len() ==> query_history_problem(
                #[trigger] rows@[i],
            ) is None,
            Err(e) => e.kind == IoErrorKind::InvalidData && exists|i: int|
                #![trigger rows@[i]]
                0 <= i < rows@.len() && (forall|j: int| 0 <= j < i ==> query_history_problem(#[trigger] rows@[j]) is None)
                    && (query_history_problem(rows@[i]) matches Some(m) && e.message@ == invalid_data_message(path@, m)),
        },
{
    let ghost all = rows@;
    assert(all.len() == rows.len());
    let mut order: Vec<String> = Vec::new();
    let mut records: Vec<(String, QueryHistoryRecord)> = Vec::new();
    let mut rest = crate::json::reversed(rows);
    let mut i: usize = 0;
    assert(all.take(0) =~= Seq::<QueryHistoryRow>::empty());
    while rest.len() > 0
        invariant
            i + rest@.len() == all.len(),
            all.len() <= usize::MAX,
            all == rows@,
            rest@ == all.skip(i as int).reverse(),
            order@.len() == i,
            forall|j: int| 0 <= j < i ==> #[trigger] order@[j] == all[j].query_id,
            forall|k: Seq<char>| #[trigger] holds_last_row(all.take(i as int), records@, k),
            forall|j: int| 0 <= j < i ==> query_history_problem(#[trigger] all[j]) is None,
        decreases rest.len(),
    {
        let row = rest.pop().unwrap();
        assert(row == all[i as int]) by {
            assert(all.skip(i as int).reverse().last() == all.skip(i as int)[0]);
        }
        assert(rest@ =~= all.skip(i + 1).reverse());
        let id = row.query_id.clone();
        let record = match query_history_record_from_row(path, row) {
            Ok(rec) => rec,
            Err(e) => {
                assert(query_history_problem(all[i as int]) is Some);
                return Err(e);
            },
        };
        let ghost before_records = records@;
        let ghost before_order = order@;
        order.push(id.clone());
        crate::config::upsert_entry(&mut records, id, record);
        proof {
            let t = all.take(i + 1);
            assert(t.drop_last() =~= all.take(i as int));
            assert(t.last() == all[i as int]);
            assert forall|j: int| 0 <= j < i + 1 implies #[trigger] order@[j] == all[j].query_id by {
                if j < i {
                    assert(order@[j] == before_order[j]);
                }
            }
            assert forall|k: Seq<char>| #[trigger] holds_last_row(t, records@, k) by {
                if k != all[i as int].query_id@ {
                    assert(last_row_with(t, k) == last_row_with(all.take(i as int), k));
                    assert(holds_last_row(all.take(i as int), before_records, k));
                }
            }
        }
        i += 1;
    }
    assert(all.take(all.len() as int) =~= all);
    let h = LoadedQueryHistory { order, records };
    assert(history_loaded(all, h));
    Ok(h)
}

} // verus!
