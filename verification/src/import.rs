use vstd::prelude::*;
use crate::cli_error::CliError;
use crate::client::FetchedJson;
use crate::envelope::{
    append_u64, array_len_or_zero, array_member_len, command_payload, command_payload_json,
    field_text_or, text_or, views,
};
use crate::find::{invalid_envelope_is, invalid_success_envelope, member_has_shape, MemberShape};
use crate::glob::char_views;
use crate::json::{
    clone_json, empty_members, get_member_of, items_model, json_model, json_strings, member,
    pairs_insert, put_member, str_member, string_field, string_views, Json, JsonV,
};
use crate::serve::{resolve_path, resolved_path};
use crate::text::{append_str, chars_of, decimal, string_of};

verus! {

/// The import endpoint of a library.
pub fn import_request_path(library_id: &str) -> (r: String)
    ensures
        r@ == "/libraries/"@ + library_id@ + "/imports"@,
{
    let mut m = chars_of("/libraries/");
    append_str(&mut m, library_id);
    append_str(&mut m, "/imports");
    string_of(&m)
}

/// The paths to import, each made absolute against the working directory `cwd`.
pub fn absolute_paths(paths: &Vec<String>, cwd: &str) -> (r: Vec<String>)
    ensures
        r.len() == paths.len(),
        forall|i: int| 0 <= i < paths.len() ==> #[trigger] r@[i]@ == resolved_path(cwd@, paths@[i]@),
{
    let mut out: Vec<String> = Vec::new();
    let mut i: usize = 0;
    while i < paths.len()
        invariant
            i <= paths.len(),
            out.len() == i,
            forall|j: int| 0 <= j < i ==> #[trigger] out@[j]@ == resolved_path(cwd@, paths@[j]@),
        decreases paths.len() - i,
    {
        out.push(resolve_path(cwd, paths[i].as_str()));
        i += 1;
    }
    out
}

/// The body of an import request: `{"paths": [...]}`.
pub fn import_body(paths: &Vec<String>) -> (r: Json)
    ensures
        json_model(r) == JsonV::Object(
            pairs_insert(
                seq![],
                "paths"@,
                JsonV::Array(string_views(paths@).map_values(|s: Seq<char>| JsonV::Str(s))),
            ),
        ),
{
    let mut body = empty_members();
    put_member(&mut body, "paths", json_strings(paths));
    Json::Object(body)
}

/// The expectation named when an import response has no `data` object.
pub open spec fn import_missing() -> Seq<char> {
    "data object with accepted and rejected arrays"@
}

/// The expectation named when the `data` object lacks its arrays.
pub open spec fn import_bad() -> Seq<char> {
    "data.accepted and data.rejected arrays"@
}

/// `r` is the outcome of an import response from `url`: its `data` object, which must hold
/// `accepted` and `rejected` arrays.
pub open spec fn import_data_is(value: JsonV, url: Seq<char>, r: Result<Json, CliError>) -> bool {
    match member(value, "data"@) {
        None => r matches Err(e) && invalid_envelope_is(e, url, import_missing()),
        Some(d) => if !(d is Object) {
            r matches Err(e) && invalid_envelope_is(e, url, import_missing())
        } else if member_has_shape(d, "accepted"@, MemberShape::Array) && member_has_shape(
            d,
            "rejected"@,
            MemberShape::Array,
        ) {
            r matches Ok(x) && json_model(x) == d
        } else {
            r matches Err(e) && invalid_envelope_is(e, url, import_bad())
        },
    }
}

/// Checks an import response (see `import_data_is`).
pub fn import_from_envelope(value: &Json, url: &str) -> (r: Result<Json, CliError>)
    ensures
        import_data_is(json_model(*value), url@, r),
{
    let d = match get_member_of(value, "data") {
        None => return Err(invalid_success_envelope(url, "data object with accepted and rejected arrays")),
        Some(d) => d,
    };
    match d {
        Json::Object(_) => {},
        _ => return Err(invalid_success_envelope(url, "data object with accepted and rejected arrays")),
    }
    let a = match get_member_of(d, "accepted") {
        Some(Json::Array(_)) => true,
        _ => false,
    };
    let b = match get_member_of(d, "rejected") {
        Some(Json::Array(_)) => true,
        _ => false,
    };
    if a && b {
        Ok(clone_json(d))
    } else {
        Err(invalid_success_envelope(url, "data.accepted and data.rejected arrays"))
    }
}

/// The JSON output of `faus import`: the import under `import`.
pub fn import_output_payload(
    base_url: &str,
    base_url_source: &str,
    request_url: &str,
    http_status: u16,
    import: &Json,
    debug: bool,
) -> (r: Json)
    ensures
        json_model(r) == command_payload_json(
            base_url@,
            "import"@,
            json_model(*import),
            base_url_source@,
            request_url@,
            http_status,
            debug,
        ),
{
    command_payload(base_url, "import", import, base_url_source, request_url, http_status, debug)
}

/// How an import names its job: the job object's id, status and phase; else its handle;
/// else `none`.
pub open spec fn import_job_text(import: JsonV) -> Seq<char> {
    match member(import, "job"@) {
        Some(job) => if job is Object {
            "job="@ + text_or(job, "job_id"@, "unknown"@) + "\tstatus="@ + text_or(job, "status"@, "unknown"@)
                + "\tphase="@ + text_or(job, "phase"@, "unknown"@)
        } else {
            import_handle_text(import)
        },
        None => import_handle_text(import),
    }
}

/// The job handle of an import, or `none`.
pub open spec fn import_handle_text(import: JsonV) -> Seq<char> {
    match str_member(import, "job_handle"@) {
        Some(h) => "job="@ + h,
        None => "job=none"@,
    }
}

/// See `import_job_text`.
pub fn import_job_summary(import: &Json) -> (r: String)
    ensures
        r@ == import_job_text(json_model(*import)),
{
    if let Some(job) = get_member_of(import, "job") {
        if let Json::Object(_) = job {
            let mut m = chars_of("job=");
            append_str(&mut m, field_text_or(job, "job_id", "unknown").as_str());
            append_str(&mut m, "\tstatus=");
            append_str(&mut m, field_text_or(job, "status", "unknown").as_str());
            append_str(&mut m, "\tphase=");
            append_str(&mut m, field_text_or(job, "phase", "unknown").as_str());
            return string_of(&m);
        }
    }
    match string_field(import, "job_handle") {
        Some(h) => {
            let mut m = chars_of("job=");
            append_str(&mut m, h.as_str());
            string_of(&m)
        },
        None => "job=none".to_owned(),
    }
}

/// The items of the array member `field`, or none.
pub open spec fn array_items(v: JsonV, field: Seq<char>) -> Seq<JsonV> {
    match member(v, field) {
        Some(JsonV::Array(items)) => items,
        _ => seq![],
    }
}

/// The line that reports a rejected path.
pub open spec fn rejected_text(item: JsonV) -> Seq<char> {
    "rejected\t"@ + text_or(item, "original_path"@, "unknown"@) + "\t"@ + text_or(item, "reason_code"@, "unknown"@)
        + "\t"@ + text_or(item, "message"@, "unknown"@)
}

/// The lines that `faus import` prints for a person: the counts and the job, then one line
/// per rejected path.
pub open spec fn import_human_lines(import: JsonV) -> Seq<Seq<char>> {
    seq![
        "accepted="@ + decimal(array_len_or_zero(import, "accepted"@)) + "\trejected="@ + decimal(
            array_items(import, "rejected"@).len(),
        ) + "\t"@ + import_job_text(import),
    ] + array_items(import, "rejected"@).map_values(|i: JsonV| rejected_text(i))
}

fn rejected_line(item: &Json) -> (r: String)
    ensures
        r@ == rejected_text(json_model(*item)),
{
    let mut m = chars_of("rejected\t");
    append_str(&mut m, field_text_or(item, "original_path", "unknown").as_str());
    append_str(&mut m, "\t");
    append_str(&mut m, field_text_or(item, "reason_code", "unknown").as_str());
    append_str(&mut m, "\t");
    append_str(&mut m, field_text_or(item, "message", "unknown").as_str());
    string_of(&m)
}

/// See `import_human_lines`.
pub fn import_human_output(import: &Json) -> (r: Vec<String>)
    ensures
        views(r@) == import_human_lines(json_model(*import)),
{
    let accepted = array_member_len(import, "accepted");
    let empty: Vec<Json> = Vec::new();
    let rejected: &Vec<Json> = match get_member_of(import, "rejected") {
        Some(Json::Array(items)) => items,
        _ => &empty,
    };
    let ghost ms = items_model(rejected@);
    assert(ms == array_items(json_model(*import), "rejected"@));
    let mut first: Vec<char> = chars_of("accepted=");
    append_u64(&mut first, accepted as u64);
    append_str(&mut first, "\trejected=");
    assert(ms.len() == rejected.len());
    append_u64(&mut first, rejected.len() as u64);
    append_str(&mut first, "\t");
    append_str(&mut first, import_job_summary(import).as_str());
    let ghost head = "accepted="@ + decimal(array_len_or_zero(json_model(*import), "accepted"@)) + "\trejected="@
        + decimal(ms.len()) + "\t"@ + import_job_text(json_model(*import));
    assert(first@ =~= head);
    let mut lines: Vec<String> = Vec::new();
    lines.push(string_of(&first));
    let mut i: usize = 0;
    while i < rejected.len()
        invariant
            i <= rejected.len(),
            ms == items_model(rejected@),
            ms.len() == rejected.len(),
            lines.len() == i + 1,
            views(lines@) == seq![head] + ms.take(i as int).map_values(|x: JsonV| rejected_text(x)),
        decreases rejected.len() - i,
    {
        let ghost before = lines@;
        let line = rejected_line(&rejected[i]);
        lines.push(line);
        assert(json_model(rejected@[i as int]) == ms[i as int]);
        assert(ms.take(i + 1) =~= ms.take(i as int).push(ms[i as int]));
        assert(views(lines@) =~= views(before).push(line@));
        i += 1;
    }
    assert(ms.take(rejected.len() as int) =~= ms);
    assert(views(lines@) =~= import_human_lines(json_model(*import)));
    lines
}

} // verus!
