use vstd::prelude::*;
use crate::cli_error::CliError;
use crate::client::FetchedJson;
use crate::envelope::{
    append_u64, command_payload, command_payload_json, count_or_zero, data_array_member, data_member,
    data_object, field_text_or, member_or_null, member_or_null_of, number_field_or_zero, text_or,
    views, CommandResponse, HttpMethod, RequestPlan,
};
use crate::find::invalid_envelope_is;
use crate::jobs::summary_lines;
use crate::json::{
    empty_members, items_model, json_model, json_string, member, pairs_insert, put_member, Json,
    JsonV,
};
use crate::text::{append_str, chars_of, decimal, string_of};

verus! {

/// A `faus library` subcommand.
#[derive(Debug)]
pub enum LibraryCommand {
    /// List libraries.
    List,
    /// Create a library, with an optional stable id.
    Create { display_name: String, library_id: Option<String> },
    /// Show one library.
    Show { library_id: String },
    /// Rename a library.
    Rename { library_id: String, display_name: String },
    /// Archive a library.
    Archive { library_id: String },
    /// Restore an archived library.
    Restore { library_id: String },
}

/// The body that creates a library: its display name, and its id when one is given.
pub open spec fn create_library_json(display_name: Seq<char>, library_id: Option<Seq<char>>) -> JsonV {
    let p = pairs_insert(seq![], "display_name"@, JsonV::Str(display_name));
    JsonV::Object(
        match library_id {
            Some(id) => pairs_insert(p, "library_id"@, JsonV::Str(id)),
            None => p,
        },
    )
}

/// See `create_library_json`.
pub fn create_library_body(display_name: &str, library_id: Option<&str>) -> (r: Json)
    ensures
        json_model(r) == create_library_json(
            display_name@,
            match library_id {
                Some(id) => Some(id@),
                None => None,
            },
        ),
{
    let mut body = empty_members();
    put_member(&mut body, "display_name", json_string(display_name));
    if let Some(id) = library_id {
        put_member(&mut body, "library_id", json_string(id));
    }
    Json::Object(body)
}

/// The request of a library subcommand.
pub open spec fn library_plan_is(c: LibraryCommand, p: RequestPlan) -> bool {
    match c {
        LibraryCommand::List => p.method == HttpMethod::Get && p.path@ == "/libraries"@ && p.body is None,
        LibraryCommand::Create { display_name, library_id } => p.method == HttpMethod::Post && p.path@
            == "/libraries"@ && (p.body matches Some(b) && json_model(b) == create_library_json(
            display_name@,
            crate::config::opt_view(library_id),
        )),
        LibraryCommand::Show { library_id } => p.method == HttpMethod::Get && p.path@ == "/libraries/"@ + library_id@
            && p.body is None,
        LibraryCommand::Rename { library_id, display_name } => p.method == HttpMethod::Patch && p.path@
            == "/libraries/"@ + library_id@ && (p.body matches Some(b) && json_model(b) == JsonV::Object(
            pairs_insert(seq![], "display_name"@, JsonV::Str(display_name@)),
        )),
        LibraryCommand::Archive { library_id } => p.method == HttpMethod::Post && p.path@ == "/libraries/"@
            + library_id@ + "/archive"@ && p.body is None,
        LibraryCommand::Restore { library_id } => p.method == HttpMethod::Post && p.path@ == "/libraries/"@
            + library_id@ + "/restore"@ && p.body is None,
    }
}

fn library_path(library_id: &str, action: &str) -> (r: String)
    ensures
        r@ == "/libraries/"@ + library_id@ + action@,
{
    let mut m = chars_of("/libraries/");
    append_str(&mut m, library_id);
    append_str(&mut m, action);
    string_of(&m)
}

/// The request of a library subcommand (see `library_plan_is`).
pub fn library_request(command: &LibraryCommand) -> (r: RequestPlan)
    ensures
        library_plan_is(*command, r),
{
    proof {
        reveal_strlit("");
    }
    match command {
        LibraryCommand::List => RequestPlan { method: HttpMethod::Get, path: "/libraries".to_owned(), body: None },
        LibraryCommand::Create { display_name, library_id } => {
            let id = match library_id {
                Some(i) => Some(i.as_str()),
                None => None,
            };
            RequestPlan {
                method: HttpMethod::Post,
                path: "/libraries".to_owned(),
                body: Some(create_library_body(display_name.as_str(), id)),
            }
        },
        LibraryCommand::Show { library_id } => {
            let path = library_path(library_id.as_str(), "");
            assert(path@ =~= "/libraries/"@ + library_id@);
            RequestPlan { method: HttpMethod::Get, path, body: None }
        },
        LibraryCommand::Rename { library_id, display_name } => {
            let path = library_path(library_id.as_str(), "");
            assert(path@ =~= "/libraries/"@ + library_id@);
            let mut body = empty_members();
            put_member(&mut body, "display_name", Json::Str(display_name.clone()));
            RequestPlan { method: HttpMethod::Patch, path, body: Some(Json::Object(body)) }
        },
        LibraryCommand::Archive { library_id } => RequestPlan {
            method: HttpMethod::Post,
            path: library_path(library_id.as_str(), "/archive"),
            body: None,
        },
        LibraryCommand::Restore { library_id } => RequestPlan {
            method: HttpMethod::Post,
            path: library_path(library_id.as_str(), "/restore"),
            body: None,
        },
    }
}

/// What a library subcommand gives: the libraries array, or one library object.
#[derive(Debug)]
pub enum LibraryOutput {
    List { libraries: Json },
    Library { library: Json },
}

/// `r` is the outcome of the response `value` from `url` to `c`: `data.libraries` for a
/// list, the `data` object otherwise.
pub open spec fn library_response_is(c: LibraryCommand, url: Seq<char>, status: u16, value: JsonV, r: Result<
    CommandResponse<LibraryOutput>,
    CliError,
>) -> bool {
    match c {
        LibraryCommand::List => match data_member(value, "libraries"@) {
            Some(JsonV::Array(items)) => r matches Ok(resp) && resp.request_url@ == url && resp.http_status == status
                && (resp.output matches LibraryOutput::List { libraries } && json_model(libraries) == JsonV::Array(items)),
            _ => r matches Err(e) && invalid_envelope_is(e, url, "data.libraries array"@),
        },
        _ => match member(value, "data"@) {
            Some(d) => if d is Object {
                r matches Ok(resp) && resp.request_url@ == url && resp.http_status == status
                    && (resp.output matches LibraryOutput::Library { library } && json_model(library) == d)
            } else {
                r matches Err(e) && invalid_envelope_is(e, url, "data object"@)
            },
            None => r matches Err(e) && invalid_envelope_is(e, url, "data object"@),
        },
    }
}

/// Checks the response to a library subcommand (see `library_response_is`).
pub fn library_response(command: &LibraryCommand, request_url: &str, fetched: &FetchedJson) -> (r: Result<
    CommandResponse<LibraryOutput>,
    CliError,
>)
    ensures
        library_response_is(*command, request_url@, fetched.status, json_model(fetched.value), r),
{
    let output = match command {
        LibraryCommand::List => LibraryOutput::List {
            libraries: data_array_member(&fetched.value, request_url, "libraries", "data.libraries array")?,
        },
        _ => LibraryOutput::Library { library: data_object(&fetched.value, request_url, "data object")? },
    };
    Ok(CommandResponse { request_url: request_url.to_owned(), http_status: fetched.status, output })
}

/// The JSON output of a library subcommand: the list under `libraries`, one library under
/// `library`.
pub fn library_output_payload(
    base_url: &str,
    base_url_source: &str,
    response: &CommandResponse<LibraryOutput>,
    debug: bool,
) -> (r: Json)
    ensures
        json_model(r) == match response.output {
            LibraryOutput::List { libraries } => command_payload_json(
                base_url@,
                "libraries"@,
                json_model(libraries),
                base_url_source@,
                response.request_url@,
                response.http_status,
                debug,
            ),
            LibraryOutput::Library { library } => command_payload_json(
                base_url@,
                "library"@,
                json_model(library),
                base_url_source@,
                response.request_url@,
                response.http_status,
                debug,
            ),
        },
{
    match &response.output {
        LibraryOutput::List { libraries } => command_payload(
            base_url,
            "libraries",
            libraries,
            base_url_source,
            response.request_url.as_str(),
            response.http_status,
            debug,
        ),
        LibraryOutput::Library { library } => command_payload(
            base_url,
            "library",
            library,
            base_url_source,
            response.request_url.as_str(),
            response.http_status,
            debug,
        ),
    }
}

/// The line that describes a library: id, lifecycle state, name and its counts.
pub open spec fn library_summary_text(library: JsonV) -> Seq<char> {
    let counts = member_or_null(library, "counts"@);
    text_or(library, "id"@, "unknown"@) + "\t"@ + text_or(library, "lifecycle_state"@, "unknown"@) + "\t"@
        + text_or(library, "display_name"@, "unknown"@) + "\taccepted="@ + decimal(
        count_or_zero(counts, "accepted_items"@) as nat,
    ) + "\tpending="@ + decimal(count_or_zero(counts, "pending_jobs"@) as nat)
}

/// See `library_summary_text`.
pub fn library_summary(library: &Json) -> (r: String)
    ensures
        r@ == library_summary_text(json_model(*library)),
{
    let counts = member_or_null_of(library, "counts");
    let mut m: Vec<char> = Vec::new();
    append_str(&mut m, field_text_or(library, "id", "unknown").as_str());
    append_str(&mut m, "\t");
    append_str(&mut m, field_text_or(library, "lifecycle_state", "unknown").as_str());
    append_str(&mut m, "\t");
    append_str(&mut m, field_text_or(library, "display_name", "unknown").as_str());
    append_str(&mut m, "\taccepted=");
    append_u64(&mut m, number_field_or_zero(&counts, "accepted_items"));
    append_str(&mut m, "\tpending=");
    append_u64(&mut m, number_field_or_zero(&counts, "pending_jobs"));
    assert(m@ =~= library_summary_text(json_model(*library)));
    string_of(&m)
}

/// The lines that a library subcommand prints for a person.
pub open spec fn library_human_lines(output: LibraryOutput) -> Seq<Seq<char>> {
    match output {
        LibraryOutput::List { libraries } => match json_model(libraries) {
            JsonV::Array(items) => summary_lines(items, "No libraries."@, |l: JsonV| library_summary_text(l)),
            _ => seq![],
        },
        LibraryOutput::Library { library } => seq![library_summary_text(json_model(library))],
    }
}

/// The lines that a library subcommand prints for a person (see `library_human_lines`).
pub fn library_human_output(response: &CommandResponse<LibraryOutput>) -> (r: Vec<String>)
    requires
        response.output matches LibraryOutput::List { libraries } ==> json_model(libraries) is Array,
    ensures
        views(r@) == library_human_lines(response.output),
{
    let mut lines: Vec<String> = Vec::new();
    match &response.output {
        LibraryOutput::List { libraries } => match libraries {
            Json::Array(items) => {
                if items.len() == 0 {
                    lines.push("No libraries.".to_owned());
                    assert(views(lines@) =~= library_human_lines(response.output));
                    return lines;
                }
                let ghost ms = items_model(items@);
                let mut i: usize = 0;
                while i < items.len()
                    invariant
                        i <= items.len(),
                        ms == items_model(items@),
                        ms.len() == items.len(),
                        views(lines@) == ms.take(i as int).map_values(|l: JsonV| library_summary_text(l)),
                    decreases items.len() - i,
                {
                    let ghost before = lines@;
                    let line = library_summary(&items[i]);
                    lines.push(line);
                    assert(json_model(items@[i as int]) == ms[i as int]);
                    assert(ms.take(i + 1) =~= ms.take(i as int).push(ms[i as int]));
                    assert(views(lines@) =~= views(before).push(line@));
                    i += 1;
                }
                assert(ms.take(items.len() as int) =~= ms);
            },
            _ => {},
        },
        LibraryOutput::Library { library } => {
            lines.push(library_summary(library));
            assert(views(lines@) =~= library_human_lines(response.output));
        },
    }
    lines
}

/// `faus library restore <id>` asks `POST /libraries/<id>/restore`, which is never the
/// request that `faus library archive <id>` makes.
pub proof fn lemma_restore_request(id: String, restore: RequestPlan, archive: RequestPlan)
    requires
        library_plan_is(LibraryCommand::Restore { library_id: id }, restore),
        library_plan_is(LibraryCommand::Archive { library_id: id }, archive),
    ensures
        restore.method == HttpMethod::Post,
        restore.body is None,
        restore.path@ == "/libraries/"@ + id@ + "/restore"@,
        restore.path@ != archive.path@,
{
    reveal_strlit("/restore");
    reveal_strlit("/archive");
    let n = restore.path@.len();
    assert(restore.path@[n - 2] == 'r');
    assert(archive.path@[n - 2] == 'v');
}

} // verus!
