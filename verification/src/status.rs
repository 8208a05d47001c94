use vstd::prelude::*;
use crate::cli_error::{error_is, CliError};
use crate::envelope::{concat, field_text_or, join_strings, joined, text_or, views};
use crate::json::{
    clone_json, empty_members, get_member_of, items_model, json_model, json_string, json_u64,
    member, pairs_insert, put_member, str_member, string_field, Json, JsonV,
};
use crate::text::{append_str, chars_of, decimal, string_of, trim, trim_chars};

verus! {

/// The health and runtime-status endpoints under a base address.
pub fn status_urls(base_url: &str) -> (r: (String, String))
    ensures
        r.0@ == base_url@ + "/health"@,
        r.1@ == base_url@ + "/runtime/status"@,
{
    (concat_base(base_url, "/health"), concat_base(base_url, "/runtime/status"))
}

fn concat_base(base_url: &str, path: &str) -> (r: String)
    ensures
        r@ == base_url@ + path@,
{
    concat(base_url, path)
}

/// The `data` object of the runtime status response from `url`; its absence is an
/// `invalid_response`.
pub fn runtime_status_from_envelope(value: &Json, url: &str) -> (r: Result<Json, CliError>)
    ensures
        match member(json_model(*value), "data"@) {
            Some(d) => if d is Object {
                r matches Ok(x) && json_model(x) == d
            } else {
                r matches Err(e) && error_is(
                    e,
                    "invalid_response"@,
                    url@ + " did not return a SuccessEnvelope data object"@,
                    None,
                    None,
                    None,
                )
            },
            None => r matches Err(e) && error_is(
                e,
                "invalid_response"@,
                url@ + " did not return a SuccessEnvelope data object"@,
                None,
                None,
                None,
            ),
        },
{
    if let Some(d) = get_member_of(value, "data") {
        if let Json::Object(_) = d {
            return Ok(clone_json(d));
        }
    }
    let m = concat(url, " did not return a SuccessEnvelope data object");
    Err(CliError::new("invalid_response", m.as_str()))
}

/// What `faus status` found.
#[derive(Debug)]
pub struct StatusReport {
    pub base_url: String,
    pub base_url_source: String,
    pub health_url: String,
    pub runtime_status_url: String,
    pub health: Json,
    pub health_status: u16,
    pub runtime_status: Json,
    pub runtime_status_http_status: u16,
}

/// The JSON output of `faus status`.
pub open spec fn status_output_json(s: StatusReport, debug: bool) -> JsonV {
    let data = pairs_insert(
        pairs_insert(
            pairs_insert(seq![], "base_url"@, JsonV::Str(s.base_url@)),
            "health"@,
            json_model(s.health),
        ),
        "runtime_status"@,
        json_model(s.runtime_status),
    );
    let top = pairs_insert(pairs_insert(seq![], "status"@, JsonV::Str("ok"@)), "data"@, JsonV::Object(data));
    if debug {
        let d = pairs_insert(
            pairs_insert(
                pairs_insert(
                    pairs_insert(
                        pairs_insert(seq![], "base_url_source"@, JsonV::Str(s.base_url_source@)),
                        "health_url"@,
                        JsonV::Str(s.health_url@),
                    ),
                    "runtime_status_url"@,
                    JsonV::Str(s.runtime_status_url@),
                ),
                "health_status"@,
                JsonV::Number(decimal(s.health_status as nat)),
            ),
            "runtime_status_http_status"@,
            JsonV::Number(decimal(s.runtime_status_http_status as nat)),
        );
        JsonV::Object(pairs_insert(top, "debug"@, JsonV::Object(d)))
    } else {
        JsonV::Object(top)
    }
}

/// See `status_output_json`.
pub fn status_output_payload(s: &StatusReport, debug: bool) -> (r: Json)
    ensures
        json_model(r) == status_output_json(*s, debug),
{
    let mut data = empty_members();
    put_member(&mut data, "base_url", Json::Str(s.base_url.clone()));
    put_member(&mut data, "health", clone_json(&s.health));
    put_member(&mut data, "runtime_status", clone_json(&s.runtime_status));
    let mut top = empty_members();
    put_member(&mut top, "status", json_string("ok"));
    put_member(&mut top, "data", Json::Object(data));
    if debug {
        let mut d = empty_members();
        put_member(&mut d, "base_url_source", Json::Str(s.base_url_source.clone()));
        put_member(&mut d, "health_url", Json::Str(s.health_url.clone()));
        put_member(&mut d, "runtime_status_url", Json::Str(s.runtime_status_url.clone()));
        put_member(&mut d, "health_status", json_u64(s.health_status as u64));
        put_member(&mut d, "runtime_status_http_status", json_u64(s.runtime_status_http_status as u64));
        put_member(&mut top, "debug", Json::Object(d));
    }
    Json::Object(top)
}

/// A component's status string, or `unknown`.
pub open spec fn value_status_text(v: JsonV) -> Seq<char> {
    text_or(v, "status"@, "unknown"@)
}

/// How a runtime component reads: `unknown` when absent, else its status, followed by
/// ` - message` when it has a message that is not blank.
pub open spec fn component_text(v: Option<JsonV>) -> Seq<char> {
    match v {
        None => "unknown"@,
        Some(c) => match str_member(c, "message"@) {
            Some(m) => if trim(m).len() > 0 {
                value_status_text(c) + " - "@ + m
            } else {
                value_status_text(c)
            },
            None => value_status_text(c),
        },
    }
}

/// See `component_text`.
pub fn component_summary(v: Option<&Json>) -> (r: String)
    ensures
        r@ == component_text(
            match v {
                Some(c) => Some(json_model(*c)),
                None => None,
            },
        ),
{
    let c = match v {
        None => return "unknown".to_owned(),
        Some(c) => c,
    };
    let status = field_text_or(c, "status", "unknown");
    match string_field(c, "message") {
        Some(m) => {
            if trim_chars(&chars_of(m.as_str())).len() > 0 {
                let mut t = chars_of(status.as_str());
                append_str(&mut t, " - ");
                append_str(&mut t, m.as_str());
                string_of(&t)
            } else {
                status
            }
        },
        None => status,
    }
}

/// One provider as listed: `id=status`.
pub open spec fn provider_text(p: JsonV) -> Seq<char> {
    text_or(p, "provider_id"@, "unknown"@) + "="@ + text_or(p, "status"@, "unknown"@)
}

/// The providers of a runtime status: `unknown` without a `providers` array, `none` when
/// it is empty, else each provider, separated by `, `.
pub open spec fn providers_text(runtime_status: JsonV) -> Seq<char> {
    match member(runtime_status, "providers"@) {
        Some(JsonV::Array(items)) => if items.len() == 0 {
            "none"@
        } else {
            joined(items.map_values(|p: JsonV| provider_text(p)), ", "@)
        },
        _ => "unknown"@,
    }
}

/// See `providers_text`.
pub fn providers_summary(runtime_status: &Json) -> (r: String)
    ensures
        r@ == providers_text(json_model(*runtime_status)),
{
    let items = match get_member_of(runtime_status, "providers") {
        Some(Json::Array(items)) => items,
        _ => return "unknown".to_owned(),
    };
    let ghost ms = items_model(items@);
    assert(ms.len() == items.len());
    if items.len() == 0 {
        return "none".to_owned();
    }
    let mut parts: Vec<String> = Vec::new();
    let mut i: usize = 0;
    while i < items.len()
        invariant
            i <= items.len(),
            ms == items_model(items@),
            ms.len() == items.len(),
            views(parts@) == ms.take(i as int).map_values(|p: JsonV| provider_text(p)),
        decreases items.len() - i,
    {
        let ghost before = parts@;
        let p = &items[i];
        let mut t = chars_of(field_text_or(p, "provider_id", "unknown").as_str());
        append_str(&mut t, "=");
        append_str(&mut t, field_text_or(p, "status", "unknown").as_str());
        let line = string_of(&t);
        parts.push(line);
        assert(json_model(items@[i as int]) == ms[i as int]);
        assert(ms.take(i + 1) =~= ms.take(i as int).push(ms[i as int]));
        assert(views(parts@) =~= views(before).push(line@));
        i += 1;
    }
    assert(ms.take(items.len() as int) =~= ms);
    join_strings(&parts, ", ")
}

/// The lines that `faus status` prints for a person.
pub open spec fn status_human_lines(s: StatusReport, debug: bool) -> Seq<Seq<char>> {
    let rs = json_model(s.runtime_status);
    let lines = seq![
        "Base URL: "@ + s.base_url@,
        "App: "@ + value_status_text(json_model(s.health)),
        "Runtime app: "@ + component_text(member(rs, "app"@)),
        "Qdrant: "@ + component_text(member(rs, "qdrant"@)),
        "Providers: "@ + providers_text(rs),
    ];
    if debug {
        lines + seq!["Health URL: "@ + s.health_url@, "Runtime Status URL: "@ + s.runtime_status_url@]
    } else {
        lines
    }
}

/// See `status_human_lines`.
pub fn status_human_output(s: &StatusReport, debug: bool) -> (r: Vec<String>)
    ensures
        views(r@) == status_human_lines(*s, debug),
{
    let mut lines: Vec<String> = Vec::new();
    lines.push(concat("Base URL: ", s.base_url.as_str()));
    lines.push(concat("App: ", field_text_or(&s.health, "status", "unknown").as_str()));
    lines.push(concat("Runtime app: ", component_summary(get_member_of(&s.runtime_status, "app")).as_str()));
    lines.push(concat("Qdrant: ", component_summary(get_member_of(&s.runtime_status, "qdrant")).as_str()));
    lines.push(concat("Providers: ", providers_summary(&s.runtime_status).as_str()));
    if debug {
        lines.push(concat("Health URL: ", s.health_url.as_str()));
        lines.push(concat("Runtime Status URL: ", s.runtime_status_url.as_str()));
    }
    assert(views(lines@) =~= status_human_lines(*s, debug));
    lines
}

} // verus!
