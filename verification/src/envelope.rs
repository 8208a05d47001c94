use vstd::prelude::*;
use crate::cli_error::CliError;
use crate::find::{invalid_envelope_is, invalid_success_envelope, member_has_shape, MemberShape};
use crate::json::{
    clone_json, empty_members, get_member_of, json_model, json_string, json_u64, member,
    pairs_insert, put_member, str_member, string_field, u64_field, u64_member, items_model, Json,
    JsonV,
};
use crate::text::{append_chars, append_str, chars_of, decimal, decimal_chars, string_of};

verus! {

/// The member `key` of the `data` member of a response.
pub open spec fn data_member(v: JsonV, key: Seq<char>) -> Option<JsonV> {
    match member(v, "data"@) {
        Some(d) => member(d, key),
        None => None,
    }
}

/// The array `data.key` of a success envelope, or the error that it is not there.
pub fn data_array_member(value: &Json, url: &str, key: &str, expected: &str) -> (r: Result<Json, CliError>)
    ensures
        match data_member(json_model(*value), key@) {
            Some(JsonV::Array(items)) => r matches Ok(x) && json_model(x) == JsonV::Array(items),
            _ => r matches Err(e) && invalid_envelope_is(e, url@, expected@),
        },
{
    let found = match get_member_of(value, "data") {
        Some(d) => get_member_of(d, key),
        None => None,
    };
    match found {
        Some(Json::Array(_)) => Ok(clone_json(found.unwrap())),
        _ => Err(invalid_success_envelope(url, expected)),
    }
}

/// The object `data` of a success envelope, or the error that it is not there.
pub fn data_object(value: &Json, url: &str, expected: &str) -> (r: Result<Json, CliError>)
    ensures
        match member(json_model(*value), "data"@) {
            Some(d) => if d is Object {
                r matches Ok(x) && json_model(x) == d
            } else {
                r matches Err(e) && invalid_envelope_is(e, url@, expected@)
            },
            None => r matches Err(e) && invalid_envelope_is(e, url@, expected@),
        },
{
    match get_member_of(value, "data") {
        Some(d) => match d {
            Json::Object(_) => Ok(clone_json(d)),
            _ => Err(invalid_success_envelope(url, expected)),
        },
        None => Err(invalid_success_envelope(url, expected)),
    }
}

/// The `data` object of an action response with `accepted` and `rejected` arrays: the
/// error `missing` without `data`, `bad` when `data` is not such an object.
pub fn accepted_rejected_data(value: &Json, url: &str, missing: &str, bad: &str) -> (r: Result<Json, CliError>)
    ensures
        match member(json_model(*value), "data"@) {
            None => r matches Err(e) && invalid_envelope_is(e, url@, missing@),
            Some(d) => if member_has_shape(d, "accepted"@, MemberShape::Array) && member_has_shape(
                d,
                "rejected"@,
                MemberShape::Array,
            ) {
                r matches Ok(x) && json_model(x) == d
            } else {
                r matches Err(e) && invalid_envelope_is(e, url@, bad@)
            },
        },
{
    match get_member_of(value, "data") {
        None => Err(invalid_success_envelope(url, missing)),
        Some(d) => {
            let ok = match d {
                Json::Object(_) => {
                    let a = match get_member_of(d, "accepted") {
                        Some(Json::Array(_)) => true,
                        _ => false,
                    };
                    let b = match get_member_of(d, "rejected") {
                        Some(Json::Array(_)) => true,
                        _ => false,
                    };
                    a && b
                },
                _ => false,
            };
            if ok {
                Ok(clone_json(d))
            } else {
                Err(invalid_success_envelope(url, bad))
            }
        },
    }
}

/// The string member `field`, or `fallback`.
pub open spec fn text_or(v: JsonV, field: Seq<char>, fallback: Seq<char>) -> Seq<char> {
    match str_member(v, field) {
        Some(s) => s,
        None => fallback,
    }
}

/// See `text_or`.
pub fn field_text_or(v: &Json, field: &str, fallback: &str) -> (r: String)
    ensures
        r@ == text_or(json_model(*v), field@, fallback@),
{
    match string_field(v, field) {
        Some(s) => s,
        None => fallback.to_owned(),
    }
}

/// The boolean member `field`, or `false`.
pub open spec fn flag_or_false(v: JsonV, field: Seq<char>) -> bool {
    match member(v, field) {
        Some(JsonV::Bool(b)) => b,
        _ => false,
    }
}

/// See `flag_or_false`.
pub fn bool_field_or_false(v: &Json, field: &str) -> (r: bool)
    ensures
        r == flag_or_false(json_model(*v), field@),
{
    match get_member_of(v, field) {
        Some(Json::Bool(b)) => *b,
        _ => false,
    }
}

/// The unsigned integer member `field`, or 0.
pub open spec fn count_or_zero(v: JsonV, field: Seq<char>) -> u64 {
    match u64_member(v, field) {
        Some(n) => n,
        None => 0,
    }
}

/// See `count_or_zero`.
pub fn number_field_or_zero(v: &Json, field: &str) -> (r: u64)
    ensures
        r == count_or_zero(json_model(*v), field@),
{
    match u64_field(v, field) {
        Some(n) => n,
        None => 0,
    }
}

/// The length of the array member `field`, or 0.
pub open spec fn array_len_or_zero(v: JsonV, field: Seq<char>) -> nat {
    match member(v, field) {
        Some(JsonV::Array(items)) => items.len(),
        _ => 0,
    }
}

/// See `array_len_or_zero`.
pub fn array_member_len(v: &Json, field: &str) -> (r: usize)
    ensures
        r == array_len_or_zero(json_model(*v), field@),
{
    match get_member_of(v, field) {
        Some(Json::Array(items)) => {
            assert(items_model(items@).len() == items.len());
            items.len()
        },
        _ => 0,
    }
}

/// `true` or `false`, as printed.
pub open spec fn bool_text(b: bool) -> Seq<char> {
    if b { "true"@ } else { "false"@ }
}

/// Appends `true` or `false`.
pub fn append_bool(m: &mut Vec<char>, b: bool)
    ensures
        final(m)@ == old(m)@ + bool_text(b),
{
    if b {
        append_str(m, "true");
    } else {
        append_str(m, "false");
    }
}

/// Appends a number in decimal.
pub fn append_u64(m: &mut Vec<char>, n: u64)
    ensures
        final(m)@ == old(m)@ + decimal(n as nat),
{
    let d = decimal_chars(n);
    append_chars(m, &d);
}

/// The debug member of a client command's JSON output.
pub open spec fn request_debug_json(base_url_source: Seq<char>, request_url: Seq<char>, http_status: u16) -> JsonV {
    JsonV::Object(
        pairs_insert(
            pairs_insert(
                pairs_insert(seq![], "base_url_source"@, JsonV::Str(base_url_source)),
                "request_url"@,
                JsonV::Str(request_url),
            ),
            "http_status"@,
            JsonV::Number(decimal(http_status as nat)),
        ),
    )
}

/// The JSON output of a client command: `status` `ok`, `data` with `base_url` and the
/// result under `key`, and with `debug`, where the request went.
pub open spec fn command_payload_json(
    base_url: Seq<char>,
    key: Seq<char>,
    value: JsonV,
    base_url_source: Seq<char>,
    request_url: Seq<char>,
    http_status: u16,
    debug: bool,
) -> JsonV {
    let data = pairs_insert(pairs_insert(seq![], "base_url"@, JsonV::Str(base_url)), key, value);
    let top = pairs_insert(pairs_insert(seq![], "status"@, JsonV::Str("ok"@)), "data"@, JsonV::Object(data));
    if debug {
        JsonV::Object(pairs_insert(top, "debug"@, request_debug_json(base_url_source, request_url, http_status)))
    } else {
        JsonV::Object(top)
    }
}

/// See `command_payload_json`.
pub fn command_payload(
    base_url: &str,
    key: &str,
    value: &Json,
    base_url_source: &str,
    request_url: &str,
    http_status: u16,
    debug: bool,
) -> (r: Json)
    ensures
        json_model(r) == command_payload_json(
            base_url@,
            key@,
            json_model(*value),
            base_url_source@,
            request_url@,
            http_status,
            debug,
        ),
{
    let mut data = empty_members();
    put_member(&mut data, "base_url", json_string(base_url));
    put_member(&mut data, key, clone_json(value));
    let mut top = empty_members();
    put_member(&mut top, "status", json_string("ok"));
    put_member(&mut top, "data", Json::Object(data));
    if debug {
        let mut d = empty_members();
        put_member(&mut d, "base_url_source", json_string(base_url_source));
        put_member(&mut d, "request_url", json_string(request_url));
        put_member(&mut d, "http_status", json_u64(http_status as u64));
        put_member(&mut top, "debug", Json::Object(d));
    }
    Json::Object(top)
}

/// The HTTP method of an App API request.
#[derive(Clone, Copy, Debug, PartialEq, Eq, Structural)]
pub enum HttpMethod {
    Get,
    Post,
    Patch,
    Delete,
}

/// What a client command asks of the App API: a method, a path under the base address, and
/// a JSON body for the methods that send one.
#[derive(Debug)]
pub struct RequestPlan {
    pub method: HttpMethod,
    pub path: String,
    pub body: Option<Json>,
}

/// The result of a client command: where the request went, its status, and what it gave.
#[derive(Debug)]
pub struct CommandResponse<T> {
    pub request_url: String,
    pub http_status: u16,
    pub output: T,
}

/// The text `prefix` followed by `value`.
pub fn concat(prefix: &str, value: &str) -> (r: String)
    ensures
        r@ == prefix@ + value@,
{
    let mut m = chars_of(prefix);
    append_str(&mut m, value);
    string_of(&m)
}

/// Strings as their views.
pub open spec fn views(v: Seq<String>) -> Seq<Seq<char>> {
    v.map_values(|s: String| s@)
}


/// The member `key`, or `null`.
pub open spec fn member_or_null(v: JsonV, key: Seq<char>) -> JsonV {
    match member(v, key) {
        Some(x) => x,
        None => JsonV::Null,
    }
}

/// See `member_or_null`.
pub fn member_or_null_of(v: &Json, key: &str) -> (r: Json)
    ensures
        json_model(r) == member_or_null(json_model(*v), key@),
{
    match get_member_of(v, key) {
        Some(x) => clone_json(x),
        None => Json::Null,
    }
}


/// The parts joined with `sep` between them (`[&str]::join`).
pub open spec fn joined(parts: Seq<Seq<char>>, sep: Seq<char>) -> Seq<char>
    decreases parts.len(),
{
    if parts.len() == 0 {
        seq![]
    } else if parts.len() == 1 {
        parts[0]
    } else {
        joined(parts.drop_last(), sep) + sep + parts.last()
    }
}

/// See `joined`.
pub fn join_strings(parts: &Vec<String>, sep: &str) -> (r: String)
    ensures
        r@ == joined(views(parts@), sep@),
{
    let mut m: Vec<char> = Vec::new();
    let mut i: usize = 0;
    while i < parts.len()
        invariant
            i <= parts.len(),
            m@ == joined(views(parts@).take(i as int), sep@),
        decreases parts.len() - i,
    {
        let ghost before = m@;
        if i > 0 {
            append_str(&mut m, sep);
        }
        append_str(&mut m, parts[i].as_str());
        proof {
            let t = views(parts@).take(i + 1);
            assert(t.drop_last() =~= views(parts@).take(i as int));
            if i == 0 {
                assert(before =~= Seq::<char>::empty());
                assert(m@ =~= t[0]);
            } else {
                assert(m@ =~= joined(t.drop_last(), sep@) + sep@ + t.last());
            }
        }
        i += 1;
    }
    assert(views(parts@).take(parts.len() as int) =~= views(parts@));
    string_of(&m)
}

} // verus!
