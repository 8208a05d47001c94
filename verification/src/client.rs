use vstd::prelude::*;
use vstd::string::StringSliceAdditionalSpecFns;
use crate::cli_error::{error_is, CliError};
use crate::config::opt_view;
use crate::json::{
    clone_json, empty_members, get_member_of, json_model, json_u64, member, pairs_insert,
    put_member, str_member, string_field, Json, JsonV,
};
use crate::env_file::pair_views;
use crate::serve::ProcessEnv;
use crate::text::{
    append_str, chars_eq, chars_of, decimal, decimal_chars, append_chars, string_of, trim,
    trim_chars, trim_end_char, trim_end_char_exec,
};

verus! {

/// The App API address used when neither `--base-url` nor `FAUS_BASE_URL` is given.
pub const DEFAULT_BASE_URL: &'static str = "http://127.0.0.1:53210";

/// What the URL parser reports of an absolute URL.
#[derive(Debug)]
pub struct ParsedUrl {
    pub scheme: String,
    pub host: Option<String>,
    pub query: Option<String>,
    pub fragment: Option<String>,
    pub serialization: String,
}

/// A parsed URL as plain values: scheme, host, query, fragment and serialization.
pub open spec fn parsed_url_view(p: ParsedUrl) -> (Seq<char>, Option<Seq<char>>, Option<Seq<char>>, Option<Seq<char>>, Seq<char>) {
    (p.scheme@, opt_view(p.host), opt_view(p.query), opt_view(p.fragment), p.serialization@)
}

/// What `Url::parse` makes of a string: the parts of the URL, or the text of the parse
/// error.
pub uninterp spec fn url_parse_outcome(input: Seq<char>) -> Result<
    (Seq<char>, Option<Seq<char>>, Option<Seq<char>>, Option<Seq<char>>, Seq<char>),
    Seq<char>,
>;

/// Parses an absolute URL with `reqwest::Url::parse` (the `url` crate) and reads back its
/// scheme, host, query, fragment and serialization; a failure gives the parse error's text.
/// Nothing about the parts is stated beyond their being `url_parse_outcome` of the input.
#[verifier::external_body]
fn parse_url(input: &str) -> (r: Result<ParsedUrl, String>)
    ensures
        match r {
            Ok(p) => url_parse_outcome(input@) == Ok::<_, Seq<char>>(parsed_url_view(p)),
            Err(e) => url_parse_outcome(input@) == Err::<(Seq<char>, Option<Seq<char>>, Option<Seq<char>>, Option<Seq<char>>, Seq<char>), Seq<char>>(e@),
        },
{
    match reqwest::Url::parse(input) {
        Ok(url) => Ok(ParsedUrl {
            scheme: url.scheme().to_string(),
            host: url.host_str().map(String::from),
            query: url.query().map(String::from),
            fragment: url.fragment().map(String::from),
            serialization: url.as_str().to_string(),
        }),
        Err(error) => Err(error.to_string()),
    }
}

/// The App API address in use and where it came from (`flag`, `env` or `default`).
#[derive(Debug)]
pub struct ResolvedBaseUrl {
    pub base_url: String,
    pub source: String,
}

/// The raw address and its source: `--base-url`, else `FAUS_BASE_URL`, else the default.
pub open spec fn base_url_input(arg: Option<String>, env: ProcessEnv) -> (Seq<char>, Seq<char>) {
    match arg {
        Some(v) => (v@, "flag"@),
        None => match env.var("FAUS_BASE_URL"@) {
            Some(v) => (v, "env"@),
            None => (DEFAULT_BASE_URL@, "default"@),
        },
    }
}

/// What a trimmed address amounts to, given what the parser made of it: the address
/// without trailing `/`, or the message of an `invalid_base_url` error.
pub open spec fn base_url_outcome(
    trimmed: Seq<char>,
    parsed: Result<(Seq<char>, Option<Seq<char>>, Option<Seq<char>>, Option<Seq<char>>, Seq<char>), Seq<char>>,
) -> Result<Seq<char>, Seq<char>> {
    match parsed {
        Err(e) => Err("Invalid base URL `"@ + trimmed + "`: "@ + e),
        Ok((scheme, host, query, fragment, serialization)) => if !(scheme == "http"@ || scheme == "https"@)
            || host is None {
            Err("Base URL must be an HTTP or HTTPS URL: `"@ + trimmed + "`"@)
        } else if query is Some || fragment is Some {
            Err("Base URL must not include query or fragment: `"@ + trimmed + "`"@)
        } else {
            Ok(trim_end_char(serialization, '/'))
        },
    }
}

/// A resolved base address never ends with `/`, so a request path can follow it directly.
pub proof fn lemma_base_url_has_no_trailing_slash(
    trimmed: Seq<char>,
    parsed: Result<(Seq<char>, Option<Seq<char>>, Option<Seq<char>>, Option<Seq<char>>, Seq<char>), Seq<char>>,
)
    ensures
        base_url_outcome(trimmed, parsed) matches Ok(u) ==> (u.len() == 0 || u.last() != '/'),
{
    if let Ok((_, _, _, _, serialization)) = parsed {
        crate::text::lemma_trim_end_char_no_trailing(serialization, '/');
    }
}

/// `r` is the resolution of `outcome`, with `source`.
pub open spec fn resolved_is(outcome: Result<Seq<char>, Seq<char>>, source: Seq<char>, r: Result<ResolvedBaseUrl, CliError>) -> bool {
    match outcome {
        Ok(u) => r matches Ok(b) && b.base_url@ == u && b.source@ == source,
        Err(m) => r matches Err(e) && error_is(e, "invalid_base_url"@, m, None, None, None),
    }
}

/// Checks a parsed address (see `base_url_outcome`).
pub fn base_url_from_parse(trimmed: &str, source: &str, parsed: Result<ParsedUrl, String>) -> (r: Result<
    ResolvedBaseUrl,
    CliError,
>)
    ensures
        resolved_is(
            base_url_outcome(
                trimmed@,
                match parsed {
                    Ok(p) => Ok(parsed_url_view(p)),
                    Err(e) => Err(e@),
                },
            ),
            source@,
            r,
        ),
{
    let p = match parsed {
        Err(e) => {
            let mut m = chars_of("Invalid base URL `");
            append_str(&mut m, trimmed);
            append_str(&mut m, "`: ");
            append_str(&mut m, e.as_str());
            return Err(CliError::new("invalid_base_url", string_of(&m).as_str()));
        },
        Ok(p) => p,
    };
    let scheme = chars_of(p.scheme.as_str());
    let http = chars_of("http");
    let https = chars_of("https");
    proof {
        reveal_strlit("http");
        reveal_strlit("https");
    }
    if !(chars_eq(&scheme, &http) || chars_eq(&scheme, &https)) || p.host.is_none() {
        let mut m = chars_of("Base URL must be an HTTP or HTTPS URL: `");
        append_str(&mut m, trimmed);
        append_str(&mut m, "`");
        return Err(CliError::new("invalid_base_url", string_of(&m).as_str()));
    }
    if p.query.is_some() || p.fragment.is_some() {
        let mut m = chars_of("Base URL must not include query or fragment: `");
        append_str(&mut m, trimmed);
        append_str(&mut m, "`");
        return Err(CliError::new("invalid_base_url", string_of(&m).as_str()));
    }
    let s = chars_of(p.serialization.as_str());
    let base = trim_end_char_exec(&s, '/');
    Ok(ResolvedBaseUrl { base_url: string_of(&base), source: source.to_owned() })
}

/// The App API address: the chosen input (see `base_url_input`), trimmed, parsed and
/// checked (see `base_url_outcome`).
pub fn resolve_base_url(base_url_arg: Option<String>, env: &ProcessEnv) -> (r: Result<ResolvedBaseUrl, CliError>)
    ensures
        ({
            let (raw, source) = base_url_input(base_url_arg, *env);
            resolved_is(base_url_outcome(trim(raw), url_parse_outcome(trim(raw))), source, r)
        }),
{
    let (raw, source) = match base_url_arg {
        Some(v) => (v, "flag"),
        None => match env.get("FAUS_BASE_URL") {
            Some(v) => (v, "env"),
            None => (DEFAULT_BASE_URL.to_owned(), "default"),
        },
    };
    let trimmed = string_of(&trim_chars(&chars_of(raw.as_str())));
    let parsed = parse_url(trimmed.as_str());
    base_url_from_parse(trimmed.as_str(), source, parsed)
}

/// A request to the App API, by its full URL.
#[derive(Debug)]
pub struct AppRequest {
    pub url: String,
}

impl ResolvedBaseUrl {
    /// The request for `path` under the base address.
    pub fn request(&self, path: &str) -> (r: AppRequest)
        ensures
            r.url@ == self.base_url@ + path@,
    {
        let mut u = chars_of(self.base_url.as_str());
        append_str(&mut u, path);
        AppRequest { url: string_of(&u) }
    }
}

/// The canonical reason phrase of an HTTP status code, if it has one.
pub uninterp spec fn status_reason(code: u16) -> Option<Seq<char>>;

/// The canonical reason phrase of a status code, from `reqwest::StatusCode::canonical_reason`
/// (the `http` crate); its table of phrases is not restated here.
#[verifier::external_body]
fn canonical_reason(code: u16) -> (r: Option<String>)
    requires
        100 <= code <= 999,
    ensures
        opt_view(r) == status_reason(code),
{
    match reqwest::StatusCode::from_u16(code) {
        Ok(status) => status.canonical_reason().map(String::from),
        Err(_) => None,
    }
}

/// How a status code prints: the number, a space and its reason phrase, or
/// `<unknown status code>` when it has none.
pub open spec fn status_text(code: u16, reason: Option<Seq<char>>) -> Seq<char> {
    decimal(code as nat) + " "@ + match reason {
        Some(r) => r,
        None => "<unknown status code>"@,
    }
}

/// The printed form of a status code (see `status_text`).
pub fn http_status_text(code: u16) -> (r: String)
    requires
        100 <= code <= 999,
    ensures
        r@ == status_text(code, status_reason(code)),
{
    let mut t = decimal_chars(code as u64);
    append_str(&mut t, " ");
    match canonical_reason(code) {
        Some(reason) => append_str(&mut t, reason.as_str()),
        None => append_str(&mut t, "<unknown status code>"),
    }
    string_of(&t)
}

/// A JSON response: its status and document.
#[derive(Debug)]
pub struct FetchedJson {
    pub status: u16,
    pub value: Json,
}

/// A text response: its status, content type and body.
#[derive(Debug)]
pub struct FetchedText {
    pub status: u16,
    pub content_type: Option<String>,
    pub body: String,
}

/// The error that an `ErrorEnvelope` carries: `error.code` and `error.message` strings,
/// with `error.details` and a boolean `error.retryable` when present.
pub open spec fn envelope_error(value: JsonV) -> Option<(Seq<char>, Seq<char>, Option<JsonV>, Option<bool>)> {
    match member(value, "error"@) {
        Some(e) => if e is Object && str_member(e, "code"@) is Some && str_member(e, "message"@) is Some {
            Some(
                (
                    str_member(e, "code"@)->0,
                    str_member(e, "message"@)->0,
                    member(e, "details"@),
                    match member(e, "retryable"@) {
                        Some(JsonV::Bool(b)) => Some(b),
                        _ => None,
                    },
                ),
            )
        } else {
            None
        },
        None => None,
    }
}

/// The error of an `ErrorEnvelope` response (see `envelope_error`).
pub fn error_from_envelope(value: &Json) -> (r: Option<CliError>)
    ensures
        match envelope_error(json_model(*value)) {
            Some((code, message, details, retryable)) => r matches Some(e) && error_is(
                e,
                code,
                message,
                None,
                details,
                retryable,
            ),
            None => r is None,
        },
{
    let error = match get_member_of(value, "error") {
        Some(e) => e,
        None => return None,
    };
    match error {
        Json::Object(_) => {},
        _ => return None,
    }
    let code = match string_field(error, "code") {
        Some(c) => c,
        None => return None,
    };
    let message = match string_field(error, "message") {
        Some(m) => m,
        None => return None,
    };
    let details = match get_member_of(error, "details") {
        Some(d) => Some(clone_json(d)),
        None => None,
    };
    let retryable = match get_member_of(error, "retryable") {
        Some(Json::Bool(b)) => Some(*b),
        _ => None,
    };
    Some(CliError { code, message, hint: None, details, retryable })
}

/// The outcome of a JSON response from `url`, given its status, the printed status and
/// what its body parsed to.
pub open spec fn json_response_is(
    url: Seq<char>,
    status: u16,
    status_printed: Seq<char>,
    parsed: Result<JsonV, Seq<char>>,
    r: Result<FetchedJson, CliError>,
) -> bool {
    match parsed {
        Err(e) => r matches Err(x) && error_is(x, "invalid_response"@, url + " did not return JSON: "@ + e, None, None, None),
        Ok(v) => if 200 <= status <= 299 {
            r matches Ok(f) && f.status == status && json_model(f.value) == v
        } else {
            match envelope_error(v) {
                Some((code, message, details, retryable)) => r matches Err(x) && error_is(
                    x,
                    code,
                    message,
                    None,
                    details,
                    retryable,
                ),
                None => r matches Err(x) && error_is(
                    x,
                    "invalid_response"@,
                    url + " returned HTTP "@ + status_printed + " without an ErrorEnvelope"@,
                    None,
                    Some(JsonV::Object(pairs_insert(seq![], "http_status"@, JsonV::Number(decimal(status as nat))))),
                    None,
                ),
            }
        },
    }
}

/// Judges a JSON response whose status prints as `status_printed`: a body that is not JSON
/// is an `invalid_response`; a non-2xx status is the error of its `ErrorEnvelope`, or an
/// `invalid_response` naming the status.
pub fn json_response_from(url: &str, status: u16, status_printed: &str, parsed: Result<Json, String>) -> (r: Result<
    FetchedJson,
    CliError,
>)
    ensures
        json_response_is(
            url@,
            status,
            status_printed@,
            match parsed {
                Ok(v) => Ok(json_model(v)),
                Err(e) => Err(e@),
            },
            r,
        ),
{
    let value = match parsed {
        Err(e) => {
            let mut m = chars_of(url);
            append_str(&mut m, " did not return JSON: ");
            append_str(&mut m, e.as_str());
            return Err(CliError::new("invalid_response", string_of(&m).as_str()));
        },
        Ok(v) => v,
    };
    if 200 <= status && status <= 299 {
        return Ok(FetchedJson { status, value });
    }
    match error_from_envelope(&value) {
        Some(e) => Err(e),
        None => {
            let mut m = chars_of(url);
            append_str(&mut m, " returned HTTP ");
            append_str(&mut m, status_printed);
            append_str(&mut m, " without an ErrorEnvelope");
            let mut d = empty_members();
            put_member(&mut d, "http_status", json_u64(status as u64));
            Err(CliError::new("invalid_response", string_of(&m).as_str()).with_details(Json::Object(d)))
        },
    }
}

/// Judges a JSON response from `url` (see `json_response_is`), printing the status as
/// `status_text` does.
pub fn json_response(url: &str, status: u16, parsed: Result<Json, String>) -> (r: Result<FetchedJson, CliError>)
    requires
        100 <= status <= 999,
    ensures
        json_response_is(
            url@,
            status,
            status_text(status, status_reason(status)),
            match parsed {
                Ok(v) => Ok(json_model(v)),
                Err(e) => Err(e@),
            },
            r,
        ),
{
    let printed = http_status_text(status);
    json_response_from(url, status, printed.as_str(), parsed)
}

/// The retryable error of a request to `url` that could not be sent.
pub fn connection_failed(url: &str, detail: &str) -> (r: CliError)
    ensures
        error_is(
            r,
            "connection_failed"@,
            "Could not connect to "@ + url@ + "; start the service with `faus serve` or scripts/local/run.sh: "@
                + detail@,
            None,
            None,
            Some(true),
        ),
{
    let mut m = chars_of("Could not connect to ");
    append_str(&mut m, url);
    append_str(&mut m, "; start the service with `faus serve` or scripts/local/run.sh: ");
    append_str(&mut m, detail);
    CliError::new("connection_failed", string_of(&m).as_str()).with_retryable(true)
}

/// The retryable error of a response from `url` whose body could not be read.
pub fn read_failed(url: &str, detail: &str) -> (r: CliError)
    ensures
        error_is(
            r,
            "connection_failed"@,
            "Failed to read response from "@ + url@ + ": "@ + detail@,
            None,
            None,
            Some(true),
        ),
{
    let mut m = chars_of("Failed to read response from ");
    append_str(&mut m, url);
    append_str(&mut m, ": ");
    append_str(&mut m, detail);
    CliError::new("connection_failed", string_of(&m).as_str()).with_retryable(true)
}

/// A response from `url` that must be a JSON object.
pub fn require_json_object(url: &str, fetched: FetchedJson) -> (r: Result<FetchedJson, CliError>)
    ensures
        json_model(fetched.value) is Object ==> r == Ok::<FetchedJson, CliError>(fetched),
        !(json_model(fetched.value) is Object) ==> (r matches Err(e) && error_is(
            e,
            "invalid_response"@,
            url@ + " did not return a JSON object"@,
            None,
            None,
            None,
        )),
{
    match fetched.value {
        Json::Object(_) => Ok(fetched),
        _ => {
            let mut m = chars_of(url);
            append_str(&mut m, " did not return a JSON object");
            Err(CliError::new("invalid_response", string_of(&m).as_str()))
        },
    }
}


/// What a URL becomes once the name/value pairs are appended to its query, form-encoded;
/// or the text of the error when the URL does not parse.
pub uninterp spec fn url_query_outcome(url: Seq<char>, pairs: Seq<(Seq<char>, Seq<char>)>) -> Result<Seq<char>, Seq<char>>;

/// Parses `url` with `reqwest::Url::parse`, appends the pairs through `query_pairs_mut`
/// (form-urlencoded, as `form_urlencoded::Serializer::extend_pairs` does) and gives back the
/// serialization. The encoding is not restated: the result is `url_query_outcome` of the
/// arguments.
#[verifier::external_body]
fn url_with_query(url: &str, pairs: &Vec<(String, String)>) -> (r: Result<String, String>)
    ensures
        match r {
            Ok(s) => url_query_outcome(url@, pair_views(pairs@)) == Ok::<Seq<char>, Seq<char>>(s@),
            Err(e) => url_query_outcome(url@, pair_views(pairs@)) == Err::<Seq<char>, Seq<char>>(e@),
        },
{
    match reqwest::Url::parse(url) {
        Ok(mut parsed) => {
            parsed.query_pairs_mut().extend_pairs(pairs.iter());
            Ok(parsed.as_str().to_string())
        },
        Err(error) => Err(error.to_string()),
    }
}

/// The given filters, in order, as name/value pairs.
pub open spec fn given_pairs(filters: Seq<(Seq<char>, Option<String>)>) -> Seq<(Seq<char>, Seq<char>)>
    decreases filters.len(),
{
    if filters.len() == 0 {
        seq![]
    } else {
        let rest = given_pairs(filters.drop_last());
        match filters.last().1 {
            Some(v) => rest.push((filters.last().0, v@)),
            None => rest,
        }
    }
}

/// `r` is the request URL that carries `pairs` in its query, given what the URL builder
/// made of it.
pub open spec fn query_request_is(url: Seq<char>, outcome: Result<Seq<char>, Seq<char>>, r: Result<AppRequest, CliError>) -> bool {
    match outcome {
        Ok(u) => r matches Ok(req) && req.url@ == u,
        Err(e) => r matches Err(x) && error_is(
            x,
            "invalid_base_url"@,
            "Could not build request URL `"@ + url + "`: "@ + e,
            None,
            None,
            None,
        ),
    }
}

/// The request for `path` with the given filters added to its query, form-encoded.
pub fn request_with_query(base: &ResolvedBaseUrl, path: &str, filters: &Vec<(&str, Option<String>)>) -> (r: Result<
    AppRequest,
    CliError,
>)
    ensures
        query_request_is(
            base.base_url@ + path@,
            url_query_outcome(
                base.base_url@ + path@,
                given_pairs(filters@.map_values(|f: (&str, Option<String>)| (f.0@, f.1))),
            ),
            r,
        ),
{
    let request = base.request(path);
    let ghost fs = filters@.map_values(|f: (&str, Option<String>)| (f.0@, f.1));
    let mut pairs: Vec<(String, String)> = Vec::new();
    let mut i: usize = 0;
    while i < filters.len()
        invariant
            i <= filters.len(),
            fs == filters@.map_values(|f: (&str, Option<String>)| (f.0@, f.1)),
            pair_views(pairs@) == given_pairs(fs.take(i as int)),
        decreases filters.len() - i,
    {
        let ghost before = pairs@;
        assert(fs.take(i + 1).drop_last() =~= fs.take(i as int));
        match &filters[i].1 {
            Some(v) => {
                pairs.push((filters[i].0.to_owned(), v.clone()));
                assert(pair_views(pairs@) =~= pair_views(before).push((filters@[i as int].0@, v@)));
            },
            None => {},
        }
        i += 1;
    }
    assert(fs.take(filters.len() as int) =~= fs);
    match url_with_query(request.url.as_str(), &pairs) {
        Ok(u) => Ok(AppRequest { url: u }),
        Err(e) => {
            let mut m = chars_of("Could not build request URL `");
            append_str(&mut m, request.url.as_str());
            append_str(&mut m, "`: ");
            append_str(&mut m, e.as_str());
            Err(CliError::new("invalid_base_url", string_of(&m).as_str()))
        },
    }
}

/// The body of a `multipart/form-data` request with one file part: the part named `field`,
/// carrying `filename` and `content` as `application/octet-stream`, between the boundary
/// lines.
pub open spec fn multipart_file_bytes(boundary: &str, field: &str, filename: &str, content: Seq<u8>) -> Seq<u8> {
    "--".spec_bytes() + boundary.spec_bytes() + "\r\nContent-Disposition: form-data; name=\"".spec_bytes()
        + field.spec_bytes() + "\"; filename=\"".spec_bytes() + filename.spec_bytes()
        + "\"\r\nContent-Type: application/octet-stream\r\n\r\n".spec_bytes() + content + "\r\n--".spec_bytes()
        + boundary.spec_bytes() + "--\r\n".spec_bytes()
}

fn push_bytes(v: &mut Vec<u8>, s: &[u8])
    ensures
        final(v)@ == old(v)@ + s@,
{
    let mut i: usize = 0;
    while i < s.len()
        invariant
            i <= s@.len(),
            v@ == old(v)@ + s@.take(i as int),
        decreases s.len() - i,
    {
        v.push(s[i]);
        i += 1;
        assert(v@ =~= old(v)@ + s@.take(i as int));
    }
    assert(s@.take(s@.len() as int) =~= s@);
}

/// The body of an upload of one file (see `multipart_file_bytes`).
pub fn multipart_file_body(boundary: &str, field: &str, filename: &str, content: &[u8]) -> (r: Vec<u8>)
    ensures
        r@ == multipart_file_bytes(boundary, field, filename, content@),
{
    let mut body: Vec<u8> = Vec::new();
    push_bytes(&mut body, "--".as_bytes());
    push_bytes(&mut body, boundary.as_bytes());
    push_bytes(&mut body, "\r\nContent-Disposition: form-data; name=\"".as_bytes());
    push_bytes(&mut body, field.as_bytes());
    push_bytes(&mut body, "\"; filename=\"".as_bytes());
    push_bytes(&mut body, filename.as_bytes());
    push_bytes(&mut body, "\"\r\nContent-Type: application/octet-stream\r\n\r\n".as_bytes());
    push_bytes(&mut body, content);
    push_bytes(&mut body, "\r\n--".as_bytes());
    push_bytes(&mut body, boundary.as_bytes());
    push_bytes(&mut body, "--\r\n".as_bytes());
    assert(body@ =~= multipart_file_bytes(boundary, field, filename, content@));
    body
}

/// The content type of such a body.
pub fn multipart_content_type(boundary: &str) -> (r: String)
    ensures
        r@ == "multipart/form-data; boundary="@ + boundary@,
{
    let mut m = chars_of("multipart/form-data; boundary=");
    append_str(&mut m, boundary);
    string_of(&m)
}

} // verus!
