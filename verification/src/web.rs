use vstd::prelude::*;
use crate::cli_error::{error_is, CliError};
use crate::client::{FetchedText, ResolvedBaseUrl};
use crate::json::{empty_members, json_model, json_string, json_u64, pairs_insert, put_member, Json, JsonV};
use crate::serve::ProcessEnv;
use crate::text::{append_str, chars_eq, chars_of, decimal, decimal_chars, starts_with, starts_with_chars, string_of};

verus! {

/// Whether `faus web` should start the local runtime itself: only when it was aiming at the
/// default address and could not connect.
pub open spec fn starts_default_runtime(source: Seq<char>, code: Seq<char>) -> bool {
    source == "default"@ && code == "connection_failed"@
}

/// See `starts_default_runtime`.
pub fn should_start_default_runtime(base: &ResolvedBaseUrl, error: &CliError) -> (r: bool)
    ensures
        r == starts_default_runtime(base.source@, error.code@),
{
    let source = chars_of(base.source.as_str());
    let code = chars_of(error.code.as_str());
    chars_eq(&source, &chars_of("default")) && chars_eq(&code, &chars_of("connection_failed"))
}

/// The content type of a response, or the empty string.
pub open spec fn content_type_of(web: FetchedText) -> Seq<char> {
    match web.content_type {
        Some(c) => c@,
        None => ""@,
    }
}

/// `r` is the verdict on the Web entry page fetched from `url`: a 503 means the assets are
/// not built, any other non-2xx status and any non-HTML content type are invalid responses.
pub open spec fn web_response_verdict(url: Seq<char>, web: FetchedText, r: Result<(), CliError>) -> bool {
    if web.status == 503 {
        r matches Err(e) && error_is(
            e,
            "web_assets_missing"@,
            url + " reports that Web assets are not built"@,
            None,
            Some(
                JsonV::Object(
                    pairs_insert(
                        pairs_insert(
                            pairs_insert(seq![], "url"@, JsonV::Str(url)),
                            "http_status"@,
                            JsonV::Number(decimal(web.status as nat)),
                        ),
                        "body"@,
                        JsonV::Str(web.body@),
                    ),
                ),
            ),
            None,
        )
    } else if !(200 <= web.status < 300) {
        r matches Err(e) && error_is(
            e,
            "invalid_response"@,
            url + " returned HTTP "@ + decimal(web.status as nat) + " for the Web entry"@,
            None,
            Some(
                JsonV::Object(
                    pairs_insert(
                        pairs_insert(seq![], "url"@, JsonV::Str(url)),
                        "http_status"@,
                        JsonV::Number(decimal(web.status as nat)),
                    ),
                ),
            ),
            None,
        )
    } else if !starts_with(content_type_of(web), "text/html"@) {
        r matches Err(e) && error_is(
            e,
            "invalid_response"@,
            url + " did not return HTML for the Web entry"@,
            None,
            Some(
                JsonV::Object(
                    pairs_insert(
                        pairs_insert(
                            pairs_insert(seq![], "url"@, JsonV::Str(url)),
                            "http_status"@,
                            JsonV::Number(decimal(web.status as nat)),
                        ),
                        "content_type"@,
                        JsonV::Str(content_type_of(web)),
                    ),
                ),
            ),
            None,
        )
    } else {
        r is Ok
    }
}

/// Checks the Web entry page (see `web_response_verdict`).
pub fn validate_web_response(url: &str, web: &FetchedText) -> (r: Result<(), CliError>)
    ensures
        web_response_verdict(url@, *web, r),
{
    if web.status == 503 {
        let mut m = chars_of(url);
        append_str(&mut m, " reports that Web assets are not built");
        let mut d = empty_members();
        put_member(&mut d, "url", json_string(url));
        put_member(&mut d, "http_status", json_u64(web.status as u64));
        put_member(&mut d, "body", Json::Str(web.body.clone()));
        return Err(CliError::new("web_assets_missing", string_of(&m).as_str()).with_details(Json::Object(d)));
    }
    if !(200 <= web.status && web.status < 300) {
        let mut m = chars_of(url);
        append_str(&mut m, " returned HTTP ");
        let n = decimal_chars(web.status as u64);
        crate::text::append_chars(&mut m, &n);
        append_str(&mut m, " for the Web entry");
        let mut d = empty_members();
        put_member(&mut d, "url", json_string(url));
        put_member(&mut d, "http_status", json_u64(web.status as u64));
        return Err(CliError::new("invalid_response", string_of(&m).as_str()).with_details(Json::Object(d)));
    }
    let content_type = match &web.content_type {
        Some(c) => c.clone(),
        None => "".to_owned(),
    };
    let ct = chars_of(content_type.as_str());
    if !starts_with_chars(&ct, &chars_of("text/html")) {
        let mut m = chars_of(url);
        append_str(&mut m, " did not return HTML for the Web entry");
        let mut d = empty_members();
        put_member(&mut d, "url", json_string(url));
        put_member(&mut d, "http_status", json_u64(web.status as u64));
        put_member(&mut d, "content_type", Json::Str(content_type));
        return Err(CliError::new("invalid_response", string_of(&m).as_str()).with_details(Json::Object(d)));
    }
    Ok(())
}

/// The browser outcome that `FAUS_TEST_BROWSER_OPEN` imposes (`ok` opens, `fail` does not),
/// or none, in which case a real browser is asked.
pub open spec fn browser_override_of(env: ProcessEnv) -> Option<bool> {
    match env.var("FAUS_TEST_BROWSER_OPEN"@) {
        Some(v) => if v == "ok"@ {
            Some(true)
        } else if v == "fail"@ {
            Some(false)
        } else {
            None
        },
        None => None,
    }
}

/// See `browser_override_of`.
pub fn browser_override(env: &ProcessEnv) -> (r: Option<bool>)
    ensures
        r == browser_override_of(*env),
{
    match env.get("FAUS_TEST_BROWSER_OPEN") {
        Some(v) => {
            let c = chars_of(v.as_str());
            if chars_eq(&c, &chars_of("ok")) {
                Some(true)
            } else if chars_eq(&c, &chars_of("fail")) {
                Some(false)
            } else {
                None
            }
        },
        None => None,
    }
}

/// What `faus web` found: the URLs it checked and their statuses.
#[derive(Debug)]
pub struct WebProbe {
    pub health_url: String,
    pub web_url: String,
    pub health_status: u16,
    pub web_status: u16,
}

/// The JSON output of `faus web`.
pub open spec fn web_output_json(
    base_url: Seq<char>,
    base_url_source: Seq<char>,
    probe: WebProbe,
    opened: bool,
    server_started: bool,
    debug: bool,
) -> JsonV {
    let data = pairs_insert(
        pairs_insert(
            pairs_insert(
                pairs_insert(seq![], "base_url"@, JsonV::Str(base_url)),
                "web_url"@,
                JsonV::Str(probe.web_url@),
            ),
            "opened"@,
            JsonV::Bool(opened),
        ),
        "server_started"@,
        JsonV::Bool(server_started),
    );
    let top = pairs_insert(
        pairs_insert(seq![], "status"@, JsonV::Str("ok"@)),
        "data"@,
        JsonV::Object(data),
    );
    if debug {
        let d = pairs_insert(
            pairs_insert(
                pairs_insert(
                    pairs_insert(
                        pairs_insert(
                            pairs_insert(seq![], "base_url_source"@, JsonV::Str(base_url_source)),
                            "health_url"@,
                            JsonV::Str(probe.health_url@),
                        ),
                        "web_url"@,
                        JsonV::Str(probe.web_url@),
                    ),
                    "health_status"@,
                    JsonV::Number(decimal(probe.health_status as nat)),
                ),
                "web_status"@,
                JsonV::Number(decimal(probe.web_status as nat)),
            ),
            "startup"@,
            JsonV::Str(if server_started { "started_runtime"@ } else { "connected"@ }),
        );
        JsonV::Object(pairs_insert(top, "debug"@, JsonV::Object(d)))
    } else {
        JsonV::Object(top)
    }
}

/// The JSON output of `faus web` (see `web_output_json`).
pub fn web_output_payload(
    base_url: &str,
    base_url_source: &str,
    probe: &WebProbe,
    opened: bool,
    server_started: bool,
    debug: bool,
) -> (r: Json)
    ensures
        json_model(r) == web_output_json(base_url@, base_url_source@, *probe, opened, server_started, debug),
{
    let mut data = empty_members();
    put_member(&mut data, "base_url", json_string(base_url));
    put_member(&mut data, "web_url", Json::Str(probe.web_url.clone()));
    put_member(&mut data, "opened", Json::Bool(opened));
    put_member(&mut data, "server_started", Json::Bool(server_started));
    let mut top = empty_members();
    put_member(&mut top, "status", json_string("ok"));
    put_member(&mut top, "data", Json::Object(data));
    if debug {
        let mut d = empty_members();
        put_member(&mut d, "base_url_source", json_string(base_url_source));
        put_member(&mut d, "health_url", Json::Str(probe.health_url.clone()));
        put_member(&mut d, "web_url", Json::Str(probe.web_url.clone()));
        put_member(&mut d, "health_status", json_u64(probe.health_status as u64));
        put_member(&mut d, "web_status", json_u64(probe.web_status as u64));
        let startup = if server_started { "started_runtime" } else { "connected" };
        put_member(&mut d, "startup", json_string(startup));
        put_member(&mut top, "debug", Json::Object(d));
    }
    Json::Object(top)
}

/// The lines that `faus web` prints for a person.
pub open spec fn web_human_lines(probe: WebProbe, opened: bool, server_started: bool, debug: bool) -> Seq<Seq<char>> {
    let start: Seq<Seq<char>> = if server_started { seq!["Started local runtime."@] } else { seq![] };
    let url = start.push("Web URL: "@ + probe.web_url@);
    let browser = url.push(
        if opened {
            "Opened browser."@
        } else {
            "Could not open a browser automatically; open this URL manually: "@ + probe.web_url@
        },
    );
    if debug {
        browser.push("Health URL: "@ + probe.health_url@).push(
            "Health HTTP status: "@ + decimal(probe.health_status as nat),
        ).push("Web HTTP status: "@ + decimal(probe.web_status as nat))
    } else {
        browser
    }
}

fn line_of(prefix: &str, value: &str) -> (r: String)
    ensures
        r@ == prefix@ + value@,
{
    let mut m = chars_of(prefix);
    append_str(&mut m, value);
    string_of(&m)
}

fn number_line(prefix: &str, n: u16) -> (r: String)
    ensures
        r@ == prefix@ + decimal(n as nat),
{
    let mut m = chars_of(prefix);
    let d = decimal_chars(n as u64);
    crate::text::append_chars(&mut m, &d);
    string_of(&m)
}

/// The lines that `faus web` prints for a person (see `web_human_lines`).
pub fn web_human_output(probe: &WebProbe, opened: bool, server_started: bool, debug: bool) -> (r: Vec<String>)
    ensures
        r@.map_values(|s: String| s@) == web_human_lines(*probe, opened, server_started, debug),
{
    let mut lines: Vec<String> = Vec::new();
    if server_started {
        lines.push("Started local runtime.".to_owned());
    }
    lines.push(line_of("Web URL: ", probe.web_url.as_str()));
    if opened {
        lines.push("Opened browser.".to_owned());
    } else {
        lines.push(line_of("Could not open a browser automatically; open this URL manually: ", probe.web_url.as_str()));
    }
    if debug {
        lines.push(line_of("Health URL: ", probe.health_url.as_str()));
        lines.push(number_line("Health HTTP status: ", probe.health_status));
        lines.push(number_line("Web HTTP status: ", probe.web_status));
    }
    assert(lines@.map_values(|s: String| s@) =~= web_human_lines(*probe, opened, server_started, debug));
    lines
}

} // verus!
