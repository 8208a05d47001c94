use fauni_search::client::{
    base_url_from_parse, connection_failed, error_from_envelope, http_status_text, json_response,
    json_response_from, request_with_query, require_json_object, resolve_base_url, FetchedJson,
    FetchedText, ParsedUrl, ResolvedBaseUrl,
};
use fauni_search::cli_error::CliError;
use fauni_search::envelope::HttpMethod;
use fauni_search::import::{absolute_paths, import_from_envelope, import_human_output, import_request_path};
use fauni_search::jobs::{jobs_human_output, jobs_output_payload, jobs_request, jobs_response, JobsCommand};
use fauni_search::json::Json;
use fauni_search::library::{library_human_output, library_request, library_response, LibraryCommand};
use fauni_search::queries::{query_list_path, queries_human_output, queries_response, ListQueriesArgs, QueriesCommand};
use fauni_search::serve::ProcessEnv;
use fauni_search::sources::{
    action_summary, sources_request, sources_response, source_root_summary, RootsCommand,
    SourceRootRuleArgs, SourcesCommand,
};
use fauni_search::status::{component_summary, providers_summary, runtime_status_from_envelope, status_urls};
use fauni_search::web::{browser_override, should_start_default_runtime, validate_web_response, web_human_output, WebProbe};

fn to_json(value: &serde_json::Value) -> Json {
    match value {
        serde_json::Value::Null => Json::Null,
        serde_json::Value::Bool(b) => Json::Bool(*b),
        serde_json::Value::Number(n) => Json::Number(n.to_string()),
        serde_json::Value::String(s) => Json::Str(s.clone()),
        serde_json::Value::Array(items) => Json::Array(items.iter().map(to_json).collect()),
        serde_json::Value::Object(map) => {
            Json::Object(map.iter().map(|(k, v)| (k.clone(), to_json(v))).collect())
        }
    }
}

fn from_json(value: &Json) -> serde_json::Value {
    match value {
        Json::Null => serde_json::Value::Null,
        Json::Bool(b) => serde_json::Value::Bool(*b),
        Json::Number(n) => serde_json::from_str(n).unwrap(),
        Json::Str(s) => serde_json::Value::String(s.clone()),
        Json::Array(items) => serde_json::Value::Array(items.iter().map(from_json).collect()),
        Json::Object(members) => serde_json::Value::Object(
            members.iter().map(|(k, v)| (k.clone(), from_json(v))).collect(),
        ),
    }
}

fn parse(text: &str) -> Json {
    to_json(&serde_json::from_str(text).unwrap())
}

fn value(text: &str) -> serde_json::Value {
    serde_json::from_str(text).unwrap()
}

fn base(source: &str) -> ResolvedBaseUrl {
    ResolvedBaseUrl {
        base_url: "http://127.0.0.1:53210".to_string(),
        source: source.to_string(),
    }
}

fn fetched(status: u16, text: &str) -> FetchedJson {
    FetchedJson { status, value: parse(text) }
}

#[test]
fn default_connection_failure_starts_runtime() {
    let base = base("default");
    let error = CliError::new("connection_failed", "offline");

    assert!(should_start_default_runtime(&base, &error));
}

#[test]
fn explicit_connection_failure_does_not_start_runtime() {
    let base = base("flag");
    let error = CliError::new("connection_failed", "offline");

    assert!(!should_start_default_runtime(&base, &error));
}

#[test]
fn non_connection_error_does_not_start_runtime() {
    let base = base("default");
    let error = CliError::new("invalid_response", "bad");

    assert!(!should_start_default_runtime(&base, &error));
}

#[test]
fn base_url_sources_and_normalization() {
    let env = ProcessEnv::new();
    let resolved = resolve_base_url(None, &env).unwrap();
    assert_eq!(resolved.base_url, "http://127.0.0.1:53210");
    assert_eq!(resolved.source, "default");

    let mut env = ProcessEnv::new();
    env.set("FAUS_BASE_URL", "  http://localhost:9000/api/  ");
    let resolved = resolve_base_url(None, &env).unwrap();
    assert_eq!(resolved.base_url, "http://localhost:9000/api");
    assert_eq!(resolved.source, "env");

    let resolved = resolve_base_url(Some("https://example.com".to_string()), &env).unwrap();
    assert_eq!(resolved.base_url, "https://example.com");
    assert_eq!(resolved.source, "flag");
}

#[test]
fn base_url_errors() {
    let env = ProcessEnv::new();
    let error = resolve_base_url(Some("ftp://example.com".to_string()), &env).unwrap_err();
    assert_eq!(error.code, "invalid_base_url");
    assert_eq!(error.message, "Base URL must be an HTTP or HTTPS URL: `ftp://example.com`");

    let error = resolve_base_url(Some("http://x/?q=1".to_string()), &env).unwrap_err();
    assert_eq!(error.message, "Base URL must not include query or fragment: `http://x/?q=1`");

    let error = resolve_base_url(Some("not a url".to_string()), &env).unwrap_err();
    assert!(error.message.starts_with("Invalid base URL `not a url`: "));

    let parsed = ParsedUrl {
        scheme: "http".to_string(),
        host: None,
        query: None,
        fragment: None,
        serialization: "http:".to_string(),
    };
    let error = base_url_from_parse("http:", "flag", Ok(parsed)).unwrap_err();
    assert_eq!(error.message, "Base URL must be an HTTP or HTTPS URL: `http:`");
}

#[test]
fn http_status_texts_and_responses() {
    assert_eq!(http_status_text(200), "200 OK");
    assert_eq!(http_status_text(404), "404 Not Found");
    assert_eq!(http_status_text(599), "599 <unknown status code>");

    let ok = json_response("http://x/health", 200, Ok(parse(r#"{"status":"ok"}"#))).unwrap();
    assert_eq!(ok.status, 200);

    let error = json_response("http://x/a", 404, Ok(parse(r#"{"detail":"nope"}"#))).unwrap_err();
    assert_eq!(error.code, "invalid_response");
    assert_eq!(error.message, "http://x/a returned HTTP 404 Not Found without an ErrorEnvelope");
    assert_eq!(from_json(error.details.as_ref().unwrap()), value(r#"{"http_status": 404}"#));

    let error = json_response_from(
        "http://x/a",
        409,
        "409 Conflict",
        Ok(parse(r#"{"error":{"code":"not_ready","message":"wait","retryable":true,"details":{"a":1}}}"#)),
    )
    .unwrap_err();
    assert_eq!(error.code, "not_ready");
    assert_eq!(error.message, "wait");
    assert_eq!(error.retryable, Some(true));
    assert_eq!(from_json(error.details.as_ref().unwrap()), value(r#"{"a": 1}"#));

    let error = json_response_from("http://x/a", 200, "200 OK", Err("EOF".to_string())).unwrap_err();
    assert_eq!(error.message, "http://x/a did not return JSON: EOF");

    assert!(error_from_envelope(&parse(r#"{"error":{"code":"x"}}"#)).is_none());

    let error = connection_failed("http://x", "refused");
    assert_eq!(error.code, "connection_failed");
    assert_eq!(error.retryable, Some(true));

    let error = require_json_object("http://x/health", fetched(200, "[1]")).unwrap_err();
    assert_eq!(error.message, "http://x/health did not return a JSON object");
}

#[test]
fn query_filters_are_form_encoded() {
    let b = base("flag");
    let filters = vec![("source_type", Some("pdf doc".to_string())), ("status", None)];
    let request = request_with_query(&b, "/libraries/demo/sources", &filters).unwrap();
    assert_eq!(
        request.url,
        "http://127.0.0.1:53210/libraries/demo/sources?source_type=pdf+doc"
    );
}

#[test]
fn web_entry_validation() {
    let ok = FetchedText { status: 200, content_type: Some("text/html; charset=utf-8".to_string()), body: String::new() };
    assert!(validate_web_response("http://x/", &ok).is_ok());

    let missing = FetchedText { status: 503, content_type: None, body: "no assets".to_string() };
    let error = validate_web_response("http://x/", &missing).unwrap_err();
    assert_eq!(error.code, "web_assets_missing");
    assert_eq!(
        from_json(error.details.as_ref().unwrap()),
        value(r#"{"url": "http://x/", "http_status": 503, "body": "no assets"}"#)
    );

    let bad = FetchedText { status: 404, content_type: None, body: String::new() };
    let error = validate_web_response("http://x/", &bad).unwrap_err();
    assert_eq!(error.message, "http://x/ returned HTTP 404 for the Web entry");

    let json = FetchedText { status: 200, content_type: Some("application/json".to_string()), body: String::new() };
    let error = validate_web_response("http://x/", &json).unwrap_err();
    assert_eq!(error.message, "http://x/ did not return HTML for the Web entry");

    let mut env = ProcessEnv::new();
    assert_eq!(browser_override(&env), None);
    env.set("FAUS_TEST_BROWSER_OPEN", "fail");
    assert_eq!(browser_override(&env), Some(false));

    let probe = WebProbe {
        health_url: "http://x/health".to_string(),
        web_url: "http://x".to_string(),
        health_status: 200,
        web_status: 200,
    };
    assert_eq!(
        web_human_output(&probe, false, true, false),
        vec![
            "Started local runtime.".to_string(),
            "Web URL: http://x".to_string(),
            "Could not open a browser automatically; open this URL manually: http://x".to_string(),
        ]
    );
}

#[test]
fn jobs_requests_and_summaries() {
    let plan = jobs_request(&JobsCommand::List { library_id: Some("demo".to_string()) });
    assert_eq!(plan.path, "/jobs?library_id=demo");
    let plan = jobs_request(&JobsCommand::Cancel { job_id: "job_1".to_string() });
    assert_eq!(plan.method, HttpMethod::Post);
    assert_eq!(plan.path, "/jobs/job_1/cancel");

    let command = JobsCommand::List { library_id: None };
    let response = jobs_response(
        &command,
        "http://x/jobs",
        &fetched(
            200,
            r#"{"data":{"jobs":[{"job_id":"job_1","status":"running","phase":"index","kind":"import","library_id":"demo","progress":{"completed":2,"total":5,"unit":"files"},"cancelable":true,"current_attempt":{"attempt":1,"status":"running","summary":"half"}}]}}"#,
        ),
    )
    .unwrap();
    assert_eq!(
        jobs_human_output(&response),
        vec!["job_1\trunning\tphase=index\tkind=import\tlibrary=demo\tprogress=2/5 files\tcancelable=true\tretryable=false\tattempt=1:running:half".to_string()]
    );
    assert_eq!(
        from_json(&jobs_output_payload("http://x", "flag", &response, true)),
        value(
            r#"{"status": "ok",
                "data": {"base_url": "http://x", "jobs": [{"job_id":"job_1","status":"running","phase":"index","kind":"import","library_id":"demo","progress":{"completed":2,"total":5,"unit":"files"},"cancelable":true,"current_attempt":{"attempt":1,"status":"running","summary":"half"}}]},
                "debug": {"base_url_source": "flag", "request_url": "http://x/jobs", "http_status": 200}}"#
        )
    );

    let empty = jobs_response(&command, "http://x/jobs", &fetched(200, r#"{"data":{"jobs":[]}}"#)).unwrap();
    assert_eq!(jobs_human_output(&empty), vec!["No jobs.".to_string()]);

    let error = jobs_response(&command, "http://x/jobs", &fetched(200, r#"{"data":{}}"#)).unwrap_err();
    assert_eq!(error.message, "http://x/jobs did not return a SuccessEnvelope data.jobs array");

    let show = JobsCommand::Show { job_id: "j".to_string() };
    let job = jobs_response(&show, "http://x/jobs/j", &fetched(200, r#"{"data":{}}"#)).unwrap();
    assert_eq!(
        jobs_human_output(&job),
        vec!["unknown\tunknown\tphase=unknown\tkind=unknown\tlibrary=unknown\tprogress=0/0 unit\tcancelable=false\tretryable=false\tattempt=0:unknown".to_string()]
    );
}

#[test]
fn library_requests_and_summaries() {
    let plan = library_request(&LibraryCommand::Create { display_name: "Research".to_string(), library_id: None });
    assert_eq!(plan.method, HttpMethod::Post);
    assert_eq!(from_json(plan.body.as_ref().unwrap()), value(r#"{"display_name": "Research"}"#));
    let plan = library_request(&LibraryCommand::Rename { library_id: "demo".to_string(), display_name: "New".to_string() });
    assert_eq!(plan.method, HttpMethod::Patch);
    assert_eq!(plan.path, "/libraries/demo");

    let response = library_response(
        &LibraryCommand::List,
        "http://x/libraries",
        &fetched(200, r#"{"data":{"libraries":[{"id":"demo","lifecycle_state":"active","display_name":"Demo","counts":{"accepted_items":3,"pending_jobs":1}}]}}"#),
    )
    .unwrap();
    assert_eq!(
        library_human_output(&response),
        vec!["demo\tactive\tDemo\taccepted=3\tpending=1".to_string()]
    );
}

#[test]
fn import_paths_checks_and_lines() {
    assert_eq!(import_request_path("demo"), "/libraries/demo/imports");
    assert_eq!(
        absolute_paths(&vec!["a.pdf".to_string(), "/b.pdf".to_string()], "/home/u"),
        vec!["/home/u/a.pdf".to_string(), "/b.pdf".to_string()]
    );
    let error = import_from_envelope(&parse(r#"{"data":[]}"#), "http://x/i").unwrap_err();
    assert_eq!(error.message, "http://x/i did not return a SuccessEnvelope data object with accepted and rejected arrays");
    let error = import_from_envelope(&parse(r#"{"data":{"accepted":[]}}"#), "http://x/i").unwrap_err();
    assert_eq!(error.message, "http://x/i did not return a SuccessEnvelope data.accepted and data.rejected arrays");
    let import = import_from_envelope(
        &parse(r#"{"data":{"accepted":[1,2],"rejected":[{"original_path":"/x","reason_code":"unsupported","message":"no"}],"job_handle":"job_9"}}"#),
        "http://x/i",
    )
    .unwrap();
    assert_eq!(
        import_human_output(&import),
        vec![
            "accepted=2\trejected=1\tjob=job_9".to_string(),
            "rejected\t/x\tunsupported\tno".to_string(),
        ]
    );
}

#[test]
fn status_summaries() {
    let (health, runtime) = status_urls("http://x");
    assert_eq!(health, "http://x/health");
    assert_eq!(runtime, "http://x/runtime/status");
    assert_eq!(component_summary(None), "unknown");
    assert_eq!(component_summary(Some(&parse(r#"{"status":"ok","message":"  "}"#))), "ok");
    assert_eq!(component_summary(Some(&parse(r#"{"status":"down","message":"refused"}"#))), "down - refused");
    assert_eq!(providers_summary(&parse(r#"{}"#)), "unknown");
    assert_eq!(providers_summary(&parse(r#"{"providers":[]}"#)), "none");
    assert_eq!(
        providers_summary(&parse(r#"{"providers":[{"provider_id":"a","status":"ready"},{"status":"off"}]}"#)),
        "a=ready, unknown=off"
    );
    let error = runtime_status_from_envelope(&parse(r#"{"data":1}"#), "http://x/runtime/status").unwrap_err();
    assert_eq!(error.message, "http://x/runtime/status did not return a SuccessEnvelope data object");
    assert!(error.hint.is_none());
}

#[test]
fn query_history_paths_and_lines() {
    let args = ListQueriesArgs {
        limit: Some(10),
        cursor: None,
        query_kind: Some("text".to_string()),
        source: None,
        status: Some("ok".to_string()),
    };
    assert_eq!(query_list_path(&args), "/queries/history?limit=10&query_kind=text&status=ok");
    let none = ListQueriesArgs { limit: None, cursor: None, query_kind: None, source: None, status: None };
    assert_eq!(query_list_path(&none), "/queries/history");

    let response = queries_response(
        &QueriesCommand::List(none),
        "http://x/q",
        &fetched(200, r#"{"data":{"items":[{"query_id":"q1","query_kind":"text"}],"next_cursor":"c2"}}"#),
    )
    .unwrap();
    assert_eq!(
        queries_human_output(&response),
        vec!["queries=1".to_string(), "q1\ttext\t-\t-\t-".to_string(), "next_cursor=c2".to_string()]
    );
    let deleted = queries_response(
        &QueriesCommand::Clear,
        "http://x/q",
        &fetched(200, r#"{"data":{"deleted":4}}"#),
    )
    .unwrap();
    assert_eq!(
        queries_human_output(&deleted),
        vec!["deleted=4".to_string(), "query_assets_deleted=0".to_string()]
    );
}

#[test]
fn sources_requests_and_summaries() {
    let b = base("flag");
    let rules = SourceRootRuleArgs {
        include_globs: vec!["**/*.pdf".to_string()],
        exclude_globs: Vec::new(),
        include_extensions: Vec::new(),
    };
    let create = SourcesCommand::Roots(RootsCommand::Create {
        library_id: "demo".to_string(),
        root_path: "docs".to_string(),
        disabled: true,
        rules,
    });
    let request = sources_request(&create, &b, &Ok("/home/u".to_string())).unwrap();
    assert_eq!(request.url, "http://127.0.0.1:53210/libraries/demo/source-roots");
    assert_eq!(
        from_json(request.body.as_ref().unwrap()),
        value(
            r#"{"root_path": "/home/u/docs", "enabled": false,
                "rules": {"include_globs": ["**/*.pdf"], "exclude_globs": [], "include_extensions": []}}"#
        )
    );
    let error = sources_request(&create, &b, &Err("gone".to_string())).unwrap_err();
    assert_eq!(error.code, "current_dir_failed");

    let rescan = SourcesCommand::Rescan { library_id: "demo".to_string(), source_root_id: Some("root_1".to_string()) };
    let request = sources_request(&rescan, &b, &Err("unused".to_string())).unwrap();
    assert_eq!(request.url, "http://127.0.0.1:53210/libraries/demo/source-roots/root_1/rescan");

    let action = sources_response(
        &rescan,
        "http://x/a",
        &fetched(200, r#"{"data":{"accepted":[1],"rejected":[],"job":{"job_id":"job_2","status":"queued"}}}"#),
    )
    .unwrap();
    let summary = match &action.output {
        fauni_search::sources::SourcesOutput::Action { action } => action_summary(action),
        _ => panic!("action expected"),
    };
    assert_eq!(summary, "accepted=1\trejected=0\tjob=job_2\tstatus=queued\tphase=unknown");

    let root = parse(r#"{"source_root_id":"root_1","enabled":true,"status":"ready","watch_state":"idle","coverage_summary":{"observed_file_count":4,"matched_file_count":3},"root_path":"/d"}"#);
    assert_eq!(
        source_root_summary(&root),
        "root_1\tenabled=true\tstatus=ready\twatch=idle\tobserved=4\tmatched=3\tactive=0\tinactive=0\t/d"
    );
    let show = SourcesCommand::Roots(RootsCommand::Show { library_id: "demo".to_string(), source_root_id: "root_1".to_string() });
    let error = sources_response(&show, "http://x/r", &fetched(200, r#"{"data":{"source_root":{}}}"#)).unwrap_err();
    assert_eq!(error.message, "http://x/r did not return a SuccessEnvelope data source root object");
}
