use fauni_search::cli_error::{CliError, CliFailure};
use fauni_search::find::{
    action_job_id, action_rejected, existing_source_root, file_name_of, find_output_payload,
    local_file_uri, partial_wait_step, prepare_status, prepare_wait_step, required_string_field,
    resolve_library_selection, sha256_hex_prefix, text_search_body, wrap_find_results, FindArgs,
    FindCommand, FindInput, FindResponse, FindScope, PrepareContext, RequestTrace,
    SearchRequestScope, WaitDecision, WaitMode, DEFAULT_POLL_INTERVAL_MS, DEFAULT_WAIT_TIMEOUT_MS,
};
use fauni_search::json::Json;

fn to_json(value: &serde_json::Value) -> Json {
    match value {
        serde_json::Value::Null => Json::Null,
        serde_json::Value::Bool(b) => Json::Bool(*b),
        serde_json::Value::Number(n) => Json::Number(n.to_string()),
        serde_json::Value::String(s) => Json::Str(s.clone()),
        serde_json::Value::Array(items) => Json::Array(items.iter().map(to_json).collect()),
        serde_json::Value::Object(map) => {
            Json::Object(map.iter().map(|(k, v)| (k.clone(), to_json(v))).collect())
        }
    }
}

fn from_json(value: &Json) -> serde_json::Value {
    match value {
        Json::Null => serde_json::Value::Null,
        Json::Bool(b) => serde_json::Value::Bool(*b),
        Json::Number(n) => serde_json::from_str(n).unwrap(),
        Json::Str(s) => serde_json::Value::String(s.clone()),
        Json::Array(items) => serde_json::Value::Array(items.iter().map(from_json).collect()),
        Json::Object(members) => serde_json::Value::Object(
            members.iter().map(|(k, v)| (k.clone(), from_json(v))).collect(),
        ),
    }
}

fn parse(text: &str) -> Json {
    to_json(&serde_json::from_str(text).unwrap())
}

fn args() -> FindArgs {
    FindArgs {
        folder: None,
        text: None,
        image: None,
        top_k: None,
        target_content_types: Vec::new(),
        library_id: None,
        all_libraries: false,
        rescan: false,
        wait_mode: None,
        wait_timeout_ms: None,
        poll_interval_ms: None,
    }
}

fn error_of(result: Result<FindCommand, CliError>) -> CliError {
    match result {
        Ok(_) => panic!("expected an error"),
        Err(e) => e,
    }
}

#[test]
fn folder_find_takes_defaults() {
    let mut a = args();
    a.folder = Some("./notes".to_string());
    a.text = Some("quarterly revenue".to_string());
    let command = FindCommand::from_args(a).ok().unwrap();
    match command.scope {
        FindScope::Folder(folder) => {
            assert_eq!(folder.folder_input, "./notes");
            assert_eq!(folder.wait_mode, WaitMode::Complete);
            assert_eq!(folder.wait_timeout_ms, DEFAULT_WAIT_TIMEOUT_MS);
            assert_eq!(folder.poll_interval_ms, DEFAULT_POLL_INTERVAL_MS);
            assert_eq!(folder.wait_timeout_ms, 300_000);
            assert!(!folder.rescan);
        }
        _ => panic!("expected a folder scope"),
    }
    assert!(matches!(command.input, FindInput::Text(ref t) if t == "quarterly revenue"));
}

#[test]
fn find_validation_errors_come_in_order() {
    let mut a = args();
    a.top_k = Some(0);
    let e = error_of(FindCommand::from_args(a));
    assert_eq!((e.code.as_str(), e.message.as_str()), ("validation_failed", "`--top-k` must be greater than 0."));

    let e = error_of(FindCommand::from_args(args()));
    assert_eq!(e.message, "Find query input is required; pass `--text` or `--image`.");

    let mut a = args();
    a.text = Some("x".to_string());
    a.image = Some("q.png".to_string());
    let e = error_of(FindCommand::from_args(a));
    assert_eq!(e.code, "not_supported");
    assert_eq!(e.hint.as_deref(), Some("Use exactly one query input for now."));

    let mut a = args();
    a.text = Some("   ".to_string());
    a.library_id = Some("demo".to_string());
    let e = error_of(FindCommand::from_args(a));
    assert_eq!(e.message, "`--text` must not be empty.");

    let mut a = args();
    a.text = Some("x".to_string());
    a.rescan = true;
    let e = error_of(FindCommand::from_args(a));
    assert_eq!(e.message, "`--rescan` requires a folder prepare workflow.");

    let mut a = args();
    a.text = Some("x".to_string());
    let e = error_of(FindCommand::from_args(a));
    assert_eq!(e.message, "Pass a folder, `--library-id <library_id>`, or `--all-libraries`.");

    let mut a = args();
    a.image = Some("q.png".to_string());
    a.all_libraries = true;
    let e = error_of(FindCommand::from_args(a));
    assert_eq!(e.code, "not_supported");
    assert!(e.message.starts_with("`faus find --all-libraries --image` is not supported"));

    let mut a = args();
    a.text = Some("x".to_string());
    a.folder = Some("/tmp".to_string());
    a.all_libraries = true;
    let e = error_of(FindCommand::from_args(a));
    assert_eq!(e.message, "`<folder>` cannot be combined with `--all-libraries`.");
}

#[test]
fn scope_only_find_selects_library_or_all() {
    let mut a = args();
    a.text = Some("x".to_string());
    a.library_id = Some("demo".to_string());
    let c = FindCommand::from_args(a).ok().unwrap();
    assert!(matches!(c.scope, FindScope::Library { ref library_id } if library_id == "demo"));
    let mut a = args();
    a.text = Some("x".to_string());
    a.all_libraries = true;
    let c = FindCommand::from_args(a).ok().unwrap();
    assert!(matches!(c.scope, FindScope::AllLibraries));
}

#[test]
fn wait_mode_names() {
    assert_eq!(WaitMode::Complete.as_str(), "complete");
    assert_eq!(WaitMode::Partial.as_str(), "partial");
}

#[test]
fn file_uris_are_prefixed_once() {
    assert_eq!(local_file_uri("/tmp/notes"), "file:///tmp/notes");
    assert_eq!(local_file_uri("file:///tmp/notes"), "file:///tmp/notes");
}

#[test]
fn library_selection_derives_from_folder() {
    let s = resolve_library_selection(None, "/tmp/notes");
    assert_eq!(s.library_id, "faus-find-8fcb83ec72a936df");
    assert_eq!(s.display_name, "faus find: notes");
    assert!(s.managed);
    let s = resolve_library_selection(None, "/");
    assert_eq!(s.library_id, "faus-find-8a5edab282632443");
    assert_eq!(s.display_name, "faus find: /");
    let s = resolve_library_selection(Some("demo"), "/tmp/notes");
    assert_eq!((s.library_id.as_str(), s.display_name.as_str(), s.managed), ("demo", "", false));
    assert_eq!(sha256_hex_prefix(b"/srv/data/My Folder", 16), "1c1c817d13fcaf5f");
    assert_eq!(sha256_hex_prefix(b"/tmp/notes", 4), "8fcb");
}

#[test]
fn file_names_follow_path_components() {
    assert_eq!(file_name_of("/a/b/"), Some("b".to_string()));
    assert_eq!(file_name_of("/a/b/."), Some("b".to_string()));
    assert_eq!(file_name_of("/a/.."), None);
    assert_eq!(file_name_of("/"), None);
}

#[test]
fn text_body_carries_common_fields() {
    let mut a = args();
    a.text = Some("cats".to_string());
    a.library_id = Some("demo".to_string());
    a.top_k = Some(5);
    a.target_content_types = vec!["image".to_string()];
    let c = FindCommand::from_args(a).ok().unwrap();
    let body = text_search_body(
        "cats",
        &SearchRequestScope::Library("demo".to_string()),
        Some("file:///tmp"),
        &c,
        true,
    );
    let expected: serde_json::Value = serde_json::from_str(
        r#"{"text":"cats","search_scope":{"kind":"library","library_id":"demo"},
            "filters":{"path_prefix":"file:///tmp"},"top_k":5,"target_content_types":["image"],"debug":true}"#,
    )
    .unwrap();
    assert_eq!(from_json(&body), expected);
}

#[test]
fn find_results_get_locations() {
    let search = parse(r#"{"results":[{"source_id":"s1","asset_id":"a1","score":0.5}]}"#);
    let wrapped = wrap_find_results(&search, Some("lib"), Some("root")).ok().unwrap();
    let expected: serde_json::Value = serde_json::from_str(
        r#"[{"source_id":"s1","asset_id":"a1","score":0.5,
             "locations":[{"library_id":"lib","source_root_id":"root","source_id":"s1","asset_id":"a1"}]}]"#,
    )
    .unwrap();
    assert_eq!(from_json(&wrapped), expected);
    let bad = parse(r#"{"results":[1]}"#);
    let e = wrap_find_results(&bad, None, None).err().unwrap();
    assert_eq!(e.message, "Search results must be JSON objects.");
}

#[test]
fn action_envelope_fields() {
    assert_eq!(action_job_id(&parse(r#"{"job_handle":"j1"}"#)), Some("j1".to_string()));
    assert_eq!(action_job_id(&parse(r#"{"job":{"job_id":"j2"}}"#)), Some("j2".to_string()));
    assert_eq!(action_job_id(&parse(r#"{}"#)), None);
    assert!(action_rejected(&parse(r#"{"rejected":[{}]}"#)));
    assert!(!action_rejected(&parse(r#"{"rejected":[]}"#)));
    let e = required_string_field(&parse(r#"{}"#), "source_root_id").err().unwrap();
    assert_eq!(e.message, "Response object is missing `source_root_id` string.");
}

fn context() -> PrepareContext {
    PrepareContext {
        library_id: "lib".to_string(),
        source_root_id: "root".to_string(),
        action: "refresh".to_string(),
        job_id: "job-1".to_string(),
    }
}

#[test]
fn prepare_wait_decisions() {
    let c = context();
    assert!(matches!(prepare_wait_step(&c, &parse(r#"{"status":"completed"}"#), 0, 10), WaitDecision::Finish));
    assert!(matches!(prepare_wait_step(&c, &parse(r#"{"status":"running"}"#), 5, 10), WaitDecision::Poll));
    match prepare_wait_step(&c, &parse(r#"{"status":"running"}"#), 10, 10) {
        WaitDecision::Fail(e) => {
            assert_eq!(e.code, "wait_timeout");
            assert_eq!(e.message, "Timed out waiting for prepare job `job-1` to complete.");
            assert_eq!(e.retryable, Some(true));
        }
        _ => panic!("expected a timeout"),
    }
    match prepare_wait_step(&c, &parse(r#"{"status":"canceled"}"#), 0, 10) {
        WaitDecision::Fail(e) => {
            assert_eq!(e.code, "prepare_failed");
            assert_eq!(e.message, "Prepare job `job-1` reached terminal status `canceled`.");
            let details = from_json(e.details.as_ref().unwrap());
            assert_eq!(details["last_job"]["status"], "canceled");
            assert_eq!(details["source_root_id"], "root");
        }
        _ => panic!("expected a failure"),
    }
    match prepare_wait_step(&c, &parse(r#"{"status":"weird"}"#), 0, 10) {
        WaitDecision::Fail(e) => assert_eq!(e.message, "Prepare job `job-1` returned unknown status `weird`."),
        _ => panic!("expected a failure"),
    }
}

#[test]
fn partial_wait_decisions() {
    let c = context();
    let running = parse(r#"{"status":"running"}"#);
    assert!(matches!(partial_wait_step(&c, Some(3), &running, 0, 10), WaitDecision::Finish));
    assert!(matches!(partial_wait_step(&c, Some(0), &running, 0, 10), WaitDecision::Poll));
    assert!(matches!(
        partial_wait_step(&c, None, &parse(r#"{"status":"completed"}"#), 0, 10),
        WaitDecision::FinishWithSearchError
    ));
    assert!(matches!(partial_wait_step(&c, None, &parse(r#"{"status":"weird"}"#), 0, 10), WaitDecision::Poll));
    match partial_wait_step(&c, Some(0), &parse(r#"{"status":"failed"}"#), 0, 10) {
        WaitDecision::Fail(e) => assert_eq!(
            e.message,
            "Prepare job `job-1` reached terminal status `failed` before active results were available."
        ),
        _ => panic!("expected a failure"),
    }
    match partial_wait_step(&c, Some(0), &running, 11, 10) {
        WaitDecision::Fail(e) => assert_eq!(
            e.message,
            "Timed out waiting for active results from prepare job `job-1`."
        ),
        _ => panic!("expected a timeout"),
    }
}

#[test]
fn prepare_status_reports_ready_for_completed_jobs() {
    assert_eq!(prepare_status(None), "ready");
    assert_eq!(prepare_status(Some(&parse(r#"{"status":"completed"}"#))), "ready");
    assert_eq!(prepare_status(Some(&parse(r#"{"status":"running"}"#))), "running");
}

#[test]
fn existing_roots_are_found_by_path() {
    let roots = parse(r#"[{"root_path":"/a","source_root_id":"r1"},{"root_path":"/b","source_root_id":"r2"}]"#);
    let found = existing_source_root(&roots, "/b").unwrap();
    assert_eq!(from_json(&found)["source_root_id"], "r2");
    assert!(existing_source_root(&roots, "/c").is_none());
}

#[test]
fn find_output_payload_has_prepare_and_debug() {
    let response = FindResponse {
        scope: parse(r#"{"kind":"all_libraries"}"#),
        folder_input: None,
        folder_path: None,
        library_id: None,
        source_root_id: None,
        reused_library: None,
        reused_source_root: None,
        prepare_status: "skipped".to_string(),
        prepare_action: "none".to_string(),
        wait_mode: "none".to_string(),
        job_id: None,
        results: parse("[]"),
        search_debug: None,
        query_asset: None,
        requests: vec![RequestTrace::new("search", "POST", "http://h/search/text", 200)],
        job_poll_count: 0,
        last_job: None,
    };
    let payload = from_json(&find_output_payload("http://h", "flag", &response, true));
    let expected: serde_json::Value = serde_json::from_str(
        r#"{"status":"ok","data":{"base_url":"http://h","scope":{"kind":"all_libraries"},"folder":null,
            "prepare":{"status":"skipped","action":"none","job_id":null,"wait_mode":"none"},"results":[]},
            "debug":{"base_url_source":"flag","job_poll_count":0,"last_job":null,
            "requests":[{"label":"search","method":"POST","url":"http://h/search/text","http_status":200}]}}"#,
    )
    .unwrap();
    assert_eq!(payload, expected);
}

#[test]
fn cli_failures_format_for_people_and_programs() {
    let e = CliError::new("not_found", "no such library").with_retryable(false);
    match CliFailure::client(e, false) {
        CliFailure::Human(line) => assert_eq!(line, "not_found: no such library"),
        CliFailure::Json(_) => panic!("expected a line"),
    }
    let e = CliError::new("not_found", "no such library").with_retryable(false);
    let doc = from_json(&CliFailure::error_document(e));
    let expected: serde_json::Value = serde_json::from_str(
        r#"{"status":"error","error":{"code":"not_found","message":"no such library","retryable":false}}"#,
    )
    .unwrap();
    assert_eq!(doc, expected);
}
