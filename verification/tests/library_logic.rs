use fauni_search::api_error::ApiError;
use fauni_search::config::{config_origin_snapshot, default_model_version, default_true};
use fauni_search::json::Json;
use fauni_search::model::{
    content_e2e_index_state_key, source_asset_location_key, unit_index_key, ImportJobOutcome,
    MaintenanceActionKind, SourceActionJobOutcome, SourceActionKind, SourceActionSummary,
    SourceActionTrigger, SourceRootScanResult, TempQueryAssetPruneSummary, TempQueryAssetRecord,
    VectorSpaceBatch,
};
use fauni_search::persistence::{load_query_history, query_history_record_from_row, QueryHistoryRow};
use fauni_search::provider::{
    provider_context_payload, static_not_supported_probe, ResolvedExecutionModelSelection,
    ResolvedModelSelectionPayload,
};
use fauni_search::requests::{
    apply_model_test_file, apply_model_test_text, finish_model_test_form, model_test_field_read,
    model_test_file_plan, normalize_create_library_request, normalize_maintenance_action_request,
    normalize_update_library_request, parse_bool_form_field, CreateLibraryApiRequest,
    ModelTestFieldRead, ModelTestForm, PendingModelTestFile, UpdateLibraryApiRequest,
};
use fauni_search::serve::ProcessEnv;
use fauni_search::sidecar::{
    derive_execution_input_types_from_capabilities, parse_sidecar_error_message, qdrant_base_url,
    required_local_sidecar_operations, sidecar_base_url, sidecar_snapshot_from_capabilities,
    unavailable_sidecar_snapshot,
};
use fauni_search::provider::ProviderRuntimeModelSnapshot;

fn to_json(value: &serde_json::Value) -> Json {
    match value {
        serde_json::Value::Null => Json::Null,
        serde_json::Value::Bool(b) => Json::Bool(*b),
        serde_json::Value::Number(n) => Json::Number(n.to_string()),
        serde_json::Value::String(s) => Json::Str(s.clone()),
        serde_json::Value::Array(items) => Json::Array(items.iter().map(to_json).collect()),
        serde_json::Value::Object(map) => {
            Json::Object(map.iter().map(|(k, v)| (k.clone(), to_json(v))).collect())
        }
    }
}

fn from_json(value: &Json) -> serde_json::Value {
    match value {
        Json::Null => serde_json::Value::Null,
        Json::Bool(b) => serde_json::Value::Bool(*b),
        Json::Number(n) => serde_json::from_str(n).unwrap(),
        Json::Str(s) => serde_json::Value::String(s.clone()),
        Json::Array(items) => serde_json::Value::Array(items.iter().map(from_json).collect()),
        Json::Object(members) => serde_json::Value::Object(
            members.iter().map(|(k, v)| (k.clone(), from_json(v))).collect(),
        ),
    }
}

fn parse(text: &str) -> Json {
    to_json(&serde_json::from_str(text).unwrap())
}

fn value(text: &str) -> serde_json::Value {
    serde_json::from_str(text).unwrap()
}

fn api_error<T>(r: Result<T, ApiError>) -> ApiError {
    match r {
        Ok(_) => panic!("expected an error"),
        Err(e) => e,
    }
}

#[test]
fn record_keys_and_action_names() {
    assert_eq!(unit_index_key("u1", "vs1"), "u1::vs1");
    assert_eq!(content_e2e_index_state_key("c", "pipe", "vs"), "c::pipe::vs");
    assert_eq!(source_asset_location_key("s", "a"), "s::a");
    assert_eq!(MaintenanceActionKind::CleanupRetiredVectorSpaces.as_str(), "cleanup_retired_vector_spaces");
    assert_eq!(SourceActionTrigger::Watcher.as_str(), "watcher");
    assert_eq!(default_model_version(), "main");
    assert!(default_true());
}

#[test]
fn temp_query_asset_scope_and_prune_counts() {
    let record = TempQueryAssetRecord {
        id: "q".to_string(),
        owner_scope: "library".to_string(),
        library_id: Some("demo".to_string()),
        path: "/tmp/q".to_string(),
        source_type: "image".to_string(),
        content_type: "image/png".to_string(),
        original_filename: None,
        page_count: None,
        duration_ms: None,
        size_bytes: 3,
        created_at_ms: 1,
        expires_at_ms: 2,
    };
    assert!(!record.is_global());
    assert!(record.is_library_scoped_to("demo"));
    assert!(!record.is_library_scoped_to("other"));
    let summary = TempQueryAssetPruneSummary { expired_removed: 2, missing_removed: 3 };
    assert_eq!(summary.removed_count(), 5);
}

#[test]
fn source_action_outcomes() {
    let summary = SourceActionSummary {
        scanned_roots: 2,
        observed_files: 10,
        matched_files: 7,
        activated_sources: 3,
        invalidated_sources: 1,
        out_of_scope_sources: 2,
        indexing_units: 40,
        degraded_roots: 0,
    };
    let batches = vec![
        VectorSpaceBatch { vector_space_id: "vs_b".to_string(), unit_count: 4 },
        VectorSpaceBatch { vector_space_id: "vs_a".to_string(), unit_count: 1 },
        VectorSpaceBatch { vector_space_id: "vs_c".to_string(), unit_count: 0 },
        VectorSpaceBatch { vector_space_id: "vs_b".to_string(), unit_count: 2 },
    ];
    let outcome = SourceActionJobOutcome::completed(SourceActionKind::Rescan, 2, &summary, &batches);
    assert_eq!(outcome.status, "completed");
    assert_eq!(outcome.activated_vector_spaces, vec!["vs_a".to_string(), "vs_b".to_string()]);
    assert_eq!(
        outcome.summary,
        "rescan 2 source root(s); observed 10 file(s), matched 7 file(s), activated 3, invalidated 1, out_of_scope 2, indexed 40 unit(s)."
    );
    let failed = SourceActionJobOutcome::failed_with_structured_changes(SourceActionKind::Refresh, 1, vec![], "disk");
    assert_eq!(failed.summary, "refresh partially failed: disk");
    assert!(failed.apply_structured_changes);
    let canceled = SourceActionJobOutcome::canceled(SourceActionKind::Rebuild, 0, "stop");
    assert_eq!(canceled.summary, "rebuild canceled: stop");
    assert!(!canceled.apply_structured_changes);
    assert_eq!(SourceRootScanResult::disabled().status, "disabled");
    let import = ImportJobOutcome::failed("embedding", "boom".to_string(), 3);
    assert_eq!(import.status, "failed");
    assert_eq!(import.phase, "embedding");
}

#[test]
fn config_origin_snapshot_sets() {
    let repo = parse(r#"{"provider":{"local_sidecar":{"models":{"m2":{},"m1":{}}},"dashscope":{}},"content_types":{"image":{}}}"#);
    let runtime = parse(r#"{"libraries":{"demo":{"content_types":{"pdf":{}}},"empty":{}}}"#);
    let snapshot = config_origin_snapshot(&repo, &runtime);
    assert_eq!(snapshot.repo_providers, vec!["dashscope".to_string(), "local_sidecar".to_string()]);
    assert!(snapshot.runtime_providers.is_empty());
    assert_eq!(snapshot.repo_content_types, vec!["image".to_string()]);
    assert_eq!(
        snapshot.repo_provider_models,
        vec![("local_sidecar".to_string(), vec!["m1".to_string(), "m2".to_string()])]
    );
    assert_eq!(
        snapshot.runtime_library_content_types,
        vec![("demo".to_string(), vec!["pdf".to_string()])]
    );
}

#[test]
fn service_addresses_come_from_the_environment() {
    let mut env = ProcessEnv::new();
    let error = api_error(qdrant_base_url(&env));
    assert_eq!(error.status, 503);
    assert_eq!(error.payload.code, "runtime_unavailable");
    assert_eq!(
        error.payload.message,
        "Missing required environment variable QDRANT_URL; source .env or use scripts/local/run.sh"
    );
    assert_eq!(from_json(error.payload.details.as_ref().unwrap()), value(r#"{"field":"QDRANT_URL"}"#));
    env.set("SIDECAR_HOST", "127.0.0.1");
    env.set("SIDECAR_PORT", "55100");
    assert_eq!(sidecar_base_url(&env).unwrap(), "http://127.0.0.1:55100");
    assert_eq!(required_local_sidecar_operations().len(), 5);
}

#[test]
fn sidecar_capabilities_decide_the_probe() {
    let fallback = ProviderRuntimeModelSnapshot { model_id: "fallback".to_string(), model_revision: None };
    let payload = parse(
        r#"{"availability":{"can_service":true},
            "operations":[
              {"operation_kind":"query_embedding","supported":true,"model":{"model_id":"colqwen","revision":"r1"}},
              {"operation_kind":"image_query_embedding","supported":true},
              {"operation_kind":"document_embedding","supported":true}],
            "runtime_adapters":["video_query_via_frame_images"]}"#,
    );
    let snapshot = sidecar_snapshot_from_capabilities(&payload, "2024-01-01T00:00:00Z", fallback);
    assert_eq!(snapshot.probe.status, "runtime_unavailable");
    assert_eq!(
        snapshot.probe.message,
        "local_sidecar runtime is missing required operations: video_query_embedding, document_query_embedding."
    );
    assert_eq!(snapshot.runtime_model.model_id, "colqwen");
    assert_eq!(snapshot.runtime_model.model_revision.as_deref(), Some("r1"));
    assert_eq!(
        snapshot.execution_input_types,
        vec!["image".to_string(), "text".to_string(), "video".to_string()]
    );
    assert_eq!(snapshot.embedding_capabilities.vector_types, vec!["multi_vector_late_interaction".to_string()]);

    let down = parse(r#"{"availability":{"can_service":false,"load_error":"no gpu"}}"#);
    let fallback = ProviderRuntimeModelSnapshot { model_id: "fallback".to_string(), model_revision: None };
    let snapshot = sidecar_snapshot_from_capabilities(&down, "t", fallback);
    assert_eq!(snapshot.probe.message, "no gpu");
    assert_eq!(snapshot.runtime_model.model_id, "fallback");
    assert_eq!(snapshot.execution_input_types.len(), 4);

    assert_eq!(
        derive_execution_input_types_from_capabilities(&parse(r#"{"operations":[]}"#)),
        vec!["text".to_string(), "image".to_string(), "document".to_string(), "video".to_string()]
    );
    let fallback = ProviderRuntimeModelSnapshot { model_id: "f".to_string(), model_revision: None };
    let unavailable = unavailable_sidecar_snapshot("refused", "t", fallback);
    assert_eq!(unavailable.probe.last_probed_at.as_deref(), Some("t"));
    assert_eq!(
        parse_sidecar_error_message(Some(&parse(r#"{"error":{"code":"oom","message":"too big"}}"#))).as_deref(),
        Some("Sidecar oom: too big")
    );
    assert!(parse_sidecar_error_message(None).is_none());
}

#[test]
fn provider_context_and_probe() {
    let selection = ResolvedExecutionModelSelection {
        summary: ResolvedModelSelectionPayload {
            provider_id: "local_sidecar".to_string(),
            provider_kind: "local_sidecar".to_string(),
            model_id: "m".to_string(),
            model_version: "main".to_string(),
            model_revision: None,
            binding_source: "content_type".to_string(),
            status: "ready".to_string(),
        },
        vector_type: "multi".to_string(),
        vector_space_id: "vs".to_string(),
        execution_input_types: vec![],
    };
    assert_eq!(
        from_json(&provider_context_payload(&selection)),
        value(
            r#"{"provider_id":"local_sidecar","provider_kind":"local_sidecar","model_id":"m","model_version":"main",
                "model_revision":null,"vector_type":"multi","vector_space_id":"vs","binding_source":"content_type"}"#
        )
    );
    let probe = static_not_supported_probe("no probe", "now");
    assert_eq!(probe.status, "not_supported");
}

#[test]
fn library_request_normalization() {
    let error = api_error(normalize_create_library_request(CreateLibraryApiRequest {
        library_id: None,
        display_name: "Demo".to_string(),
        extra_keys: vec!["zeta".to_string(), "name".to_string()],
    }));
    assert_eq!(
        error.payload.message,
        "Library name must be provided via display_name; the legacy name field is no longer accepted."
    );
    let error = api_error(normalize_create_library_request(CreateLibraryApiRequest {
        library_id: None,
        display_name: "Demo".to_string(),
        extra_keys: vec!["zeta".to_string(), "alpha".to_string()],
    }));
    assert_eq!(from_json(error.payload.details.as_ref().unwrap()), value(r#"{"field":"alpha"}"#));
    let ok = normalize_create_library_request(CreateLibraryApiRequest {
        library_id: Some("demo".to_string()),
        display_name: "Demo".to_string(),
        extra_keys: vec![],
    })
    .unwrap();
    assert_eq!(ok.name, "");
    let error = api_error(normalize_update_library_request(UpdateLibraryApiRequest {
        display_name: None,
        extra_keys: vec![],
    }));
    assert_eq!(error.payload.message, "Update library request requires display_name.");
    assert_eq!(
        normalize_maintenance_action_request("  cleanup_retired_vector_spaces ").unwrap(),
        MaintenanceActionKind::CleanupRetiredVectorSpaces
    );
    let error = api_error(normalize_maintenance_action_request("vacuum"));
    assert_eq!(from_json(error.payload.details.as_ref().unwrap()), value(r#"{"field":"action","action":"vacuum"}"#));
    assert!(parse_bool_form_field("x", " true ").unwrap());
    let error = api_error(parse_bool_form_field("x", "yes"));
    assert_eq!(from_json(error.payload.details.as_ref().unwrap()), value(r#"{"field":"x","received":"yes"}"#));
}

#[test]
fn settings_model_test_form_flow() {
    let mut form = ModelTestForm::new();
    assert_eq!(model_test_field_read(&form, "provider_id", false).unwrap(), ModelTestFieldRead::Text);
    apply_model_test_text(&mut form, "provider_id", "local_sidecar".to_string()).unwrap();
    apply_model_test_text(&mut form, "model_id", "m".to_string()).unwrap();
    assert!(apply_model_test_text(&mut form, "provider_enabled", "maybe".to_string()).is_err());
    apply_model_test_text(&mut form, "provider_enabled", "false".to_string()).unwrap();
    assert_eq!(form.provider_enabled, Some(false));
    assert_eq!(model_test_field_read(&form, "file", true).unwrap(), ModelTestFieldRead::File);
    apply_model_test_file(&mut form, "file", Some("cat.png".to_string()), None, vec![1, 2]);
    assert_eq!(form.file.as_ref().unwrap().content_type, "application/octet-stream");
    let error = api_error(model_test_field_read(&form, "file", true));
    assert_eq!(error.payload.message, "Settings model test accepts exactly one file input.");
    assert_eq!(model_test_field_read(&form, "other", false).unwrap(), ModelTestFieldRead::Skip);
    assert!(model_test_field_read(&form, "other", true).is_err());

    let error = api_error(finish_model_test_form(ModelTestForm::new()));
    assert_eq!(error.payload.message, "Settings model test requires provider_id.");
    apply_model_test_text(&mut form, "input_modality", "image".to_string()).unwrap();
    let parsed = finish_model_test_form(form).unwrap();
    assert_eq!(parsed.input_modality, "image");

    let png = PendingModelTestFile {
        original_filename: Some("cat.png".to_string()),
        content_type: "application/octet-stream".to_string(),
        bytes: vec![],
    };
    assert_eq!(model_test_file_plan(Some(&png), "image", "file").unwrap().as_deref(), Some("png"));
    let error = api_error(model_test_file_plan(Some(&png), "text", "file"));
    assert_eq!(error.payload.message, "text model test does not accept a file input.");
    let error = api_error(model_test_file_plan(None, "audio", "file"));
    assert_eq!(
        from_json(error.payload.details.as_ref().unwrap()),
        value(r#"{"field":"input_modality","received":"audio","supported":["text","image"]}"#)
    );
    assert!(model_test_file_plan(None, "", "comparison_file").unwrap().is_none());
}

fn history_row(id: &str, created: i64, filters: Option<Result<Json, String>>) -> QueryHistoryRow {
    QueryHistoryRow {
        query_id: id.to_string(),
        created_at_ms: created,
        source: "cli".to_string(),
        query_kind: "text".to_string(),
        input_kind: "text".to_string(),
        input_summary: "cats".to_string(),
        input_json: Ok(parse(r#"{"text":"cats"}"#)),
        search_scope_json: Ok(parse(r#"{"kind":"all"}"#)),
        filters_json: filters,
        target_content_types_json: None,
        top_k: Some(5),
        status: "ok".to_string(),
        result_count: Some(2),
        error_code: None,
        error_message: None,
        duration_ms: 12,
    }
}

#[test]
fn query_history_rows_decode_in_order() {
    let record = query_history_record_from_row("/db", history_row("q1", 10, None)).unwrap();
    assert_eq!(record.created_at_ms, 10);
    assert_eq!(record.top_k, Some(5));

    let error = query_history_record_from_row("/db", history_row("q1", -1, Some(Err("bad".to_string())))).unwrap_err();
    assert_eq!(
        error.message,
        "Invalid durable state store /db: failed to decode query_history.filters_json JSON payload: bad"
    );
    let error = query_history_record_from_row("/db", history_row("q1", -1, None)).unwrap_err();
    assert_eq!(error.message, "Invalid durable state store /db: query_history.created_at_ms must be non-negative");

    let loaded = load_query_history("/db", vec![history_row("q1", 1, None), history_row("q2", 2, None), history_row("q1", 3, None)]).unwrap();
    assert_eq!(loaded.order, vec!["q1".to_string(), "q2".to_string(), "q1".to_string()]);
    assert_eq!(loaded.records.len(), 2);
    assert_eq!(loaded.records[0].1.created_at_ms, 3);
}
