use fauni_search::json::Json;
use fauni_search::provider::{ResolvedExecutionModelSelection, ResolvedModelSelectionPayload};
use fauni_search::search_debug::{SearchContentTypeDebugEntry, VectorSpaceExecutionGroup};
use fauni_search::ranking::{
    build_search_response, CandidatePayload, ExecutedSearchGroup, ScoredPoint, SearchPlan,
    SearchPlanAssetLocation, UnsupportedContentTypeSnapshot,
};

fn point(score: f32, unit: &str, asset: &str, asset_type: &str) -> ScoredPoint {
    ScoredPoint {
        score_bits: score.to_bits(),
        payload: Some(CandidatePayload {
            unit_id: unit.to_string(),
            asset_id: asset.to_string(),
            asset_type: asset_type.to_string(),
            unit_type: asset_type.to_string(),
        }),
    }
}

fn location(uri: &str, locator: Json) -> SearchPlanAssetLocation {
    SearchPlanAssetLocation {
        source_id: "src-1".to_string(),
        source_uri: uri.to_string(),
        source_type: "pdf".to_string(),
        locator,
    }
}

fn plan(top_k: usize, debug: bool) -> SearchPlan {
    SearchPlan {
        library_id: "lib".to_string(),
        top_k,
        cursor_offset: 0,
        kind_filter: None,
        path_prefix_filter: None,
        source_type_filter: None,
        time_range_filter: None,
        active_asset_refs: vec!["lib:a1".to_string(), "lib:a2".to_string()],
        active_unit_index_refs: vec!["u1::vs".to_string(), "u2::vs".to_string()],
        asset_locations: vec![
            (
                "lib:a1".to_string(),
                location("file:///docs/a.pdf", Json::Object(vec![("page".to_string(), Json::Number("3".to_string()))])),
            ),
            ("lib:a2".to_string(), location("file:///docs/b.pdf", Json::Null)),
        ],
        unsupported_content_types: vec![UnsupportedContentTypeSnapshot {
            library_id: "lib".to_string(),
            content_type: "video".to_string(),
            reason: "no model".to_string(),
        }],
        execution_groups: vec![execution_group("vs"), execution_group("vs"), execution_group("vr")],
        debug_content_types: vec![SearchContentTypeDebugEntry {
            library_id: "lib".to_string(),
            content_type: "document".to_string(),
            resolved_model: Json::Str("local_sidecar/m".to_string()),
        }],
        debug,
    }
}

fn execution_group(vs: &str) -> VectorSpaceExecutionGroup {
    VectorSpaceExecutionGroup {
        library_id: "lib".to_string(),
        vector_space_id: vs.to_string(),
        active_unit_count: 2,
        eligible_point_ids: vec![1, 2],
        content_types: vec!["document".to_string()],
        resolved_model: ResolvedExecutionModelSelection {
            summary: ResolvedModelSelectionPayload {
                provider_id: "local_sidecar".to_string(),
                provider_kind: "local_sidecar".to_string(),
                model_id: "m".to_string(),
                model_version: "main".to_string(),
                model_revision: None,
                binding_source: "content_type".to_string(),
                status: "ready".to_string(),
            },
            vector_type: "multi_vector_late_interaction".to_string(),
            vector_space_id: vs.to_string(),
            execution_input_types: vec!["image".to_string()],
        },
    }
}

fn groups() -> Vec<ExecutedSearchGroup> {
    vec![ExecutedSearchGroup {
        library_id: "lib".to_string(),
        vector_space_id: "vs".to_string(),
        query_vector_count: 2,
        candidates: vec![
            point(0.25, "u1", "a1", "document_page"),
            point(0.75, "u2", "a2", "image"),
            ScoredPoint { score_bits: 0.5f32.to_bits(), payload: None },
        ],
    }]
}

#[test]
fn results_carry_previews_and_come_best_first() {
    let data = build_search_response(&plan(10, false), &groups(), "http://127.0.0.1:8080/").unwrap();
    assert_eq!(data.results.len(), 2);
    assert_eq!(data.results[0].asset_id, "a2");
    assert_eq!(data.results[0].preview.url, "http://127.0.0.1:8080/libraries/lib/visual-units/a2/preview");
    assert_eq!(data.results[0].preview.handle.as_deref(), Some("preview:a2"));
    assert_eq!(data.results[1].asset_id, "a1");
    assert_eq!(
        data.results[1].preview.url,
        "http://127.0.0.1:8080/libraries/lib/visual-units/a1/preview#page=3&view=FitH"
    );
    assert_eq!(data.results[1].matched_units[0].rank, 1);
    assert_eq!(data.results[1].cursor, "search:v1:2");
    assert!(data.next_cursor.is_none());
    assert!(data.debug.is_none());
}

#[test]
fn unsupported_content_types_are_passed_on() {
    let data = build_search_response(&plan(1, true), &groups(), "http://h:1").unwrap();
    assert_eq!(data.unsupported_content_types.len(), 1);
    assert_eq!(data.unsupported_content_types[0].content_type, "video");
    assert_eq!(data.unsupported_content_types[0].reason, "no model");
    assert_eq!(data.results.len(), 1);
    assert_eq!(data.next_cursor.as_deref(), Some("search:v1:1"));
    let debug = data.debug.unwrap();
    assert_eq!(debug.retrieved_points, 3);
    assert_eq!(debug.filtered_results, 2);
    assert_eq!(debug.returned_results, 1);
    assert_eq!(debug.query_vector_count, 2);
    assert_eq!(debug.top_score_bits, Some(0.75f32.to_bits()));
    assert_eq!(debug.backend, "qdrant");
    assert_eq!(debug.vector_type, "multi_vector_late_interaction");
    assert_eq!(debug.content_types.len(), 1);
    let scores = &debug.content_types[0].raw_scores;
    assert_eq!(scores.len(), 1);
    assert_eq!((scores[0].asset_id.as_str(), scores[0].unit_id.as_str()), ("a1", "u1"));
    assert_eq!(scores[0].score_bits, 0.25f32.to_bits());
    let spaces: Vec<&str> = debug.vector_spaces.iter().map(|v| v.vector_space_id.as_str()).collect();
    assert_eq!(spaces, vec!["vr", "vs"]);
    assert_eq!(debug.vector_spaces[1].status, "ready");
    assert_eq!(debug.prefilter.len(), 3);
    assert_eq!(debug.prefilter[0].candidate_point_count, 2);
    assert_eq!(debug.prefilter[0].mode, "point_allow_list");
    assert_eq!(debug.prefilter[0].pushed_fields, vec!["point_id"]);
}
