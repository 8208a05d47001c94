use fauni_search::json::Json;
use fauni_search::model::ActiveNamespaceProbeResult;
use fauni_search::qdrant::{
    active_vector_space_collection_name, chunk_qdrant_points, collections_to_delete,
    ensure_namespace_plan, namespace_probe_result, qdrant_alias_target, qdrant_error_detail,
    qdrant_max_upsert_body_bytes, qdrant_prefetch_limit, stable_fnv1a64, stable_vector_space_name,
    vector_space_id, NamespacePlan, QDRANT_UPSERT_BODY_OVERHEAD_BYTES,
};
use fauni_search::query_assets::{
    app_base_url, build_video_segment_ranges, content_type_for_source_type_and_path,
    infer_query_document_extension, infer_query_image_extension, infer_query_video_extension,
    query_document_preview_reference, resolve_document_query_locator, resolve_video_query_locator,
    visual_unit_preview_reference,
};
use fauni_search::ranking::{batch_count, encode_search_cursor, content_type_matches_asset};
use fauni_search::text::parse_usize;

fn obj(members: &[(&str, Json)]) -> Json {
    let mut v: Vec<(String, Json)> = members
        .iter()
        .map(|(k, j)| (k.to_string(), clone(j)))
        .collect();
    v.sort_by(|a, b| a.0.cmp(&b.0));
    Json::Object(v)
}

fn clone(j: &Json) -> Json {
    match j {
        Json::Null => Json::Null,
        Json::Bool(b) => Json::Bool(*b),
        Json::Number(n) => Json::Number(n.clone()),
        Json::Str(s) => Json::Str(s.clone()),
        Json::Array(items) => Json::Array(items.iter().map(clone).collect()),
        Json::Object(m) => Json::Object(m.iter().map(|(k, v)| (k.clone(), clone(v))).collect()),
    }
}

fn num(n: u64) -> Json {
    Json::Number(n.to_string())
}

#[test]
fn vector_space_ids_hash_the_signature() {
    assert_eq!(stable_fnv1a64(b""), 14695981039346656037);
    assert_eq!(stable_fnv1a64(b"a"), 12638187200555641996);
    assert_eq!(
        vector_space_id("local_sidecar", "model-a", "main", "multi_vector_late_interaction"),
        "607cb93a9f2b6fbb"
    );
    assert_eq!(stable_vector_space_name("abc"), "vector_space_abc");
    assert_eq!(active_vector_space_collection_name("abc"), "vector_space_active_abc");
}

#[test]
fn points_are_chunked_by_body_size() {
    assert_eq!(QDRANT_UPSERT_BODY_OVERHEAD_BYTES, 15);
    let chunks = chunk_qdrant_points(vec![1, 2, 3, 4], &vec![10, 10, 10, 40], 40).ok().unwrap();
    assert_eq!(chunks, vec![vec![1, 2], vec![3], vec![4]]);
    let err = chunk_qdrant_points(vec![1], &vec![1], 15).err().unwrap();
    assert_eq!(err, "Qdrant upsert body limit must be larger than the request envelope.");
    let none: Vec<Vec<i32>> = chunk_qdrant_points(Vec::<i32>::new(), &vec![], 100).ok().unwrap();
    assert!(none.is_empty());
}

#[test]
fn error_details_prefer_json_messages() {
    assert_eq!(qdrant_error_detail("  ", None), "empty response body");
    let nested = obj(&[("status", obj(&[("error", Json::Str("bad".to_string()))]))]);
    assert_eq!(qdrant_error_detail("{...}", Some(&nested)), "bad");
    let flat = obj(&[("error", Json::Str("flat".to_string()))]);
    assert_eq!(qdrant_error_detail("{...}", Some(&flat)), "flat");
    assert_eq!(qdrant_error_detail(" plain text ", None), "plain text");
}

#[test]
fn namespace_decisions() {
    let aliases = vec![
        obj(&[("alias_name", Json::Str("x".to_string())), ("collection_name", Json::Str("cx".to_string()))]),
        obj(&[("alias_name", Json::Str("vector_space_a".to_string())), ("collection_name", Json::Str("ca".to_string()))]),
    ];
    assert_eq!(qdrant_alias_target(&aliases, "vector_space_a"), Some("ca".to_string()));
    assert_eq!(qdrant_alias_target(&aliases, "none"), None);
    assert!(matches!(namespace_probe_result(None, false, true), ActiveNamespaceProbeResult::LegacyDirectCollection));
    match ensure_namespace_plan(ActiveNamespaceProbeResult::LegacyDirectCollection, "vector_space_a") {
        NamespacePlan::Refuse(m) => assert_eq!(
            m,
            "Legacy direct Qdrant collection vector_space_a blocks active namespace writes. Remove it manually."
        ),
        _ => panic!("expected a refusal"),
    }
    assert!(matches!(
        ensure_namespace_plan(ActiveNamespaceProbeResult::MissingTarget { target_collection: "t".to_string() }, "a"),
        NamespacePlan::Create { delete_alias_first: true }
    ));
    let collections = vec![
        "vector_space_stage_a_1".to_string(),
        "vector_space_stage_a_2".to_string(),
        "other".to_string(),
    ];
    assert_eq!(
        collections_to_delete(&collections, "vector_space_stage_a_", &vec!["vector_space_stage_a_2".to_string()]),
        vec!["vector_space_stage_a_1".to_string()]
    );
    assert_eq!(qdrant_prefetch_limit(3, 5), 20);
    assert_eq!(qdrant_prefetch_limit(30, 5), 30);
    assert_eq!(qdrant_max_upsert_body_bytes(None), 8 * 1024 * 1024);
    assert_eq!(qdrant_max_upsert_body_bytes(Some(" 1024 ")), 1024);
    assert_eq!(qdrant_max_upsert_body_bytes(Some("lots")), 8 * 1024 * 1024);
    assert_eq!(parse_usize("+12"), Some(12));
    assert_eq!(parse_usize("-1"), None);
    assert_eq!(parse_usize("99999999999999999999999"), None);
}

#[test]
fn query_upload_extensions() {
    assert_eq!(infer_query_image_extension(Some("shot.PNG"), "application/octet-stream"), Some("png".to_string()));
    assert_eq!(infer_query_image_extension(Some("shot.tiff"), "image/jpeg"), Some("jpg".to_string()));
    assert_eq!(infer_query_image_extension(None, "text/plain"), None);
    assert_eq!(infer_query_video_extension(None, "video/quicktime"), Some("mp4".to_string()));
    assert_eq!(infer_query_video_extension(Some("a.mov"), "video/mp4"), Some("mov".to_string()));
    assert_eq!(infer_query_document_extension(Some("r.PDF"), ""), Some("pdf".to_string()));
}

#[test]
fn video_segments_overlap_and_cover_the_video() {
    assert_eq!(build_video_segment_ranges(0), vec![(0, 1)]);
    assert_eq!(build_video_segment_ranges(8000), vec![(0, 8000)]);
    assert_eq!(
        build_video_segment_ranges(20000),
        vec![(0, 8000), (6000, 14000), (12000, 20000)]
    );
    assert_eq!(build_video_segment_ranges(8001), vec![(0, 8000), (6000, 8001)]);
}

#[test]
fn query_locators_are_checked() {
    let l = obj(&[("start_ms", num(1000)), ("end_ms", num(2000))]);
    let ok = resolve_video_query_locator(Some(&l), Some(5000), "video_input.locator").ok().unwrap().unwrap();
    match ok {
        Json::Object(m) => assert_eq!(m.len(), 3),
        _ => panic!("expected an object"),
    }
    let e = resolve_video_query_locator(Some(&l), Some(1500), "video_input.locator").err().unwrap();
    assert_eq!(e.status, 422);
    assert_eq!(e.payload.message, "Video locator must satisfy 0 <= start_ms < end_ms <= duration_ms.");
    let e = resolve_video_query_locator(Some(&l), None, "f").err().unwrap();
    assert_eq!(e.status, 503);
    let bad = obj(&[("start_ms", Json::Str("1".to_string())), ("end_ms", num(2))]);
    let e = resolve_video_query_locator(Some(&bad), Some(10), "f").err().unwrap();
    assert_eq!(e.payload.message, "Video locator must include integer start_ms.");
    assert!(resolve_video_query_locator(None, Some(10), "f").ok().unwrap().is_none());
    let d = obj(&[("start_page", num(0)), ("end_page", num(2))]);
    let e = resolve_document_query_locator(Some(&d), Some(3), "f").err().unwrap();
    assert_eq!(e.payload.message, "Document locator must satisfy 1 <= start_page <= end_page <= page_count.");
}

#[test]
fn previews_and_content_types() {
    let base = app_base_url("127.0.0.1", "53210");
    assert_eq!(base, "http://127.0.0.1:53210");
    let p = visual_unit_preview_reference(
        "http://h/",
        "lib",
        "u1",
        "video_segment",
        &obj(&[("start_ms", num(1500)), ("end_ms", num(9000))]),
    );
    assert_eq!(p.url, "http://h/libraries/lib/visual-units/u1/preview#t=1.500,9.000");
    assert_eq!(p.handle.as_deref(), Some("preview:u1"));
    let p = visual_unit_preview_reference("http://h", "lib", "u1", "document_page", &obj(&[]));
    assert_eq!(p.url, "http://h/libraries/lib/visual-units/u1/preview#page=1&view=FitH");
    let p = query_document_preview_reference("http://h//", "lib", "t1");
    assert_eq!(p.url, "http://h/libraries/lib/query-assets/documents/t1/preview#page=1&view=FitH");
    assert_eq!(content_type_for_source_type_and_path("video", "/a/b.MOV"), "video/quicktime");
    assert_eq!(content_type_for_source_type_and_path("image", "/a/b.jpeg"), "image/jpeg");
    assert_eq!(content_type_for_source_type_and_path("image", "/a/b"), "image/png");
    assert_eq!(content_type_for_source_type_and_path("pdf", "/a/b"), "application/pdf");
}

#[test]
fn batches_and_cursors() {
    assert_eq!(batch_count(0, 8), 0);
    assert_eq!(batch_count(8, 8), 1);
    assert_eq!(batch_count(9, 8), 2);
    assert_eq!(encode_search_cursor(42), "search:v1:42");
    assert!(content_type_matches_asset("document", "document_page"));
    assert!(!content_type_matches_asset("document", "image"));
}
