use fauni_search::json::Json;
use fauni_search::shared_load::{
    load_assets, load_contents, load_keyed, load_query_assets, load_units, AssetRow, ContentRow,
    KeyedRow, QueryAssetRow, UnitRow,
};
use fauni_search::unit_order::units_by_asset;
use fauni_search::shared_load::{load_vector_spaces, VectorSpaceRecord};
use fauni_search::shared_load::{load_unit_indexes, UnitIndexRow};
use fauni_search::shared_load::{load_content_e2e_index_states, ContentE2eIndexStateRow};

fn object() -> Json {
    Json::Object(Vec::new())
}

fn unit_row(id: &str, asset: &str, position: i64, point_id: i64) -> UnitRow {
    UnitRow {
        unit_id: id.to_owned(),
        asset_id: asset.to_owned(),
        asset_position: position,
        point_id,
        unit_type: "page".to_owned(),
        derivation_signature: "pdf-page:v1:1".to_owned(),
        locator_json: Ok(object()),
        neighbor_context_json: Ok(object()),
    }
}

fn query_asset_row(size: i64) -> QueryAssetRow {
    QueryAssetRow {
        query_asset_id: "qa_1".to_owned(),
        owner_scope: "library".to_owned(),
        library_id: Some("alpha".to_owned()),
        source_type: "image".to_owned(),
        content_type: "image/png".to_owned(),
        path: "/rt/temp-assets/images/query-image-1.png".to_owned(),
        original_filename: Some("cat.png".to_owned()),
        page_count: None,
        duration_ms: None,
        size_bytes: size,
        created_at_ms: 10,
        expires_at_ms: 3_600_010,
    }
}

#[test]
fn contents_load_with_their_sizes() {
    let loaded = load_contents("/s.db", vec![ContentRow {
        content_id: "content_source".to_owned(),
        size_bytes: Some(1234),
        fast_fingerprint: Some("fast-source".to_owned()),
        sha256: Some("sha256-source".to_owned()),
        created_at_ms: 11,
    }])
    .unwrap();
    let content = &loaded.records[0].1;
    assert_eq!(content.size_bytes, Some(1234));
    assert_eq!(content.created_at_ms, 11);
    assert_eq!(content.sha256.as_deref(), Some("sha256-source"));
}

#[test]
fn content_with_negative_creation_time_is_refused() {
    let err = load_contents("/s.db", vec![ContentRow {
        content_id: "c".to_owned(),
        size_bytes: None,
        fast_fingerprint: None,
        sha256: None,
        created_at_ms: -5,
    }])
    .unwrap_err();
    assert_eq!(err.message, "Invalid durable state store /s.db: contents.created_at_ms must be non-negative");
}

#[test]
fn asset_with_unparsed_locator_is_refused() {
    let err = load_assets("/s.db", vec![AssetRow {
        asset_id: "asset_1".to_owned(),
        source_content_id: "content_source".to_owned(),
        asset_type: "document_page".to_owned(),
        locator_json: Err("EOF while parsing".to_owned()),
        derivation_signature: "pdf-page:v1:1".to_owned(),
        neighbor_context_json: Ok(object()),
    }])
    .unwrap_err();
    assert_eq!(
        err.message,
        "Invalid durable state store /s.db: failed to decode assets.locator_json JSON payload: EOF while parsing"
    );
}

#[test]
fn assets_load_in_order_without_sources_yet() {
    let loaded = load_assets("/s.db", vec![
        AssetRow {
            asset_id: "asset_2".to_owned(),
            source_content_id: "content_source".to_owned(),
            asset_type: "page_image".to_owned(),
            locator_json: Ok(object()),
            derivation_signature: "pdf-page-image:v1:1".to_owned(),
            neighbor_context_json: Ok(object()),
        },
        AssetRow {
            asset_id: "asset_1".to_owned(),
            source_content_id: "content_source".to_owned(),
            asset_type: "document_page".to_owned(),
            locator_json: Ok(object()),
            derivation_signature: "pdf-page:v1:1".to_owned(),
            neighbor_context_json: Ok(object()),
        },
    ])
    .unwrap();
    assert_eq!(loaded.order, vec!["asset_2".to_owned(), "asset_1".to_owned()]);
    assert!(loaded.records.iter().all(|(_, a)| a.source_id.is_empty() && a.unit_ids.is_empty()));
}

#[test]
fn units_load_with_their_placements() {
    let loaded = load_units("/s.db", vec![
        unit_row("unit_2", "asset_1", 1, 7),
        unit_row("unit_1", "asset_1", 0, 8),
    ])
    .unwrap();
    assert_eq!(loaded.units.order, vec!["unit_2".to_owned(), "unit_1".to_owned()]);
    assert_eq!(loaded.units.records[0].1.point_id, 7);
    let groups = units_by_asset(&loaded.placements);
    let ids: Vec<&str> = groups[0].1.iter().map(|(_, id)| id.as_str()).collect();
    assert_eq!(ids, vec!["unit_1", "unit_2"]);
}

#[test]
fn unit_with_negative_point_id_is_refused() {
    let err = load_units("/s.db", vec![unit_row("unit_1", "asset_1", 0, -1)]).unwrap_err();
    assert_eq!(err.message, "Invalid durable state store /s.db: units.point_id must be non-negative");
}

#[test]
fn query_assets_load_and_refuse_negative_sizes() {
    let loaded = load_query_assets("/s.db", vec![query_asset_row(42)]).unwrap();
    assert_eq!(loaded.records[0].1.size_bytes, 42);
    assert_eq!(loaded.records[0].1.expires_at_ms, 3_600_010);
    let err = load_query_assets("/s.db", vec![query_asset_row(-1)]).unwrap_err();
    assert_eq!(err.message, "Invalid durable state store /s.db: query_assets.size_bytes must be non-negative");
}

#[test]
fn later_keyed_row_replaces_earlier() {
    let loaded = load_keyed(vec![
        KeyedRow { key: "k".to_owned(), record: Ok(1u8) },
        KeyedRow { key: "k".to_owned(), record: Ok(2u8) },
    ])
    .unwrap();
    assert_eq!(loaded.order.len(), 2);
    assert_eq!(loaded.records, vec![("k".to_owned(), 2u8)]);
}

#[test]
fn vector_spaces_load_as_given() {
    let loaded = load_vector_spaces(vec![VectorSpaceRecord {
        id: "vs_active".to_owned(),
        provider_id: "local_sidecar".to_owned(),
        model_id: "model".to_owned(),
        model_version: "main".to_owned(),
        model_revision: None,
        vector_type: "multi_vector".to_owned(),
    }]);
    assert_eq!(loaded.order, vec!["vs_active".to_owned()]);
    assert_eq!(loaded.records[0].1.vector_type, "multi_vector");
}

#[test]
fn unit_indexes_are_keyed_by_unit_and_vector_space() {
    let row = |vector_ref: Option<Result<Json, String>>| UnitIndexRow {
        unit_id: "unit_1".to_owned(),
        vector_space_id: "vs_active".to_owned(),
        status: "indexed".to_owned(),
        visibility: "active".to_owned(),
        vector_ref_json: vector_ref,
        job_id: None,
        error_summary: None,
    };
    let loaded = load_unit_indexes("/s.db", vec![row(None)]).unwrap();
    assert_eq!(loaded.order, vec!["unit_1::vs_active".to_owned()]);
    assert!(loaded.records[0].1.vector_ref.is_none());
    let err = load_unit_indexes("/s.db", vec![row(Some(Err("bad".to_owned())))]).unwrap_err();
    assert_eq!(
        err.message,
        "Invalid durable state store /s.db: failed to decode unit_indexes.vector_ref_json JSON payload: bad"
    );
}

#[test]
fn content_index_states_are_keyed_by_their_three_parts() {
    let loaded = load_content_e2e_index_states("/s.db", vec![ContentE2eIndexStateRow {
        content_id: "c1".to_owned(),
        pipe_signature: "pdf-page:v1".to_owned(),
        vector_space_id: "vs".to_owned(),
        indexed_at_ms: 77,
    }])
    .unwrap();
    assert_eq!(loaded.order, vec!["c1::pdf-page:v1::vs".to_owned()]);
    assert_eq!(loaded.records[0].1.indexed_at_ms, 77);
    let err = load_content_e2e_index_states("/s.db", vec![ContentE2eIndexStateRow {
        content_id: "c1".to_owned(),
        pipe_signature: "p".to_owned(),
        vector_space_id: "vs".to_owned(),
        indexed_at_ms: -1,
    }])
    .unwrap_err();
    assert_eq!(
        err.message,
        "Invalid durable state store /s.db: content_e2e_index_states.indexed_at_ms must be non-negative"
    );
}
