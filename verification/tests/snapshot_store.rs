use fauni_search::model::SourceRecord;
use fauni_search::snapshot_load::{library_buckets, load_libraries, load_sources, DurableLibraryHeader, LibraryRecords};
use fauni_search::snapshot_store::{library_rows, source_rows};
use fauni_search::json::Json;
use fauni_search::shared_load::{AssetRecord, UnitRecord};
use fauni_search::snapshot_store::{query_asset_row, unit_placements};
use fauni_search::model::TempQueryAssetRecord;
use fauni_search::shared_load::load_query_assets;
use fauni_search::unit_order::units_by_asset;

fn source(id: &str, modified: Option<u128>) -> SourceRecord {
    SourceRecord {
        id: id.to_owned(),
        source_root_id: Some("root_1".to_owned()),
        source_root_path: Some("/tmp/root".to_owned()),
        source_path: "/tmp/root/report.pdf".to_owned(),
        source_uri: "file:///tmp/root/report.pdf".to_owned(),
        relative_path: Some("report.pdf".to_owned()),
        source_type: "document".to_owned(),
        media_type: "application/pdf".to_owned(),
        kind: "document_page".to_owned(),
        status: "active".to_owned(),
        status_reason: None,
        page_count: Some(2),
        duration_ms: None,
        observed_size_bytes: Some(1234),
        observed_modified_at_ms: modified,
        source_content_id: "content_source".to_owned(),
        asset_ids: vec!["asset_1".to_owned()],
    }
}

fn header(id: &str) -> DurableLibraryHeader {
    DurableLibraryHeader {
        id: id.to_owned(),
        display_name: "Alpha".to_owned(),
        lifecycle_state: "archived".to_owned(),
        archived_at_ms: Some(99),
    }
}

#[test]
fn structured_store_roundtrip_restores_libraries_and_sources() {
    let libraries = vec![("alpha".to_owned(), header("alpha"))];
    let order = vec!["alpha".to_owned()];
    let library_rows = library_rows(&order, &libraries).unwrap();
    let loaded = load_libraries("/tmp/rt.sqlite", library_rows).unwrap();
    assert_eq!(loaded.order, order);
    let back = &loaded.libraries[0].1;
    assert_eq!(back.display_name, "Alpha");
    assert_eq!(back.lifecycle_state, "archived");
    assert_eq!(back.archived_at_ms, Some(99));

    let sources = vec![("src_1".to_owned(), source("src_1", Some(5678)))];
    let rows = source_rows(&"alpha".to_owned(), &vec!["src_1".to_owned()], &sources).unwrap();
    let mut buckets: Vec<LibraryRecords<SourceRecord>> = library_buckets(&loaded.libraries);
    load_sources("/tmp/rt.sqlite", &mut buckets, rows).unwrap();
    let restored = &buckets[0].records[0].1;
    let original = &sources[0].1;
    assert_eq!(restored.id, original.id);
    assert_eq!(restored.source_uri, original.source_uri);
    assert_eq!(restored.source_path, "/tmp/root/report.pdf");
    assert_eq!(restored.page_count, Some(2));
    assert_eq!(restored.observed_size_bytes, Some(1234));
    assert_eq!(restored.observed_modified_at_ms, Some(5678));
    assert_eq!(restored.source_root_id.as_deref(), Some("root_1"));
    // Assets are attached again from their locations, not stored with the source.
    assert!(restored.asset_ids.is_empty());
}

#[test]
fn source_order_naming_a_missing_source_is_refused() {
    let sources = vec![("src_1".to_owned(), source("src_1", None))];
    let err = source_rows(&"alpha".to_owned(), &vec!["src_9".to_owned()], &sources).unwrap_err();
    assert_eq!(err, "source_order for library `alpha` references missing source `src_9`");
}

#[test]
fn source_time_beyond_the_column_is_refused() {
    let sources = vec![("src_1".to_owned(), source("src_1", Some(u128::MAX)))];
    let err = source_rows(&"alpha".to_owned(), &vec!["src_1".to_owned()], &sources).unwrap_err();
    assert_eq!(err, "sources.observed_modified_at_ms exceeds SQLite INTEGER range");
}

#[test]
fn library_order_naming_a_missing_library_is_refused() {
    let err = library_rows(&vec!["beta".to_owned()], &vec![("alpha".to_owned(), header("alpha"))]).unwrap_err();
    assert_eq!(err, "library_order references missing library `beta`");
}

#[test]
fn units_written_at_their_places_come_back_in_order() {
    let asset = AssetRecord {
        id: "asset_1".to_owned(),
        source_id: String::new(),
        content_id: String::new(),
        source_path: String::new(),
        source_type: String::new(),
        source_content_id: "content_source".to_owned(),
        asset_type: "document_page".to_owned(),
        locator: Json::Null,
        derivation_signature: "pdf-page:v1:1".to_owned(),
        neighbor_context: Json::Null,
        unit_ids: vec!["unit_b".to_owned(), "unit_a".to_owned()],
    };
    let unit = |id: &str| UnitRecord {
        id: id.to_owned(),
        asset_id: "asset_1".to_owned(),
        content_id: String::new(),
        point_id: 3,
        source_id: String::new(),
        source_path: String::new(),
        source_type: String::new(),
        asset_type: String::new(),
        unit_type: "page".to_owned(),
        derivation_signature: "pdf-page:v1:1".to_owned(),
        locator: Json::Null,
        neighbor_context: Json::Null,
    };
    let assets = vec![("asset_1".to_owned(), asset)];
    let units = vec![("unit_a".to_owned(), unit("unit_a")), ("unit_b".to_owned(), unit("unit_b"))];
    let placements = unit_placements(&assets, &units).unwrap();
    assert_eq!(placements[0].asset_position, 1);
    assert_eq!(placements[1].asset_position, 0);
    let groups = units_by_asset(&placements);
    let ids: Vec<&str> = groups[0].1.iter().map(|(_, id)| id.as_str()).collect();
    assert_eq!(ids, vec!["unit_b", "unit_a"]);

    let stray = vec![("unit_c".to_owned(), unit("unit_c"))];
    let err = unit_placements(&assets, &stray).unwrap_err();
    assert_eq!(err, "unit `unit_c` is missing from asset `asset_1` unit_ids");
}

#[test]
fn query_assets_written_and_loaded_back_are_unchanged() {
    let asset = TempQueryAssetRecord {
        id: "qa_1".to_owned(),
        owner_scope: "global".to_owned(),
        library_id: None,
        path: "/rt/temp-assets/documents/query-document-1.pdf".to_owned(),
        source_type: "pdf".to_owned(),
        content_type: "application/pdf".to_owned(),
        original_filename: Some("paper.pdf".to_owned()),
        page_count: Some(12),
        duration_ms: None,
        size_bytes: 2048,
        created_at_ms: 100,
        expires_at_ms: 3_600_100,
    };
    let row = query_asset_row(&asset).unwrap();
    let loaded = load_query_assets("/s.db", vec![row]).unwrap();
    let back = &loaded.records[0].1;
    assert_eq!(back.id, asset.id);
    assert_eq!(back.page_count, Some(12));
    assert_eq!(back.size_bytes, 2048);
    assert_eq!(back.expires_at_ms, 3_600_100);
    assert_eq!(back.original_filename.as_deref(), Some("paper.pdf"));

    let too_late = TempQueryAssetRecord { expires_at_ms: u128::MAX, ..asset };
    assert_eq!(query_asset_row(&too_late).unwrap_err(), "query_assets.expires_at_ms exceeds SQLite INTEGER range");
}
