use fauni_search::json::Json;
use fauni_search::locations::{
    attach_location_assets, hydrate_location_fields, load_source_asset_locations, SourceAssetLocationRecord,
    SourceAssetLocationRow,
};
use fauni_search::snapshot_load::LibraryRecords;
use fauni_search::model::SourceRecord;
use fauni_search::shared_load::{AssetRecord, UnitRecord};

fn source(id: &str, path: &str) -> SourceRecord {
    SourceRecord {
        id: id.to_owned(),
        source_root_id: None,
        source_root_path: None,
        source_path: path.to_owned(),
        source_uri: format!("file://{path}"),
        relative_path: None,
        source_type: "document".to_owned(),
        media_type: "application/pdf".to_owned(),
        kind: "document".to_owned(),
        status: "active".to_owned(),
        status_reason: None,
        page_count: None,
        duration_ms: None,
        observed_size_bytes: None,
        observed_modified_at_ms: None,
        source_content_id: "content".to_owned(),
        asset_ids: Vec::new(),
    }
}

fn asset(id: &str, units: &[&str]) -> AssetRecord {
    AssetRecord {
        id: id.to_owned(),
        source_id: String::new(),
        content_id: String::new(),
        source_path: String::new(),
        source_type: String::new(),
        source_content_id: "content".to_owned(),
        asset_type: "document_page".to_owned(),
        locator: Json::Null,
        derivation_signature: "pdf-page:v1:1".to_owned(),
        neighbor_context: Json::Null,
        unit_ids: units.iter().map(|u| u.to_string()).collect(),
    }
}

fn unit(id: &str, asset: &str) -> UnitRecord {
    UnitRecord {
        id: id.to_owned(),
        asset_id: asset.to_owned(),
        content_id: String::new(),
        point_id: 1,
        source_id: String::new(),
        source_path: String::new(),
        source_type: String::new(),
        asset_type: String::new(),
        unit_type: "page".to_owned(),
        derivation_signature: "pdf-page:v1:1".to_owned(),
        locator: Json::Null,
        neighbor_context: Json::Null,
    }
}

fn location(id: &str, source_id: &str, asset_id: &str) -> (String, SourceAssetLocationRecord) {
    (
        id.to_owned(),
        SourceAssetLocationRecord {
            id: id.to_owned(),
            source_id: source_id.to_owned(),
            asset_id: asset_id.to_owned(),
            locator: Json::Null,
            visibility: "active".to_owned(),
        },
    )
}

#[test]
fn assets_and_units_take_their_source_fields() {
    let sources = vec![("src_1".to_owned(), source("src_1", "/tmp/root/report.pdf"))];
    let locations = vec![location("loc_1", "src_1", "asset_1")];
    let mut assets = vec![("asset_1".to_owned(), asset("asset_1", &["unit_1"]))];
    let mut units = vec![("unit_1".to_owned(), unit("unit_1", "asset_1")), ("unit_2".to_owned(), unit("unit_2", "asset_9"))];
    hydrate_location_fields(&vec!["loc_1".to_owned()], &locations, &sources, &mut assets, &mut units);
    assert_eq!(assets[0].1.source_id, "src_1");
    assert_eq!(assets[0].1.source_path, "/tmp/root/report.pdf");
    assert_eq!(assets[0].1.source_type, "document");
    assert_eq!(units[0].1.source_id, "src_1");
    assert_eq!(units[0].1.asset_type, "document_page");
    // A unit that no located asset lists keeps its fields.
    assert_eq!(units[1].1.source_id, "");
}

#[test]
fn the_last_location_of_an_asset_wins() {
    let sources = vec![
        ("src_1".to_owned(), source("src_1", "/a.pdf")),
        ("src_2".to_owned(), source("src_2", "/b.pdf")),
    ];
    let locations = vec![location("loc_1", "src_1", "asset_1"), location("loc_2", "src_2", "asset_1")];
    let mut assets = vec![("asset_1".to_owned(), asset("asset_1", &[]))];
    let mut units: Vec<(String, UnitRecord)> = Vec::new();
    hydrate_location_fields(&vec!["loc_1".to_owned(), "loc_2".to_owned()], &locations, &sources, &mut assets, &mut units);
    assert_eq!(assets[0].1.source_path, "/b.pdf");
}

#[test]
fn locations_of_missing_sources_are_passed_over() {
    let locations = vec![location("loc_1", "src_x", "asset_1")];
    let mut assets = vec![("asset_1".to_owned(), asset("asset_1", &[]))];
    let mut units: Vec<(String, UnitRecord)> = Vec::new();
    hydrate_location_fields(&vec!["loc_1".to_owned(), "loc_9".to_owned()], &locations, &Vec::new(), &mut assets, &mut units);
    assert_eq!(assets[0].1.source_id, "");
}

fn location_row(library: &str, id: &str, source_id: &str, asset_id: &str, locator: Result<Json, String>) -> SourceAssetLocationRow {
    SourceAssetLocationRow {
        library_id: library.to_owned(),
        location_id: id.to_owned(),
        source_id: source_id.to_owned(),
        asset_id: asset_id.to_owned(),
        locator_json: locator,
        visibility: "active".to_owned(),
    }
}

#[test]
fn locations_load_into_their_library_and_attach_assets() {
    let mut buckets: Vec<LibraryRecords<SourceAssetLocationRecord>> =
        vec![LibraryRecords { library_id: "alpha".to_owned(), order: Vec::new(), records: Vec::new() }];
    let rows = vec![
        location_row("alpha", "loc_1", "src_1", "asset_2", Ok(Json::Null)),
        location_row("alpha", "loc_2", "src_1", "asset_1", Ok(Json::Null)),
    ];
    let mut sources = vec![LibraryRecords {
        library_id: "alpha".to_owned(),
        order: vec!["src_1".to_owned()],
        records: vec![("src_1".to_owned(), source("src_1", "/a.pdf"))],
    }];
    attach_location_assets(&mut sources, &rows);
    load_source_asset_locations("/s.db", &mut buckets, rows).unwrap();
    assert_eq!(buckets[0].order, vec!["loc_1".to_owned(), "loc_2".to_owned()]);
    assert_eq!(buckets[0].records[1].1.asset_id, "asset_1");
    assert_eq!(sources[0].records[0].1.asset_ids, vec!["asset_2".to_owned(), "asset_1".to_owned()]);
}

#[test]
fn location_of_a_missing_library_is_refused_before_its_locator() {
    let mut buckets: Vec<LibraryRecords<SourceAssetLocationRecord>> = Vec::new();
    let err = load_source_asset_locations(
        "/s.db",
        &mut buckets,
        vec![location_row("beta", "loc_1", "src_1", "asset_1", Err("bad".to_owned()))],
    )
    .unwrap_err();
    assert_eq!(
        err.message,
        "Invalid durable state store /s.db: source_asset_location loc_1 references missing library beta"
    );
    let mut buckets: Vec<LibraryRecords<SourceAssetLocationRecord>> =
        vec![LibraryRecords { library_id: "beta".to_owned(), order: Vec::new(), records: Vec::new() }];
    let err = load_source_asset_locations(
        "/s.db",
        &mut buckets,
        vec![location_row("beta", "loc_1", "src_1", "asset_1", Err("bad".to_owned()))],
    )
    .unwrap_err();
    assert_eq!(
        err.message,
        "Invalid durable state store /s.db: failed to decode source_asset_locations.locator_json JSON payload: bad"
    );
}
