use fauni_search::asset_units::load_units_into_libraries;
use fauni_search::error::IoErrorKind;
use fauni_search::json::Json;
use fauni_search::shared_load::{AssetRecord, KeyedRecords, UnitRow};

fn unit_row(id: &str, asset: &str, position: i64, point_id: i64) -> UnitRow {
    UnitRow {
        unit_id: id.to_owned(),
        asset_id: asset.to_owned(),
        asset_position: position,
        point_id,
        unit_type: "page".to_owned(),
        derivation_signature: "pdf-page:v1:1".to_owned(),
        locator_json: Ok(Json::Object(Vec::new())),
        neighbor_context_json: Ok(Json::Object(Vec::new())),
    }
}

fn asset(id: &str) -> AssetRecord {
    AssetRecord {
        id: id.to_owned(),
        source_id: "src".to_owned(),
        content_id: "c".to_owned(),
        source_path: "/docs/a.pdf".to_owned(),
        source_type: "pdf".to_owned(),
        source_content_id: "sc".to_owned(),
        asset_type: "document_page".to_owned(),
        locator: Json::Null,
        derivation_signature: "d".to_owned(),
        neighbor_context: Json::Null,
        unit_ids: vec!["stale".to_owned()],
    }
}

fn assets(ids: &[&str]) -> KeyedRecords<AssetRecord> {
    KeyedRecords {
        order: ids.iter().map(|s| s.to_string()).collect(),
        records: ids.iter().map(|s| (s.to_string(), asset(s))).collect(),
    }
}

#[test]
fn units_are_attached_to_their_assets_by_position() {
    let mut loaded = assets(&["a1", "a2", "a3"]);
    let rows = vec![
        unit_row("u3", "a1", 2, 3),
        unit_row("u1", "a1", 0, 1),
        unit_row("u4", "a2", 0, 4),
        unit_row("u2", "a1", 1, 2),
    ];
    let units = load_units_into_libraries("/s.db", rows, true, &mut loaded).unwrap();
    assert_eq!(units.units.order, vec!["u3", "u1", "u4", "u2"]);
    assert_eq!(loaded.records[0].1.unit_ids, vec!["u1", "u2", "u3"]);
    assert_eq!(loaded.records[1].1.unit_ids, vec!["u4"]);
    assert_eq!(loaded.records[2].1.unit_ids, vec!["stale"]);
    assert_eq!(loaded.records[0].1.source_path, "/docs/a.pdf");
}

#[test]
fn a_unit_of_an_asset_that_is_not_loaded_is_refused() {
    let mut loaded = assets(&["a1"]);
    let rows = vec![unit_row("u1", "zz", 0, 1), unit_row("u2", "b9", 0, 2), unit_row("u3", "a1", 0, 3)];
    let err = load_units_into_libraries("/s.db", rows, true, &mut loaded).unwrap_err();
    assert_eq!(err.kind(), IoErrorKind::InvalidData);
    assert_eq!(err.message(), "Invalid durable state store /s.db: missing asset b9 while assigning units");
    assert_eq!(loaded.records[0].1.unit_ids, vec!["stale"]);
}

#[test]
fn without_libraries_nothing_is_attached() {
    let mut loaded = assets(&[]);
    let rows = vec![unit_row("u1", "zz", 0, 1)];
    let units = load_units_into_libraries("/s.db", rows, false, &mut loaded).unwrap();
    assert_eq!(units.units.order, vec!["u1"]);
    assert!(loaded.records.is_empty());
}

#[test]
fn a_negative_point_id_fails_before_assets_are_checked() {
    let mut loaded = assets(&["a1"]);
    let rows = vec![unit_row("u1", "zz", 0, -1)];
    let err = load_units_into_libraries("/s.db", rows, true, &mut loaded).unwrap_err();
    assert_eq!(err.kind(), IoErrorKind::InvalidData);
    assert!(err.message().contains("units.point_id"));
}
