use fauni_search::unit_order::{asset_units, missing_unit_asset, units_by_asset, UnitPlacement};

fn unit(asset: &str, position: i64, id: &str) -> UnitPlacement {
    UnitPlacement { asset_id: asset.to_owned(), asset_position: position, unit_id: id.to_owned() }
}

fn ids(units: &[(i64, String)]) -> Vec<&str> {
    units.iter().map(|(_, id)| id.as_str()).collect()
}

#[test]
fn units_are_attached_in_position_order() {
    let rows = vec![
        unit("asset_2", 1, "unit_c"),
        unit("asset_1", 2, "unit_b"),
        unit("asset_1", 1, "unit_a"),
        unit("asset_2", 0, "unit_d"),
    ];
    let groups = units_by_asset(&rows);
    assert_eq!(groups.len(), 2);
    assert_eq!(groups[0].0, "asset_1");
    assert_eq!(ids(&groups[0].1), vec!["unit_a", "unit_b"]);
    assert_eq!(groups[1].0, "asset_2");
    assert_eq!(ids(&groups[1].1), vec!["unit_d", "unit_c"]);
}

#[test]
fn units_at_the_same_position_keep_their_row_order() {
    let rows = vec![
        unit("asset_1", 3, "late"),
        unit("asset_1", 1, "first"),
        unit("asset_1", 1, "second"),
        unit("asset_1", 1, "third"),
    ];
    let sorted = asset_units(&rows, &"asset_1".to_owned());
    assert_eq!(ids(&sorted), vec!["first", "second", "third", "late"]);
}

#[test]
fn units_of_an_unloaded_asset_are_reported() {
    let groups = units_by_asset(&vec![unit("asset_1", 0, "u1"), unit("asset_9", 0, "u2")]);
    assert_eq!(missing_unit_asset(&groups, &vec!["asset_1".to_owned()]).as_deref(), Some("missing asset asset_9 while assigning units"));
    assert_eq!(missing_unit_asset(&groups, &vec!["asset_1".to_owned(), "asset_9".to_owned()]), None);
}
