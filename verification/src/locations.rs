use vstd::prelude::*;
use crate::config::lookup;
use crate::json::{string_views, Json};
use crate::model::SourceRecord;
use crate::shared_load::{AssetRecord, UnitRecord};
use crate::error::{IoError, IoErrorKind};
use crate::persistence::{decode_message, invalid_data, invalid_data_message, ParsedColumn};
use crate::snapshot_load::{
    find_library, library_index, missing_library_message, place_outcome, place_rows, LibraryRecords, PlacedRow,
};
use crate::text::{append_str, chars_eq, chars_of, string_of};

verus! {

/// Where an asset sits in a source.
#[derive(Debug)]
pub struct SourceAssetLocationRecord {
    pub id: String,
    pub source_id: String,
    pub asset_id: String,
    pub locator: Json,
    pub visibility: String,
}

/// The location that `id` names and its source, when both are held.
pub open spec fn located(
    locations: Seq<(String, SourceAssetLocationRecord)>,
    sources: Seq<(String, SourceRecord)>,
    id: Seq<char>,
) -> Option<(SourceAssetLocationRecord, SourceRecord)> {
    match lookup(locations, id) {
        Some(l) => match lookup(sources, l.source_id@) {
            Some(s) => Some((l, s)),
            None => None,
        },
        None => None,
    }
}

/// The source of the last location in `order` that places the asset `k` in a held source.
pub open spec fn asset_source(
    order: Seq<String>,
    locations: Seq<(String, SourceAssetLocationRecord)>,
    sources: Seq<(String, SourceRecord)>,
    k: Seq<char>,
) -> Option<SourceRecord>
    decreases order.len(),
{
    if order.len() == 0 {
        None
    } else {
        match located(locations, sources, order.last()@) {
            Some((l, s)) => if l.asset_id@ == k { Some(s) } else { asset_source(order.drop_last(), locations, sources, k) },
            None => asset_source(order.drop_last(), locations, sources, k),
        }
    }
}

/// The source and asset type of the last location in `order` whose held asset lists the
/// unit `k`.
pub open spec fn unit_source(
    order: Seq<String>,
    locations: Seq<(String, SourceAssetLocationRecord)>,
    sources: Seq<(String, SourceRecord)>,
    assets: Seq<(String, AssetRecord)>,
    k: Seq<char>,
) -> Option<(SourceRecord, String)>
    decreases order.len(),
{
    if order.len() == 0 {
        None
    } else {
        match located(locations, sources, order.last()@) {
            Some((l, s)) => match lookup(assets, l.asset_id@) {
                Some(a) => if string_views(a.unit_ids@).contains(k) {
                    Some((s, a.asset_type))
                } else {
                    unit_source(order.drop_last(), locations, sources, assets, k)
                },
                None => unit_source(order.drop_last(), locations, sources, assets, k),
            },
            None => unit_source(order.drop_last(), locations, sources, assets, k),
        }
    }
}

/// The asset with the source fields of `s`.
pub open spec fn asset_in_source(a: AssetRecord, s: SourceRecord) -> AssetRecord {
    AssetRecord { source_id: s.id, source_path: s.source_path, source_type: s.source_type, ..a }
}

/// The unit with the source fields of `s` and the asset type `t`.
pub open spec fn unit_in_source(u: UnitRecord, s: SourceRecord, t: String) -> UnitRecord {
    UnitRecord { source_id: s.id, source_path: s.source_path, source_type: s.source_type, asset_type: t, ..u }
}

/// The asset `k` once the locations in `order` are applied.
pub open spec fn hydrated_asset(
    order: Seq<String>,
    locations: Seq<(String, SourceAssetLocationRecord)>,
    sources: Seq<(String, SourceRecord)>,
    assets: Seq<(String, AssetRecord)>,
    k: Seq<char>,
) -> Option<AssetRecord> {
    match lookup(assets, k) {
        Some(a) => Some(
            match asset_source(order, locations, sources, k) {
                Some(s) => asset_in_source(a, s),
                None => a,
            },
        ),
        None => None,
    }
}

/// The unit `k` once the locations in `order` are applied.
pub open spec fn hydrated_unit(
    order: Seq<String>,
    locations: Seq<(String, SourceAssetLocationRecord)>,
    sources: Seq<(String, SourceRecord)>,
    assets: Seq<(String, AssetRecord)>,
    units: Seq<(String, UnitRecord)>,
    k: Seq<char>,
) -> Option<UnitRecord> {
    match lookup(units, k) {
        Some(u) => Some(
            match unit_source(order, locations, sources, assets, k) {
                Some((s, t)) => unit_in_source(u, s, t),
                None => u,
            },
        ),
        None => None,
    }
}

proof fn lemma_first_index<T>(v: Seq<(String, T)>, k: Seq<char>, i: int)
    requires
        0 <= i <= v.len(),
        forall|j: int| 0 <= j < i ==> v[j].0@ != k,
    ensures
        i < v.len() && v[i].0@ == k ==> lookup(v, k) == Some(v[i].1),
        i == v.len() ==> lookup(v, k) is None,
    decreases i,
{
    if i > 0 {
        let t = v.drop_first();
        assert forall|j: int| 0 <= j < i - 1 implies t[j].0@ != k by {
            assert(t[j] == v[j + 1]);
        }
        lemma_first_index(t, k, i - 1);
        if i < v.len() {
            assert(t[i - 1] == v[i]);
        }
    }
}

pub(crate) fn first_index<T>(v: &Vec<(String, T)>, k: &str) -> (r: Option<usize>)
    ensures
        match r {
            Some(i) => i < v@.len() && v@[i as int].0@ == k@ && (forall|j: int| 0 <= j < i ==> v@[j].0@ != k@)
                && lookup(v@, k@) == Some(v@[i as int].1),
            None => lookup(v@, k@) is None,
        },
{
    let want = chars_of(k);
    let mut i: usize = 0;
    while i < v.len()
        invariant
            i <= v@.len(),
            want@ == k@,
            forall|j: int| 0 <= j < i ==> v@[j].0@ != k@,
        decreases v.len() - i,
    {
        if chars_eq(&chars_of(v[i].0.as_str()), &want) {
            proof {
                lemma_first_index(v@, k@, i as int);
            }
            return Some(i);
        }
        i += 1;
    }
    proof {
        lemma_first_index(v@, k@, i as int);
    }
    None
}

pub(crate) fn replace_at<T>(v: &mut Vec<(String, T)>, i: usize, value: T) -> (old_value: T)
    requires
        i < old(v)@.len(),
    ensures
        old_value == old(v)@[i as int].1,
        final(v)@ == old(v)@.update(i as int, (old(v)@[i as int].0, value)),
{
    let (key, old_value) = v.remove(i);
    v.insert(i, (key, value));
    old_value
}

pub(crate) proof fn lemma_replace_first<T>(v: Seq<(String, T)>, i: int, value: T, k: Seq<char>)
    requires
        0 <= i < v.len(),
        forall|j: int| 0 <= j < i ==> v[j].0@ != v[i].0@,
    ensures
        lookup(v.update(i, (v[i].0, value)), k) == if k == v[i].0@ { Some(value) } else { lookup(v, k) },
{
    crate::serve::lemma_lookup_replace(v, i, (v[i].0, value), k);
}

/// Gives each asset and unit the source fields of the last location, in `order`, that places
/// it in a held source: an asset through the location's asset, a unit through the units that
/// the asset lists (with the asset's type). Locations, sources and assets that are not held
/// are passed over; nothing else changes.
pub fn hydrate_location_fields(
    order: &Vec<String>,
    locations: &Vec<(String, SourceAssetLocationRecord)>,
    sources: &Vec<(String, SourceRecord)>,
    assets: &mut Vec<(String, AssetRecord)>,
    units: &mut Vec<(String, UnitRecord)>,
)
    ensures
        forall|k: Seq<char>| #[trigger] lookup(final(assets)@, k) == hydrated_asset(order@, locations@, sources@, old(assets)@, k),
        forall|k: Seq<char>| #[trigger] lookup(final(units)@, k) == hydrated_unit(
            order@,
            locations@,
            sources@,
            old(assets)@,
            old(units)@,
            k,
        ),
{
    let ghost assets0 = assets@;
    let ghost units0 = units@;
    let mut i: usize = 0;
    while i < order.len()
        invariant
            i <= order@.len(),
            forall|k: Seq<char>| #[trigger] lookup(assets@, k) == hydrated_asset(order@.take(i as int), locations@, sources@, assets0, k),
            forall|k: Seq<char>| #[trigger] lookup(units@, k) == hydrated_unit(order@.take(i as int), locations@, sources@, assets0, units0, k),
        decreases order.len() - i,
    {
        let ghost t = order@.take(i + 1);
        let ghost prev = order@.take(i as int);
        proof {
            assert(t.drop_last() =~= prev);
            assert(t.last() == order@[i as int]);
        }
        let li = first_index(locations, order[i].as_str());
        let location = match li {
            Some(li) => &locations[li].1,
            None => {
                proof {
                    assert forall|k: Seq<char>| #[trigger] lookup(assets@, k) == hydrated_asset(t, locations@, sources@, assets0, k) by {
                        assert(asset_source(t, locations@, sources@, k) == asset_source(prev, locations@, sources@, k));
                    }
                    assert forall|k: Seq<char>| #[trigger] lookup(units@, k) == hydrated_unit(t, locations@, sources@, assets0, units0, k) by {
                        assert(unit_source(t, locations@, sources@, assets0, k) == unit_source(prev, locations@, sources@, assets0, k));
                    }
                }
                i += 1;
                continue;
            },
        };
        let si = first_index(sources, location.source_id.as_str());
        let source = match si {
            Some(si) => &sources[si].1,
            None => {
                proof {
                    assert forall|k: Seq<char>| #[trigger] lookup(assets@, k) == hydrated_asset(t, locations@, sources@, assets0, k) by {
                        assert(asset_source(t, locations@, sources@, k) == asset_source(prev, locations@, sources@, k));
                    }
                    assert forall|k: Seq<char>| #[trigger] lookup(units@, k) == hydrated_unit(t, locations@, sources@, assets0, units0, k) by {
                        assert(unit_source(t, locations@, sources@, assets0, k) == unit_source(prev, locations@, sources@, assets0, k));
                    }
                }
                i += 1;
                continue;
            },
        };
        assert(located(locations@, sources@, order@[i as int]@) == Some((*location, *source)));
        let ai = first_index(assets, location.asset_id.as_str());
        match ai {
            None => {
                proof {
                    assert(lookup(assets0, location.asset_id@) is None);
                    assert forall|k: Seq<char>| #[trigger] lookup(assets@, k) == hydrated_asset(t, locations@, sources@, assets0, k) by {
                        if k != location.asset_id@ {
                            assert(asset_source(t, locations@, sources@, k) == asset_source(prev, locations@, sources@, k));
                        }
                    }
                    assert forall|k: Seq<char>| #[trigger] lookup(units@, k) == hydrated_unit(t, locations@, sources@, assets0, units0, k) by {
                        assert(unit_source(t, locations@, sources@, assets0, k) == unit_source(prev, locations@, sources@, assets0, k));
                    }
                }
            },
            Some(ai) => {
                let ghost before_assets = assets@;
                let ghost a0 = lookup(assets0, location.asset_id@)->0;
                let mut asset = replace_at(assets, ai, placeholder_asset());
                asset.source_id = source.id.clone();
                asset.source_path = source.source_path.clone();
                asset.source_type = source.source_type.clone();
                replace_at(assets, ai, asset);
                proof {
                    assert(assets@ == before_assets.update(ai as int, (before_assets[ai as int].0, assets@[ai as int].1)));
                    assert forall|k: Seq<char>| #[trigger] lookup(assets@, k) == hydrated_asset(t, locations@, sources@, assets0, k) by {
                        lemma_replace_first(before_assets, ai as int, assets@[ai as int].1, k);
                        if k != location.asset_id@ {
                            assert(asset_source(t, locations@, sources@, k) == asset_source(prev, locations@, sources@, k));
                        }
                    }
                }
                let asset_ref = &assets[ai].1;
                let ghost unit_ids = asset_ref.unit_ids@;
                assert(string_views(unit_ids) == string_views(a0.unit_ids@));
                let ghost units_i = units@;
                let mut j: usize = 0;
                while j < asset_ref.unit_ids.len()
                    invariant
                        j <= unit_ids.len(),
                        unit_ids == asset_ref.unit_ids@,
                        asset_ref.asset_type == a0.asset_type,
                        forall|k: Seq<char>| #[trigger] lookup(units@, k) == match lookup(units0, k) {
                            Some(u) => Some(
                                if string_views(unit_ids.take(j as int)).contains(k) {
                                    unit_in_source(u, *source, a0.asset_type)
                                } else {
                                    match unit_source(prev, locations@, sources@, assets0, k) {
                                        Some((s, ty)) => unit_in_source(u, s, ty),
                                        None => u,
                                    }
                                },
                            ),
                            None => None,
                        },
                    decreases asset_ref.unit_ids.len() - j,
                {
                    let uid = &asset_ref.unit_ids[j];
                    let ghost before_units = units@;
                    proof {
                        assert(string_views(unit_ids.take(j + 1)) =~= string_views(unit_ids.take(j as int)).push(uid@));
                    }
                    match first_index(units, uid.as_str()) {
                        Some(ui) => {
                            let mut unit = replace_at(units, ui, placeholder_unit());
                            unit.source_id = source.id.clone();
                            unit.source_path = source.source_path.clone();
                            unit.source_type = source.source_type.clone();
                            unit.asset_type = asset_ref.asset_type.clone();
                            replace_at(units, ui, unit);
                            proof {
                                assert(units@ == before_units.update(ui as int, (before_units[ui as int].0, units@[ui as int].1)));
                                assert forall|k: Seq<char>| #[trigger] lookup(units@, k) == match lookup(units0, k) {
                                    Some(u) => Some(
                                        if string_views(unit_ids.take(j + 1)).contains(k) {
                                            unit_in_source(u, *source, a0.asset_type)
                                        } else {
                                            match unit_source(prev, locations@, sources@, assets0, k) {
                                                Some((s, ty)) => unit_in_source(u, s, ty),
                                                None => u,
                                            }
                                        },
                                    ),
                                    None => None,
                                } by {
                                    lemma_replace_first(before_units, ui as int, units@[ui as int].1, k);
                                    let sv = string_views(unit_ids.take(j as int));
                                    if sv.contains(k) {
                                        let idx = choose|idx: int| 0 <= idx < sv.len() && sv[idx] == k;
                                        assert(sv.push(uid@)[idx] == k);
                                    }
                                    if k == uid@ {
                                        assert(sv.push(uid@)[sv.len() as int] == k);
                                        assert(lookup(before_units, k) == Some(before_units[ui as int].1));
                                        let u0 = lookup(units0, k)->0;
                                        assert(lookup(units0, k) is Some);
                                        let nu = units@[ui as int].1;
                                        let want = unit_in_source(u0, *source, a0.asset_type);
                                        assert(nu.id == want.id);
                                        assert(nu.asset_id == want.asset_id);
                                        assert(nu.content_id == want.content_id);
                                        assert(nu.point_id == want.point_id);
                                        assert(nu.unit_type == want.unit_type);
                                        assert(nu.derivation_signature == want.derivation_signature);
                                        assert(nu.locator == want.locator);
                                        assert(nu.neighbor_context == want.neighbor_context);
                                        assert(nu == want);
                                    }
                                }
                            }
                        },
                        None => {
                            proof {
                                assert forall|k: Seq<char>| #[trigger] lookup(units@, k) == match lookup(units0, k) {
                                    Some(u) => Some(
                                        if string_views(unit_ids.take(j + 1)).contains(k) {
                                            unit_in_source(u, *source, a0.asset_type)
                                        } else {
                                            match unit_source(prev, locations@, sources@, assets0, k) {
                                                Some((s, ty)) => unit_in_source(u, s, ty),
                                                None => u,
                                            }
                                        },
                                    ),
                                    None => None,
                                } by {
                                    let sv = string_views(unit_ids.take(j as int));
                                    if k == uid@ {
                                        assert(lookup(units0, k) is None) by {
                                            assert(lookup(before_units, k) is None);
                                        }
                                    } else {
                                        if sv.push(uid@).contains(k) {
                                            let idx = choose|idx: int| 0 <= idx < sv.push(uid@).len() && sv.push(uid@)[idx] == k;
                                            assert(idx < sv.len());
                                            assert(sv[idx] == k);
                                        }
                                        if sv.contains(k) {
                                            let idx = choose|idx: int| 0 <= idx < sv.len() && sv[idx] == k;
                                            assert(sv.push(uid@)[idx] == k);
                                        }
                                    }
                                }
                            }
                        },
                    }
                    j += 1;
                }
                proof {
                    assert(unit_ids.take(unit_ids.len() as int) =~= unit_ids);
                    assert forall|k: Seq<char>| #[trigger] lookup(units@, k) == hydrated_unit(t, locations@, sources@, assets0, units0, k) by {
                        assert(lookup(assets0, location.asset_id@) == Some(a0));
                    }
                }
            },
        }
        i += 1;
    }
    assert(order@.take(order@.len() as int) =~= order@);
}

/// An asset record with every text empty, no units and null documents: what stands in a
/// slot while its record is taken out to be edited.
pub(crate) fn placeholder_asset() -> (r: AssetRecord)
    ensures
        r.id@.len() == 0,
        r.source_id@.len() == 0,
        r.content_id@.len() == 0,
        r.source_path@.len() == 0,
        r.source_type@.len() == 0,
        r.source_content_id@.len() == 0,
        r.asset_type@.len() == 0,
        r.locator == Json::Null,
        r.derivation_signature@.len() == 0,
        r.neighbor_context == Json::Null,
        r.unit_ids@.len() == 0,
{
    AssetRecord {
        id: String::new(),
        source_id: String::new(),
        content_id: String::new(),
        source_path: String::new(),
        source_type: String::new(),
        source_content_id: String::new(),
        asset_type: String::new(),
        locator: Json::Null,
        derivation_signature: String::new(),
        neighbor_context: Json::Null,
        unit_ids: Vec::new(),
    }
}

/// A unit record with every text empty, point 0 and null documents: what stands in a slot
/// while its record is taken out to be edited.
fn placeholder_unit() -> (r: UnitRecord)
    ensures
        r.id@.len() == 0,
        r.asset_id@.len() == 0,
        r.content_id@.len() == 0,
        r.point_id == 0,
        r.source_id@.len() == 0,
        r.source_path@.len() == 0,
        r.source_type@.len() == 0,
        r.asset_type@.len() == 0,
        r.unit_type@.len() == 0,
        r.derivation_signature@.len() == 0,
        r.locator == Json::Null,
        r.neighbor_context == Json::Null,
{
    UnitRecord {
        id: String::new(),
        asset_id: String::new(),
        content_id: String::new(),
        point_id: 0,
        source_id: String::new(),
        source_path: String::new(),
        source_type: String::new(),
        asset_type: String::new(),
        unit_type: String::new(),
        derivation_signature: String::new(),
        locator: Json::Null,
        neighbor_context: Json::Null,
    }
}

/// A row of the `source_asset_locations` table as read, its locator parsed.
#[derive(Debug)]
pub struct SourceAssetLocationRow {
    pub library_id: String,
    pub location_id: String,
    pub source_id: String,
    pub asset_id: String,
    pub locator_json: ParsedColumn,
    pub visibility: String,
}

/// `placed` is the location row decoded against the loaded libraries: a missing library is
/// reported before a locator that does not parse.
pub open spec fn location_row_decoded(
    path: Seq<char>,
    libs: Seq<LibraryRecords<SourceAssetLocationRecord>>,
    row: SourceAssetLocationRow,
    placed: PlacedRow<SourceAssetLocationRecord>,
) -> bool {
    &&& placed.library_id == row.library_id
    &&& placed.id == row.location_id
    &&& if library_index(libs, row.library_id@) is None {
        placed.record matches Err(e) && e.kind == IoErrorKind::InvalidData && e.message@ == invalid_data_message(
            path,
            missing_library_message("source_asset_location"@, row.location_id@, row.library_id@),
        )
    } else {
        match row.locator_json {
            Err(m) => placed.record matches Err(e) && e.kind == IoErrorKind::InvalidData && e.message@
                == invalid_data_message(path, decode_message("source_asset_locations.locator_json"@, m@)),
            Ok(j) => placed.record == Ok::<SourceAssetLocationRecord, IoError>(
                SourceAssetLocationRecord {
                    id: row.location_id,
                    source_id: row.source_id,
                    asset_id: row.asset_id,
                    locator: j,
                    visibility: row.visibility,
                },
            ),
        }
    }
}

fn decode_location_row(
    path: &str,
    libs: &Vec<LibraryRecords<SourceAssetLocationRecord>>,
    row: SourceAssetLocationRow,
) -> (r: PlacedRow<SourceAssetLocationRecord>)
    ensures
        location_row_decoded(path@, libs@, row, r),
{
    let SourceAssetLocationRow { library_id, location_id, source_id, asset_id, locator_json, visibility } = row;
    if find_library(libs, library_id.as_str()).is_none() {
        let e = crate::snapshot_load::missing_library(path, "source_asset_location", location_id.as_str(), library_id.as_str());
        return PlacedRow { library_id, id: location_id, record: Err(e) };
    }
    let record = match locator_json {
        Ok(j) => Ok(SourceAssetLocationRecord { id: location_id.clone(), source_id, asset_id, locator: j, visibility }),
        Err(m) => {
            let mut t = chars_of("failed to decode ");
            append_str(&mut t, "source_asset_locations.locator_json");
            append_str(&mut t, " JSON payload: ");
            append_str(&mut t, m.as_str());
            Err(invalid_data(path, string_of(&t).as_str()))
        },
    };
    PlacedRow { library_id, id: location_id, record }
}

/// Loads the `source_asset_locations` rows into their libraries, in row order (see
/// `place_outcome`; the rows are called `source_asset_location`).
pub fn load_source_asset_locations(
    path: &str,
    libs: &mut Vec<LibraryRecords<SourceAssetLocationRecord>>,
    rows: Vec<SourceAssetLocationRow>,
) -> (r: Result<(), IoError>)
    ensures
        exists|placed: Seq<PlacedRow<SourceAssetLocationRecord>>|
            {
                &&& placed.len() == rows@.len()
                &&& forall|i: int| 0 <= i < rows@.len() ==> location_row_decoded(path@, old(libs)@, #[trigger] rows@[i], placed[i])
                &&& place_outcome(path@, "source_asset_location"@, old(libs)@, final(libs)@, placed, r)
            },
{
    let ghost all = rows@;
    let mut rest = crate::json::reversed(rows);
    let mut placed: Vec<PlacedRow<SourceAssetLocationRecord>> = Vec::new();
    while rest.len() > 0
        invariant
            placed@.len() + rest@.len() == all.len(),
            rest@ == all.skip(placed@.len() as int).reverse(),
            libs@ == old(libs)@,
            forall|i: int| 0 <= i < placed@.len() ==> location_row_decoded(path@, libs@, #[trigger] all[i], placed@[i]),
        decreases rest.len(),
    {
        let ghost i = placed@.len() as int;
        let row = rest.pop().unwrap();
        assert(row == all[i]) by {
            assert(all.skip(i).reverse().last() == all.skip(i)[0]);
        }
        assert(rest@ =~= all.skip(i + 1).reverse());
        placed.push(decode_location_row(path, libs, row));
    }
    let ghost decoded = placed@;
    let r = place_rows(path, "source_asset_location", libs, placed);
    assert(decoded.len() == all.len());
    r
}

/// The asset ids of the location rows, in order, that name the source `k` of the library
/// at `j`.
pub open spec fn attached_assets(
    rows: Seq<SourceAssetLocationRow>,
    libs: Seq<LibraryRecords<SourceRecord>>,
    j: int,
    k: Seq<char>,
) -> Seq<String>
    decreases rows.len(),
{
    if rows.len() == 0 {
        seq![]
    } else if library_index(libs, rows.last().library_id@) == Some(j) && rows.last().source_id@ == k {
        attached_assets(rows.drop_last(), libs, j, k).push(rows.last().asset_id)
    } else {
        attached_assets(rows.drop_last(), libs, j, k)
    }
}

/// `s2` is `s` with `extra` appended to its assets.
pub open spec fn with_assets(s: SourceRecord, s2: SourceRecord, extra: Seq<String>) -> bool {
    s2 == SourceRecord { asset_ids: s2.asset_ids, ..s } && s2.asset_ids@ == s.asset_ids@ + extra
}

/// The source as found after the rows are attached: absent if it was absent, else with the
/// extra assets appended.
pub open spec fn source_attached(before: Option<SourceRecord>, after: Option<SourceRecord>, extra: Seq<String>) -> bool {
    match before {
        Some(s) => after matches Some(s2) && with_assets(s, s2, extra),
        None => after is None,
    }
}

/// The library at `j` of `new` is that of `old`, each of its sources with the assets of the
/// rows that locate something in it appended.
pub open spec fn library_attached(
    old: Seq<LibraryRecords<SourceRecord>>,
    new: Seq<LibraryRecords<SourceRecord>>,
    rows: Seq<SourceAssetLocationRow>,
    j: int,
) -> bool {
    &&& new[j].library_id == old[j].library_id
    &&& new[j].order == old[j].order
    &&& forall|k: Seq<char>|
        #![trigger lookup(new[j].records@, k)]
        source_attached(lookup(old[j].records@, k), lookup(new[j].records@, k), attached_assets(rows, old, j, k))
}

/// Every library of `new` is its counterpart in `old` with the rows' assets attached.
pub open spec fn assets_attached(
    old: Seq<LibraryRecords<SourceRecord>>,
    new: Seq<LibraryRecords<SourceRecord>>,
    rows: Seq<SourceAssetLocationRow>,
) -> bool {
    &&& new.len() == old.len()
    &&& forall|j: int| 0 <= j < old.len() ==> #[trigger] library_attached(old, new, rows, j)
}

fn push_asset(libs: &mut Vec<LibraryRecords<SourceRecord>>, li: usize, si: usize, asset_id: String)
    requires
        li < old(libs)@.len(),
        si < old(libs)@[li as int].records@.len(),
        forall|x: int| 0 <= x < si ==> old(libs)@[li as int].records@[x].0@ != old(libs)@[li as int].records@[si as int].0@,
    ensures
        final(libs)@.len() == old(libs)@.len(),
        forall|j: int| 0 <= j < old(libs)@.len() && j != li ==> final(libs)@[j] == old(libs)@[j],
        final(libs)@[li as int].library_id == old(libs)@[li as int].library_id,
        final(libs)@[li as int].order == old(libs)@[li as int].order,
        final(libs)@[li as int].records@ == old(libs)@[li as int].records@.update(
            si as int,
            (old(libs)@[li as int].records@[si as int].0, final(libs)@[li as int].records@[si as int].1),
        ),
        with_assets(
            old(libs)@[li as int].records@[si as int].1,
            final(libs)@[li as int].records@[si as int].1,
            seq![asset_id],
        ),
{
    let ghost before = libs@;
    let mut lib = libs.remove(li);
    let (key, mut source) = lib.records.remove(si);
    let ghost s0 = source;
    source.asset_ids.push(asset_id);
    proof {
        assert(source.asset_ids@ =~= s0.asset_ids@ + seq![asset_id]);
    }
    lib.records.insert(si, (key, source));
    libs.insert(li, lib);
    proof {
        assert forall|j: int| 0 <= j < before.len() && j != li implies libs@[j] == before[j] by {
            if j < li {
                assert(libs@[j] == before.remove(li as int)[j]);
            } else {
                assert(libs@[j] == before.remove(li as int)[j - 1]);
            }
        }
        assert(libs@[li as int].records@ =~= before[li as int].records@.update(
            si as int,
            (before[li as int].records@[si as int].0, libs@[li as int].records@[si as int].1),
        ));
    }
}

/// Appends, in row order, each location's asset to the source it names, in the location's
/// library, where that library and source are loaded.
pub fn attach_location_assets(libs: &mut Vec<LibraryRecords<SourceRecord>>, rows: &Vec<SourceAssetLocationRow>)
    ensures
        assets_attached(old(libs)@, final(libs)@, rows@),
{
    let ghost start = libs@;
    let mut i: usize = 0;
    proof {
        assert(rows@.take(0) =~= Seq::<SourceAssetLocationRow>::empty());
        assert forall|j: int| 0 <= j < start.len() implies #[trigger] library_attached(start, libs@, rows@.take(0), j) by {
            assert forall|k: Seq<char>| #![trigger lookup(libs@[j].records@, k)] source_attached(lookup(start[j].records@, k), lookup(libs@[j].records@, k), attached_assets(rows@.take(0), start, j, k)) by {
                if let Some(s) = lookup(start[j].records@, k) {
                    assert(s.asset_ids@ + Seq::<String>::empty() =~= s.asset_ids@);
                }
            }
        }
    }
    while i < rows.len()
        invariant
            i <= rows@.len(),
            assets_attached(start, libs@, rows@.take(i as int)),
        decreases rows.len() - i,
    {
        let ghost t = rows@.take(i + 1);
        let ghost prev = rows@.take(i as int);
        let ghost before = libs@;
        proof {
            assert(t.drop_last() =~= prev);
            assert(t.last() == rows@[i as int]);
            assert forall|j: int| 0 <= j < before.len() implies before[j].library_id@ == start[j].library_id@ by {
                assert(library_attached(start, before, prev, j));
            }
            lemma_same_index(before, start, rows@[i as int].library_id@);
        }
        let row = &rows[i];
        let found = find_library(libs, row.library_id.as_str());
        let si = match found {
            Some(li) => first_index(&libs[li].records, row.source_id.as_str()),
            None => None,
        };
        match (found, si) {
            (Some(li), Some(si)) => {
                push_asset(libs, li, si, row.asset_id.clone());
                proof {
                    assert forall|j: int| 0 <= j < start.len() implies #[trigger] library_attached(start, libs@, t, j) by {
                        assert(library_attached(start, before, prev, j));
                        if j != li {
                            assert(libs@[j] == before[j]);
                            assert forall|k: Seq<char>| #![trigger lookup(libs@[j].records@, k)] source_attached(lookup(start[j].records@, k), lookup(libs@[j].records@, k), attached_assets(t, start, j, k)) by {
                                assert(attached_assets(t, start, j, k) == attached_assets(prev, start, j, k));
                            }
                        } else {
                            let rec = libs@[j].records@[si as int].1;
                            assert forall|k: Seq<char>| #![trigger lookup(libs@[j].records@, k)] source_attached(lookup(start[j].records@, k), lookup(libs@[j].records@, k), attached_assets(t, start, j, k)) by {
                                lemma_replace_first(before[j].records@, si as int, rec, k);
                                if k == row.source_id@ {
                                    assert(attached_assets(t, start, j, k) == attached_assets(prev, start, j, k).push(row.asset_id));
                                    let s = lookup(start[j].records@, k)->0;
                                    assert(rec.asset_ids@ =~= s.asset_ids@ + attached_assets(t, start, j, k));
                                } else {
                                    assert(attached_assets(t, start, j, k) == attached_assets(prev, start, j, k));
                                }
                            }
                        }
                    }
                }
            },
            _ => {
                proof {
                    assert forall|j: int| 0 <= j < start.len() implies #[trigger] library_attached(start, libs@, t, j) by {
                        assert(library_attached(start, before, prev, j));
                        assert forall|k: Seq<char>| #![trigger lookup(libs@[j].records@, k)] source_attached(lookup(start[j].records@, k), lookup(libs@[j].records@, k), attached_assets(t, start, j, k)) by {
                            if library_index(start, row.library_id@) == Some(j) && k == row.source_id@ {
                                assert(lookup(start[j].records@, k) is None);
                            }
                            assert(attached_assets(t, start, j, k) == attached_assets(prev, start, j, k)
                                || lookup(start[j].records@, k) is None);
                        }
                    }
                }
            },
        }
        i += 1;
    }
    assert(rows@.take(rows@.len() as int) =~= rows@);
}

proof fn lemma_same_index<T>(a: Seq<LibraryRecords<T>>, b: Seq<LibraryRecords<T>>, id: Seq<char>)
    requires
        a.len() == b.len(),
        forall|j: int| 0 <= j < a.len() ==> a[j].library_id@ == b[j].library_id@,
    ensures
        library_index(a, id) == library_index(b, id),
    decreases a.len(),
{
    if a.len() > 0 {
        lemma_same_index(a.drop_last(), b.drop_last(), id);
        assert(a.last() == a[a.len() - 1]);
    }
}

} // verus!
