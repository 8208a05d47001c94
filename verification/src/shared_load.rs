use vstd::prelude::*;
use crate::config::{lookup, upsert_entry};
use crate::error::{IoError, IoErrorKind};
use crate::json::Json;
use crate::persistence::{
    column_problem, decode_message, i64_to_u128, i64_to_u64, invalid_data, invalid_data_message,
    negative_error, optional_i64_to_u64, ParsedColumn,
};
use crate::model::{content_e2e_index_state_key, unit_index_key, TempQueryAssetRecord};
use crate::persistence::{fits_size, non_negative, optional_i64_to_usize};
use crate::text::{append_str, chars_of, string_of};
use crate::unit_order::UnitPlacement;

verus! {

/// A stored row decoded to a keyed record, or the error that decoding it gave.
#[derive(Debug)]
pub struct KeyedRow<T> {
    pub key: String,
    pub record: Result<T, IoError>,
}

/// Records loaded for every library alike: keys in row order, and the records by key.
#[derive(Debug)]
pub struct KeyedRecords<T> {
    pub order: Vec<String>,
    pub records: Vec<(String, T)>,
}

/// The last of the rows with the key `k`.
pub open spec fn last_keyed<T>(rows: Seq<KeyedRow<T>>, k: Seq<char>) -> Option<KeyedRow<T>>
    decreases rows.len(),
{
    if rows.len() == 0 {
        None
    } else if rows.last().key@ == k {
        Some(rows.last())
    } else {
        last_keyed(rows.drop_last(), k)
    }
}

/// `l` holds the decoded rows: their keys in order, and under each key the record of the
/// last row with it.
pub open spec fn keyed_loaded<T>(rows: Seq<KeyedRow<T>>, l: KeyedRecords<T>) -> bool {
    &&& l.order@.len() == rows.len()
    &&& forall|i: int| 0 <= i < rows.len() ==> #[trigger] l.order@[i] == rows[i].key
    &&& forall|k: Seq<char>| #[trigger] lookup(l.records@, k) == match last_keyed(rows, k) {
        Some(row) => Some(row.record->Ok_0),
        None => None,
    }
}

/// What loading the decoded rows gives: all of them when every row decoded, else the error
/// of the first that did not.
pub open spec fn keyed_outcome<T>(rows: Seq<KeyedRow<T>>, r: Result<KeyedRecords<T>, IoError>) -> bool {
    match r {
        Ok(l) => keyed_loaded(rows, l) && forall|i: int| 0 <= i < rows.len() ==> (#[trigger] rows[i]).record is Ok,
        Err(e) => exists|i: int|
            #![trigger rows[i]]
            0 <= i < rows.len() && (forall|j: int| 0 <= j < i ==> (#[trigger] rows[j]).record is Ok)
                && rows[i].record == Err::<T, IoError>(e),
    }
}

/// Loads decoded rows in order (see `keyed_outcome`): each key is appended to the order and
/// its record stored under it, a later row replacing an earlier one with the same key.
pub fn load_keyed<T>(rows: Vec<KeyedRow<T>>) -> (r: Result<KeyedRecords<T>, IoError>)
    ensures
        keyed_outcome(rows@, r),
{
    let ghost all = rows@;
    assert(all.len() == rows.len());
    let mut order: Vec<String> = Vec::new();
    let mut records: Vec<(String, T)> = Vec::new();
    let mut rest = crate::json::reversed(rows);
    let mut i: usize = 0;
    assert(all.take(0) =~= Seq::<KeyedRow<T>>::empty());
    while rest.len() > 0
        invariant
            i + rest@.len() == all.len(),
            all.len() <= usize::MAX,
            all == rows@,
            rest@ == all.skip(i as int).reverse(),
            order@.len() == i,
            forall|j: int| 0 <= j < i ==> #[trigger] order@[j] == all[j].key,
            forall|k: Seq<char>| #[trigger] lookup(records@, k) == match last_keyed(all.take(i as int), k) {
                Some(row) => Some(row.record->Ok_0),
                None => None,
            },
            forall|j: int| 0 <= j < i ==> (#[trigger] all[j]).record is Ok,
        decreases rest.len(),
    {
        let row = rest.pop().unwrap();
        assert(row == all[i as int]) by {
            assert(all.skip(i as int).reverse().last() == all.skip(i as int)[0]);
        }
        assert(rest@ =~= all.skip(i + 1).reverse());
        let KeyedRow { key, record } = row;
        let record = match record {
            Ok(rec) => rec,
            Err(e) => {
                return Err(e);
            },
        };
        let ghost before_order = order@;
        order.push(key.clone());
        upsert_entry(&mut records, key, record);
        proof {
            let t = all.take(i + 1);
            assert(t.drop_last() =~= all.take(i as int));
            assert(t.last() == all[i as int]);
            assert forall|j: int| 0 <= j < i + 1 implies #[trigger] order@[j] == all[j].key by {
                if j < i {
                    assert(order@[j] == before_order[j]);
                }
            }
            assert forall|k: Seq<char>| #[trigger] lookup(records@, k) == match last_keyed(t, k) {
                Some(row) => Some(row.record->Ok_0),
                None => None,
            } by {
                if k != all[i as int].key@ {
                    assert(last_keyed(t, k) == last_keyed(all.take(i as int), k));
                }
            }
        }
        i += 1;
    }
    assert(all.take(all.len() as int) =~= all);
    Ok(KeyedRecords { order, records })
}

/// The error of a stored JSON column that did not parse.
pub open spec fn decode_error(e: IoError, path: Seq<char>, message: Seq<char>) -> bool {
    e.kind == IoErrorKind::InvalidData && e.message@ == invalid_data_message(path, message)
}

fn decode_json(path: &str, c: ParsedColumn, field: &str) -> (r: Result<Json, IoError>)
    ensures
        match c {
            Ok(j) => r == Ok::<Json, IoError>(j),
            Err(m) => r matches Err(e) && decode_error(e, path@, decode_message(field@, m@)),
        },
{
    match c {
        Ok(j) => Ok(j),
        Err(m) => {
            let mut t = chars_of("failed to decode ");
            append_str(&mut t, field);
            append_str(&mut t, " JSON payload: ");
            append_str(&mut t, m.as_str());
            Err(invalid_data(path, string_of(&t).as_str()))
        },
    }
}

/// The identity of stored content.
#[derive(Debug)]
pub struct ContentRecord {
    pub id: String,
    pub size_bytes: Option<u64>,
    pub fast_fingerprint: Option<String>,
    pub sha256: Option<String>,
    pub created_at_ms: u128,
}

/// A row of the `contents` table as read.
#[derive(Debug)]
pub struct ContentRow {
    pub content_id: String,
    pub size_bytes: Option<i64>,
    pub fast_fingerprint: Option<String>,
    pub sha256: Option<String>,
    pub created_at_ms: i64,
}

/// `placed` is the content row decoded: a negative size, then a negative creation time, is
/// refused.
pub open spec fn content_row_decoded(path: Seq<char>, row: ContentRow, placed: KeyedRow<ContentRecord>) -> bool {
    &&& placed.key == row.content_id
    &&& if row.size_bytes matches Some(x) && x < 0 {
        placed.record matches Err(e) && negative_error(e, path, "contents.size_bytes"@)
    } else if row.created_at_ms < 0 {
        placed.record matches Err(e) && negative_error(e, path, "contents.created_at_ms"@)
    } else {
        placed.record matches Ok(c) && c.id == row.content_id && c.size_bytes == match row.size_bytes {
            Some(x) => Some(x as u64),
            None => None,
        } && c.fast_fingerprint == row.fast_fingerprint && c.sha256 == row.sha256 && c.created_at_ms
            == row.created_at_ms as u128
    }
}

fn decode_content_row(path: &str, row: ContentRow) -> (r: KeyedRow<ContentRecord>)
    ensures
        content_row_decoded(path@, row, r),
{
    let ContentRow { content_id, size_bytes, fast_fingerprint, sha256, created_at_ms } = row;
    let key = content_id.clone();
    let size_bytes = match optional_i64_to_u64(path, size_bytes, "contents.size_bytes") {
        Ok(s) => s,
        Err(e) => return KeyedRow { key, record: Err(e) },
    };
    let created_at_ms = match i64_to_u128(path, created_at_ms, "contents.created_at_ms") {
        Ok(c) => c,
        Err(e) => return KeyedRow { key, record: Err(e) },
    };
    KeyedRow { key, record: Ok(ContentRecord { id: content_id, size_bytes, fast_fingerprint, sha256, created_at_ms }) }
}

/// Loads the `contents` rows (see `keyed_outcome`); every library receives these records.
pub fn load_contents(path: &str, rows: Vec<ContentRow>) -> (r: Result<KeyedRecords<ContentRecord>, IoError>)
    ensures
        exists|keyed: Seq<KeyedRow<ContentRecord>>|
            {
                &&& keyed.len() == rows@.len()
                &&& forall|i: int| 0 <= i < rows@.len() ==> content_row_decoded(path@, #[trigger] rows@[i], keyed[i])
                &&& keyed_outcome(keyed, r)
            },
{
    let ghost all = rows@;
    let mut rest = crate::json::reversed(rows);
    let mut keyed: Vec<KeyedRow<ContentRecord>> = Vec::new();
    while rest.len() > 0
        invariant
            keyed@.len() + rest@.len() == all.len(),
            rest@ == all.skip(keyed@.len() as int).reverse(),
            forall|i: int| 0 <= i < keyed@.len() ==> content_row_decoded(path@, #[trigger] all[i], keyed@[i]),
        decreases rest.len(),
    {
        let ghost i = keyed@.len() as int;
        let row = rest.pop().unwrap();
        assert(row == all[i]) by {
            assert(all.skip(i).reverse().last() == all.skip(i)[0]);
        }
        assert(rest@ =~= all.skip(i + 1).reverse());
        keyed.push(decode_content_row(path, row));
    }
    let ghost decoded = keyed@;
    let r = load_keyed(keyed);
    assert(decoded.len() == all.len());
    r
}

/// A derived piece of a source's content.
#[derive(Debug)]
pub struct AssetRecord {
    pub id: String,
    pub source_id: String,
    pub content_id: String,
    pub source_path: String,
    pub source_type: String,
    pub source_content_id: String,
    pub asset_type: String,
    pub locator: Json,
    pub derivation_signature: String,
    pub neighbor_context: Json,
    pub unit_ids: Vec<String>,
}

/// A row of the `assets` table as read, its JSON columns parsed.
#[derive(Debug)]
pub struct AssetRow {
    pub asset_id: String,
    pub source_content_id: String,
    pub asset_type: String,
    pub locator_json: ParsedColumn,
    pub derivation_signature: String,
    pub neighbor_context_json: ParsedColumn,
}

/// `placed` is the asset row decoded: the locator, then the neighbor context, must parse;
/// the source fields start empty and the units are attached later.
pub open spec fn asset_row_decoded(path: Seq<char>, row: AssetRow, placed: KeyedRow<AssetRecord>) -> bool {
    &&& placed.key == row.asset_id
    &&& match (column_problem(row.locator_json, "assets.locator_json"@), column_problem(
        row.neighbor_context_json,
        "assets.neighbor_context_json"@,
    )) {
        (Some(m), _) => placed.record matches Err(e) && decode_error(e, path, m),
        (None, Some(m)) => placed.record matches Err(e) && decode_error(e, path, m),
        (None, None) => placed.record matches Ok(a) && {
            &&& a.id == row.asset_id
            &&& a.source_id@.len() == 0 && a.content_id@.len() == 0
            &&& a.source_path@.len() == 0 && a.source_type@.len() == 0
            &&& a.source_content_id == row.source_content_id
            &&& a.asset_type == row.asset_type
            &&& row.locator_json == Ok::<Json, String>(a.locator)
            &&& a.derivation_signature == row.derivation_signature
            &&& row.neighbor_context_json == Ok::<Json, String>(a.neighbor_context)
            &&& a.unit_ids@.len() == 0
        },
    }
}

fn decode_asset_row(path: &str, row: AssetRow) -> (r: KeyedRow<AssetRecord>)
    ensures
        asset_row_decoded(path@, row, r),
{
    let AssetRow { asset_id, source_content_id, asset_type, locator_json, derivation_signature, neighbor_context_json } = row;
    let key = asset_id.clone();
    let locator = match decode_json(path, locator_json, "assets.locator_json") {
        Ok(j) => j,
        Err(e) => return KeyedRow { key, record: Err(e) },
    };
    let neighbor_context = match decode_json(path, neighbor_context_json, "assets.neighbor_context_json") {
        Ok(j) => j,
        Err(e) => return KeyedRow { key, record: Err(e) },
    };
    KeyedRow {
        key,
        record: Ok(AssetRecord {
            id: asset_id,
            source_id: String::new(),
            content_id: String::new(),
            source_path: String::new(),
            source_type: String::new(),
            source_content_id,
            asset_type,
            locator,
            derivation_signature,
            neighbor_context,
            unit_ids: Vec::new(),
        }),
    }
}

/// Loads the `assets` rows in order (see `keyed_outcome`); every library receives these
/// records and this order.
pub fn load_assets(path: &str, rows: Vec<AssetRow>) -> (r: Result<KeyedRecords<AssetRecord>, IoError>)
    ensures
        exists|keyed: Seq<KeyedRow<AssetRecord>>|
            {
                &&& keyed.len() == rows@.len()
                &&& forall|i: int| 0 <= i < rows@.len() ==> asset_row_decoded(path@, #[trigger] rows@[i], keyed[i])
                &&& keyed_outcome(keyed, r)
            },
{
    let ghost all = rows@;
    let mut rest = crate::json::reversed(rows);
    let mut keyed: Vec<KeyedRow<AssetRecord>> = Vec::new();
    while rest.len() > 0
        invariant
            keyed@.len() + rest@.len() == all.len(),
            rest@ == all.skip(keyed@.len() as int).reverse(),
            forall|i: int| 0 <= i < keyed@.len() ==> asset_row_decoded(path@, #[trigger] all[i], keyed@[i]),
        decreases rest.len(),
    {
        let ghost i = keyed@.len() as int;
        let row = rest.pop().unwrap();
        assert(row == all[i]) by {
            assert(all.skip(i).reverse().last() == all.skip(i)[0]);
        }
        assert(rest@ =~= all.skip(i + 1).reverse());
        keyed.push(decode_asset_row(path, row));
    }
    let ghost decoded = keyed@;
    let r = load_keyed(keyed);
    assert(decoded.len() == all.len());
    r
}

/// A searchable unit of an asset.
#[derive(Debug)]
pub struct UnitRecord {
    pub id: String,
    pub asset_id: String,
    pub content_id: String,
    pub point_id: u64,
    pub source_id: String,
    pub source_path: String,
    pub source_type: String,
    pub asset_type: String,
    pub unit_type: String,
    pub derivation_signature: String,
    pub locator: Json,
    pub neighbor_context: Json,
}

/// A row of the `units` table as read, its JSON columns parsed.
#[derive(Debug)]
pub struct UnitRow {
    pub unit_id: String,
    pub asset_id: String,
    pub asset_position: i64,
    pub point_id: i64,
    pub unit_type: String,
    pub derivation_signature: String,
    pub locator_json: ParsedColumn,
    pub neighbor_context_json: ParsedColumn,
}

/// `placed` is the unit row decoded: the point id must not be negative, then the locator
/// and the neighbor context must parse; the source fields start empty.
pub open spec fn unit_row_decoded(path: Seq<char>, row: UnitRow, placed: KeyedRow<UnitRecord>) -> bool {
    &&& placed.key == row.unit_id
    &&& if row.point_id < 0 {
        placed.record matches Err(e) && negative_error(e, path, "units.point_id"@)
    } else {
        match (column_problem(row.locator_json, "units.locator_json"@), column_problem(
            row.neighbor_context_json,
            "units.neighbor_context_json"@,
        )) {
            (Some(m), _) => placed.record matches Err(e) && decode_error(e, path, m),
            (None, Some(m)) => placed.record matches Err(e) && decode_error(e, path, m),
            (None, None) => placed.record matches Ok(u) && {
                &&& u.id == row.unit_id
                &&& u.asset_id == row.asset_id
                &&& u.point_id == row.point_id as u64
                &&& u.content_id@.len() == 0 && u.source_id@.len() == 0
                &&& u.source_path@.len() == 0 && u.source_type@.len() == 0 && u.asset_type@.len() == 0
                &&& u.unit_type == row.unit_type
                &&& u.derivation_signature == row.derivation_signature
                &&& row.locator_json == Ok::<Json, String>(u.locator)
                &&& row.neighbor_context_json == Ok::<Json, String>(u.neighbor_context)
            },
        }
    }
}

fn decode_unit_row(path: &str, row: UnitRow) -> (r: (KeyedRow<UnitRecord>, UnitPlacement))
    ensures
        unit_row_decoded(path@, row, r.0),
        r.1.asset_id == row.asset_id && r.1.asset_position == row.asset_position && r.1.unit_id == row.unit_id,
{
    let UnitRow { unit_id, asset_id, asset_position, point_id, unit_type, derivation_signature, locator_json, neighbor_context_json } = row;
    let key = unit_id.clone();
    let placement = UnitPlacement { asset_id: asset_id.clone(), asset_position, unit_id: unit_id.clone() };
    let point_id = match i64_to_u64(path, point_id, "units.point_id") {
        Ok(p) => p,
        Err(e) => return (KeyedRow { key, record: Err(e) }, placement),
    };
    let locator = match decode_json(path, locator_json, "units.locator_json") {
        Ok(j) => j,
        Err(e) => return (KeyedRow { key, record: Err(e) }, placement),
    };
    let neighbor_context = match decode_json(path, neighbor_context_json, "units.neighbor_context_json") {
        Ok(j) => j,
        Err(e) => return (KeyedRow { key, record: Err(e) }, placement),
    };
    (
        KeyedRow {
            key,
            record: Ok(UnitRecord {
                id: unit_id,
                asset_id,
                content_id: String::new(),
                point_id,
                source_id: String::new(),
                source_path: String::new(),
                source_type: String::new(),
                asset_type: String::new(),
                unit_type,
                derivation_signature,
                locator,
                neighbor_context,
            }),
        },
        placement,
    )
}

/// The units as loaded, with where each one sits under its asset.
#[derive(Debug)]
pub struct LoadedUnits {
    pub units: KeyedRecords<UnitRecord>,
    pub placements: Vec<UnitPlacement>,
}

/// What loading the decoded unit rows gives: the units as `keyed_outcome` says, and each
/// row's placement.
pub open spec fn units_outcome(keyed: Seq<KeyedRow<UnitRecord>>, rows: Seq<UnitRow>, r: Result<LoadedUnits, IoError>) -> bool {
    match r {
        Ok(l) => keyed_outcome(keyed, Ok(l.units)) && l.placements@.len() == rows.len() && forall|i: int|
            0 <= i < rows.len() ==> (#[trigger] l.placements@[i]).asset_id == rows[i].asset_id
                && l.placements@[i].asset_position == rows[i].asset_position && l.placements@[i].unit_id
                == rows[i].unit_id,
        Err(e) => keyed_outcome(keyed, Err(e)),
    }
}

/// Loads the `units` rows in order (see `keyed_outcome`); every library receives these
/// records and this order. The placements, in row order, say where each unit sits under its
/// asset (see `unit_order::units_by_asset`).
pub fn load_units(path: &str, rows: Vec<UnitRow>) -> (r: Result<LoadedUnits, IoError>)
    ensures
        exists|keyed: Seq<KeyedRow<UnitRecord>>|
            {
                &&& keyed.len() == rows@.len()
                &&& forall|i: int| 0 <= i < rows@.len() ==> unit_row_decoded(path@, #[trigger] rows@[i], keyed[i])
                &&& #[trigger] units_outcome(keyed, rows@, r)
            },
{
    let ghost all = rows@;
    let mut rest = crate::json::reversed(rows);
    let mut keyed: Vec<KeyedRow<UnitRecord>> = Vec::new();
    let mut placements: Vec<UnitPlacement> = Vec::new();
    while rest.len() > 0
        invariant
            keyed@.len() + rest@.len() == all.len(),
            placements@.len() == keyed@.len(),
            rest@ == all.skip(keyed@.len() as int).reverse(),
            forall|i: int| 0 <= i < keyed@.len() ==> unit_row_decoded(path@, #[trigger] all[i], keyed@[i]),
            forall|i: int| 0 <= i < keyed@.len() ==> (#[trigger] placements@[i]).asset_id == all[i].asset_id
                && placements@[i].asset_position == all[i].asset_position && placements@[i].unit_id == all[i].unit_id,
        decreases rest.len(),
    {
        let ghost i = keyed@.len() as int;
        let row = rest.pop().unwrap();
        assert(row == all[i]) by {
            assert(all.skip(i).reverse().last() == all.skip(i)[0]);
        }
        assert(rest@ =~= all.skip(i + 1).reverse());
        let (k, p) = decode_unit_row(path, row);
        keyed.push(k);
        placements.push(p);
    }
    let ghost decoded = keyed@;
    assert(decoded.len() == all.len());
    let r = match load_keyed(keyed) {
        Ok(units) => Ok(LoadedUnits { units, placements }),
        Err(e) => Err(e),
    };
    assert(units_outcome(decoded, all, r));
    r
}

/// A row of the `query_assets` table as read.
#[derive(Debug)]
pub struct QueryAssetRow {
    pub query_asset_id: String,
    pub owner_scope: String,
    pub library_id: Option<String>,
    pub source_type: String,
    pub content_type: String,
    pub path: String,
    pub original_filename: Option<String>,
    pub page_count: Option<i64>,
    pub duration_ms: Option<i64>,
    pub size_bytes: i64,
    pub created_at_ms: i64,
    pub expires_at_ms: i64,
}

/// The first column of a query asset row out of range, in the order they are read.
pub open spec fn query_asset_problem(row: QueryAssetRow) -> Option<Seq<char>> {
    if !(0 <= row.size_bytes <= usize::MAX) {
        Some("query_assets.size_bytes"@)
    } else if !fits_size(row.page_count) {
        Some("query_assets.page_count"@)
    } else if !non_negative(row.duration_ms) {
        Some("query_assets.duration_ms"@)
    } else if row.created_at_ms < 0 {
        Some("query_assets.created_at_ms"@)
    } else if row.expires_at_ms < 0 {
        Some("query_assets.expires_at_ms"@)
    } else {
        None
    }
}

/// The query asset a row in range describes.
pub open spec fn query_asset_of(row: QueryAssetRow) -> TempQueryAssetRecord {
    TempQueryAssetRecord {
        id: row.query_asset_id,
        owner_scope: row.owner_scope,
        library_id: row.library_id,
        path: row.path,
        source_type: row.source_type,
        content_type: row.content_type,
        original_filename: row.original_filename,
        page_count: match row.page_count {
            Some(x) => Some(x as usize),
            None => None,
        },
        duration_ms: match row.duration_ms {
            Some(x) => Some(x as u64),
            None => None,
        },
        size_bytes: row.size_bytes as usize,
        created_at_ms: row.created_at_ms as u128,
        expires_at_ms: row.expires_at_ms as u128,
    }
}

/// `placed` is the query asset row decoded.
pub open spec fn query_asset_row_decoded(path: Seq<char>, row: QueryAssetRow, placed: KeyedRow<TempQueryAssetRecord>) -> bool {
    &&& placed.key == row.query_asset_id
    &&& match query_asset_problem(row) {
        Some(field) => placed.record matches Err(e) && negative_error(e, path, field),
        None => placed.record == Ok::<TempQueryAssetRecord, IoError>(query_asset_of(row)),
    }
}

fn decode_query_asset_row(path: &str, row: QueryAssetRow) -> (r: KeyedRow<TempQueryAssetRecord>)
    ensures
        query_asset_row_decoded(path@, row, r),
{
    let ghost original = row;
    let key = row.query_asset_id.clone();
    let size_bytes = match optional_i64_to_usize(path, Some(row.size_bytes), "query_assets.size_bytes") {
        Ok(Some(s)) => s,
        Ok(None) => 0,
        Err(e) => return KeyedRow { key, record: Err(e) },
    };
    let page_count = match optional_i64_to_usize(path, row.page_count, "query_assets.page_count") {
        Ok(p) => p,
        Err(e) => return KeyedRow { key, record: Err(e) },
    };
    let duration_ms = match optional_i64_to_u64(path, row.duration_ms, "query_assets.duration_ms") {
        Ok(d) => d,
        Err(e) => return KeyedRow { key, record: Err(e) },
    };
    let created_at_ms = match i64_to_u128(path, row.created_at_ms, "query_assets.created_at_ms") {
        Ok(c) => c,
        Err(e) => return KeyedRow { key, record: Err(e) },
    };
    let expires_at_ms = match i64_to_u128(path, row.expires_at_ms, "query_assets.expires_at_ms") {
        Ok(c) => c,
        Err(e) => return KeyedRow { key, record: Err(e) },
    };
    let QueryAssetRow { query_asset_id, owner_scope, library_id, source_type, content_type, path: file, original_filename, .. } = row;
    KeyedRow {
        key,
        record: Ok(TempQueryAssetRecord {
            id: query_asset_id,
            owner_scope,
            library_id,
            path: file,
            source_type,
            content_type,
            original_filename,
            page_count,
            duration_ms,
            size_bytes,
            created_at_ms,
            expires_at_ms,
        }),
    }
}

/// Loads the `query_assets` rows (see `keyed_outcome`).
pub fn load_query_assets(path: &str, rows: Vec<QueryAssetRow>) -> (r: Result<KeyedRecords<TempQueryAssetRecord>, IoError>)
    ensures
        exists|keyed: Seq<KeyedRow<TempQueryAssetRecord>>|
            {
                &&& keyed.len() == rows@.len()
                &&& forall|i: int| 0 <= i < rows@.len() ==> query_asset_row_decoded(path@, #[trigger] rows@[i], keyed[i])
                &&& keyed_outcome(keyed, r)
            },
{
    let ghost all = rows@;
    let mut rest = crate::json::reversed(rows);
    let mut keyed: Vec<KeyedRow<TempQueryAssetRecord>> = Vec::new();
    while rest.len() > 0
        invariant
            keyed@.len() + rest@.len() == all.len(),
            rest@ == all.skip(keyed@.len() as int).reverse(),
            forall|i: int| 0 <= i < keyed@.len() ==> query_asset_row_decoded(path@, #[trigger] all[i], keyed@[i]),
        decreases rest.len(),
    {
        let ghost i = keyed@.len() as int;
        let row = rest.pop().unwrap();
        assert(row == all[i]) by {
            assert(all.skip(i).reverse().last() == all.skip(i)[0]);
        }
        assert(rest@ =~= all.skip(i + 1).reverse());
        keyed.push(decode_query_asset_row(path, row));
    }
    let ghost decoded = keyed@;
    let r = load_keyed(keyed);
    assert(decoded.len() == all.len());
    r
}

/// A vector space: a provider's model and the kind of vectors it gives.
#[derive(Debug)]
pub struct VectorSpaceRecord {
    pub id: String,
    pub provider_id: String,
    pub model_id: String,
    pub model_version: String,
    pub model_revision: Option<String>,
    pub vector_type: String,
}

/// Loads the `vector_spaces` rows, which need no decoding (see `keyed_outcome`); every
/// library receives these records.
pub fn load_vector_spaces(rows: Vec<VectorSpaceRecord>) -> (r: KeyedRecords<VectorSpaceRecord>)
    ensures
        exists|keyed: Seq<KeyedRow<VectorSpaceRecord>>|
            {
                &&& keyed.len() == rows@.len()
                &&& forall|i: int| 0 <= i < rows@.len() ==> (#[trigger] keyed[i]).key == rows@[i].id && keyed[i].record
                    == Ok::<VectorSpaceRecord, IoError>(rows@[i])
                &&& keyed_outcome(keyed, Ok(r))
            },
{
    let ghost all = rows@;
    let mut rest = crate::json::reversed(rows);
    let mut keyed: Vec<KeyedRow<VectorSpaceRecord>> = Vec::new();
    while rest.len() > 0
        invariant
            keyed@.len() + rest@.len() == all.len(),
            rest@ == all.skip(keyed@.len() as int).reverse(),
            forall|i: int| 0 <= i < keyed@.len() ==> (#[trigger] keyed@[i]).key == all[i].id && keyed@[i].record
                == Ok::<VectorSpaceRecord, IoError>(all[i]),
        decreases rest.len(),
    {
        let ghost i = keyed@.len() as int;
        let row = rest.pop().unwrap();
        assert(row == all[i]) by {
            assert(all.skip(i).reverse().last() == all.skip(i)[0]);
        }
        assert(rest@ =~= all.skip(i + 1).reverse());
        keyed.push(KeyedRow { key: row.id.clone(), record: Ok(row) });
    }
    let ghost decoded = keyed@;
    assert(decoded.len() == all.len());
    match load_keyed(keyed) {
        Ok(l) => l,
        Err(e) => {
            proof {
                let i = choose|i: int| 0 <= i < decoded.len() && decoded[i].record == Err::<VectorSpaceRecord, IoError>(e);
                assert(decoded[i].record is Ok);
            }
            KeyedRecords { order: Vec::new(), records: Vec::new() }
        },
    }
}

/// The indexing state of a unit in a vector space.
#[derive(Debug)]
pub struct UnitIndexRecord {
    pub unit_id: String,
    pub vector_space_id: String,
    pub status: String,
    pub visibility: String,
    pub vector_ref: Option<Json>,
    pub job_id: Option<String>,
    pub error_summary: Option<String>,
}

/// A row of the `unit_indexes` table as read, its vector reference parsed when present.
#[derive(Debug)]
pub struct UnitIndexRow {
    pub unit_id: String,
    pub vector_space_id: String,
    pub status: String,
    pub visibility: String,
    pub vector_ref_json: Option<ParsedColumn>,
    pub job_id: Option<String>,
    pub error_summary: Option<String>,
}

/// `placed` is the unit index row decoded, keyed `unit_id::vector_space_id`.
pub open spec fn unit_index_row_decoded(path: Seq<char>, row: UnitIndexRow, placed: KeyedRow<UnitIndexRecord>) -> bool {
    &&& placed.key@ == row.unit_id@ + "::"@ + row.vector_space_id@
    &&& match row.vector_ref_json {
        Some(Err(m)) => placed.record matches Err(e) && decode_error(
            e,
            path,
            decode_message("unit_indexes.vector_ref_json"@, m@),
        ),
        _ => placed.record matches Ok(x) && x.unit_id == row.unit_id && x.vector_space_id == row.vector_space_id
            && x.status == row.status && x.visibility == row.visibility && x.job_id == row.job_id
            && x.error_summary == row.error_summary && x.vector_ref == match row.vector_ref_json {
            Some(Ok(j)) => Some(j),
            _ => None::<Json>,
        },
    }
}

fn decode_unit_index_row(path: &str, row: UnitIndexRow) -> (r: KeyedRow<UnitIndexRecord>)
    ensures
        unit_index_row_decoded(path@, row, r),
{
    let UnitIndexRow { unit_id, vector_space_id, status, visibility, vector_ref_json, job_id, error_summary } = row;
    let key = unit_index_key(unit_id.as_str(), vector_space_id.as_str());
    let vector_ref = match vector_ref_json {
        None => None,
        Some(c) => match decode_json(path, c, "unit_indexes.vector_ref_json") {
            Ok(j) => Some(j),
            Err(e) => return KeyedRow { key, record: Err(e) },
        },
    };
    KeyedRow {
        key,
        record: Ok(UnitIndexRecord { unit_id, vector_space_id, status, visibility, vector_ref, job_id, error_summary }),
    }
}

/// Loads the `unit_indexes` rows (see `keyed_outcome`); every library receives these records.
pub fn load_unit_indexes(path: &str, rows: Vec<UnitIndexRow>) -> (r: Result<KeyedRecords<UnitIndexRecord>, IoError>)
    ensures
        exists|keyed: Seq<KeyedRow<UnitIndexRecord>>|
            {
                &&& keyed.len() == rows@.len()
                &&& forall|i: int| 0 <= i < rows@.len() ==> unit_index_row_decoded(path@, #[trigger] rows@[i], keyed[i])
                &&& keyed_outcome(keyed, r)
            },
{
    let ghost all = rows@;
    let mut rest = crate::json::reversed(rows);
    let mut keyed: Vec<KeyedRow<UnitIndexRecord>> = Vec::new();
    while rest.len() > 0
        invariant
            keyed@.len() + rest@.len() == all.len(),
            rest@ == all.skip(keyed@.len() as int).reverse(),
            forall|i: int| 0 <= i < keyed@.len() ==> unit_index_row_decoded(path@, #[trigger] all[i], keyed@[i]),
        decreases rest.len(),
    {
        let ghost i = keyed@.len() as int;
        let row = rest.pop().unwrap();
        assert(row == all[i]) by {
            assert(all.skip(i).reverse().last() == all.skip(i)[0]);
        }
        assert(rest@ =~= all.skip(i + 1).reverse());
        keyed.push(decode_unit_index_row(path, row));
    }
    let ghost decoded = keyed@;
    let r = load_keyed(keyed);
    assert(decoded.len() == all.len());
    r
}

/// The end-to-end indexing state of a content for one pipeline and vector space.
#[derive(Debug)]
pub struct ContentE2eIndexStateRecord {
    pub content_id: String,
    pub pipe_signature: String,
    pub vector_space_id: String,
    pub indexed_at_ms: u128,
}

/// A row of the `content_e2e_index_states` table as read.
#[derive(Debug)]
pub struct ContentE2eIndexStateRow {
    pub content_id: String,
    pub pipe_signature: String,
    pub vector_space_id: String,
    pub indexed_at_ms: i64,
}

/// `placed` is the state row decoded, keyed `content_id::pipe_signature::vector_space_id`;
/// a negative time is refused.
pub open spec fn e2e_state_row_decoded(path: Seq<char>, row: ContentE2eIndexStateRow, placed: KeyedRow<ContentE2eIndexStateRecord>) -> bool {
    &&& placed.key@ == row.content_id@ + "::"@ + row.pipe_signature@ + "::"@ + row.vector_space_id@
    &&& if row.indexed_at_ms < 0 {
        placed.record matches Err(e) && negative_error(e, path, "content_e2e_index_states.indexed_at_ms"@)
    } else {
        placed.record == Ok::<ContentE2eIndexStateRecord, IoError>(
            ContentE2eIndexStateRecord {
                content_id: row.content_id,
                pipe_signature: row.pipe_signature,
                vector_space_id: row.vector_space_id,
                indexed_at_ms: row.indexed_at_ms as u128,
            },
        )
    }
}

fn decode_e2e_state_row(path: &str, row: ContentE2eIndexStateRow) -> (r: KeyedRow<ContentE2eIndexStateRecord>)
    ensures
        e2e_state_row_decoded(path@, row, r),
{
    let ContentE2eIndexStateRow { content_id, pipe_signature, vector_space_id, indexed_at_ms } = row;
    let key = content_e2e_index_state_key(content_id.as_str(), pipe_signature.as_str(), vector_space_id.as_str());
    match i64_to_u128(path, indexed_at_ms, "content_e2e_index_states.indexed_at_ms") {
        Ok(t) => KeyedRow {
            key,
            record: Ok(ContentE2eIndexStateRecord { content_id, pipe_signature, vector_space_id, indexed_at_ms: t }),
        },
        Err(e) => KeyedRow { key, record: Err(e) },
    }
}

/// Loads the `content_e2e_index_states` rows (see `keyed_outcome`); every library receives
/// these records.
pub fn load_content_e2e_index_states(path: &str, rows: Vec<ContentE2eIndexStateRow>) -> (r: Result<
    KeyedRecords<ContentE2eIndexStateRecord>,
    IoError,
>)
    ensures
        exists|keyed: Seq<KeyedRow<ContentE2eIndexStateRecord>>|
            {
                &&& keyed.len() == rows@.len()
                &&& forall|i: int| 0 <= i < rows@.len() ==> e2e_state_row_decoded(path@, #[trigger] rows@[i], keyed[i])
                &&& keyed_outcome(keyed, r)
            },
{
    let ghost all = rows@;
    let mut rest = crate::json::reversed(rows);
    let mut keyed: Vec<KeyedRow<ContentE2eIndexStateRecord>> = Vec::new();
    while rest.len() > 0
        invariant
            keyed@.len() + rest@.len() == all.len(),
            rest@ == all.skip(keyed@.len() as int).reverse(),
            forall|i: int| 0 <= i < keyed@.len() ==> e2e_state_row_decoded(path@, #[trigger] all[i], keyed@[i]),
        decreases rest.len(),
    {
        let ghost i = keyed@.len() as int;
        let row = rest.pop().unwrap();
        assert(row == all[i]) by {
            assert(all.skip(i).reverse().last() == all.skip(i)[0]);
        }
        assert(rest@ =~= all.skip(i + 1).reverse());
        keyed.push(decode_e2e_state_row(path, row));
    }
    let ghost decoded = keyed@;
    let r = load_keyed(keyed);
    assert(decoded.len() == all.len());
    r
}

} // verus!
