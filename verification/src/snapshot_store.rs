use vstd::prelude::*;
use crate::config::lookup;
use crate::model::SourceRecord;
use crate::persistence::{
    optional_u128_to_i64, optional_u64_to_i64, optional_usize_to_i64, range_message, source_from_row,
    source_path_of, source_row_problem, usize_to_i64, SourceRow,
};
use crate::snapshot_load::{header_of, library_row_fits, DurableLibraryHeader, LibraryRow};
use crate::model::TempQueryAssetRecord;
use crate::shared_load::{query_asset_of, query_asset_problem, AssetRecord, QueryAssetRow, UnitRecord};
use crate::text::{append_str, chars_eq, chars_of, decimal, string_of};
use crate::unit_order::{at_position, by_position, UnitPlacement};

verus! {

/// An optional value that fits a signed 64-bit column.
pub open spec fn fits_column(v: Option<int>) -> bool {
    match v {
        Some(x) => x <= i64::MAX,
        None => true,
    }
}

/// An optional size as an optional integer.
pub open spec fn size_int(v: Option<usize>) -> Option<int> {
    match v {
        Some(x) => Some(x as int),
        None => None,
    }
}

/// An optional 64-bit value as an optional integer.
pub open spec fn u64_int(v: Option<u64>) -> Option<int> {
    match v {
        Some(x) => Some(x as int),
        None => None,
    }
}

/// An optional 128-bit value as an optional integer.
pub open spec fn u128_int(v: Option<u128>) -> Option<int> {
    match v {
        Some(x) => Some(x as int),
        None => None,
    }
}

/// An optional integer in a signed column.
pub open spec fn column_of(v: Option<int>) -> Option<i64> {
    match v {
        Some(x) => Some(x as i64),
        None => None,
    }
}

/// The first numeric field of a source that does not fit its column, as the message of the
/// write.
pub open spec fn source_store_problem(s: SourceRecord) -> Option<Seq<char>> {
    if !fits_column(size_int(s.page_count)) {
        Some(range_message("sources.page_count"@))
    } else if !fits_column(u64_int(s.duration_ms)) {
        Some(range_message("sources.duration_ms"@))
    } else if !fits_column(u64_int(s.observed_size_bytes)) {
        Some(range_message("sources.observed_size_bytes"@))
    } else if !fits_column(u128_int(s.observed_modified_at_ms)) {
        Some(range_message("sources.observed_modified_at_ms"@))
    } else {
        None
    }
}

/// The row that stores the source `s` of the library `library_id`.
pub open spec fn stored_source_row(library_id: String, s: SourceRecord) -> SourceRow {
    SourceRow {
        library_id,
        source_id: s.id,
        source_content_id: s.source_content_id,
        source_root_id: s.source_root_id,
        source_root_path: s.source_root_path,
        source_uri: s.source_uri,
        relative_path: s.relative_path,
        source_type: s.source_type,
        media_type: s.media_type,
        kind: s.kind,
        status: s.status,
        status_reason: s.status_reason,
        page_count: column_of(size_int(s.page_count)),
        duration_ms: column_of(u64_int(s.duration_ms)),
        observed_size_bytes: column_of(u64_int(s.observed_size_bytes)),
        observed_modified_at_ms: column_of(u128_int(s.observed_modified_at_ms)),
    }
}

/// The message of an order that names a source the library does not hold.
pub open spec fn missing_source_message(library_id: Seq<char>, source_id: Seq<char>) -> Seq<char> {
    "source_order for library `"@ + library_id + "` references missing source `"@ + source_id + "`"@
}

/// What goes wrong when the source at position `i` of the order is written.
pub open spec fn source_write_problem(
    library_id: Seq<char>,
    order: Seq<String>,
    sources: Seq<(String, SourceRecord)>,
    i: int,
) -> Option<Seq<char>> {
    match lookup(sources, order[i]@) {
        None => Some(missing_source_message(library_id, order[i]@)),
        Some(s) => if i > i64::MAX {
            Some(range_message("sources.position"@))
        } else {
            source_store_problem(s)
        },
    }
}

fn stored_source(library_id: &String, s: &SourceRecord) -> (r: Result<SourceRow, String>)
    ensures
        match source_store_problem(*s) {
            Some(m) => r matches Err(e) && e@ == m,
            None => r matches Ok(row) && row == stored_source_row(*library_id, *s),
        },
{
    let page_count = optional_usize_to_i64(s.page_count, "sources.page_count")?;
    let duration_ms = optional_u64_to_i64(s.duration_ms, "sources.duration_ms")?;
    let observed_size_bytes = optional_u64_to_i64(s.observed_size_bytes, "sources.observed_size_bytes")?;
    let observed_modified_at_ms = optional_u128_to_i64(s.observed_modified_at_ms, "sources.observed_modified_at_ms")?;
    Ok(SourceRow {
        library_id: library_id.clone(),
        source_id: s.id.clone(),
        source_content_id: s.source_content_id.clone(),
        source_root_id: s.source_root_id.clone(),
        source_root_path: s.source_root_path.clone(),
        source_uri: s.source_uri.clone(),
        relative_path: s.relative_path.clone(),
        source_type: s.source_type.clone(),
        media_type: s.media_type.clone(),
        kind: s.kind.clone(),
        status: s.status.clone(),
        status_reason: s.status_reason.clone(),
        page_count,
        duration_ms,
        observed_size_bytes,
        observed_modified_at_ms,
    })
}

/// The rows that store a library's sources, in its source order (see
/// `source_write_problem`): every position written, or the first problem.
pub fn source_rows(library_id: &String, order: &Vec<String>, sources: &Vec<(String, SourceRecord)>) -> (r: Result<
    Vec<SourceRow>,
    String,
>)
    ensures
        match r {
            Ok(rows) => rows@.len() == order@.len() && forall|i: int|
                0 <= i < order@.len() ==> source_write_problem(library_id@, order@, sources@, i) is None
                    && lookup(sources@, order@[i]@) is Some && #[trigger] rows@[i] == stored_source_row(
                    *library_id,
                    lookup(sources@, order@[i]@)->0,
                ),
            Err(m) => exists|i: int|
                #![trigger order@[i]]
                0 <= i < order@.len() && (forall|j: int| 0 <= j < i ==> source_write_problem(library_id@, order@, sources@, j) is None)
                    && source_write_problem(library_id@, order@, sources@, i) == Some(m@),
        },
{
    let mut rows: Vec<SourceRow> = Vec::new();
    let mut i: usize = 0;
    while i < order.len()
        invariant
            i <= order@.len(),
            rows@.len() == i,
            forall|j: int| 0 <= j < i ==> #[trigger] source_write_problem(library_id@, order@, sources@, j) is None,
            forall|j: int| 0 <= j < i ==> lookup(sources@, order@[j]@) is Some && #[trigger] rows@[j] == stored_source_row(
                *library_id,
                lookup(sources@, order@[j]@)->0,
            ),
        decreases order.len() - i,
    {
        let key = chars_of(order[i].as_str());
        let s = match crate::config::find_entry(sources, &key) {
            Some(k) => &sources[k].1,
            None => {
                let mut m = chars_of("source_order for library `");
                append_str(&mut m, library_id.as_str());
                append_str(&mut m, "` references missing source `");
                append_str(&mut m, order[i].as_str());
                append_str(&mut m, "`");
                let m = string_of(&m);
                assert(source_write_problem(library_id@, order@, sources@, i as int) == Some(m@));
                assert(forall|j: int| 0 <= j < i ==> source_write_problem(library_id@, order@, sources@, j) is None);
                return Err(m);
            },
        };
        match usize_to_i64(i, "sources.position") {
            Ok(_) => {},
            Err(e) => {
                assert(source_write_problem(library_id@, order@, sources@, i as int) == Some(e@));
                assert(forall|j: int| 0 <= j < i ==> source_write_problem(library_id@, order@, sources@, j) is None);
                return Err(e);
            },
        }
        let row = match stored_source(library_id, s) {
            Ok(row) => row,
            Err(e) => {
                assert(source_write_problem(library_id@, order@, sources@, i as int) == Some(e@));
                assert(forall|j: int| 0 <= j < i ==> source_write_problem(library_id@, order@, sources@, j) is None);
                return Err(e);
            },
        };
        rows.push(row);
        i += 1;
    }
    Ok(rows)
}

/// A source written and loaded back is the source again, but for what the store does not
/// keep: its local path is derived from its URI, and its assets are attached afresh.
pub proof fn lemma_source_round_trip(library_id: String, s: SourceRecord, back: SourceRecord)
    requires
        source_store_problem(s) is None,
        source_from_row(stored_source_row(library_id, s), back),
    ensures
        source_row_problem(stored_source_row(library_id, s)) is None,
        back.id == s.id,
        back.source_root_id == s.source_root_id,
        back.source_root_path == s.source_root_path,
        back.source_uri == s.source_uri,
        back.source_path@ == source_path_of(s.source_uri@),
        back.relative_path == s.relative_path,
        back.source_type == s.source_type,
        back.media_type == s.media_type,
        back.kind == s.kind,
        back.status == s.status,
        back.status_reason == s.status_reason,
        back.page_count == s.page_count,
        back.duration_ms == s.duration_ms,
        back.observed_size_bytes == s.observed_size_bytes,
        back.observed_modified_at_ms == s.observed_modified_at_ms,
        back.source_content_id == s.source_content_id,
        back.asset_ids@.len() == 0,
{
}

/// What goes wrong when the library at position `i` of the library order is written.
pub open spec fn library_write_problem(order: Seq<String>, libraries: Seq<(String, DurableLibraryHeader)>, i: int) -> Option<
    Seq<char>,
> {
    match lookup(libraries, order[i]@) {
        None => Some("library_order references missing library `"@ + order[i]@ + "`"@),
        Some(l) => if i > i64::MAX {
            Some(range_message("libraries.position"@))
        } else if !fits_column(u128_int(l.archived_at_ms)) {
            Some(range_message("libraries.archived_at_ms"@))
        } else {
            None
        },
    }
}

/// The row that stores a library.
pub open spec fn stored_library_row(l: DurableLibraryHeader) -> LibraryRow {
    LibraryRow {
        library_id: l.id,
        display_name: l.display_name,
        lifecycle_state: l.lifecycle_state,
        archived_at_ms: column_of(u128_int(l.archived_at_ms)),
    }
}

/// The rows that store the libraries, in the library order (see `library_write_problem`).
pub fn library_rows(order: &Vec<String>, libraries: &Vec<(String, DurableLibraryHeader)>) -> (r: Result<Vec<LibraryRow>, String>)
    ensures
        match r {
            Ok(rows) => rows@.len() == order@.len() && forall|i: int|
                0 <= i < order@.len() ==> library_write_problem(order@, libraries@, i) is None && lookup(
                    libraries@,
                    order@[i]@,
                ) is Some && #[trigger] rows@[i] == stored_library_row(lookup(libraries@, order@[i]@)->0),
            Err(m) => exists|i: int|
                #![trigger order@[i]]
                0 <= i < order@.len() && (forall|j: int| 0 <= j < i ==> library_write_problem(order@, libraries@, j) is None)
                    && library_write_problem(order@, libraries@, i) == Some(m@),
        },
{
    let mut rows: Vec<LibraryRow> = Vec::new();
    let mut i: usize = 0;
    while i < order.len()
        invariant
            i <= order@.len(),
            rows@.len() == i,
            forall|j: int| 0 <= j < i ==> #[trigger] library_write_problem(order@, libraries@, j) is None,
            forall|j: int| 0 <= j < i ==> lookup(libraries@, order@[j]@) is Some && #[trigger] rows@[j]
                == stored_library_row(lookup(libraries@, order@[j]@)->0),
        decreases order.len() - i,
    {
        let key = chars_of(order[i].as_str());
        let l = match crate::config::find_entry(libraries, &key) {
            Some(k) => &libraries[k].1,
            None => {
                let mut m = chars_of("library_order references missing library `");
                append_str(&mut m, order[i].as_str());
                append_str(&mut m, "`");
                let m = string_of(&m);
                assert(library_write_problem(order@, libraries@, i as int) == Some(m@));
                assert(forall|j: int| 0 <= j < i ==> library_write_problem(order@, libraries@, j) is None);
                return Err(m);
            },
        };
        match usize_to_i64(i, "libraries.position") {
            Ok(_) => {},
            Err(e) => {
                assert(library_write_problem(order@, libraries@, i as int) == Some(e@));
                assert(forall|j: int| 0 <= j < i ==> library_write_problem(order@, libraries@, j) is None);
                return Err(e);
            },
        }
        let archived_at_ms = match optional_u128_to_i64(l.archived_at_ms, "libraries.archived_at_ms") {
            Ok(a) => a,
            Err(e) => {
                assert(library_write_problem(order@, libraries@, i as int) == Some(e@));
                assert(forall|j: int| 0 <= j < i ==> library_write_problem(order@, libraries@, j) is None);
                return Err(e);
            },
        };
        rows.push(LibraryRow {
            library_id: l.id.clone(),
            display_name: l.display_name.clone(),
            lifecycle_state: l.lifecycle_state.clone(),
            archived_at_ms,
        });
        i += 1;
    }
    Ok(rows)
}

/// A library written and loaded back is the library again.
pub proof fn lemma_library_round_trip(l: DurableLibraryHeader)
    requires
        fits_column(u128_int(l.archived_at_ms)),
    ensures
        library_row_fits(stored_library_row(l)),
        header_of(stored_library_row(l)) == l,
{
}

/// The last place in `ids` of the unit `u`.
pub open spec fn last_index_of(ids: Seq<String>, u: Seq<char>) -> Option<int>
    decreases ids.len(),
{
    if ids.len() == 0 {
        None
    } else if ids.last()@ == u {
        Some(ids.len() - 1)
    } else {
        last_index_of(ids.drop_last(), u)
    }
}

/// Where a unit is stored under its asset: its last place in the asset's list of units.
pub open spec fn unit_asset_position(assets: Seq<(String, AssetRecord)>, u: UnitRecord) -> Option<int> {
    match lookup(assets, u.asset_id@) {
        Some(a) => last_index_of(a.unit_ids@, u.id@),
        None => None,
    }
}

/// What goes wrong when the unit at position `i` is written.
pub open spec fn unit_write_problem(assets: Seq<(String, AssetRecord)>, units: Seq<(String, UnitRecord)>, i: int) -> Option<Seq<char>> {
    let u = units[i].1;
    match unit_asset_position(assets, u) {
        None => Some("unit `"@ + u.id@ + "` is missing from asset `"@ + u.asset_id@ + "` unit_ids"@),
        Some(p) => if i > i64::MAX {
            Some(range_message("units.position"@))
        } else if p > i64::MAX {
            Some(range_message("units.asset_position"@))
        } else if u.point_id > i64::MAX {
            Some(range_message("units.point_id"@))
        } else {
            None
        },
    }
}

fn last_index(ids: &Vec<String>, u: &String) -> (r: Option<usize>)
    ensures
        match r {
            Some(x) => last_index_of(ids@, u@) == Some(x as int),
            None => last_index_of(ids@, u@) is None,
        },
{
    let want = chars_of(u.as_str());
    let mut i: usize = ids.len();
    assert(ids@.take(ids@.len() as int) =~= ids@);
    while i > 0
        invariant
            i <= ids@.len(),
            want@ == u@,
            last_index_of(ids@, u@) == last_index_of(ids@.take(i as int), u@),
        decreases i,
    {
        let ghost t = ids@.take(i as int);
        assert(t.drop_last() =~= ids@.take(i - 1));
        assert(t.last() == ids@[i - 1]);
        if chars_eq(&chars_of(ids[i - 1].as_str()), &want) {
            return Some(i - 1);
        }
        i -= 1;
    }
    None
}

/// Where each unit is stored under its asset, in the order the units are written (see
/// `unit_write_problem`): its asset, its last place in the asset's list of units, and its
/// id; or the first problem.
pub fn unit_placements(assets: &Vec<(String, AssetRecord)>, units: &Vec<(String, UnitRecord)>) -> (r: Result<
    Vec<UnitPlacement>,
    String,
>)
    ensures
        match r {
            Ok(ps) => ps@.len() == units@.len() && forall|i: int|
                0 <= i < units@.len() ==> unit_write_problem(assets@, units@, i) is None && (#[trigger] ps@[i]).asset_id
                    == units@[i].1.asset_id && ps@[i].unit_id == units@[i].1.id && unit_asset_position(assets@, units@[i].1)
                    == Some(ps@[i].asset_position as int),
            Err(m) => exists|i: int|
                #![trigger units@[i]]
                0 <= i < units@.len() && (forall|j: int| 0 <= j < i ==> unit_write_problem(assets@, units@, j) is None)
                    && unit_write_problem(assets@, units@, i) == Some(m@),
        },
{
    let mut ps: Vec<UnitPlacement> = Vec::new();
    let mut i: usize = 0;
    while i < units.len()
        invariant
            i <= units@.len(),
            ps@.len() == i,
            forall|j: int| 0 <= j < i ==> #[trigger] unit_write_problem(assets@, units@, j) is None,
            forall|j: int| 0 <= j < i ==> (#[trigger] ps@[j]).asset_id == units@[j].1.asset_id && ps@[j].unit_id
                == units@[j].1.id && unit_asset_position(assets@, units@[j].1) == Some(ps@[j].asset_position as int),
        decreases units.len() - i,
    {
        let u = &units[i].1;
        let key = chars_of(u.asset_id.as_str());
        let position = match crate::config::find_entry(assets, &key) {
            Some(k) => last_index(&assets[k].1.unit_ids, &u.id),
            None => None,
        };
        let position = match position {
            Some(p) => p,
            None => {
                let mut m = chars_of("unit `");
                append_str(&mut m, u.id.as_str());
                append_str(&mut m, "` is missing from asset `");
                append_str(&mut m, u.asset_id.as_str());
                append_str(&mut m, "` unit_ids");
                let m = string_of(&m);
                assert(unit_write_problem(assets@, units@, i as int) == Some(m@));
                return Err(m);
            },
        };
        let checks = match usize_to_i64(i, "units.position") {
            Ok(_) => match usize_to_i64(position, "units.asset_position") {
                Ok(p) => match crate::persistence::u64_to_i64(u.point_id, "units.point_id") {
                    Ok(_) => Ok(p),
                    Err(e) => Err(e),
                },
                Err(e) => Err(e),
            },
            Err(e) => Err(e),
        };
        let asset_position = match checks {
            Ok(p) => p,
            Err(e) => {
                assert(unit_write_problem(assets@, units@, i as int) == Some(e@));
                return Err(e);
            },
        };
        ps.push(UnitPlacement { asset_id: u.asset_id.clone(), asset_position, unit_id: u.id.clone() });
        i += 1;
    }
    Ok(ps)
}

/// The units listed `ids`, each at its place.
pub open spec fn listed(ids: Seq<String>, p: i64) -> Seq<String> {
    if 0 <= p < ids.len() { seq![ids[p as int]] } else { seq![] }
}

proof fn lemma_at_position_has(s: Seq<(i64, String)>, k: int)
    requires
        0 <= k < s.len(),
    ensures
        at_position(s, s[k].0).len() > 0,
    decreases s.len(),
{
    if k < s.len() - 1 {
        lemma_at_position_has(s.drop_last(), k);
        assert(s.drop_last()[k] == s[k]);
    }
}

/// Units sorted by position, where each place of the list `ids` holds exactly its unit and
/// no other position holds any, are the list itself: loading restores the order in which
/// an asset lists its units when they were stored at their places.
pub proof fn lemma_positions_restore_order(ids: Seq<String>, s: Seq<(i64, String)>)
    requires
        ids.len() <= i64::MAX,
        by_position(s),
        forall|p: i64| #[trigger] at_position(s, p) == listed(ids, p),
    ensures
        s.len() == ids.len(),
        forall|i: int| 0 <= i < s.len() ==> #[trigger] s[i].0 == i && s[i].1 == ids[i],
    decreases ids.len(),
{
    if ids.len() == 0 {
        if s.len() > 0 {
            lemma_at_position_has(s, 0);
            assert(at_position(s, s[0].0) == listed(ids, s[0].0));
        }
    } else {
        let n = ids.len();
        let top = (n - 1) as i64;
        assert(at_position(s, top) == listed(ids, top));
        assert(listed(ids, top).len() == 1);
        // the last unit is at the top place
        assert(s.len() > 0) by {
            if s.len() == 0 {
                assert(at_position(s, top).len() == 0);
            }
        }
        let last = s.last();
        lemma_at_position_has(s, s.len() - 1);
        assert(at_position(s, last.0) == listed(ids, last.0));
        assert(0 <= last.0 < n);
        if last.0 < top {
            // some unit sits at the top place, and it comes before the last one
            assert(at_position(s, top).len() > 0);
            lemma_some_at_position(s, top);
            let k = choose|k: int| 0 <= k < s.len() && s[k].0 == top;
            assert(s[k].0 <= s[s.len() - 1].0);
        }
        assert(last.0 == top);
        let d = s.drop_last();
        let rest = ids.drop_last();
        assert(at_position(s, top) == at_position(d, top).push(last.1));
        assert(at_position(d, top).len() == 0);
        assert(at_position(s, top)[0] == last.1);
        assert(listed(ids, top)[0] == ids[n - 1]);
        assert(last.1 == ids[n - 1]);
        assert forall|p: i64| #[trigger] at_position(d, p) == listed(rest, p) by {
            assert(at_position(s, p) == listed(ids, p));
            if p == top {
                assert(listed(rest, p) =~= Seq::<String>::empty());
                assert(at_position(d, p) =~= Seq::<String>::empty());
            } else {
                assert(at_position(s, p) == at_position(d, p));
                if 0 <= p < rest.len() {
                    assert(rest[p as int] == ids[p as int]);
                }
            }
        }
        assert forall|i: int, j: int| 0 <= i < j < d.len() implies #[trigger] d[i].0 <= #[trigger] d[j].0 by {
            assert(d[i] == s[i] && d[j] == s[j]);
        }
        lemma_positions_restore_order(rest, d);
        assert forall|i: int| 0 <= i < s.len() implies #[trigger] s[i].0 == i && s[i].1 == ids[i] by {
            if i < d.len() {
                assert(s[i] == d[i]);
                assert(rest[i] == ids[i]);
            }
        }
    }
}

proof fn lemma_some_at_position(s: Seq<(i64, String)>, p: i64)
    requires
        at_position(s, p).len() > 0,
    ensures
        exists|k: int| 0 <= k < s.len() && s[k].0 == p,
    decreases s.len(),
{
    if s.len() > 0 {
        if s.last().0 == p {
            assert(s[s.len() - 1].0 == p);
        } else {
            lemma_some_at_position(s.drop_last(), p);
            let k = choose|k: int| 0 <= k < s.drop_last().len() && s.drop_last()[k].0 == p;
            assert(s[k] == s.drop_last()[k]);
        }
    }
}

/// The first numeric field of a query asset too large for its column, as the message of
/// the write.
pub open spec fn query_asset_store_problem(a: TempQueryAssetRecord) -> Option<Seq<char>> {
    if !fits_column(size_int(a.page_count)) {
        Some(range_message("query_assets.page_count"@))
    } else if !fits_column(u64_int(a.duration_ms)) {
        Some(range_message("query_assets.duration_ms"@))
    } else if a.size_bytes > i64::MAX {
        Some(range_message("query_assets.size_bytes"@))
    } else if a.created_at_ms > i64::MAX {
        Some(range_message("query_assets.created_at_ms"@))
    } else if a.expires_at_ms > i64::MAX {
        Some(range_message("query_assets.expires_at_ms"@))
    } else {
        None
    }
}

/// The row that stores a query asset.
pub open spec fn stored_query_asset_row(a: TempQueryAssetRecord) -> QueryAssetRow {
    QueryAssetRow {
        query_asset_id: a.id,
        owner_scope: a.owner_scope,
        library_id: a.library_id,
        source_type: a.source_type,
        content_type: a.content_type,
        path: a.path,
        original_filename: a.original_filename,
        page_count: column_of(size_int(a.page_count)),
        duration_ms: column_of(u64_int(a.duration_ms)),
        size_bytes: a.size_bytes as i64,
        created_at_ms: a.created_at_ms as i64,
        expires_at_ms: a.expires_at_ms as i64,
    }
}

/// The row that stores a query asset, or the message of its first field too large for its
/// column.
pub fn query_asset_row(a: &TempQueryAssetRecord) -> (r: Result<QueryAssetRow, String>)
    ensures
        match query_asset_store_problem(*a) {
            Some(m) => r matches Err(e) && e@ == m,
            None => r == Ok::<QueryAssetRow, String>(stored_query_asset_row(*a)),
        },
{
    let page_count = optional_usize_to_i64(a.page_count, "query_assets.page_count")?;
    let duration_ms = optional_u64_to_i64(a.duration_ms, "query_assets.duration_ms")?;
    let size_bytes = usize_to_i64(a.size_bytes, "query_assets.size_bytes")?;
    let created_at_ms = crate::persistence::u128_to_i64(a.created_at_ms, "query_assets.created_at_ms")?;
    let expires_at_ms = crate::persistence::u128_to_i64(a.expires_at_ms, "query_assets.expires_at_ms")?;
    Ok(QueryAssetRow {
        query_asset_id: a.id.clone(),
        owner_scope: a.owner_scope.clone(),
        library_id: a.library_id.clone(),
        source_type: a.source_type.clone(),
        content_type: a.content_type.clone(),
        path: a.path.clone(),
        original_filename: a.original_filename.clone(),
        page_count,
        duration_ms,
        size_bytes,
        created_at_ms,
        expires_at_ms,
    })
}

/// A query asset written and loaded back is the same query asset.
pub proof fn lemma_query_asset_round_trip(a: TempQueryAssetRecord)
    requires
        query_asset_store_problem(a) is None,
    ensures
        query_asset_problem(stored_query_asset_row(a)) is None,
        query_asset_of(stored_query_asset_row(a)) == a,
{
}

} // verus!
