use vstd::prelude::*;
use crate::config::lookup;
use crate::error::{IoError, IoErrorKind};
use crate::json::{lex_lt, string_views};
use crate::locations::{first_index, lemma_replace_first, placeholder_asset, replace_at};
use crate::persistence::{invalid_data, invalid_data_message};
use crate::shared_load::{
    load_units, unit_row_decoded, units_outcome, AssetRecord, KeyedRecords, KeyedRow, LoadedUnits, UnitRecord,
    UnitRow,
};
use crate::sorted::{is_sorted_set, lemma_lex_lt_asymmetric, set_of};
use crate::unit_order::{
    missing_asset_message, missing_unit_asset, placements_of, row_assets, stably_sorted, units_by_asset,
    UnitPlacement,
};

verus! {

/// Where each unit row places its unit: its asset, its position there, and the unit.
pub open spec fn row_placements(rows: Seq<UnitRow>) -> Seq<UnitPlacement> {
    rows.map_values(
        |r: UnitRow| UnitPlacement { asset_id: r.asset_id, asset_position: r.asset_position, unit_id: r.unit_id },
    )
}

/// `ids` are the ids of the units placed under `asset`, ordered by position, units at the
/// same position in row order.
pub open spec fn unit_ids_of(rows: Seq<UnitPlacement>, asset: Seq<char>, ids: Seq<Seq<char>>) -> bool {
    exists|sorted: Seq<(i64, String)>|
        #![trigger stably_sorted(placements_of(rows, asset), sorted)]
        stably_sorted(placements_of(rows, asset), sorted) && ids == sorted.map_values(|p: (i64, String)| p.1@)
}

/// `n` is the asset record `o` with only its unit ids changed.
pub open spec fn same_but_unit_ids(o: AssetRecord, n: AssetRecord) -> bool {
    &&& n.id == o.id
    &&& n.source_id == o.source_id
    &&& n.content_id == o.content_id
    &&& n.source_path == o.source_path
    &&& n.source_type == o.source_type
    &&& n.source_content_id == o.source_content_id
    &&& n.asset_type == o.asset_type
    &&& n.locator == o.locator
    &&& n.derivation_signature == o.derivation_signature
    &&& n.neighbor_context == o.neighbor_context
}

/// Whether an asset is among the loaded records.
pub open spec fn asset_loaded(assets: Seq<(String, AssetRecord)>, a: Seq<char>) -> bool {
    lookup(assets, a) is Some
}

/// `a` is the first asset, in id order, that units are placed under and that is not loaded.
pub open spec fn first_missing_asset(rows: Seq<UnitPlacement>, assets: Seq<(String, AssetRecord)>, a: Seq<char>) -> bool {
    &&& row_assets(rows).contains(a)
    &&& !asset_loaded(assets, a)
    &&& forall|b: Seq<char>| row_assets(rows).contains(b) && lex_lt(b, a) ==> #[trigger] asset_loaded(assets, b)
}

/// Every asset that units are placed under is loaded.
pub open spec fn all_assets_loaded(rows: Seq<UnitPlacement>, assets: Seq<(String, AssetRecord)>) -> bool {
    forall|a: Seq<char>| row_assets(rows).contains(a) ==> #[trigger] asset_loaded(assets, a)
}

/// `new` is `old` with each asset that units are placed under given the ids of its units
/// (see `unit_ids_of`); every other asset, and the order, stay as they were.
pub open spec fn units_attached(rows: Seq<UnitPlacement>, old: KeyedRecords<AssetRecord>, new: KeyedRecords<AssetRecord>) -> bool {
    &&& new.order@ == old.order@
    &&& forall|a: Seq<char>| !(row_assets(rows).contains(a) && asset_loaded(old.records@, a))
        ==> #[trigger] lookup(new.records@, a) == lookup(old.records@, a)
    &&& forall|a: Seq<char>| #[trigger] row_assets(rows).contains(a) && asset_loaded(old.records@, a) ==> {
        let o = lookup(old.records@, a)->0;
        let n = lookup(new.records@, a)->0;
        &&& lookup(new.records@, a) is Some
        &&& same_but_unit_ids(o, n)
        &&& unit_ids_of(rows, a, string_views(n.unit_ids@))
    }
}

/// The outcome of loading the stored units into libraries that hold the assets `old`:
/// a row that does not decode fails first (see `units_outcome`); then, where there are
/// libraries, a unit placed under an asset that is not loaded fails with the first such
/// asset in id order; else the units load, and each asset with units gets their ids in
/// position order (see `units_attached`). With no library nothing is attached.
pub open spec fn units_loaded_into(
    path: Seq<char>,
    rows: Seq<UnitRow>,
    has_libraries: bool,
    old: KeyedRecords<AssetRecord>,
    new: KeyedRecords<AssetRecord>,
    r: Result<LoadedUnits, IoError>,
) -> bool {
    exists|keyed: Seq<KeyedRow<UnitRecord>>|
        {
            &&& keyed.len() == rows.len()
            &&& forall|i: int| 0 <= i < rows.len() ==> unit_row_decoded(path, #[trigger] rows[i], keyed[i])
            &&& if !(forall|i: int| 0 <= i < keyed.len() ==> (#[trigger] keyed[i]).record is Ok) {
                units_outcome(keyed, rows, r) && new == old
            } else if has_libraries && !all_assets_loaded(row_placements(rows), old.records@) {
                &&& new == old
                &&& r matches Err(e) && e.kind == IoErrorKind::InvalidData && exists|a: Seq<char>|
                    #[trigger] first_missing_asset(row_placements(rows), old.records@, a) && e.message@
                        == invalid_data_message(path, missing_asset_message(a))
            } else {
                &&& units_outcome(keyed, rows, r)
                &&& r is Ok
                &&& if has_libraries {
                    units_attached(row_placements(rows), old, new)
                } else {
                    new == old
                }
            }
        }
}

fn unit_ids_from(sorted: &Vec<(i64, String)>) -> (r: Vec<String>)
    ensures
        string_views(r@) == sorted@.map_values(|p: (i64, String)| p.1@),
{
    let mut r: Vec<String> = Vec::new();
    let mut i: usize = 0;
    while i < sorted.len()
        invariant
            i <= sorted.len(),
            string_views(r@) == sorted@.take(i as int).map_values(|p: (i64, String)| p.1@),
        decreases sorted.len() - i,
    {
        let ghost before = string_views(r@);
        let id = sorted[i].1.clone();
        r.push(id);
        assert(string_views(r@) =~= before.push(id@));
        assert(sorted@.take(i + 1) =~= sorted@.take(i as int).push(sorted@[i as int]));
        assert(sorted@.take(i + 1).map_values(|p: (i64, String)| p.1@) =~= sorted@.take(i as int).map_values(
            |p: (i64, String)| p.1@,
        ).push(sorted@[i as int].1@));
        i += 1;
    }
    assert(sorted@.take(sorted.len() as int) =~= sorted@);
    r
}

fn record_keys(v: &Vec<(String, AssetRecord)>) -> (r: Vec<String>)
    ensures
        forall|a: Seq<char>| string_views(r@).contains(a) == asset_loaded(v@, a),
{
    let mut r: Vec<String> = Vec::new();
    let mut i: usize = 0;
    while i < v.len()
        invariant
            i <= v.len(),
            string_views(r@) == v@.take(i as int).map_values(|p: (String, AssetRecord)| p.0@),
        decreases v.len() - i,
    {
        let ghost before = string_views(r@);
        let k = v[i].0.clone();
        r.push(k);
        assert(string_views(r@) =~= before.push(k@));
        assert(v@.take(i + 1) =~= v@.take(i as int).push(v@[i as int]));
        assert(v@.take(i + 1).map_values(|p: (String, AssetRecord)| p.0@) =~= v@.take(i as int).map_values(
            |p: (String, AssetRecord)| p.0@,
        ).push(v@[i as int].0@));
        i += 1;
    }
    assert(v@.take(v.len() as int) =~= v@);
    proof {
        assert forall|a: Seq<char>| string_views(r@).contains(a) == asset_loaded(v@, a) by {
            lemma_lookup_keys(v@, a);
        }
    }
    r
}

proof fn lemma_lookup_keys(v: Seq<(String, AssetRecord)>, a: Seq<char>)
    ensures
        v.map_values(|p: (String, AssetRecord)| p.0@).contains(a) == (lookup(v, a) is Some),
    decreases v.len(),
{
    let ks = v.map_values(|p: (String, AssetRecord)| p.0@);
    if v.len() > 0 {
        let t = v.drop_first();
        lemma_lookup_keys(t, a);
        let kt = t.map_values(|p: (String, AssetRecord)| p.0@);
        assert(ks =~= seq![v[0].0@] + kt);
        if ks.contains(a) {
            let j = choose|j: int| 0 <= j < ks.len() && ks[j] == a;
            if j > 0 {
                assert(kt[j - 1] == a);
            }
        }
        if kt.contains(a) {
            let j = choose|j: int| 0 <= j < kt.len() && kt[j] == a;
            assert(ks[j + 1] == a);
        }
        if v[0].0@ == a {
            assert(ks[0] == a);
        }
    }
}

/// The asset ids of the groups, as views.
pub open spec fn group_keys(groups: Seq<(String, Vec<(i64, String)>)>) -> Seq<Seq<char>> {
    string_views(groups.map_values(|g: (String, Vec<(i64, String)>)| g.0))
}

proof fn lemma_group_keys(groups: Seq<(String, Vec<(i64, String)>)>, rows: Seq<UnitPlacement>)
    requires
        is_sorted_set(groups.map_values(|g: (String, Vec<(i64, String)>)| g.0)),
        set_of(groups.map_values(|g: (String, Vec<(i64, String)>)| g.0)) == row_assets(rows),
    ensures
        forall|k: int| 0 <= k < groups.len() ==> #[trigger] group_keys(groups)[k] == groups[k].0@,
        group_keys(groups).len() == groups.len(),
        forall|a: Seq<char>| #[trigger] row_assets(rows).contains(a) <==> exists|k: int| 0 <= k < groups.len() && groups[k].0@ == a,
        forall|j: int, k: int| 0 <= j < k < groups.len() ==> lex_lt(#[trigger] groups[j].0@, #[trigger] groups[k].0@),
{
    let gk = group_keys(groups);
    assert forall|k: int| 0 <= k < groups.len() implies #[trigger] gk[k] == groups[k].0@ by {}
    assert forall|j: int, k: int| 0 <= j < k < groups.len() implies lex_lt(#[trigger] groups[j].0@, #[trigger] groups[k].0@) by {
        assert(gk[j] == groups[j].0@ && gk[k] == groups[k].0@);
    }
    assert forall|a: Seq<char>| #[trigger] row_assets(rows).contains(a) <==> exists|k: int| 0 <= k < groups.len() && groups[k].0@ == a by {
        if row_assets(rows).contains(a) {
            assert(gk.to_set().contains(a));
            let k = choose|k: int| 0 <= k < gk.len() && gk[k] == a;
            assert(groups[k].0@ == a);
        }
        if exists|k: int| 0 <= k < groups.len() && groups[k].0@ == a {
            let k = choose|k: int| 0 <= k < groups.len() && groups[k].0@ == a;
            assert(gk[k] == a);
            assert(gk.contains(a));
        }
    }
}

/// Loads the stored units (see `load_units`) into libraries that hold the assets `assets`
/// (`has_libraries`: there is at least one library), giving each asset the ids of its
/// units in position order (see `units_loaded_into`).
pub fn load_units_into_libraries(
    path: &str,
    rows: Vec<UnitRow>,
    has_libraries: bool,
    assets: &mut KeyedRecords<AssetRecord>,
) -> (r: Result<LoadedUnits, IoError>)
    ensures
        units_loaded_into(path@, rows@, has_libraries, *old(assets), *final(assets), r),
{
    let ghost rv = rows@;
    let ghost start = *assets;
    let loaded = load_units(path, rows);
    let ghost keyed = choose|keyed: Seq<KeyedRow<UnitRecord>>|
        {
            &&& keyed.len() == rv.len()
            &&& forall|i: int| 0 <= i < rv.len() ==> unit_row_decoded(path@, #[trigger] rv[i], keyed[i])
            &&& #[trigger] units_outcome(keyed, rv, loaded)
        };
    let l = match loaded {
        Err(e) => {
            let r: Result<LoadedUnits, IoError> = Err(e);
            assert(units_outcome(keyed, rv, r));
            return r;
        },
        Ok(l) => l,
    };
    assert(forall|i: int| 0 <= i < keyed.len() ==> (#[trigger] keyed[i]).record is Ok);
    let ghost p = row_placements(rv);
    assert(l.placements@ =~= p) by {
        assert forall|i: int| 0 <= i < p.len() implies l.placements@[i] == p[i] by {
            assert(l.placements@[i].asset_id == rv[i].asset_id);
        }
    }
    if !has_libraries {
        let r: Result<LoadedUnits, IoError> = Ok(l);
        assert(units_outcome(keyed, rv, r));
        return r;
    }
    let groups = units_by_asset(&l.placements);
    proof {
        lemma_group_keys(groups@, p);
    }
    let keys = record_keys(&assets.records);
    match missing_unit_asset(&groups, &keys) {
        Some(m) => {
            let r: Result<LoadedUnits, IoError> = Err(invalid_data(path, m.as_str()));
            proof {
                let k = choose|k: int|
                    0 <= k < groups@.len() && !string_views(keys@).contains(#[trigger] groups@[k].0@) && (forall|j: int|
                        0 <= j < k ==> string_views(keys@).contains(#[trigger] groups@[j].0@)) && m@
                        == missing_asset_message(groups@[k].0@);
                let a = groups@[k].0@;
                assert(row_assets(p).contains(a));
                assert forall|b: Seq<char>| row_assets(p).contains(b) && lex_lt(b, a) implies #[trigger] asset_loaded(start.records@, b) by {
                    let j = choose|j: int| 0 <= j < groups@.len() && groups@[j].0@ == b;
                    if j >= k {
                        if j == k {
                            crate::sorted::lemma_lex_lt_irreflexive(a);
                        } else {
                            lemma_lex_lt_asymmetric(a, b);
                        }
                    }
                    assert(string_views(keys@).contains(groups@[j].0@));
                }
                assert(first_missing_asset(p, start.records@, a));
            }
            return r;
        },
        None => {},
    }
    proof {
        assert forall|a: Seq<char>| row_assets(p).contains(a) implies #[trigger] asset_loaded(start.records@, a) by {
            let j = choose|j: int| 0 <= j < groups@.len() && groups@[j].0@ == a;
            assert(string_views(keys@).contains(groups@[j].0@));
        }
    }
    let mut k: usize = 0;
    while k < groups.len()
        invariant
            k <= groups.len(),
            p == l.placements@,
            forall|j: int, t: int| 0 <= j < t < groups@.len() ==> lex_lt(#[trigger] groups@[j].0@, #[trigger] groups@[t].0@),
            forall|t: int| 0 <= t < groups@.len() ==> row_assets(p).contains(#[trigger] groups@[t].0@),
            forall|t: int| 0 <= t < groups@.len() ==> stably_sorted(placements_of(p, groups@[t].0@), #[trigger] groups@[t].1@),
            all_assets_loaded(p, start.records@),
            assets.order@ == start.order@,
            forall|a: Seq<char>| !(exists|t: int| 0 <= t < k && groups@[t].0@ == a)
                ==> #[trigger] lookup(assets.records@, a) == lookup(start.records@, a),
            forall|t: int| 0 <= t < k ==> {
                let a = #[trigger] groups@[t].0@;
                let o = lookup(start.records@, a)->0;
                let n = lookup(assets.records@, a)->0;
                &&& lookup(assets.records@, a) is Some
                &&& same_but_unit_ids(o, n)
                &&& unit_ids_of(p, a, string_views(n.unit_ids@))
            },
        decreases groups.len() - k,
    {
        let ghost a = groups@[k as int].0@;
        let ghost before = assets.records@;
        proof {
            assert(row_assets(p).contains(a));
            assert(asset_loaded(start.records@, a));
            assert forall|t: int| 0 <= t < k implies groups@[t].0@ != a by {
                lemma_lex_lt_asymmetric(groups@[t].0@, a);
                crate::sorted::lemma_lex_lt_irreflexive(a);
            }
            assert(lookup(before, a) == lookup(start.records@, a));
        }
        let i = match first_index(&assets.records, groups[k].0.as_str()) {
            Some(i) => i,
            None => {
                assert(false);
                return Ok(l);
            },
        };
        let mut rec = replace_at(&mut assets.records, i, placeholder_asset());
        let ids = unit_ids_from(&groups[k].1);
        rec.unit_ids = ids;
        let ghost newrec = rec;
        let _ = replace_at(&mut assets.records, i, rec);
        proof {
            assert(assets.records@ =~= before.update(i as int, (before[i as int].0, newrec)));
            assert forall|b: Seq<char>| #[trigger] lookup(assets.records@, b) == if b == a {
                Some(newrec)
            } else {
                lookup(before, b)
            } by {
                lemma_replace_first(before, i as int, newrec, b);
            }
            assert(stably_sorted(placements_of(p, a), groups@[k as int].1@));
            assert(unit_ids_of(p, a, string_views(newrec.unit_ids@)));
            assert forall|b: Seq<char>| !(exists|t: int| 0 <= t < k + 1 && groups@[t].0@ == b)
                implies #[trigger] lookup(assets.records@, b) == lookup(start.records@, b) by {
                assert(!(groups@[k as int].0@ == b));
            }
            assert forall|t: int| 0 <= t < k + 1 implies {
                let a2 = #[trigger] groups@[t].0@;
                let o = lookup(start.records@, a2)->0;
                let n = lookup(assets.records@, a2)->0;
                &&& lookup(assets.records@, a2) is Some
                &&& same_but_unit_ids(o, n)
                &&& unit_ids_of(p, a2, string_views(n.unit_ids@))
            } by {
                if t < k {
                    assert(groups@[t].0@ != a);
                }
            }
        }
        k += 1;
    }
    let r: Result<LoadedUnits, IoError> = Ok(l);
    proof {
        assert(units_outcome(keyed, rv, r));
        assert forall|a: Seq<char>| !(row_assets(p).contains(a) && asset_loaded(start.records@, a))
            implies #[trigger] lookup(assets.records@, a) == lookup(start.records@, a) by {
            if exists|t: int| 0 <= t < groups@.len() && groups@[t].0@ == a {
                let t = choose|t: int| 0 <= t < groups@.len() && groups@[t].0@ == a;
                assert(row_assets(p).contains(a));
            }
        }
        assert forall|a: Seq<char>| #[trigger] row_assets(p).contains(a) && asset_loaded(start.records@, a) implies {
            let o = lookup(start.records@, a)->0;
            let n = lookup(assets.records@, a)->0;
            &&& lookup(assets.records@, a) is Some
            &&& same_but_unit_ids(o, n)
            &&& unit_ids_of(p, a, string_views(n.unit_ids@))
        } by {
            let t = choose|t: int| 0 <= t < groups@.len() && groups@[t].0@ == a;
            assert(groups@[t].0@ == a);
        }
        assert(units_attached(p, start, *assets));
    }
    r
}

} // verus!
