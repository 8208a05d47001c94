use vstd::prelude::*;
use crate::json::string_views;
use crate::sorted::{insert_sorted, is_sorted_set, set_of};
use crate::text::{append_str, chars_eq, chars_of, string_of};

verus! {

/// A stored unit's place under its asset: the asset, its position there, and the unit.
#[derive(Debug)]
pub struct UnitPlacement {
    pub asset_id: String,
    pub asset_position: i64,
    pub unit_id: String,
}

/// The units placed under `asset`, as (position, unit id), in row order.
pub open spec fn placements_of(rows: Seq<UnitPlacement>, asset: Seq<char>) -> Seq<(i64, String)>
    decreases rows.len(),
{
    if rows.len() == 0 {
        seq![]
    } else if rows.last().asset_id@ == asset {
        placements_of(rows.drop_last(), asset).push((rows.last().asset_position, rows.last().unit_id))
    } else {
        placements_of(rows.drop_last(), asset)
    }
}

/// The units at position `p`, in order.
pub open spec fn at_position(s: Seq<(i64, String)>, p: i64) -> Seq<String>
    decreases s.len(),
{
    if s.len() == 0 {
        seq![]
    } else if s.last().0 == p {
        at_position(s.drop_last(), p).push(s.last().1)
    } else {
        at_position(s.drop_last(), p)
    }
}

/// Units in increasing position.
pub open spec fn by_position(s: Seq<(i64, String)>) -> bool {
    forall|i: int, j: int| 0 <= i < j < s.len() ==> #[trigger] s[i].0 <= #[trigger] s[j].0
}

/// `sorted` is `s` ordered by position, units at the same position keeping their order: a
/// stable sort.
pub open spec fn stably_sorted(s: Seq<(i64, String)>, sorted: Seq<(i64, String)>) -> bool {
    &&& by_position(sorted)
    &&& forall|p: i64| #[trigger] at_position(sorted, p) == at_position(s, p)
}

/// The asset ids that the rows name.
pub open spec fn row_assets(rows: Seq<UnitPlacement>) -> Set<Seq<char>> {
    rows.map_values(|u: UnitPlacement| u.asset_id@).to_set()
}

proof fn lemma_at_position_add(a: Seq<(i64, String)>, b: Seq<(i64, String)>, p: i64)
    ensures
        at_position(a + b, p) == at_position(a, p) + at_position(b, p),
    decreases b.len(),
{
    if b.len() == 0 {
        assert(a + b =~= a);
        assert(at_position(a, p) + at_position(b, p) =~= at_position(a, p));
    } else {
        lemma_at_position_add(a, b.drop_last(), p);
        assert((a + b).drop_last() =~= a + b.drop_last());
        assert((a + b).last() == b.last());
        if b.last().0 == p {
            assert(at_position(a, p) + at_position(b, p) =~= (at_position(a, p) + at_position(b.drop_last(), p)).push(b.last().1));
        } else {
            assert(at_position(a, p) + at_position(b, p) =~= at_position(a, p) + at_position(b.drop_last(), p));
        }
    }
}

proof fn lemma_at_position_push(s: Seq<(i64, String)>, y: (i64, String), p: i64)
    ensures
        at_position(s.push(y), p) == if y.0 == p { at_position(s, p).push(y.1) } else { at_position(s, p) },
{
    assert(s.push(y).drop_last() =~= s);
    assert(s.push(y).last() == y);
}

proof fn lemma_at_position_above(b: Seq<(i64, String)>, p: i64)
    requires
        forall|k: int| 0 <= k < b.len() ==> #[trigger] b[k].0 > p,
    ensures
        at_position(b, p) == Seq::<String>::empty(),
    decreases b.len(),
{
    if b.len() > 0 {
        assert(b.last() == b[b.len() - 1]);
        lemma_at_position_above(b.drop_last(), p);
    }
}

/// Inserts a unit into units ordered by position, after every unit at a position no greater.
fn insert_by_position(sorted: &mut Vec<(i64, String)>, position: i64, unit_id: String)
    requires
        by_position(old(sorted)@),
    ensures
        by_position(final(sorted)@),
        forall|p: i64| #[trigger] at_position(final(sorted)@, p) == if p == position {
            at_position(old(sorted)@, p).push(unit_id)
        } else {
            at_position(old(sorted)@, p)
        },
{
    let ghost s0 = sorted@;
    let mut m: usize = 0;
    while m < sorted.len()
        invariant
            m <= sorted@.len(),
            sorted@ == s0,
            by_position(s0),
            forall|k: int| 0 <= k < m ==> #[trigger] s0[k].0 <= position,
        ensures
            m <= sorted@.len(),
            sorted@ == s0,
            forall|k: int| 0 <= k < m ==> #[trigger] s0[k].0 <= position,
            m < sorted@.len() ==> s0[m as int].0 > position,
        decreases sorted.len() - m,
    {
        if sorted[m].0 > position {
            break;
        }
        m += 1;
    }
    let x = (position, unit_id);
    sorted.insert(m, x);
    proof {
        let a = s0.take(m as int);
        let b = s0.skip(m as int);
        assert(s0 =~= a + b);
        assert(sorted@ =~= a + seq![x] + b);
        assert forall|k: int| 0 <= k < b.len() implies #[trigger] b[k].0 > position by {
            assert(b[k] == s0[m + k]);
            if k > 0 {
                assert(s0[m as int].0 <= s0[m + k].0);
            }
        }
        lemma_at_position_above(b, position);
        assert forall|p: i64| #[trigger] at_position(sorted@, p) == if p == position {
            at_position(s0, p).push(unit_id)
        } else {
            at_position(s0, p)
        } by {
            lemma_at_position_add(a + seq![x], b, p);
            lemma_at_position_add(a, seq![x], p);
            lemma_at_position_add(a, b, p);
            lemma_at_position_push(Seq::<(i64, String)>::empty(), x, p);
            assert(Seq::<(i64, String)>::empty().push(x) =~= seq![x]);
            assert(at_position(Seq::<(i64, String)>::empty(), p) =~= Seq::<String>::empty());
            if p == position {
                assert(at_position(a, p) + at_position(seq![x], p) + at_position(b, p) =~= (at_position(a, p) + at_position(b, p)).push(unit_id));
            } else {
                assert(at_position(a, p) + at_position(seq![x], p) + at_position(b, p) =~= at_position(a, p) + at_position(b, p));
            }
        }
        let s1 = sorted@;
        assert forall|i: int, j: int| 0 <= i < j < s1.len() implies #[trigger] s1[i].0 <= #[trigger] s1[j].0 by {
            if j < m {
                assert(s1[i] == s0[i] && s1[j] == s0[j]);
            } else if j == m {
                assert(s1[i] == s0[i]);
            } else if i < m {
                assert(s1[i] == s0[i] && s1[j] == s0[j - 1]);
            } else if i == m {
                assert(s1[j] == s0[j - 1]);
            } else {
                assert(s1[i] == s0[i - 1] && s1[j] == s0[j - 1]);
            }
        }
    }
}

/// The units of `asset`, stably sorted by their position.
pub fn asset_units(rows: &Vec<UnitPlacement>, asset: &String) -> (r: Vec<(i64, String)>)
    ensures
        stably_sorted(placements_of(rows@, asset@), r@),
{
    let want = chars_of(asset.as_str());
    let mut sorted: Vec<(i64, String)> = Vec::new();
    let mut i: usize = 0;
    while i < rows.len()
        invariant
            i <= rows@.len(),
            want@ == asset@,
            stably_sorted(placements_of(rows@.take(i as int), asset@), sorted@),
        decreases rows.len() - i,
    {
        let ghost t = rows@.take(i + 1);
        assert(t.drop_last() =~= rows@.take(i as int));
        assert(t.last() == rows@[i as int]);
        let ghost before = placements_of(rows@.take(i as int), asset@);
        if chars_eq(&chars_of(rows[i].asset_id.as_str()), &want) {
            insert_by_position(&mut sorted, rows[i].asset_position, rows[i].unit_id.clone());
            proof {
                let y = (rows@[i as int].asset_position, rows@[i as int].unit_id);
                assert(placements_of(t, asset@) == before.push(y));
                assert forall|p: i64| #[trigger] at_position(sorted@, p) == at_position(placements_of(t, asset@), p) by {
                    lemma_at_position_push(before, y, p);
                }
            }
        } else {
            assert(placements_of(t, asset@) == before);
        }
        i += 1;
    }
    assert(rows@.take(rows@.len() as int) =~= rows@);
    sorted
}

/// The units of each asset that the rows name, assets in increasing id order, each
/// asset's units stably sorted by position: how the stored units are attached to their
/// assets.
pub fn units_by_asset(rows: &Vec<UnitPlacement>) -> (r: Vec<(String, Vec<(i64, String)>)>)
    ensures
        is_sorted_set(r@.map_values(|g: (String, Vec<(i64, String)>)| g.0)),
        set_of(r@.map_values(|g: (String, Vec<(i64, String)>)| g.0)) == row_assets(rows@),
        forall|k: int| 0 <= k < r@.len() ==> stably_sorted(placements_of(rows@, r@[k].0@), #[trigger] r@[k].1@),
{
    let mut assets: Vec<String> = Vec::new();
    let mut i: usize = 0;
    proof {
        assert(string_views(assets@).to_set() =~= Set::<Seq<char>>::empty());
        assert(rows@.take(0).map_values(|u: UnitPlacement| u.asset_id@).to_set() =~= Set::<Seq<char>>::empty());
    }
    while i < rows.len()
        invariant
            i <= rows@.len(),
            is_sorted_set(assets@),
            set_of(assets@) == row_assets(rows@.take(i as int)),
        decreases rows.len() - i,
    {
        let ghost before = set_of(assets@);
        insert_sorted(&mut assets, rows[i].asset_id.clone());
        proof {
            let t = rows@.take(i + 1);
            assert(t.map_values(|u: UnitPlacement| u.asset_id@) =~= rows@.take(i as int).map_values(
                |u: UnitPlacement| u.asset_id@,
            ).push(rows@[i as int].asset_id@));
            let prev = rows@.take(i as int).map_values(|u: UnitPlacement| u.asset_id@);
            let y = rows@[i as int].asset_id@;
            assert forall|a: Seq<char>| prev.push(y).to_set().contains(a) <==> prev.to_set().insert(y).contains(a) by {
                if prev.push(y).to_set().contains(a) {
                    let j = choose|j: int| 0 <= j < prev.push(y).len() && prev.push(y)[j] == a;
                    if j < prev.len() {
                        assert(prev[j] == a);
                    }
                }
                if prev.to_set().contains(a) {
                    let j = choose|j: int| 0 <= j < prev.len() && prev[j] == a;
                    assert(prev.push(y)[j] == a);
                }
                if a == y {
                    assert(prev.push(y)[prev.len() as int] == a);
                }
            }
            assert(row_assets(t) =~= row_assets(rows@.take(i as int)).insert(y));
        }
        i += 1;
    }
    assert(rows@.take(rows@.len() as int) =~= rows@);
    let mut groups: Vec<(String, Vec<(i64, String)>)> = Vec::new();
    let mut k: usize = 0;
    while k < assets.len()
        invariant
            k <= assets@.len(),
            groups@.len() == k,
            forall|j: int| 0 <= j < k ==> #[trigger] groups@[j].0 == assets@[j],
            forall|j: int| 0 <= j < k ==> stably_sorted(placements_of(rows@, groups@[j].0@), #[trigger] groups@[j].1@),
        decreases assets.len() - k,
    {
        let units = asset_units(rows, &assets[k]);
        groups.push((assets[k].clone(), units));
        k += 1;
    }
    proof {
        let keys = groups@.map_values(|g: (String, Vec<(i64, String)>)| g.0);
        assert(keys =~= assets@);
    }
    groups
}

/// The message of a group of units whose asset is not loaded.
pub open spec fn missing_asset_message(asset: Seq<char>) -> Seq<char> {
    "missing asset "@ + asset + " while assigning units"@
}

/// The first group whose asset is not among `assets`, as the message of that error.
pub fn missing_unit_asset(groups: &Vec<(String, Vec<(i64, String)>)>, assets: &Vec<String>) -> (r: Option<String>)
    ensures
        match r {
            Some(m) => exists|k: int|
                0 <= k < groups@.len() && !string_views(assets@).contains(#[trigger] groups@[k].0@) && (forall|j: int|
                    0 <= j < k ==> string_views(assets@).contains(#[trigger] groups@[j].0@)) && m@
                    == missing_asset_message(groups@[k].0@),
            None => forall|k: int| 0 <= k < groups@.len() ==> string_views(assets@).contains(#[trigger] groups@[k].0@),
        },
{
    let mut k: usize = 0;
    while k < groups.len()
        invariant
            k <= groups@.len(),
            forall|j: int| 0 <= j < k ==> string_views(assets@).contains(#[trigger] groups@[j].0@),
        decreases groups.len() - k,
    {
        if !contains_string(assets, &groups[k].0) {
            let mut m = chars_of("missing asset ");
            append_str(&mut m, groups[k].0.as_str());
            append_str(&mut m, " while assigning units");
            return Some(string_of(&m));
        }
        k += 1;
    }
    None
}

fn contains_string(v: &Vec<String>, s: &String) -> (r: bool)
    ensures
        r == string_views(v@).contains(s@),
{
    let want = chars_of(s.as_str());
    let mut i: usize = 0;
    while i < v.len()
        invariant
            i <= v@.len(),
            want@ == s@,
            forall|j: int| 0 <= j < i ==> v@[j]@ != s@,
        decreases v.len() - i,
    {
        if chars_eq(&chars_of(v[i].as_str()), &want) {
            assert(string_views(v@)[i as int] == s@);
            return true;
        }
        i += 1;
    }
    proof {
        if string_views(v@).contains(s@) {
            let j = choose|j: int| 0 <= j < string_views(v@).len() && string_views(v@)[j] == s@;
            assert(v@[j]@ == s@);
        }
    }
    false
}

} // verus!
