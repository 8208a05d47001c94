use vstd::prelude::*;
use crate::text::chars_of;

verus! {

/// A JSON document as the service reads and writes its configuration.
/// Numbers keep their textual form; objects keep their members as key/value pairs.
#[derive(Debug)]
pub enum Json {
    Null,
    Bool(bool),
    Number(String),
    Str(String),
    Array(Vec<Json>),
    Object(Vec<(String, Json)>),
}

/// The mathematical model of a JSON document.
pub enum JsonV {
    Null,
    Bool(bool),
    Number(Seq<char>),
    Str(Seq<char>),
    Array(Seq<JsonV>),
    Object(Seq<(Seq<char>, JsonV)>),
}

/// Object members, as modelled.
pub type Pairs = Seq<(Seq<char>, JsonV)>;

/// The model of an exec JSON document.
pub open spec fn json_model(j: Json) -> JsonV
    decreases j,
{
    match j {
        Json::Null => JsonV::Null,
        Json::Bool(b) => JsonV::Bool(b),
        Json::Number(n) => JsonV::Number(n@),
        Json::Str(s) => JsonV::Str(s@),
        Json::Array(items) => JsonV::Array(items_model(items@)),
        Json::Object(pairs) => JsonV::Object(pairs_model(pairs@)),
    }
}

/// The model of exec array items.
pub open spec fn items_model(items: Seq<Json>) -> Seq<JsonV>
    decreases items,
{
    Seq::new(
        items.len() as nat,
        |i: int|
            if 0 <= i < items.len() {
                json_model(items[i])
            } else {
                JsonV::Null
            },
    )
}

/// The model of exec object members.
pub open spec fn pairs_model(pairs: Seq<(String, Json)>) -> Pairs
    decreases pairs,
{
    Seq::new(
        pairs.len() as nat,
        |i: int|
            if 0 <= i < pairs.len() {
                (pairs[i].0@, json_model(pairs[i].1))
            } else {
                (Seq::empty(), JsonV::Null)
            },
    )
}

/// Ordering of keys by code point, as `String`'s `Ord` orders them.
pub open spec fn lex_lt(a: Seq<char>, b: Seq<char>) -> bool
    decreases a.len(),
{
    if a.len() == 0 {
        b.len() > 0
    } else if b.len() == 0 {
        false
    } else if (a[0] as u32) < (b[0] as u32) {
        true
    } else if (a[0] as u32) > (b[0] as u32) {
        false
    } else {
        lex_lt(a.drop_first(), b.drop_first())
    }
}

/// The value stored under `k` (the first member with that key).
pub open spec fn pairs_get(ps: Pairs, k: Seq<char>) -> Option<JsonV>
    decreases ps.len(),
{
    if ps.len() == 0 {
        None
    } else if ps[0].0 == k {
        Some(ps[0].1)
    } else {
        pairs_get(ps.drop_first(), k)
    }
}

/// `ps` with a member `(k, v)` inserted before the first member whose key is not less
/// than `k`, or with that member's value replaced when its key is `k`.
pub open spec fn pairs_put(ps: Pairs, k: Seq<char>, v: JsonV) -> Pairs
    decreases ps.len(),
{
    if ps.len() == 0 {
        seq![(k, v)]
    } else if ps[0].0 == k {
        seq![(k, v)] + ps.drop_first()
    } else if lex_lt(k, ps[0].0) {
        seq![(k, v)] + ps
    } else {
        seq![ps[0]] + pairs_put(ps.drop_first(), k, v)
    }
}

/// `ps` with the value of the first member keyed `k` replaced by `v`.
pub open spec fn pairs_replace(ps: Pairs, k: Seq<char>, v: JsonV) -> Pairs
    decreases ps.len(),
{
    if ps.len() == 0 {
        ps
    } else if ps[0].0 == k {
        seq![(k, v)] + ps.drop_first()
    } else {
        seq![ps[0]] + pairs_replace(ps.drop_first(), k, v)
    }
}

/// `ps` without its first member keyed `k`.
pub open spec fn pairs_remove(ps: Pairs, k: Seq<char>) -> Pairs
    decreases ps.len(),
{
    if ps.len() == 0 {
        ps
    } else if ps[0].0 == k {
        ps.drop_first()
    } else {
        seq![ps[0]] + pairs_remove(ps.drop_first(), k)
    }
}

/// Stores `v` under `k`: replaces the value of an existing member, else inserts in key order
/// (`Map::insert`).
pub open spec fn pairs_insert(ps: Pairs, k: Seq<char>, v: JsonV) -> Pairs {
    if pairs_get(ps, k) is Some {
        pairs_replace(ps, k, v)
    } else {
        pairs_put(ps, k, v)
    }
}

/// Deep merge of an overlay into a base document: where both are objects, each overlay
/// member is merged into the base member of the same key, or added when the base has none;
/// anywhere else the overlay value wins.
pub open spec fn merge(b: JsonV, o: JsonV) -> JsonV
    decreases o,
{
    match (b, o) {
        (JsonV::Object(bp), JsonV::Object(op)) => JsonV::Object(merge_pairs(bp, op)),
        _ => o,
    }
}

/// The base members after the overlay members have been merged in, in order.
pub open spec fn merge_pairs(bp: Pairs, op: Pairs) -> Pairs
    decreases op,
{
    if op.len() == 0 {
        bp
    } else {
        let acc = merge_pairs(bp, op.drop_last());
        let k = op.last().0;
        let ov = op.last().1;
        match pairs_get(acc, k) {
            Some(bv) => pairs_replace(acc, k, merge(bv, ov)),
            None => pairs_put(acc, k, ov),
        }
    }
}

/// Reading a key after storing a value under it gives that value; other keys are untouched.
pub proof fn lemma_get_after_put(ps: Pairs, k: Seq<char>, v: JsonV, j: Seq<char>)
    ensures
        pairs_get(pairs_put(ps, k, v), j) == if j == k { Some(v) } else { pairs_get(ps, j) },
    decreases ps.len(),
{
    if ps.len() > 0 {
        if ps[0].0 == k {
            let r = seq![(k, v)] + ps.drop_first();
            assert(r[0] == (k, v));
            assert(r.drop_first() =~= ps.drop_first());
            assert(pairs_put(ps, k, v) == r);
            assert(pairs_get(r, j) == if j == k { Some(v) } else { pairs_get(ps, j) });
        } else if lex_lt(k, ps[0].0) {
            let r = seq![(k, v)] + ps;
            assert(r[0] == (k, v));
            assert(r.drop_first() =~= ps);
            assert(pairs_put(ps, k, v) == r);
            assert(pairs_get(r, j) == if j == k { Some(v) } else { pairs_get(ps, j) });
        } else {
            let rest = pairs_put(ps.drop_first(), k, v);
            let r = seq![ps[0]] + rest;
            assert(r[0] == ps[0]);
            assert(r.drop_first() =~= rest);
            lemma_get_after_put(ps.drop_first(), k, v, j);
            assert(pairs_put(ps, k, v) == r);
            assert(pairs_get(r, j) == if j == k { Some(v) } else { pairs_get(ps, j) });
        }
    } else {
        let r = seq![(k, v)];
        assert(r.drop_first() =~= Seq::<(Seq<char>, JsonV)>::empty());
        assert(pairs_get(r.drop_first(), j) is None);
        assert(pairs_put(ps, k, v) == r);
        assert(r[0] == (k, v));
    }
}

/// Replacing the value of a present key is read back; nothing else changes.
pub proof fn lemma_get_after_replace(ps: Pairs, k: Seq<char>, v: JsonV, j: Seq<char>)
    ensures
        pairs_get(pairs_replace(ps, k, v), j) == if j == k && pairs_get(ps, k) is Some {
            Some(v)
        } else {
            pairs_get(ps, j)
        },
    decreases ps.len(),
{
    if ps.len() > 0 {
        if ps[0].0 == k {
            let r = seq![(k, v)] + ps.drop_first();
            assert(r[0] == (k, v));
            assert(r.drop_first() =~= ps.drop_first());
        } else {
            let rest = pairs_replace(ps.drop_first(), k, v);
            let r = seq![ps[0]] + rest;
            assert(r[0] == ps[0]);
            assert(r.drop_first() =~= rest);
            lemma_get_after_replace(ps.drop_first(), k, v, j);
        }
    }
}

/// The value a key ends with after the overlay members are merged in order: each overlay
/// member with that key is merged into what the key held, or becomes it.
pub open spec fn merged_value(base: Option<JsonV>, op: Pairs, k: Seq<char>) -> Option<JsonV>
    decreases op.len(),
{
    if op.len() == 0 {
        base
    } else {
        let acc = merged_value(base, op.drop_last(), k);
        if op.last().0 == k {
            Some(
                match acc {
                    Some(bv) => merge(bv, op.last().1),
                    None => op.last().1,
                },
            )
        } else {
            acc
        }
    }
}

/// Deep merge works key by key: what a key holds after merging an overlay object into a
/// base object is its base value with the overlay's members for that key merged in.
pub proof fn lemma_merge_by_key(bp: Pairs, op: Pairs, k: Seq<char>)
    ensures
        pairs_get(merge_pairs(bp, op), k) == merged_value(pairs_get(bp, k), op, k),
    decreases op.len(),
{
    if op.len() > 0 {
        let acc = merge_pairs(bp, op.drop_last());
        let kk = op.last().0;
        let ov = op.last().1;
        lemma_merge_by_key(bp, op.drop_last(), k);
        lemma_merge_by_key(bp, op.drop_last(), kk);
        match pairs_get(acc, kk) {
            Some(bv) => lemma_get_after_replace(acc, kk, merge(bv, ov), k),
            None => lemma_get_after_put(acc, kk, ov, k),
        }
    }
}

/// A key that the overlay does not mention keeps its base value.
pub proof fn lemma_merge_keeps_base(bp: Pairs, op: Pairs, k: Seq<char>)
    requires
        forall|i: int| 0 <= i < op.len() ==> op[i].0 != k,
    ensures
        pairs_get(merge_pairs(bp, op), k) == pairs_get(bp, k),
    decreases op.len(),
{
    lemma_merge_by_key(bp, op, k);
    lemma_merged_value_untouched(pairs_get(bp, k), op, k);
}

proof fn lemma_merged_value_untouched(base: Option<JsonV>, op: Pairs, k: Seq<char>)
    requires
        forall|i: int| 0 <= i < op.len() ==> op[i].0 != k,
    ensures
        merged_value(base, op, k) == base,
    decreases op.len(),
{
    if op.len() > 0 {
        assert(op.last().0 != k);
        lemma_merged_value_untouched(base, op.drop_last(), k);
    }
}

/// An overlay value that is not an object replaces whatever the base held: where the
/// overlay has a key once, with a scalar or array, that is what the merged document holds.
pub proof fn lemma_merge_overlay_wins(bp: Pairs, op: Pairs, k: Seq<char>, i: int)
    requires
        0 <= i < op.len(),
        op[i].0 == k,
        !(op[i].1 is Object),
        forall|j: int| 0 <= j < op.len() && j != i ==> op[j].0 != k,
    ensures
        pairs_get(merge_pairs(bp, op), k) == Some(op[i].1),
{
    lemma_merge_by_key(bp, op, k);
    lemma_merged_value_single(pairs_get(bp, k), op, k, i);
}

proof fn lemma_merged_value_single(base: Option<JsonV>, op: Pairs, k: Seq<char>, i: int)
    requires
        0 <= i < op.len(),
        op[i].0 == k,
        !(op[i].1 is Object),
        forall|j: int| 0 <= j < op.len() && j != i ==> op[j].0 != k,
    ensures
        merged_value(base, op, k) == Some(op[i].1),
    decreases op.len(),
{
    if i == op.len() - 1 {
        let acc = merged_value(base, op.drop_last(), k);
        match acc {
            Some(bv) => {
                assert(merge(bv, op[i].1) == op[i].1);
            },
            None => {},
        }
    } else {
        assert(op.last().0 != k);
        lemma_merged_value_single(base, op.drop_last(), k, i);
    }
}

proof fn lemma_pairs_model_len(ps: Seq<(String, Json)>)
    ensures
        pairs_model(ps).len() == ps.len(),
{
}

/// Exec comparison of keys by code point.
pub fn key_lt(a: &String, b: &String) -> (r: bool)
    ensures
        r == lex_lt(a@, b@),
{
    let x = chars_of(a.as_str());
    let y = chars_of(b.as_str());
    let mut i: usize = 0;
    assert(x@.skip(0) =~= x@);
    assert(y@.skip(0) =~= y@);
    while i < x.len() && i < y.len()
        invariant
            x@ == a@,
            y@ == b@,
            i <= x.len(),
            i <= y.len(),
            lex_lt(x@, y@) == lex_lt(x@.skip(i as int), y@.skip(i as int)),
        decreases x.len() - i,
    {
        let cx = x[i] as u32;
        let cy = y[i] as u32;
        assert(x@.skip(i as int)[0] == x@[i as int]);
        assert(y@.skip(i as int)[0] == y@[i as int]);
        if cx < cy {
            return true;
        }
        if cx > cy {
            return false;
        }
        assert(x@.skip(i as int).drop_first() =~= x@.skip(i + 1));
        assert(y@.skip(i as int).drop_first() =~= y@.skip(i + 1));
        i = i + 1;
    }
    i < y.len()
}

/// A copy of a document.
pub fn clone_json(j: &Json) -> (r: Json)
    ensures
        json_model(r) == json_model(*j),
    decreases j,
{
    match j {
        Json::Null => Json::Null,
        Json::Bool(b) => Json::Bool(*b),
        Json::Number(n) => Json::Number(n.clone()),
        Json::Str(s) => Json::Str(s.clone()),
        Json::Array(items) => {
            let out = clone_items(items);
            Json::Array(out)
        },
        Json::Object(pairs) => {
            let out = clone_pairs(pairs);
            let r = Json::Object(out);
            r
        },
    }
}

/// A copy of array items.
pub fn clone_items(items: &Vec<Json>) -> (r: Vec<Json>)
    ensures
        items_model(r@) == items_model(items@),
    decreases items,
{
    let mut out: Vec<Json> = Vec::new();
    let mut i: usize = 0;
    while i < items.len()
        invariant
            i <= items.len(),
            out.len() == i,
            forall|k: int| 0 <= k < i ==> json_model(out@[k]) == json_model(items@[k]),
        decreases items.len() - i,
    {
        assert(decreases_to!(items => items@[i as int]));
        let c = clone_json(&items[i]);
        out.push(c);
        i = i + 1;
    }
    assert(items_model(out@) =~= items_model(items@));
    out
}

/// A copy of object members.
pub fn clone_pairs(pairs: &Vec<(String, Json)>) -> (r: Vec<(String, Json)>)
    ensures
        pairs_model(r@) == pairs_model(pairs@),
    decreases pairs,
{
    let mut out: Vec<(String, Json)> = Vec::new();
    let mut i: usize = 0;
    while i < pairs.len()
        invariant
            i <= pairs.len(),
            out.len() == i,
            forall|k: int|
                0 <= k < i ==> out@[k].0@ == pairs@[k].0@ && json_model(out@[k].1) == json_model(
                    pairs@[k].1,
                ),
        decreases pairs.len() - i,
    {
        assert(decreases_to!(pairs => pairs@[i as int]));
        let k = pairs[i].0.clone();
        let v = clone_json(&pairs[i].1);
        out.push((k, v));
        i = i + 1;
    }
    assert(pairs_model(out@) =~= pairs_model(pairs@));
    out
}


pub(crate) proof fn lemma_get_at(ps: Pairs, k: Seq<char>, i: int)
    requires
        0 <= i <= ps.len(),
        forall|j: int| 0 <= j < i ==> ps[j].0 != k,
    ensures
        i < ps.len() && ps[i].0 == k ==> pairs_get(ps, k) == Some(ps[i].1),
        i < ps.len() && ps[i].0 == k ==> pairs_replace(ps, k, ps[i].1) == ps,
        i < ps.len() && ps[i].0 == k ==> forall|v: JsonV| pairs_replace(ps, k, v) == #[trigger] ps.update(i, (k, v)),
        i < ps.len() && ps[i].0 == k ==> pairs_remove(ps, k) == ps.remove(i),
        i == ps.len() ==> pairs_get(ps, k) is None,
        i == ps.len() ==> pairs_remove(ps, k) == ps,
    decreases i,
{
    if i > 0 {
        let t = ps.drop_first();
        assert forall|j: int| 0 <= j < i - 1 implies t[j].0 != k by {
            assert(t[j] == ps[j + 1]);
        }
        lemma_get_at(t, k, i - 1);
        if i < ps.len() && ps[i].0 == k {
            assert forall|v: JsonV| pairs_replace(ps, k, v) == #[trigger] ps.update(i, (k, v)) by {
                assert(pairs_replace(t, k, v) == t.update(i - 1, (k, v)));
                assert(seq![ps[0]] + t.update(i - 1, (k, v)) =~= ps.update(i, (k, v)));
            }
            assert(pairs_replace(t, k, ps[i].1) == t.update(i - 1, (k, ps[i].1)));
            assert(t.update(i - 1, (k, ps[i].1)) =~= t);
            assert(seq![ps[0]] + t =~= ps);
            assert(seq![ps[0]] + t.remove(i - 1) =~= ps.remove(i));
        }
        if i == ps.len() {
            assert(seq![ps[0]] + t =~= ps);
        }
    } else {
        if 0 < ps.len() && ps[0].0 == k {
            assert(seq![(k, ps[0].1)] + ps.drop_first() =~= ps);
            assert forall|v: JsonV| pairs_replace(ps, k, v) == #[trigger] ps.update(0, (k, v)) by {
                assert(seq![(k, v)] + ps.drop_first() =~= ps.update(0, (k, v)));
            }
            assert(ps.drop_first() =~= ps.remove(0));
        }
    }
}

/// Index of the first member keyed `k`.
pub fn find_key(ps: &Vec<(String, Json)>, k: &String) -> (r: Option<usize>)
    ensures
        match r {
            Some(i) => i < ps.len() && ps@[i as int].0@ == k@ && forall|j: int|
                0 <= j < i ==> ps@[j].0@ != k@,
            None => forall|j: int| 0 <= j < ps.len() ==> ps@[j].0@ != k@,
        },
{
    let mut i: usize = 0;
    while i < ps.len()
        invariant
            i <= ps.len(),
            forall|j: int| 0 <= j < i ==> ps@[j].0@ != k@,
        decreases ps.len() - i,
    {
        if ps[i].0 == *k {
            return Some(i);
        }
        i = i + 1;
    }
    None
}

pub(crate) proof fn lemma_model_keys(ps: Seq<(String, Json)>, k: Seq<char>, i: int)
    requires
        0 <= i <= ps.len(),
        forall|j: int| 0 <= j < i ==> ps[j].0@ != k,
    ensures
        forall|j: int| 0 <= j < i ==> pairs_model(ps)[j].0 != k,
        i < ps.len() ==> pairs_model(ps)[i] == (ps[i].0@, json_model(ps[i].1)),
{
}

/// Looks up a member by key.
pub fn get_member<'a>(ps: &'a Vec<(String, Json)>, k: &String) -> (r: Option<&'a Json>)
    ensures
        match r {
            Some(v) => pairs_get(pairs_model(ps@), k@) == Some(json_model(*v)),
            None => pairs_get(pairs_model(ps@), k@) is None,
        },
{
    match find_key(ps, k) {
        Some(i) => {
            proof {
                lemma_model_keys(ps@, k@, i as int);
                lemma_get_at(pairs_model(ps@), k@, i as int);
            }
            Some(&ps[i].1)
        },
        None => {
            proof {
                lemma_model_keys(ps@, k@, ps.len() as int);
                lemma_get_at(pairs_model(ps@), k@, ps.len() as int);
            }
            None
        },
    }
}

pub(crate) proof fn lemma_model_update(ps: Seq<(String, Json)>, i: int, p: (String, Json))
    requires
        0 <= i < ps.len(),
    ensures
        pairs_model(ps.update(i, p)) == pairs_model(ps).update(i, (p.0@, json_model(p.1))),
{
    assert(pairs_model(ps.update(i, p)) =~= pairs_model(ps).update(i, (p.0@, json_model(p.1))));
}

pub(crate) proof fn lemma_model_insert(ps: Seq<(String, Json)>, i: int, p: (String, Json))
    requires
        0 <= i <= ps.len(),
    ensures
        pairs_model(ps.insert(i, p)) == pairs_model(ps).insert(i, (p.0@, json_model(p.1))),
{
    assert(pairs_model(ps.insert(i, p)) =~= pairs_model(ps).insert(i, (p.0@, json_model(p.1))));
}

pub(crate) proof fn lemma_model_remove(ps: Seq<(String, Json)>, i: int)
    requires
        0 <= i < ps.len(),
    ensures
        pairs_model(ps.remove(i)) == pairs_model(ps).remove(i),
{
    assert(pairs_model(ps.remove(i)) =~= pairs_model(ps).remove(i));
}

/// Removes the member keyed `k`, if any.
pub fn remove_member(ps: &mut Vec<(String, Json)>, k: &String)
    ensures
        pairs_model(final(ps)@) == pairs_remove(pairs_model(old(ps)@), k@),
{
    match find_key(ps, k) {
        Some(i) => {
            proof {
                lemma_model_keys(ps@, k@, i as int);
                lemma_get_at(pairs_model(ps@), k@, i as int);
                lemma_model_remove(ps@, i as int);
            }
            ps.remove(i);
        },
        None => {
            proof {
                lemma_model_keys(ps@, k@, ps.len() as int);
                lemma_get_at(pairs_model(ps@), k@, ps.len() as int);
            }
        },
    }
}

proof fn lemma_put_at(ps: Pairs, k: Seq<char>, v: JsonV, i: int)
    requires
        0 <= i <= ps.len(),
        forall|j: int| 0 <= j < i ==> ps[j].0 != k && !lex_lt(k, ps[j].0),
    ensures
        i < ps.len() && ps[i].0 == k ==> pairs_put(ps, k, v) == ps.update(i, (k, v)),
        i < ps.len() && ps[i].0 != k && lex_lt(k, ps[i].0) ==> pairs_put(ps, k, v) == ps.insert(i, (k, v)),
        i == ps.len() ==> pairs_put(ps, k, v) == ps.push((k, v)),
    decreases i,
{
    if i > 0 {
        let t = ps.drop_first();
        assert forall|j: int| 0 <= j < i - 1 implies t[j].0 != k && !lex_lt(k, t[j].0) by {
            assert(t[j] == ps[j + 1]);
        }
        lemma_put_at(t, k, v, i - 1);
        if i < ps.len() {
            assert(seq![ps[0]] + t.update(i - 1, (k, v)) =~= ps.update(i, (k, v)));
            assert(seq![ps[0]] + t.insert(i - 1, (k, v)) =~= ps.insert(i, (k, v)));
        } else {
            assert(seq![ps[0]] + t.push((k, v)) =~= ps.push((k, v)));
        }
    } else {
        assert(seq![(k, v)] + ps.drop_first() =~= ps.update(0, (k, v)) || ps.len() == 0);
        assert(seq![(k, v)] + ps =~= ps.insert(0, (k, v)));
        assert(seq![(k, v)] =~= ps.push((k, v)) || ps.len() > 0);
    }
}

/// Stores `v` under `k` (see `pairs_insert`).
pub fn insert_member(ps: &mut Vec<(String, Json)>, k: String, v: Json)
    ensures
        pairs_model(final(ps)@) == pairs_insert(pairs_model(old(ps)@), k@, json_model(v)),
{
    let ghost m = pairs_model(ps@);
    match find_key(ps, &k) {
        Some(i) => {
            proof {
                lemma_model_keys(ps@, k@, i as int);
                lemma_get_at(m, k@, i as int);
                lemma_model_update(ps@, i as int, (k, v));
            }
            let ghost kv = k@;
            let ghost jv = json_model(v);
            ps.remove(i);
            ps.insert(i, (k, v));
            assert(ps@ =~= old(ps)@.update(i as int, (k, v)));
            assert(pairs_replace(m, kv, jv) == m.update(i as int, (kv, jv)));
            assert(pairs_get(m, kv) is Some);
        },
        None => {
            proof {
                lemma_model_keys(ps@, k@, ps.len() as int);
                lemma_get_at(m, k@, ps.len() as int);
            }
            let mut j: usize = 0;
            while j < ps.len() && !key_lt(&k, &ps[j].0)
                invariant
                    j <= ps.len(),
                    m == pairs_model(ps@),
                    forall|t: int| 0 <= t < ps.len() ==> ps@[t].0@ != k@,
                    forall|t: int| 0 <= t < j ==> !lex_lt(k@, ps@[t].0@),
                decreases ps.len() - j,
            {
                j = j + 1;
            }
            proof {
                assert forall|t: int| 0 <= t < j implies m[t].0 != k@ && !lex_lt(k@, m[t].0) by {
                    assert(m[t].0 == ps@[t].0@);
                }
                lemma_put_at(m, k@, json_model(v), j as int);
                lemma_model_insert(ps@, j as int, (k, v));
                if j < ps.len() {
                    assert(m[j as int].0 == ps@[j as int].0@);
                }
            }
            let ghost kv = k@;
            let ghost jv = json_model(v);
            assert(pairs_get(m, kv) is None);
            if j < ps.len() {
                ps.insert(j, (k, v));
                assert(pairs_put(m, kv, jv) == m.insert(j as int, (kv, jv)));
            } else {
                ps.push((k, v));
                assert(ps@ =~= old(ps)@.insert(j as int, (k, v)));
            }
        },
    }
}


/// The reversal of a vector, so that popping yields its items in order.
pub fn reversed<T>(v: Vec<T>) -> (r: Vec<T>)
    ensures
        r@ == v@.reverse(),
{
    let mut rest = v;
    let mut rev: Vec<T> = Vec::new();
    let ghost orig = rest@;
    while rest.len() > 0
        invariant
            orig.len() == rest.len() + rev.len(),
            rest@ == orig.take(rest.len() as int),
            rev@ == orig.skip(rest.len() as int).reverse(),
        decreases rest.len(),
    {
        let x = rest.pop().unwrap();
        rev.push(x);
        assert(rev@ =~= orig.skip(rest.len() as int).reverse());
        assert(rest@ =~= orig.take(rest.len() as int));
    }
    assert(orig.skip(0) =~= orig);
    rev
}

/// Deep merge (see `merge`): `base` becomes the merge of `overlay` into it.
pub fn deep_merge_values(base: &mut Json, overlay: Json)
    ensures
        json_model(*final(base)) == merge(json_model(*old(base)), json_model(overlay)),
{
    let mut b = Json::Null;
    std::mem::swap(&mut b, base);
    *base = merge_json(b, overlay);
}

/// Deep merge (see `merge`).
pub fn merge_json(base: Json, overlay: Json) -> (r: Json)
    ensures
        json_model(r) == merge(json_model(base), json_model(overlay)),
    decreases overlay,
{
    match overlay {
        Json::Object(op) => match base {
            Json::Object(bp) => Json::Object(merge_members(bp, op)),
            b => {
                let r = Json::Object(op);
                assert(json_model(r) == merge(json_model(b), json_model(r)));
                r
            },
        },
        o => o,
    }
}

/// Merges overlay members into base members (see `merge_pairs`).
pub fn merge_members(base: Vec<(String, Json)>, overlay: Vec<(String, Json)>) -> (r: Vec<(String, Json)>)
    ensures
        pairs_model(r@) == merge_pairs(pairs_model(base@), pairs_model(overlay@)),
    decreases overlay,
{
    let ghost bm = pairs_model(base@);
    let ghost om = pairs_model(overlay@);
    let ghost ov_all = overlay@;
    let n = overlay.len();
    let mut rev = reversed(overlay);
    let mut acc = base;
    let mut i: usize = 0;
    assert(om.take(0) =~= Seq::<(Seq<char>, JsonV)>::empty());
    assert(ov_all.subrange(0, n as int) =~= ov_all);
    while i < n
        invariant
            i <= n,
            n == ov_all.len(),
            ov_all == overlay@,
            om == pairs_model(ov_all),
            rev@ == ov_all.subrange(i as int, n as int).reverse(),
            pairs_model(acc@) == merge_pairs(bm, om.take(i as int)),
        decreases n - i,
    {
        let ghost before = acc@;
        let (k, ov) = rev.pop().unwrap();
        assert(ov_all.subrange(i as int, n as int).reverse().last() == ov_all[i as int]);
        assert(rev@ =~= ov_all.subrange(i + 1, n as int).reverse());
        assert((k, ov) == ov_all[i as int]);
        assert(om.take(i + 1).drop_last() =~= om.take(i as int));
        assert(om.take(i + 1).last() == (k@, json_model(ov)));
        match find_key(&acc, &k) {
            Some(j) => {
                proof {
                    lemma_model_keys(acc@, k@, j as int);
                    lemma_get_at(pairs_model(acc@), k@, j as int);
                }
                let (kk, bv) = acc.remove(j);
                assert(decreases_to!(overlay => ov_all[i as int].1));
                let merged = merge_json(bv, ov);
                let ghost mv = json_model(merged);
                acc.insert(j, (kk, merged));
                assert(acc@ =~= before.update(j as int, (kk, merged)));
                proof {
                    lemma_model_update(before, j as int, (kk, merged));
                    assert(pairs_replace(pairs_model(before), k@, mv) == pairs_model(before).update(j as int, (k@, mv)));
                }
            },
            None => {
                proof {
                    lemma_model_keys(acc@, k@, acc.len() as int);
                    lemma_get_at(pairs_model(acc@), k@, acc.len() as int);
                }
                insert_member(&mut acc, k, ov);
            },
        }
        i = i + 1;
    }
    assert(om.take(n as int) =~= om);
    acc
}


/// The value reached from `v` by following object keys along `path`.
pub open spec fn at_path(v: JsonV, path: Seq<Seq<char>>) -> Option<JsonV>
    decreases path.len(),
{
    if path.len() == 0 {
        Some(v)
    } else {
        match v {
            JsonV::Object(ps) => match pairs_get(ps, path[0]) {
                Some(c) => at_path(c, path.drop_first()),
                None => None,
            },
            _ => None,
        }
    }
}

/// The member of an object document under `key` (`Value::get` with a string key).
pub open spec fn member(v: JsonV, key: Seq<char>) -> Option<JsonV> {
    match v {
        JsonV::Object(ps) => pairs_get(ps, key),
        _ => None,
    }
}

/// Exec counterpart of `member`.
pub fn get_member_of<'a>(v: &'a Json, key: &str) -> (r: Option<&'a Json>)
    ensures
        match r {
            Some(c) => member(json_model(*v), key@) == Some(json_model(*c)),
            None => member(json_model(*v), key@) is None,
        },
{
    match v {
        Json::Object(ps) => {
            let k = key.to_owned();
            get_member(ps, &k)
        },
        _ => None,
    }
}

/// The keys of object members, in order.
pub open spec fn pairs_keys(ps: Pairs) -> Seq<Seq<char>> {
    ps.map_values(|p: (Seq<char>, JsonV)| p.0)
}

/// The views of a list of strings.
pub open spec fn string_views(v: Seq<String>) -> Seq<Seq<char>> {
    v.map_values(|s: String| s@)
}

/// The keys of an object document, or none for any other document.
pub open spec fn object_keys(v: JsonV) -> Seq<Seq<char>> {
    match v {
        JsonV::Object(ps) => pairs_keys(ps),
        _ => seq![],
    }
}

/// Exec counterpart of `object_keys`.
pub fn object_keys_of(v: &Json) -> (r: Vec<String>)
    ensures
        string_views(r@) == object_keys(json_model(*v)),
{
    let mut r: Vec<String> = Vec::new();
    match v {
        Json::Object(ps) => {
            let mut i: usize = 0;
            while i < ps.len()
                invariant
                    i <= ps.len(),
                    string_views(r@) == pairs_keys(pairs_model(ps@)).take(i as int),
                decreases ps.len() - i,
            {
                assert(pairs_model(ps@)[i as int].0 == ps@[i as int].0@);
                let ghost before = string_views(r@);
                let key = ps[i].0.clone();
                r.push(key);
                assert(string_views(r@) =~= before.push(ps@[i as int].0@));
                i = i + 1;
                assert(string_views(r@) =~= pairs_keys(pairs_model(ps@)).take(i as int));
            }
            assert(pairs_keys(pairs_model(ps@)).take(ps.len() as int) =~= pairs_keys(pairs_model(ps@)));
        },
        _ => {
            assert(string_views(r@) =~= Seq::<Seq<char>>::empty());
        },
    }
    r
}

/// The keys of the object found at `path` in `v`, or none when there is no object there.
pub open spec fn child_keys(v: JsonV, path: Seq<Seq<char>>) -> Seq<Seq<char>> {
    match at_path(v, path) {
        Some(c) => object_keys(c),
        None => seq![],
    }
}

/// For each member of `ps` in order, the keys of its `inner` object member; members with no
/// such keys are left out.
pub open spec fn nested_keys(ps: Pairs, inner: Seq<char>) -> Seq<(Seq<char>, Seq<Seq<char>>)>
    decreases ps.len(),
{
    if ps.len() == 0 {
        seq![]
    } else {
        let rest = nested_keys(ps.drop_last(), inner);
        let ks = match member(ps.last().1, inner) {
            Some(c) => object_keys(c),
            None => seq![],
        };
        if ks.len() > 0 {
            rest.push((ps.last().0, ks))
        } else {
            rest
        }
    }
}

/// The views of a list of keyed key lists.
pub open spec fn keyed_views(v: Seq<(String, Vec<String>)>) -> Seq<(Seq<char>, Seq<Seq<char>>)> {
    v.map_values(|p: (String, Vec<String>)| (p.0@, string_views(p.1@)))
}

/// For the object under `outer` in `v`, each member's `inner` object keys (see `nested_keys`).
pub open spec fn grouped_child_keys(v: JsonV, outer: Seq<char>, inner: Seq<char>) -> Seq<
    (Seq<char>, Seq<Seq<char>>),
> {
    match member(v, outer) {
        Some(JsonV::Object(ps)) => nested_keys(ps, inner),
        _ => seq![],
    }
}

/// Exec counterpart of `grouped_child_keys`.
pub fn grouped_child_keys_of(v: &Json, outer: &str, inner: &str) -> (r: Vec<(String, Vec<String>)>)
    ensures
        keyed_views(r@) == grouped_child_keys(json_model(*v), outer@, inner@),
{
    let mut r: Vec<(String, Vec<String>)> = Vec::new();
    match get_member_of(v, outer) {
        Some(Json::Object(ps)) => {
            let ghost m = pairs_model(ps@);
            let mut i: usize = 0;
            assert(m.take(0) =~= Seq::<(Seq<char>, JsonV)>::empty());
            assert(keyed_views(r@) =~= Seq::<(Seq<char>, Seq<Seq<char>>)>::empty());
            while i < ps.len()
                invariant
                    i <= ps.len(),
                    m == pairs_model(ps@),
                    keyed_views(r@) == nested_keys(m.take(i as int), inner@),
                decreases ps.len() - i,
            {
                assert(m.take(i + 1).drop_last() =~= m.take(i as int));
                assert(m.take(i + 1).last() == (ps@[i as int].0@, json_model(ps@[i as int].1)));
                let ks = match get_member_of(&ps[i].1, inner) {
                    Some(c) => object_keys_of(c),
                    None => Vec::new(),
                };
                if ks.len() > 0 {
                    let ghost before = keyed_views(r@);
                    r.push((ps[i].0.clone(), ks));
                    assert(keyed_views(r@) =~= before.push((ps@[i as int].0@, string_views(ks@))));
                } else {
                    assert(string_views(ks@).len() == 0);
                }
                i = i + 1;
            }
            assert(m.take(ps.len() as int) =~= m);
        },
        _ => {},
    }
    r
}


/// The string member of an object document under `key`, if it is a string.
pub open spec fn str_member(v: JsonV, key: Seq<char>) -> Option<Seq<char>> {
    match member(v, key) {
        Some(JsonV::Str(s)) => Some(s),
        _ => None,
    }
}

/// Exec counterpart of `str_member`.
pub fn string_field(v: &Json, key: &str) -> (r: Option<String>)
    ensures
        match r {
            Some(s) => str_member(json_model(*v), key@) == Some(s@),
            None => str_member(json_model(*v), key@) is None,
        },
{
    match get_member_of(v, key) {
        Some(Json::Str(s)) => Some(s.clone()),
        _ => None,
    }
}

/// An object with no members.
pub fn empty_members() -> (r: Vec<(String, Json)>)
    ensures
        pairs_model(r@) == Seq::<(Seq<char>, JsonV)>::empty(),
{
    let r: Vec<(String, Json)> = Vec::new();
    assert(pairs_model(r@) =~= Seq::<(Seq<char>, JsonV)>::empty());
    r
}

/// Stores `v` under the key `k` (see `pairs_insert`).
pub fn put_member(ps: &mut Vec<(String, Json)>, k: &str, v: Json)
    ensures
        pairs_model(final(ps)@) == pairs_insert(pairs_model(old(ps)@), k@, json_model(v)),
{
    insert_member(ps, k.to_owned(), v);
}

/// A string document.
pub fn json_string(s: &str) -> (r: Json)
    ensures
        json_model(r) == JsonV::Str(s@),
{
    Json::Str(s.to_owned())
}

/// A number document holding a non-negative integer.
pub fn json_u64(n: u64) -> (r: Json)
    ensures
        json_model(r) == JsonV::Number(crate::text::decimal(n as nat)),
{
    Json::Number(crate::text::string_of(&crate::text::decimal_chars(n)))
}

/// An array of string documents.
pub fn json_strings(v: &Vec<String>) -> (r: Json)
    ensures
        json_model(r) == JsonV::Array(string_views(v@).map_values(|s: Seq<char>| JsonV::Str(s))),
{
    let mut items: Vec<Json> = Vec::new();
    let mut i: usize = 0;
    while i < v.len()
        invariant
            i <= v.len(),
            items_model(items@) == string_views(v@).take(i as int).map_values(|s: Seq<char>| JsonV::Str(s)),
        decreases v.len() - i,
    {
        let ghost before = items@;
        items.push(Json::Str(v[i].clone()));
        assert(items_model(items@) =~= items_model(before).push(JsonV::Str(v@[i as int]@)));
        assert(string_views(v@).take(i + 1) =~= string_views(v@).take(i as int).push(v@[i as int]@));
        i = i + 1;
    }
    assert(string_views(v@).take(v.len() as int) =~= string_views(v@));
    Json::Array(items)
}


/// The unsigned integer that a number document holds (`Value::as_u64`): its text is plain
/// decimal digits with a value that fits in 64 bits.
pub open spec fn number_u64(v: JsonV) -> Option<u64> {
    match v {
        JsonV::Number(t) => crate::text::digits_u64(t),
        _ => None,
    }
}

/// Exec counterpart of `number_u64`.
pub fn as_u64(v: &Json) -> (r: Option<u64>)
    ensures
        r == number_u64(json_model(*v)),
{
    match v {
        Json::Number(t) => crate::text::parse_digits_u64(&chars_of(t.as_str())),
        _ => None,
    }
}

/// The unsigned integer member of an object document, if it is one.
pub open spec fn u64_member(v: JsonV, key: Seq<char>) -> Option<u64> {
    match member(v, key) {
        Some(x) => number_u64(x),
        None => None,
    }
}

/// Exec counterpart of `u64_member`.
pub fn u64_field(v: &Json, key: &str) -> (r: Option<u64>)
    ensures
        r == u64_member(json_model(*v), key@),
{
    match get_member_of(v, key) {
        Some(x) => as_u64(x),
        None => None,
    }
}

} // verus!
