use vstd::prelude::*;
use crate::config::{
    config_error, config_is, config_ok, config_paths, config_value, decoded_outcome, validated, decode_merged_runtime_config, fails_with,
    load_config_value, merged_config_paths_from_env, same_error, ConfigEnvironment,
    ContentTypeConfigRecord, ContentTypeOverrideRecord, LoadedFauniConfig,
};
use crate::error::IoError;
use crate::json::{
    clone_json,
    find_key, insert_member, json_model, lemma_get_at, lemma_model_keys, lemma_model_remove,
    lemma_model_update, pairs_get, pairs_insert, pairs_model, pairs_remove, pairs_replace,
    remove_member, string_views, Json, JsonV, Pairs, at_path, member, pairs_put, lemma_get_after_put,
    lemma_get_after_replace, lex_lt,
};

verus! {

/// The members of an object document; any other document counts as an empty object.
pub open spec fn members_of(v: JsonV) -> Pairs {
    match v {
        JsonV::Object(ps) => ps,
        _ => seq![],
    }
}

/// `v` with `value` stored under `key` in the object reached along `path`: every document
/// on the way that is missing or not an object becomes an empty object first.
pub open spec fn overlay_upsert(v: JsonV, path: Seq<Seq<char>>, key: Seq<char>, value: JsonV) -> JsonV
    decreases path.len(),
{
    let ps = members_of(v);
    if path.len() == 0 {
        JsonV::Object(pairs_insert(ps, key, value))
    } else {
        let child = match pairs_get(ps, path[0]) {
            Some(c) => c,
            None => JsonV::Object(seq![]),
        };
        JsonV::Object(pairs_insert(ps, path[0], overlay_upsert(child, path.drop_first(), key, value)))
    }
}

/// `ps` after its member `k` became the object `inner`, or lost `k` when `inner` is empty.
pub open spec fn pruned(ps: Pairs, k: Seq<char>, inner: Pairs) -> Pairs {
    if inner.len() == 0 {
        pairs_remove(ps, k)
    } else {
        pairs_replace(ps, k, JsonV::Object(inner))
    }
}

/// The members `ps` without `key` in the object reached along `path`, each object on the
/// way dropped once it is left empty. Every object before the last one on `path` must be
/// there (`None` otherwise: nothing changes); a last one that is missing is no error.
pub open spec fn members_without(ps: Pairs, path: Seq<Seq<char>>, key: Seq<char>) -> Option<Pairs>
    decreases path.len(),
{
    if path.len() == 0 {
        Some(pairs_remove(ps, key))
    } else {
        match pairs_get(ps, path[0]) {
            Some(JsonV::Object(inner)) => match members_without(inner, path.drop_first(), key) {
                Some(rest) => Some(pruned(ps, path[0], rest)),
                None => None,
            },
            _ => if path.len() == 1 {
                Some(ps)
            } else {
                None
            },
        }
    }
}

/// `v` without `key` in the object reached along `path` (see `members_without`); a document
/// that is not an object is left as it is.
pub open spec fn overlay_delete(v: JsonV, path: Seq<Seq<char>>, key: Seq<char>) -> JsonV {
    match v {
        JsonV::Object(ps) => match members_without(ps, path, key) {
            Some(rest) => JsonV::Object(rest),
            None => v,
        },
        _ => v,
    }
}

/// Takes the first member keyed `k` out of `ps`, with its position.
fn take_member(ps: &mut Vec<(String, Json)>, k: &String) -> (r: Option<(usize, String, Json)>)
    ensures
        match r {
            Some((i, key, child)) => {
                &&& i < old(ps).len()
                &&& key@ == k@
                &&& pairs_get(pairs_model(old(ps)@), k@) == Some(json_model(child))
                &&& old(ps)@[i as int] == (key, child)
                &&& final(ps)@ == old(ps)@.remove(i as int)
                &&& forall|v: JsonV| #[trigger] pairs_replace(pairs_model(old(ps)@), k@, v)
                    == pairs_model(old(ps)@).update(i as int, (k@, v))
                &&& pairs_remove(pairs_model(old(ps)@), k@) == pairs_model(old(ps)@).remove(i as int)
            },
            None => final(ps)@ == old(ps)@ && pairs_get(pairs_model(old(ps)@), k@) is None,
        },
{
    match find_key(ps, k) {
        Some(i) => {
            proof {
                lemma_model_keys(ps@, k@, i as int);
                lemma_get_at(pairs_model(ps@), k@, i as int);
            }
            let (key, child) = ps.remove(i);
            Some((i, key, child))
        },
        None => {
            proof {
                lemma_model_keys(ps@, k@, ps.len() as int);
                lemma_get_at(pairs_model(ps@), k@, ps.len() as int);
            }
            None
        },
    }
}

proof fn lemma_put_back(ps: Seq<(String, Json)>, i: int, p: (String, Json))
    requires
        0 <= i < ps.len(),
    ensures
        pairs_model(ps.remove(i).insert(i, p)) == pairs_model(ps).update(i, (p.0@, json_model(p.1))),
{
    assert(ps.remove(i).insert(i, p) =~= ps.update(i, p));
    lemma_model_update(ps, i, p);
}

/// The path segments from `i` on, as modelled.
pub open spec fn segments_from(path: Seq<String>, i: int) -> Seq<Seq<char>> {
    string_views(path).subrange(i, path.len() as int)
}

proof fn lemma_segments_step(path: Seq<String>, i: int)
    requires
        0 <= i < path.len(),
    ensures
        segments_from(path, i).len() > 0,
        segments_from(path, i)[0] == path[i]@,
        segments_from(path, i).drop_first() == segments_from(path, i + 1),
{
    assert(segments_from(path, i).drop_first() =~= segments_from(path, i + 1));
}

fn upsert_from(v: Json, path: &Vec<String>, i: usize, key: &str, value: Json) -> (r: Json)
    requires
        i <= path.len(),
    ensures
        json_model(r) == overlay_upsert(json_model(v), segments_from(path@, i as int), key@, json_model(value)),
    decreases path.len() - i,
{
    let ghost vm = json_model(v);
    let mut ps = match v {
        Json::Object(ps) => ps,
        _ => Vec::new(),
    };
    assert(pairs_model(ps@) == members_of(vm)) by {
        if !(vm is Object) {
            assert(pairs_model(ps@) =~= Seq::<(Seq<char>, JsonV)>::empty());
        }
    }
    let ghost m = pairs_model(ps@);
    if i == path.len() {
        assert(segments_from(path@, i as int).len() == 0);
        insert_member(&mut ps, key.to_owned(), value);
        return Json::Object(ps);
    }
    proof {
        lemma_segments_step(path@, i as int);
    }
    let seg = path[i].clone();
    let ghost orig = ps@;
    match take_member(&mut ps, &seg) {
        Some((j, k, child)) => {
            let inner = upsert_from(child, path, i + 1, key, value);
            let ghost nv = json_model(inner);
            ps.insert(j, (k, inner));
            proof {
                lemma_put_back(orig, j as int, (k, inner));
            }
            assert(pairs_model(ps@) == pairs_replace(m, seg@, nv));
            Json::Object(ps)
        },
        None => {
            let empty: Vec<(String, Json)> = Vec::new();
            let fresh = Json::Object(empty);
            assert(json_model(fresh) == JsonV::Object(seq![])) by {
                assert(pairs_model(empty@) =~= Seq::<(Seq<char>, JsonV)>::empty());
            }
            let inner = upsert_from(fresh, path, i + 1, key, value);
            insert_member(&mut ps, seg, inner);
            Json::Object(ps)
        },
    }
}

fn delete_from(ps: &mut Vec<(String, Json)>, path: &Vec<String>, i: usize, key: &String) -> (done: bool)
    requires
        i <= path.len(),
    ensures
        match members_without(pairs_model(old(ps)@), segments_from(path@, i as int), key@) {
            Some(rest) => done && pairs_model(final(ps)@) == rest,
            None => !done && pairs_model(final(ps)@) == pairs_model(old(ps)@),
        },
    decreases path.len() - i,
{
    let ghost m = pairs_model(ps@);
    if i == path.len() {
        assert(segments_from(path@, i as int).len() == 0);
        remove_member(ps, key);
        return true;
    }
    proof {
        lemma_segments_step(path@, i as int);
    }
    let last = i + 1 == path.len();
    let ghost orig = ps@;
    match take_member(ps, &path[i]) {
        Some((j, k, child)) => {
            match child {
                Json::Object(mut inner) => {
                    let ghost im = pairs_model(inner@);
                    assert(json_model(Json::Object(inner)) == JsonV::Object(im));
                    let done = delete_from(&mut inner, path, i + 1, key);
                    if done && inner.len() == 0 {
                        proof {
                            lemma_model_remove(orig, j as int);
                        }
                        assert(pairs_model(inner@).len() == 0);
                        true
                    } else {
                        let ghost iv = JsonV::Object(pairs_model(inner@));
                        ps.insert(j, (k, Json::Object(inner)));
                        proof {
                            lemma_put_back(orig, j as int, (k, Json::Object(inner)));
                            if !done {
                                assert(m.update(j as int, (path@[i as int]@, iv)) =~= m);
                            }
                        }
                        done
                    }
                },
                other => {
                    let ghost ov = json_model(other);
                    ps.insert(j, (k, other));
                    proof {
                        lemma_put_back(orig, j as int, (k, other));
                        assert(m.update(j as int, (path@[i as int]@, ov)) =~= m);
                    }
                    last
                },
            }
        },
        None => last,
    }
}

/// `v` with `value` stored under `key` in the object reached along `path`, creating (or
/// replacing with) empty objects on the way where needed.
pub fn overlay_with_member(v: Json, path: &Vec<String>, key: &str, value: Json) -> (r: Json)
    ensures
        json_model(r) == overlay_upsert(json_model(v), string_views(path@), key@, json_model(value)),
{
    assert(segments_from(path@, 0) =~= string_views(path@));
    upsert_from(v, path, 0, key, value)
}

/// `v` without `key` in the object reached along `path`, dropping the objects on the way
/// that are left empty (see `overlay_delete`).
pub fn overlay_without_member(v: Json, path: &Vec<String>, key: &str) -> (r: Json)
    ensures
        json_model(r) == overlay_delete(json_model(v), string_views(path@), key@),
{
    assert(segments_from(path@, 0) =~= string_views(path@));
    match v {
        Json::Object(mut ps) => {
            let k = key.to_owned();
            let _ = delete_from(&mut ps, path, 0, &k);
            Json::Object(ps)
        },
        other => other,
    }
}

/// No two members of `ps` share a key.
pub open spec fn keys_unique(ps: Pairs) -> bool {
    forall|i: int, j: int| 0 <= i < j < ps.len() ==> #[trigger] ps[i].0 != #[trigger] ps[j].0
}

/// Every object met along `path` from `v`, `v` included, has distinct keys (as every object
/// that the JSON parser produces has).
pub open spec fn unique_along(v: JsonV, path: Seq<Seq<char>>) -> bool
    decreases path.len(),
{
    match v {
        JsonV::Object(ps) => keys_unique(ps) && (path.len() > 0 ==> match pairs_get(ps, path[0]) {
            Some(c) => unique_along(c, path.drop_first()),
            None => true,
        }),
        _ => true,
    }
}

proof fn lemma_get_after_remove(ps: Pairs, a: Seq<char>, j: Seq<char>)
    ensures
        j != a ==> pairs_get(pairs_remove(ps, a), j) == pairs_get(ps, j),
        j == a && keys_unique(ps) ==> pairs_get(pairs_remove(ps, a), j) is None,
    decreases ps.len(),
{
    if ps.len() > 0 {
        let t = ps.drop_first();
        assert(keys_unique(ps) ==> keys_unique(t)) by {
            if keys_unique(ps) {
                assert forall|x: int, y: int| 0 <= x < y < t.len() implies #[trigger] t[x].0 != #[trigger] t[y].0 by {
                    assert(t[x] == ps[x + 1] && t[y] == ps[y + 1]);
                }
            }
        }
        if ps[0].0 == a {
            if keys_unique(ps) {
                lemma_absent_after_first(ps, a);
            }
        } else {
            lemma_get_after_remove(t, a, j);
            let r = seq![ps[0]] + pairs_remove(t, a);
            assert(r[0] == ps[0]);
            assert(r.drop_first() =~= pairs_remove(t, a));
        }
    }
}

proof fn lemma_absent_after_first(ps: Pairs, a: Seq<char>)
    requires
        ps.len() > 0,
        ps[0].0 == a,
        keys_unique(ps),
    ensures
        pairs_get(ps.drop_first(), a) is None,
{
    let t = ps.drop_first();
    lemma_get_none(t, a);
    assert forall|i: int| 0 <= i < t.len() implies t[i].0 != a by {
        assert(t[i] == ps[i + 1]);
        assert(ps[0].0 != ps[i + 1].0);
    }
}

proof fn lemma_get_none(ps: Pairs, a: Seq<char>)
    ensures
        (forall|i: int| 0 <= i < ps.len() ==> ps[i].0 != a) ==> pairs_get(ps, a) is None,
    decreases ps.len(),
{
    if ps.len() > 0 {
        let t = ps.drop_first();
        if forall|i: int| 0 <= i < ps.len() ==> ps[i].0 != a {
            assert(ps[0].0 != a);
            assert forall|i: int| 0 <= i < t.len() implies t[i].0 != a by {
                assert(t[i] == ps[i + 1]);
            }
        }
        lemma_get_none(t, a);
    }
}

proof fn lemma_get_after_insert(ps: Pairs, a: Seq<char>, x: JsonV, j: Seq<char>)
    ensures
        pairs_get(pairs_insert(ps, a, x), j) == if j == a { Some(x) } else { pairs_get(ps, j) },
{
    lemma_get_after_put(ps, a, x, j);
    lemma_get_after_replace(ps, a, x, j);
}

/// Following `path` and then the key `k` is following `path.push(k)`.
proof fn lemma_at_path_push(v: JsonV, path: Seq<Seq<char>>, k: Seq<char>)
    ensures
        at_path(v, path.push(k)) == match at_path(v, path) {
            Some(c) => member(c, k),
            None => None,
        },
    decreases path.len(),
{
    reveal_with_fuel(at_path, 2);
    if path.len() == 0 {
        let p = path.push(k);
        assert(p.drop_first() =~= Seq::<Seq<char>>::empty());
    } else {
        let p = path.push(k);
        assert(p[0] == path[0]);
        assert(p.drop_first() =~= path.drop_first().push(k));
        match v {
            JsonV::Object(ps) => match pairs_get(ps, path[0]) {
                Some(c) => lemma_at_path_push(c, path.drop_first(), k),
                None => {},
            },
            _ => {},
        }
    }
}

/// A value stored along a path is what reading that path and key gives back.
pub proof fn lemma_overlay_read_after_upsert(v: JsonV, path: Seq<Seq<char>>, key: Seq<char>, value: JsonV)
    ensures
        at_path(overlay_upsert(v, path, key, value), path.push(key)) == Some(value),
    decreases path.len(),
{
    let r = overlay_upsert(v, path, key, value);
    lemma_at_path_push(r, path, key);
    if path.len() == 0 {
        lemma_get_after_insert(members_of(v), key, value, key);
    } else {
        let ps = members_of(v);
        let child = match pairs_get(ps, path[0]) {
            Some(c) => c,
            None => JsonV::Object(seq![]),
        };
        let inner = overlay_upsert(child, path.drop_first(), key, value);
        lemma_get_after_insert(ps, path[0], inner, path[0]);
        lemma_overlay_read_after_upsert(child, path.drop_first(), key, value);
        lemma_at_path_push(inner, path.drop_first(), key);
        lemma_at_path_push(r, path, key);
    }
}

/// Members whose key is not the first one on the path (or, on an empty path, not the key
/// stored) are untouched by storing a value.
pub proof fn lemma_overlay_upsert_keeps_others(
    v: JsonV,
    path: Seq<Seq<char>>,
    key: Seq<char>,
    value: JsonV,
    other: Seq<char>,
)
    requires
        path.len() > 0 ==> other != path[0],
        path.len() == 0 ==> other != key,
    ensures
        member(overlay_upsert(v, path, key, value), other) == member(v, other),
{
    let ps = members_of(v);
    if path.len() == 0 {
        lemma_get_after_insert(ps, key, value, other);
    } else {
        let child = match pairs_get(ps, path[0]) {
            Some(c) => c,
            None => JsonV::Object(seq![]),
        };
        lemma_get_after_insert(ps, path[0], overlay_upsert(child, path.drop_first(), key, value), other);
    }
    if !(v is Object) {
        assert(pairs_get(ps, other) is None);
    }
}

proof fn lemma_without_gone(ps: Pairs, path: Seq<Seq<char>>, key: Seq<char>)
    requires
        unique_along(JsonV::Object(ps), path),
    ensures
        match members_without(ps, path, key) {
            Some(rest) => at_path(JsonV::Object(rest), path.push(key)) is None,
            None => at_path(JsonV::Object(ps), path) is None,
        },
    decreases path.len(),
{
    reveal_with_fuel(at_path, 2);
    if path.len() == 0 {
        lemma_at_path_push(JsonV::Object(pairs_remove(ps, key)), path, key);
        lemma_get_after_remove(ps, key, key);
    } else {
        let p0 = path[0];
        let rest = path.drop_first();
        match pairs_get(ps, p0) {
            Some(JsonV::Object(inner)) => {
                lemma_without_gone(inner, rest, key);
                match members_without(inner, rest, key) {
                    Some(r2) => {
                        let r = pruned(ps, p0, r2);
                        lemma_at_path_push(JsonV::Object(r), path, key);
                        if r2.len() == 0 {
                            lemma_get_after_remove(ps, p0, p0);
                        } else {
                            lemma_get_after_replace(ps, p0, JsonV::Object(r2), p0);
                            lemma_at_path_push(JsonV::Object(r2), rest, key);
                        }
                    },
                    None => {},
                }
            },
            Some(c) => {
                if path.len() == 1 {
                    lemma_at_path_push(JsonV::Object(ps), path, key);
                    assert(rest.len() == 0);
                } else {
                    assert(rest.len() > 0);
                }
            },
            None => {
                if path.len() == 1 {
                    lemma_at_path_push(JsonV::Object(ps), path, key);
                }
            },
        }
    }
}

/// After a delete, the path and key lead nowhere, wherever the objects on the way have
/// distinct keys.
pub proof fn lemma_overlay_delete_removes(v: JsonV, path: Seq<Seq<char>>, key: Seq<char>)
    requires
        unique_along(v, path),
    ensures
        at_path(overlay_delete(v, path, key), path.push(key)) is None,
{
    lemma_at_path_push(v, path, key);
    match v {
        JsonV::Object(ps) => {
            lemma_without_gone(ps, path, key);
        },
        _ => {
            if path.len() > 0 {
                assert(at_path(v, path) is None);
            }
        },
    }
}

/// Members whose key is not the first one on the path (or, on an empty path, not the key
/// deleted) are untouched by a delete.
pub proof fn lemma_overlay_delete_keeps_others(v: JsonV, path: Seq<Seq<char>>, key: Seq<char>, other: Seq<char>)
    requires
        path.len() > 0 ==> other != path[0],
        path.len() == 0 ==> other != key,
    ensures
        member(overlay_delete(v, path, key), other) == member(v, other),
{
    match v {
        JsonV::Object(ps) => {
            if path.len() == 0 {
                lemma_get_after_remove(ps, key, other);
            } else {
                match pairs_get(ps, path[0]) {
                    Some(JsonV::Object(inner)) => match members_without(inner, path.drop_first(), key) {
                        Some(r2) => {
                            lemma_get_after_remove(ps, path[0], other);
                            lemma_get_after_replace(ps, path[0], JsonV::Object(r2), other);
                        },
                        None => {},
                    },
                    _ => {},
                }
            }
        },
        _ => {},
    }
}

proof fn lemma_remove_after_put(ps: Pairs, k: Seq<char>, x: JsonV)
    requires
        pairs_get(ps, k) is None,
    ensures
        pairs_remove(pairs_put(ps, k, x), k) == ps,
    decreases ps.len(),
{
    if ps.len() > 0 {
        let t = ps.drop_first();
        if lex_lt(k, ps[0].0) {
            let r = seq![(k, x)] + ps;
            assert(r[0] == (k, x));
            assert(r.drop_first() =~= ps);
        } else {
            lemma_remove_after_put(t, k, x);
            let r = seq![ps[0]] + pairs_put(t, k, x);
            assert(r[0] == ps[0]);
            assert(r.drop_first() =~= pairs_put(t, k, x));
            assert(seq![ps[0]] + t =~= ps);
        }
    } else {
        let r = seq![(k, x)];
        assert(r.drop_first() =~= ps);
    }
}

proof fn lemma_replace_twice(ps: Pairs, a: Seq<char>, x: JsonV, y: JsonV)
    ensures
        pairs_replace(pairs_replace(ps, a, x), a, y) == pairs_replace(ps, a, y),
    decreases ps.len(),
{
    if ps.len() > 0 {
        let t = ps.drop_first();
        if ps[0].0 == a {
            let r = seq![(a, x)] + t;
            assert(r[0].0 == a);
            assert(r.drop_first() =~= t);
        } else {
            lemma_replace_twice(t, a, x, y);
            let r = seq![ps[0]] + pairs_replace(t, a, x);
            assert(r[0] == ps[0]);
            assert(r.drop_first() =~= pairs_replace(t, a, x));
        }
    }
}

proof fn lemma_replace_with_own(ps: Pairs, a: Seq<char>)
    requires
        pairs_get(ps, a) is Some,
    ensures
        pairs_replace(ps, a, pairs_get(ps, a)->0) == ps,
    decreases ps.len(),
{
    if ps.len() > 0 {
        let t = ps.drop_first();
        if ps[0].0 == a {
            assert(seq![(a, ps[0].1)] + t =~= ps);
        } else {
            lemma_replace_with_own(t, a);
            assert(seq![ps[0]] + t =~= ps);
        }
    }
}

/// Along `path` from the object `v`, each object met is either absent or a non-empty
/// object, and the last one, where present, has no member `key`: storing `key` there creates
/// only what a delete would prune again.
pub open spec fn fresh_along(v: JsonV, path: Seq<Seq<char>>, key: Seq<char>) -> bool
    decreases path.len(),
{
    match v {
        JsonV::Object(ps) => if path.len() == 0 {
            pairs_get(ps, key) is None
        } else {
            match pairs_get(ps, path[0]) {
                None => true,
                Some(JsonV::Object(inner)) => inner.len() > 0 && fresh_along(JsonV::Object(inner), path.drop_first(), key),
                Some(_) => false,
            }
        },
        _ => false,
    }
}

proof fn lemma_fresh_empty(path: Seq<Seq<char>>, key: Seq<char>)
    ensures
        fresh_along(JsonV::Object(seq![]), path, key),
{
    let e: Pairs = seq![];
    if path.len() > 0 {
        assert(pairs_get(e, path[0]) is None);
    } else {
        assert(pairs_get(e, key) is None);
    }
}

proof fn lemma_without_after_upsert(ps: Pairs, path: Seq<Seq<char>>, k: Seq<char>, x: JsonV)
    requires
        fresh_along(JsonV::Object(ps), path, k),
    ensures
        members_without(members_of(overlay_upsert(JsonV::Object(ps), path, k, x)), path, k) == Some(ps),
    decreases path.len(),
{
    if path.len() == 0 {
        lemma_remove_after_put(ps, k, x);
    } else {
        let p0 = path[0];
        let rest = path.drop_first();
        match pairs_get(ps, p0) {
            Some(c) => {
                let pc = members_of(c);
                assert(c == JsonV::Object(pc));
                let c2 = overlay_upsert(c, rest, k, x);
                lemma_without_after_upsert(pc, rest, k, x);
                let up = pairs_replace(ps, p0, c2);
                lemma_get_after_replace(ps, p0, c2, p0);
                assert(pairs_get(up, p0) == Some(JsonV::Object(members_of(c2))));
                lemma_replace_twice(ps, p0, c2, JsonV::Object(pc));
                lemma_replace_with_own(ps, p0);
            },
            None => {
                let e: Pairs = seq![];
                lemma_fresh_empty(rest, k);
                let c2 = overlay_upsert(JsonV::Object(e), rest, k, x);
                lemma_without_after_upsert(e, rest, k, x);
                let up = pairs_put(ps, p0, c2);
                lemma_get_after_put(ps, p0, c2, p0);
                assert(pairs_get(up, p0) == Some(JsonV::Object(members_of(c2))));
                lemma_remove_after_put(ps, p0, c2);
            },
        }
    }
}

/// Deleting a key just stored gives back the document, where storing it created nothing
/// that the delete keeps: every object along the path is either absent or not empty, and
/// the key was absent (see `fresh_along`).
pub proof fn lemma_overlay_delete_undoes_upsert(v: JsonV, path: Seq<Seq<char>>, key: Seq<char>, value: JsonV)
    requires
        fresh_along(v, path, key),
    ensures
        overlay_delete(overlay_upsert(v, path, key, value), path, key) == v,
{
    let ps = members_of(v);
    assert(v == JsonV::Object(ps));
    lemma_without_after_upsert(ps, path, key, value);
}

/// The runtime overlay document after an edit: `Some(value)` stores `value` under `key`
/// along `path`, `None` deletes `key` there.
pub open spec fn overlay_edited(v: JsonV, path: Seq<Seq<char>>, key: Seq<char>, value: Option<JsonV>) -> JsonV {
    match value {
        Some(x) => overlay_upsert(v, path, key, x),
        None => overlay_delete(v, path, key),
    }
}

/// An edited runtime overlay, ready to be written back: the configuration it yields, merged
/// over the repository configuration, and the file and document to write.
#[derive(Debug)]
pub struct OverlayUpdate {
    pub loaded: LoadedFauniConfig,
    pub runtime_path: String,
    pub runtime_value: Json,
}

/// The view of an optional document.
pub open spec fn opt_json_model(v: Option<Json>) -> Option<JsonV> {
    match v {
        Some(j) => Some(json_model(j)),
        None => None,
    }
}

/// `r` is the outcome of editing the runtime overlay of `env`: the paths and both documents
/// are read as for loading, the overlay is edited, and the repository document merged with
/// the edited overlay must decode and validate; then the update carries that configuration,
/// the runtime path and the edited overlay.
pub open spec fn overlay_update_outcome(
    env: ConfigEnvironment,
    path: Seq<Seq<char>>,
    key: Seq<char>,
    value: Option<JsonV>,
    r: Result<OverlayUpdate, IoError>,
) -> bool {
    match config_paths(env) {
        Err(e) => fails_with(r, e),
        Ok((a, b)) => match config_value(env, a, true) {
            Err(e) => fails_with(r, e),
            Ok(rv) => match config_value(env, b, false) {
                Err(e) => fails_with(r, e),
                Ok(tv) => {
                    let nv = overlay_edited(tv, path, key, value);
                    exists|d: Result<LoadedFauniConfig, IoError>|
                        decoded_outcome(crate::json::merge(rv, nv), a, b, d) && match d {
                            Ok(l) => r matches Ok(u) && u.loaded == l && u.runtime_path@ == b && json_model(
                                u.runtime_value,
                            ) == nv,
                            Err(_) => same_error(r, d),
                        }
                },
            },
        },
    }
}

/// Edits the runtime overlay of `env` (see `overlay_update_outcome`); writing the edited
/// document back is left to the caller.
pub fn update_runtime_overlay_config(env: &ConfigEnvironment, path: &Vec<String>, key: &str, value: Option<Json>) -> (r:
    Result<OverlayUpdate, IoError>)
    ensures
        overlay_update_outcome(*env, string_views(path@), key@, opt_json_model(value), r),
{
    let (repo_path, runtime_path) = merged_config_paths_from_env(env)?;
    let repo_value = load_config_value(env, &repo_path, true)?;
    let runtime_value = load_config_value(env, &runtime_path, false)?;
    let edited = match value {
        Some(x) => overlay_with_member(runtime_value, path, key, x),
        None => overlay_without_member(runtime_value, path, key),
    };
    let copy = clone_json(&edited);
    let d = decode_merged_runtime_config(&repo_path, &runtime_path, repo_value, copy);
    let ghost dd = d;
    match d {
        Ok(loaded) => {
            let r: Result<OverlayUpdate, IoError> = Ok(OverlayUpdate { loaded, runtime_path, runtime_value: edited });
            assert(dd matches Ok(l) && r matches Ok(u) && u.loaded == l);
            r
        },
        Err(e) => {
            let r = Err(IoError { kind: e.kind, message: e.message.clone() });
            assert(same_error(r, dd));
            r
        },
    }
}

fn segments1(a: &str) -> (r: Vec<String>)
    ensures
        string_views(r@) == seq![a@],
{
    let r = vec![a.to_owned()];
    assert(string_views(r@) =~= seq![a@]);
    r
}

fn segments3(a: &str, b: &str, c: &str) -> (r: Vec<String>)
    ensures
        string_views(r@) == seq![a@, b@, c@],
{
    let r = vec![a.to_owned(), b.to_owned(), c.to_owned()];
    assert(string_views(r@) =~= seq![a@, b@, c@]);
    r
}

fn segments2(a: &str, b: &str) -> (r: Vec<String>)
    ensures
        string_views(r@) == seq![a@, b@],
{
    let r = vec![a.to_owned(), b.to_owned()];
    assert(string_views(r@) =~= seq![a@, b@]);
    r
}

/// Stores the encoded provider entry under `provider.<provider_id>` in the runtime overlay.
pub fn upsert_runtime_overlay_provider_config(env: &ConfigEnvironment, provider_id: &str, provider: Json) -> (r: Result<
    OverlayUpdate,
    IoError,
>)
    ensures
        overlay_update_outcome(*env, seq!["provider"@], provider_id@, Some(json_model(provider)), r),
{
    let path = segments1("provider");
    update_runtime_overlay_config(env, &path, provider_id, Some(provider))
}

/// Deletes `provider.<provider_id>` from the runtime overlay, dropping `provider` once empty.
pub fn delete_runtime_overlay_provider_config(env: &ConfigEnvironment, provider_id: &str) -> (r: Result<
    OverlayUpdate,
    IoError,
>)
    ensures
        overlay_update_outcome(*env, seq!["provider"@], provider_id@, None, r),
{
    let path = segments1("provider");
    update_runtime_overlay_config(env, &path, provider_id, None)
}

/// Stores the encoded model entry under `provider.<provider_id>.models.<model_id>`.
pub fn upsert_runtime_overlay_provider_model(
    env: &ConfigEnvironment,
    provider_id: &str,
    model_id: &str,
    model: Json,
) -> (r: Result<OverlayUpdate, IoError>)
    ensures
        overlay_update_outcome(*env, seq!["provider"@, provider_id@, "models"@], model_id@, Some(json_model(model)), r),
{
    let path = segments3("provider", provider_id, "models");
    update_runtime_overlay_config(env, &path, model_id, Some(model))
}

/// Deletes `provider.<provider_id>.models.<model_id>`, dropping the objects left empty.
pub fn delete_runtime_overlay_provider_model(env: &ConfigEnvironment, provider_id: &str, model_id: &str) -> (r: Result<
    OverlayUpdate,
    IoError,
>)
    ensures
        overlay_update_outcome(*env, seq!["provider"@, provider_id@, "models"@], model_id@, None, r),
{
    let path = segments3("provider", provider_id, "models");
    update_runtime_overlay_config(env, &path, model_id, None)
}

/// Replaces the whole `content_types` member of the runtime overlay.
pub fn update_runtime_overlay_content_types(env: &ConfigEnvironment, content_types: Json) -> (r: Result<
    OverlayUpdate,
    IoError,
>)
    ensures
        overlay_update_outcome(*env, seq![], "content_types"@, Some(json_model(content_types)), r),
{
    let path: Vec<String> = Vec::new();
    assert(string_views(path@) =~= Seq::<Seq<char>>::empty());
    update_runtime_overlay_config(env, &path, "content_types", Some(content_types))
}

/// Stores the encoded binding under `content_types.<content_type>`.
pub fn upsert_runtime_overlay_content_type(env: &ConfigEnvironment, content_type: &str, binding: Json) -> (r: Result<
    OverlayUpdate,
    IoError,
>)
    ensures
        overlay_update_outcome(*env, seq!["content_types"@], content_type@, Some(json_model(binding)), r),
{
    let path = segments1("content_types");
    update_runtime_overlay_config(env, &path, content_type, Some(binding))
}

/// Deletes `content_types.<content_type>`, dropping `content_types` once empty.
pub fn delete_runtime_overlay_content_type(env: &ConfigEnvironment, content_type: &str) -> (r: Result<
    OverlayUpdate,
    IoError,
>)
    ensures
        overlay_update_outcome(*env, seq!["content_types"@], content_type@, None, r),
{
    let path = segments1("content_types");
    update_runtime_overlay_config(env, &path, content_type, None)
}

/// Replaces `libraries.<library_id>.content_types` with the encoded overrides.
pub fn update_runtime_overlay_library_content_types(env: &ConfigEnvironment, library_id: &str, overrides: Json) -> (r:
    Result<OverlayUpdate, IoError>)
    ensures
        overlay_update_outcome(*env, seq!["libraries"@, library_id@], "content_types"@, Some(json_model(overrides)), r),
{
    let path = segments2("libraries", library_id);
    update_runtime_overlay_config(env, &path, "content_types", Some(overrides))
}

/// Stores the encoded override under `libraries.<library_id>.content_types.<content_type>`.
pub fn upsert_runtime_overlay_library_content_type(
    env: &ConfigEnvironment,
    library_id: &str,
    content_type: &str,
    binding: Json,
) -> (r: Result<OverlayUpdate, IoError>)
    ensures
        overlay_update_outcome(
            *env,
            seq!["libraries"@, library_id@, "content_types"@],
            content_type@,
            Some(json_model(binding)),
            r,
        ),
{
    let path = segments3("libraries", library_id, "content_types");
    update_runtime_overlay_config(env, &path, content_type, Some(binding))
}

/// Deletes `libraries.<library_id>.content_types.<content_type>`, dropping the objects left
/// empty.
pub fn delete_runtime_overlay_library_content_type(env: &ConfigEnvironment, library_id: &str, content_type: &str) -> (r:
    Result<OverlayUpdate, IoError>)
    ensures
        overlay_update_outcome(*env, seq!["libraries"@, library_id@, "content_types"@], content_type@, None, r),
{
    let path = segments3("libraries", library_id, "content_types");
    update_runtime_overlay_config(env, &path, content_type, None)
}

/// The per-library override that pins every field of a content-type binding.
pub open spec fn pinned_override(b: ContentTypeConfigRecord, o: ContentTypeOverrideRecord) -> bool {
    &&& o.enabled == Some(b.enabled)
    &&& o.model matches Some(m) && m@ == b.model@
    &&& o.vector_type matches Some(t) && t@ == b.vector_type@
}

/// Each binding of a content-types payload as an override that pins all its fields, in the
/// same order and under the same keys.
pub fn library_content_type_overrides(bindings: &Vec<(String, ContentTypeConfigRecord)>) -> (r: Vec<
    (String, ContentTypeOverrideRecord),
>)
    ensures
        r.len() == bindings.len(),
        forall|i: int|
            #![trigger r@[i]]
            0 <= i < r.len() ==> r@[i].0@ == bindings@[i].0@ && pinned_override(bindings@[i].1, r@[i].1),
{
    let mut r: Vec<(String, ContentTypeOverrideRecord)> = Vec::new();
    let mut i: usize = 0;
    while i < bindings.len()
        invariant
            i <= bindings.len(),
            r.len() == i,
            forall|j: int|
                #![trigger r@[j]]
                0 <= j < i ==> r@[j].0@ == bindings@[j].0@ && pinned_override(bindings@[j].1, r@[j].1),
        decreases bindings.len() - i,
    {
        let b = &bindings[i].1;
        r.push((
            bindings[i].0.clone(),
            ContentTypeOverrideRecord {
                enabled: Some(b.enabled),
                model: Some(b.model.clone()),
                vector_type: Some(b.vector_type.clone()),
            },
        ));
        i = i + 1;
    }
    r
}

/// Deleting from the runtime overlay what was just stored there gives back the overlay as it
/// was before the store, and succeeds, where that earlier overlay merged over the
/// repository configuration decodes and validates: `env` holds, at the runtime path, the
/// overlay `before` with `value` stored under `key` along `path`, storing it created
/// nothing that the delete keeps (see `fresh_along`), and `r` is the delete's outcome.
pub proof fn lemma_overlay_update_round_trip(
    env: ConfigEnvironment,
    path: Seq<Seq<char>>,
    key: Seq<char>,
    value: JsonV,
    before: JsonV,
    r: Result<OverlayUpdate, IoError>,
)
    requires
        config_paths(env) matches Ok((a, b)) && config_value(env, a, true) matches Ok(rv) && config_value(env, b, false)
            == Ok::<JsonV, (crate::error::IoErrorKind, Seq<char>)>(overlay_upsert(before, path, key, value))
            && config_ok(crate::json::merge(rv, before)) && (forall|c: crate::config::FauniConfig|
            config_is(crate::json::merge(rv, before), c) ==> #[trigger] config_error(c) is None),
        fresh_along(before, path, key),
        overlay_update_outcome(env, path, key, None, r),
    ensures
        r matches Ok(u) && json_model(u.runtime_value) == before,
{
    lemma_overlay_delete_undoes_upsert(before, path, key, value);
    let (a, b) = config_paths(env)->Ok_0;
    let rv = config_value(env, a, true)->Ok_0;
    let m = crate::json::merge(rv, before);
    let d = choose|d: Result<LoadedFauniConfig, IoError>|
        decoded_outcome(m, a, b, d) && match d {
            Ok(l) => r matches Ok(u) && u.loaded == l && u.runtime_path@ == b && json_model(u.runtime_value) == before,
            Err(_) => same_error(r, d),
        };
    let c = choose|c: crate::config::FauniConfig| config_is(m, c) && validated(c, d);
    assert(config_error(c) is None);
}

/// The text written to the runtime overlay file: the edited document's pretty-printed
/// JSON (as `serde_json::to_string_pretty` gives it) followed by a newline.
pub fn runtime_overlay_file_text(pretty_json: &str) -> (r: String)
    ensures
        r@ == pretty_json@.push('\n'),
{
    let mut t = pretty_json.to_owned();
    t.push('\n');
    t
}

} // verus!
