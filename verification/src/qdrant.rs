use vstd::prelude::*;
use crate::find::{hex_digit, hex_of};
use crate::model::ActiveNamespaceProbeResult;
use crate::config::opt_view;
use crate::sorted::{is_sorted_set, set_of, sorted_contains};
use crate::json::string_views;
use crate::json::{
    clone_json, empty_members, get_member_of, json_model, json_string, json_u64, member, pairs_insert, put_member,
    str_member, string_field, Json, JsonV,
};
use crate::text::{append_chars, append_str, chars_of, starts_with, starts_with_chars, string_of, trim, trim_chars};

verus! {

/// The size in bytes of the envelope of an upsert request body with no points.
pub const QDRANT_UPSERT_BODY_OVERHEAD_BYTES: usize = 15;

/// The default limit on the size of an upsert request body.
pub const DEFAULT_QDRANT_MAX_UPSERT_BODY_BYTES: usize = 8388608;

/// The FNV-1a offset basis.
pub const FNV_OFFSET: u64 = 0xcbf29ce484222325;

/// The FNV-1a prime.
pub const FNV_PRIME: u64 = 0x00000100000001b3;

/// The 64-bit FNV-1a hash of a byte string.
pub open spec fn fnv1a64(bytes: Seq<u8>) -> u64
    decreases bytes.len(),
{
    if bytes.len() == 0 {
        FNV_OFFSET
    } else {
        (fnv1a64(bytes.drop_last()) ^ (bytes.last() as u64)).wrapping_mul(FNV_PRIME)
    }
}

/// The 64-bit FNV-1a hash of a byte string (see `fnv1a64`).
pub fn stable_fnv1a64(bytes: &[u8]) -> (r: u64)
    ensures
        r == fnv1a64(bytes@),
{
    let mut hash: u64 = FNV_OFFSET;
    let mut i: usize = 0;
    while i < bytes.len()
        invariant
            i <= bytes.len(),
            hash == fnv1a64(bytes@.take(i as int)),
        decreases bytes.len() - i,
    {
        assert(bytes@.take(i + 1).drop_last() =~= bytes@.take(i as int));
        hash = (hash ^ (bytes[i] as u64)).wrapping_mul(FNV_PRIME);
        i = i + 1;
    }
    assert(bytes@.take(bytes.len() as int) =~= bytes@);
    hash
}

/// The 16 lowercase hexadecimal digits of a 64-bit value, most significant first.
pub open spec fn hex16(x: u64) -> Seq<char> {
    Seq::new(16, |i: int| hex_digit(((x >> ((60 - 4 * i) as u64)) & 15u64) as u8))
}

/// The 16 lowercase hexadecimal digits of a 64-bit value (`{:016x}`).
pub fn hex16_of(x: u64) -> (r: Vec<char>)
    ensures
        r@ == hex16(x),
{
    let mut out: Vec<char> = Vec::new();
    let mut i: u64 = 0;
    while i < 16
        invariant
            i <= 16,
            out@.len() == i,
            forall|k: int| 0 <= k < i ==> out@[k] == hex_digit(((x >> ((60 - 4 * k) as u64)) & 15u64) as u8),
        decreases 16 - i,
    {
        let shift: u64 = 60 - 4 * i;
        let nibble: u64 = (x >> shift) & 15u64;
        assert(nibble < 16) by (bit_vector)
            requires
                nibble == (x >> shift) & 15u64,
        ;
        let d = nibble as u8;
        let c = if d < 10 { (48u8 + d) as char } else { (87u8 + d) as char };
        out.push(c);
        i = i + 1;
    }
    assert(out@ =~= hex16(x));
    out
}

/// The signature of a vector space: provider, model, version and vector type, one per line.
pub open spec fn vector_space_signature(provider_id: Seq<char>, model_id: Seq<char>, version: Seq<char>, vector_type: Seq<char>) -> Seq<char> {
    provider_id + "\n"@ + model_id + "\n"@ + version + "\n"@ + vector_type
}

/// The id of a vector space: the FNV-1a hash of the UTF-8 signature in 16 hex digits.
pub fn vector_space_id(provider_id: &str, model_id: &str, version: &str, vector_type: &str) -> (r: String)
    ensures
        r@ == hex16(fnv1a64(vstd::utf8::encode_utf8(vector_space_signature(provider_id@, model_id@, version@, vector_type@)))),
{
    let mut sig = chars_of(provider_id);
    append_str(&mut sig, "\n");
    append_str(&mut sig, model_id);
    append_str(&mut sig, "\n");
    append_str(&mut sig, version);
    append_str(&mut sig, "\n");
    append_str(&mut sig, vector_type);
    let signature = string_of(&sig);
    let hash = stable_fnv1a64(signature.as_str().as_bytes());
    string_of(&hex16_of(hash))
}

/// The alias under which a vector space's active collection is queried.
pub fn stable_vector_space_name(vector_space_id: &str) -> (r: String)
    ensures
        r@ == "vector_space_"@ + vector_space_id@,
{
    let mut n = chars_of("vector_space_");
    append_str(&mut n, vector_space_id);
    string_of(&n)
}

/// The collection that holds a vector space's active points.
pub fn active_vector_space_collection_name(vector_space_id: &str) -> (r: String)
    ensures
        r@ == "vector_space_active_"@ + vector_space_id@,
{
    let mut n = chars_of("vector_space_active_");
    append_str(&mut n, vector_space_id);
    string_of(&n)
}

/// The prefix of a vector space's staged collections.
pub fn staged_collection_prefix(vector_space_id: &str) -> (r: String)
    ensures
        r@ == "vector_space_stage_"@ + vector_space_id@ + "_"@,
{
    let mut n = chars_of("vector_space_stage_");
    append_str(&mut n, vector_space_id);
    append_str(&mut n, "_");
    string_of(&n)
}


/// The state of greedy chunking after some points: the lengths of the finished chunks, the
/// number of points in the open chunk and the body size of the open chunk.
pub open spec fn chunk_state(sizes: Seq<usize>, max_body_bytes: usize) -> (Seq<nat>, nat, int)
    decreases sizes.len(),
{
    if sizes.len() == 0 {
        (seq![], 0, QDRANT_UPSERT_BODY_OVERHEAD_BYTES as int)
    } else {
        let (done, n, size) = chunk_state(sizes.drop_last(), max_body_bytes);
        let p = sizes.last() as int;
        let sep: int = if n > 0 { 1 } else { 0 };
        if n > 0 && size + sep + p > max_body_bytes {
            (done.push(n), 1, QDRANT_UPSERT_BODY_OVERHEAD_BYTES + p)
        } else {
            (done, n + 1, size + sep + p)
        }
    }
}

/// The lengths of the chunks into which points of the given serialized sizes are split: a
/// point joins the open chunk unless the chunk already holds points and the body (envelope,
/// points and commas) would then exceed the limit.
pub open spec fn chunk_lengths(sizes: Seq<usize>, max_body_bytes: usize) -> Seq<nat> {
    let (done, n, _) = chunk_state(sizes, max_body_bytes);
    if n > 0 { done.push(n) } else { done }
}

/// The concatenation of chunks.
pub open spec fn flatten<T>(chunks: Seq<Seq<T>>) -> Seq<T>
    decreases chunks.len(),
{
    if chunks.len() == 0 {
        seq![]
    } else {
        flatten(chunks.drop_last()) + chunks.last()
    }
}

/// The views of chunks.
pub open spec fn chunk_views<T>(chunks: Seq<Vec<T>>) -> Seq<Seq<T>> {
    chunks.map_values(|c: Vec<T>| c@)
}

proof fn lemma_chunk_state_bounds(sizes: Seq<usize>, max_body_bytes: usize)
    ensures
        chunk_state(sizes, max_body_bytes).1 <= sizes.len(),
        chunk_state(sizes, max_body_bytes).2 >= QDRANT_UPSERT_BODY_OVERHEAD_BYTES,
        chunk_state(sizes, max_body_bytes).1 > 1 ==> chunk_state(sizes, max_body_bytes).2 <= max_body_bytes,
        chunk_state(sizes, max_body_bytes).2 <= if max_body_bytes > usize::MAX { max_body_bytes as int } else {
            usize::MAX as int + QDRANT_UPSERT_BODY_OVERHEAD_BYTES
        },
        sizes.len() > 0 ==> chunk_state(sizes, max_body_bytes).1 > 0,
    decreases sizes.len(),
{
    if sizes.len() > 0 {
        lemma_chunk_state_bounds(sizes.drop_last(), max_body_bytes);
    }
}

/// Splits points into upsert chunks by their serialized sizes (see `chunk_lengths`); an
/// error when the limit does not exceed the envelope's size.
pub fn chunk_qdrant_points<T>(points: Vec<T>, sizes: &Vec<usize>, max_body_bytes: usize) -> (r: Result<Vec<Vec<T>>, String>)
    requires
        sizes.len() == points.len(),
    ensures
        max_body_bytes <= QDRANT_UPSERT_BODY_OVERHEAD_BYTES ==> (r matches Err(m)
            && m@ == "Qdrant upsert body limit must be larger than the request envelope."@),
        max_body_bytes > QDRANT_UPSERT_BODY_OVERHEAD_BYTES ==> (r matches Ok(chunks) && flatten(chunk_views(chunks@))
            == points@ && chunk_views(chunks@).map_values(|c: Seq<T>| c.len()) == chunk_lengths(sizes@, max_body_bytes)),
{
    if max_body_bytes <= QDRANT_UPSERT_BODY_OVERHEAD_BYTES {
        return Err("Qdrant upsert body limit must be larger than the request envelope.".to_owned());
    }
    let ghost all = points@;
    let mut chunks: Vec<Vec<T>> = Vec::new();
    let mut current: Vec<T> = Vec::new();
    let mut current_size: u128 = QDRANT_UPSERT_BODY_OVERHEAD_BYTES as u128;
    let mut rest = crate::json::reversed(points);
    let mut i: usize = 0;
    assert(flatten(chunk_views(chunks@)) =~= Seq::<T>::empty());
    while i < sizes.len()
        invariant
            i <= sizes.len(),
            sizes.len() == all.len(),
            rest@ == all.skip(i as int).reverse(),
            flatten(chunk_views(chunks@)) + current@ == all.take(i as int),
            chunk_views(chunks@).map_values(|c: Seq<T>| c.len()) == chunk_state(sizes@.take(i as int), max_body_bytes).0,
            current@.len() == chunk_state(sizes@.take(i as int), max_body_bytes).1,
            current_size as int == chunk_state(sizes@.take(i as int), max_body_bytes).2,
            max_body_bytes > QDRANT_UPSERT_BODY_OVERHEAD_BYTES,
        decreases sizes.len() - i,
    {
        proof {
            lemma_chunk_state_bounds(sizes@.take(i as int), max_body_bytes);
            assert(sizes@.take(i + 1).drop_last() =~= sizes@.take(i as int));
            assert(all.skip(i as int).reverse().last() == all[i as int]);
        }
        let point = rest.pop().unwrap();
        assert(rest@ =~= all.skip(i + 1).reverse());
        let p = sizes[i] as u128;
        let sep: u128 = if current.len() > 0 { 1 } else { 0 };
        if current.len() > 0 && current_size + sep + p > max_body_bytes as u128 {
            let ghost done_before = chunk_views(chunks@);
            let ghost cur_before = current@;
            let finished = current;
            chunks.push(finished);
            current = Vec::new();
            current_size = QDRANT_UPSERT_BODY_OVERHEAD_BYTES as u128;
            proof {
                assert(chunk_views(chunks@) =~= done_before.push(cur_before));
                assert(flatten(chunk_views(chunks@)) == flatten(done_before) + cur_before) by {
                    assert(chunk_views(chunks@).drop_last() =~= done_before);
                }
                assert(chunk_views(chunks@).map_values(|c: Seq<T>| c.len()) =~= done_before.map_values(
                    |c: Seq<T>| c.len(),
                ).push(cur_before.len()));
            }
        }
        let ghost cur_before = current@;
        let sep2: u128 = if current.len() > 0 { 1 } else { 0 };
        current_size = current_size + sep2 + p;
        current.push(point);
        assert(all.take(i + 1) =~= all.take(i as int).push(all[i as int]));
        assert(flatten(chunk_views(chunks@)) + current@ =~= flatten(chunk_views(chunks@)) + cur_before + seq![all[i as int]]);
        i = i + 1;
    }
    proof {
        lemma_chunk_state_bounds(sizes@, max_body_bytes);
    }
    assert(sizes@.take(sizes.len() as int) =~= sizes@);
    assert(all.take(all.len() as int) =~= all);
    if current.len() > 0 {
        let ghost done_before = chunk_views(chunks@);
        let ghost cur_before = current@;
        chunks.push(current);
        proof {
            assert(chunk_views(chunks@) =~= done_before.push(cur_before));
            assert(chunk_views(chunks@).drop_last() =~= done_before);
            assert(chunk_views(chunks@).map_values(|c: Seq<T>| c.len()) =~= done_before.map_values(|c: Seq<T>| c.len()).push(
                cur_before.len(),
            ));
        }
    } else {
        assert(current@ =~= Seq::<T>::empty());
        assert(flatten(chunk_views(chunks@)) + current@ =~= flatten(chunk_views(chunks@)));
    }
    Ok(chunks)
}


/// The error text that Qdrant put in a response body: `status.error` or `error` of a JSON
/// body, else the trimmed body, or a fixed text for an empty body. `parsed` is the JSON
/// parse of the trimmed body, none when it is not JSON.
pub open spec fn error_detail(body: Seq<char>, parsed: Option<JsonV>) -> Seq<char> {
    let t = trim(body);
    if t.len() == 0 {
        "empty response body"@
    } else {
        let nested = match parsed {
            Some(v) => match member(v, "status"@) {
                Some(st) => str_member(st, "error"@),
                None => None,
            },
            None => None,
        };
        match nested {
            Some(e) => e,
            None => match parsed {
                Some(v) => match str_member(v, "error"@) {
                    Some(e) => e,
                    None => t,
                },
                None => t,
            },
        }
    }
}

/// The error text of a Qdrant response body (see `error_detail`).
pub fn qdrant_error_detail(body: &str, parsed: Option<&Json>) -> (r: String)
    ensures
        r@ == error_detail(body@, match parsed {
            Some(v) => Some(json_model(*v)),
            None => None,
        }),
{
    let t = trim_chars(&chars_of(body));
    if t.len() == 0 {
        return "empty response body".to_owned();
    }
    match parsed {
        Some(v) => {
            let nested = match get_member_of(v, "status") {
                Some(st) => string_field(st, "error"),
                None => None,
            };
            match nested {
                Some(e) => e,
                None => match string_field(v, "error") {
                    Some(e) => e,
                    None => string_of(&t),
                },
            }
        },
        None => string_of(&t),
    }
}

/// The body that creates a vector space's collection: a multivector (`mv`) and a dense
/// prefetch vector of the given size, cosine distance, on disk; optionally initialized from
/// another collection.
pub open spec fn collection_create_json(vector_size: usize, init_from: Option<Seq<char>>) -> JsonV {
    let size = JsonV::Number(crate::text::decimal(vector_size as nat));
    let base = pairs_insert(
        pairs_insert(pairs_insert(seq![], "size"@, size), "distance"@, JsonV::Str("Cosine"@)),
        "on_disk"@,
        JsonV::Bool(true),
    );
    let mv = pairs_insert(
        base,
        "multivector_config"@,
        JsonV::Object(pairs_insert(seq![], "comparator"@, JsonV::Str("max_sim"@))),
    );
    let vectors = pairs_insert(pairs_insert(seq![], "mv"@, JsonV::Object(mv)), "prefetch_dense"@, JsonV::Object(base));
    let p = pairs_insert(seq![], "vectors"@, JsonV::Object(vectors));
    match init_from {
        Some(c) => JsonV::Object(
            pairs_insert(p, "init_from"@, JsonV::Object(pairs_insert(seq![], "collection"@, JsonV::Str(c)))),
        ),
        None => JsonV::Object(p),
    }
}

fn vector_params(vector_size: usize) -> (r: Vec<(String, Json)>)
    ensures
        crate::json::pairs_model(r@) == pairs_insert(
            pairs_insert(
                pairs_insert(seq![], "size"@, JsonV::Number(crate::text::decimal(vector_size as nat))),
                "distance"@,
                JsonV::Str("Cosine"@),
            ),
            "on_disk"@,
            JsonV::Bool(true),
        ),
{
    let mut v = empty_members();
    put_member(&mut v, "size", json_u64(vector_size as u64));
    put_member(&mut v, "distance", json_string("Cosine"));
    put_member(&mut v, "on_disk", Json::Bool(true));
    v
}

/// The body that creates a vector space's collection (see `collection_create_json`).
pub fn build_qdrant_collection_create_payload(vector_size: usize, init_from: Option<&str>) -> (r: Json)
    ensures
        json_model(r) == collection_create_json(vector_size, crate::config::opt_str_view(init_from)),
{
    let mut mv = vector_params(vector_size);
    let mut comparator = empty_members();
    put_member(&mut comparator, "comparator", json_string("max_sim"));
    put_member(&mut mv, "multivector_config", Json::Object(comparator));
    let mut vectors = empty_members();
    put_member(&mut vectors, "mv", Json::Object(mv));
    put_member(&mut vectors, "prefetch_dense", Json::Object(vector_params(vector_size)));
    let mut payload = empty_members();
    put_member(&mut payload, "vectors", Json::Object(vectors));
    match init_from {
        Some(c) => {
            let mut init = empty_members();
            put_member(&mut init, "collection", json_string(c));
            put_member(&mut payload, "init_from", Json::Object(init));
        },
        None => {},
    }
    Json::Object(payload)
}

/// The body of an alias update with one action.
pub open spec fn alias_actions_json(action: Seq<char>, args: crate::json::Pairs) -> JsonV {
    JsonV::Object(pairs_insert(
        seq![],
        "actions"@,
        JsonV::Array(seq![JsonV::Object(pairs_insert(seq![], action, JsonV::Object(args)))]),
    ))
}

fn alias_actions(action: &str, args: Vec<(String, Json)>) -> (r: Json)
    ensures
        json_model(r) == alias_actions_json(action@, crate::json::pairs_model(args@)),
{
    let mut one = empty_members();
    put_member(&mut one, action, Json::Object(args));
    let mut items: Vec<Json> = Vec::new();
    items.push(Json::Object(one));
    let mut body = empty_members();
    assert(crate::json::items_model(items@) =~= seq![JsonV::Object(pairs_insert(seq![], action@, JsonV::Object(crate::json::pairs_model(args@))))]);
    put_member(&mut body, "actions", Json::Array(items));
    Json::Object(body)
}

/// The body that points an alias at a collection.
pub fn create_alias_payload(collection_name: &str, alias_name: &str) -> (r: Json)
    ensures
        json_model(r) == alias_actions_json(
            "create_alias"@,
            pairs_insert(
                pairs_insert(seq![], "collection_name"@, JsonV::Str(collection_name@)),
                "alias_name"@,
                JsonV::Str(alias_name@),
            ),
        ),
{
    let mut args = empty_members();
    put_member(&mut args, "collection_name", json_string(collection_name));
    put_member(&mut args, "alias_name", json_string(alias_name));
    alias_actions("create_alias", args)
}

/// The body that removes an alias.
pub fn delete_alias_payload(alias_name: &str) -> (r: Json)
    ensures
        json_model(r) == alias_actions_json(
            "delete_alias"@,
            pairs_insert(seq![], "alias_name"@, JsonV::Str(alias_name@)),
        ),
{
    let mut args = empty_members();
    put_member(&mut args, "alias_name", json_string(alias_name));
    alias_actions("delete_alias", args)
}


/// The collection that an alias names, among listed aliases: that of the first alias of
/// that name, if it names one.
pub open spec fn alias_target(aliases: Seq<JsonV>, alias_name: Seq<char>) -> Option<Seq<char>>
    decreases aliases.len(),
{
    if aliases.len() == 0 {
        None
    } else if str_member(aliases[0], "alias_name"@) == Some(alias_name) {
        str_member(aliases[0], "collection_name"@)
    } else {
        alias_target(aliases.drop_first(), alias_name)
    }
}

/// The collection that an alias names, among listed aliases (see `alias_target`).
pub fn qdrant_alias_target(aliases: &Vec<Json>, alias_name: &str) -> (r: Option<String>)
    ensures
        opt_view(r) == alias_target(crate::json::items_model(aliases@), alias_name@),
{
    let ghost m = crate::json::items_model(aliases@);
    let mut i: usize = 0;
    assert(m.skip(0) =~= m);
    while i < aliases.len()
        invariant
            i <= aliases.len(),
            m == crate::json::items_model(aliases@),
            alias_target(m, alias_name@) == alias_target(m.skip(i as int), alias_name@),
        decreases aliases.len() - i,
    {
        assert(m.skip(i as int)[0] == m[i as int]);
        assert(m[i as int] == json_model(aliases@[i as int]));
        assert(m.skip(i as int).drop_first() =~= m.skip(i + 1));
        let name = string_field(&aliases[i], "alias_name");
        let hit = match &name {
            Some(n) => crate::text::chars_eq(&chars_of(n.as_str()), &chars_of(alias_name)),
            None => false,
        };
        if hit {
            return string_field(&aliases[i], "collection_name");
        }
        i = i + 1;
    }
    None
}

/// The array at `result.<key>` of a Qdrant response, if there is one.
pub open spec fn result_array(payload: JsonV, key: Seq<char>) -> Option<Seq<JsonV>> {
    match member(payload, "result"@) {
        Some(res) => match member(res, key) {
            Some(JsonV::Array(items)) => Some(items),
            _ => None,
        },
        None => None,
    }
}

fn result_array_of<'a>(payload: &'a Json, key: &str) -> (r: Option<&'a Vec<Json>>)
    ensures
        match r {
            Some(items) => result_array(json_model(*payload), key@) == Some(crate::json::items_model(items@)),
            None => result_array(json_model(*payload), key@) is None,
        },
{
    match get_member_of(payload, "result") {
        Some(res) => match get_member_of(res, key) {
            Some(Json::Array(items)) => Some(items),
            _ => None,
        },
        None => None,
    }
}

/// The aliases listed in a Qdrant alias response (none when it lists none).
pub fn listed_aliases(payload: &Json) -> (r: Vec<Json>)
    ensures
        crate::json::items_model(r@) == match result_array(json_model(*payload), "aliases"@) {
            Some(items) => items,
            None => seq![],
        },
{
    match result_array_of(payload, "aliases") {
        Some(items) => crate::json::clone_items(items),
        None => {
            let r: Vec<Json> = Vec::new();
            assert(crate::json::items_model(r@) =~= Seq::<JsonV>::empty());
            r
        },
    }
}

/// The names of the collections in a Qdrant collection listing: each item's `name` string,
/// in order, skipping items without one.
pub open spec fn collection_names(items: Seq<JsonV>) -> Seq<Seq<char>>
    decreases items.len(),
{
    if items.len() == 0 {
        seq![]
    } else {
        let rest = collection_names(items.drop_last());
        match str_member(items.last(), "name"@) {
            Some(n) => rest.push(n),
            None => rest,
        }
    }
}

/// The names of the collections in a Qdrant collection listing (see `collection_names`).
pub fn listed_collection_names(payload: &Json) -> (r: Vec<String>)
    ensures
        string_views(r@) == match result_array(json_model(*payload), "collections"@) {
            Some(items) => collection_names(items),
            None => seq![],
        },
{
    let mut names: Vec<String> = Vec::new();
    match result_array_of(payload, "collections") {
        Some(items) => {
            let ghost m = crate::json::items_model(items@);
            let mut i: usize = 0;
            assert(string_views(names@) =~= collection_names(m.take(0)));
            while i < items.len()
                invariant
                    i <= items.len(),
                    m == crate::json::items_model(items@),
                    string_views(names@) == collection_names(m.take(i as int)),
                decreases items.len() - i,
            {
                assert(m.take(i + 1).drop_last() =~= m.take(i as int));
                assert(m.take(i + 1).last() == json_model(items@[i as int]));
                match string_field(&items[i], "name") {
                    Some(n) => {
                        let ghost before = string_views(names@);
                        names.push(n);
                        assert(string_views(names@) =~= before.push(names@[names.len() - 1]@));
                    },
                    None => {},
                }
                i = i + 1;
            }
            assert(m.take(items.len() as int) =~= m);
        },
        None => {
            assert(string_views(names@) =~= Seq::<Seq<char>>::empty());
        },
    }
    names
}

/// The number of collections in a Qdrant collection listing (zero when it lists none).
pub fn listed_collection_count(payload: &Json) -> (r: usize)
    ensures
        r == match result_array(json_model(*payload), "collections"@) {
            Some(items) => items.len(),
            None => 0,
        },
{
    match result_array_of(payload, "collections") {
        Some(items) => {
            assert(crate::json::items_model(items@).len() == items.len());
            items.len()
        },
        None => 0,
    }
}

/// What a probe of the active namespace found, from the alias's target (if the alias
/// exists), whether that target exists, and whether a collection holds the alias's name.
pub fn namespace_probe_result(alias_target: Option<String>, target_exists: bool, alias_is_collection: bool) -> (r: ActiveNamespaceProbeResult)
    ensures
        match alias_target {
            Some(t) => if target_exists {
                r == (ActiveNamespaceProbeResult::Ready { target_collection: t })
            } else {
                r == (ActiveNamespaceProbeResult::MissingTarget { target_collection: t })
            },
            None => if alias_is_collection {
                r == ActiveNamespaceProbeResult::LegacyDirectCollection
            } else {
                r == ActiveNamespaceProbeResult::Missing
            },
        },
{
    match alias_target {
        Some(t) => {
            if target_exists {
                ActiveNamespaceProbeResult::Ready { target_collection: t }
            } else {
                ActiveNamespaceProbeResult::MissingTarget { target_collection: t }
            }
        },
        None => {
            if alias_is_collection {
                ActiveNamespaceProbeResult::LegacyDirectCollection
            } else {
                ActiveNamespaceProbeResult::Missing
            }
        },
    }
}

/// How the active namespace of a vector space is made ready for writes.
#[derive(Debug)]
pub enum NamespacePlan {
    /// Write to this existing collection.
    Use(String),
    /// Drop the dangling alias when asked, create the collection if it does not exist, and
    /// point the alias at it.
    Create { delete_alias_first: bool },
    /// Refuse, with this message.
    Refuse(String),
}

/// How the active namespace is made ready for writes, from what the probe found.
pub fn ensure_namespace_plan(probe: ActiveNamespaceProbeResult, alias_name: &str) -> (r: NamespacePlan)
    ensures
        match probe {
            ActiveNamespaceProbeResult::Ready { target_collection } => r == NamespacePlan::Use(target_collection),
            ActiveNamespaceProbeResult::Missing => r == (NamespacePlan::Create { delete_alias_first: false }),
            ActiveNamespaceProbeResult::MissingTarget { .. } => r == (NamespacePlan::Create { delete_alias_first: true }),
            ActiveNamespaceProbeResult::LegacyDirectCollection => r matches NamespacePlan::Refuse(m) && m@ == "Legacy direct Qdrant collection "@
                + alias_name@ + " blocks active namespace writes. Remove it manually."@,
        },
{
    match probe {
        ActiveNamespaceProbeResult::Ready { target_collection } => NamespacePlan::Use(target_collection),
        ActiveNamespaceProbeResult::Missing => NamespacePlan::Create { delete_alias_first: false },
        ActiveNamespaceProbeResult::MissingTarget { .. } => NamespacePlan::Create { delete_alias_first: true },
        ActiveNamespaceProbeResult::LegacyDirectCollection => {
            let mut m = chars_of("Legacy direct Qdrant collection ");
            append_str(&mut m, alias_name);
            append_str(&mut m, " blocks active namespace writes. Remove it manually.");
            NamespacePlan::Refuse(string_of(&m))
        },
    }
}

/// What the cleanup of a retired vector space removes, from what the probe found: the alias
/// and its target collection when there is an alias, nothing when the namespace is missing;
/// an error for a legacy direct collection.
pub fn retired_namespace_cleanup(probe: ActiveNamespaceProbeResult, alias_name: &str) -> (r: Result<Option<String>, String>)
    ensures
        match probe {
            ActiveNamespaceProbeResult::Ready { target_collection } => r == Ok::<Option<String>, String>(Some(target_collection)),
            ActiveNamespaceProbeResult::MissingTarget { target_collection } => r == Ok::<Option<String>, String>(Some(target_collection)),
            ActiveNamespaceProbeResult::Missing => r == Ok::<Option<String>, String>(None),
            ActiveNamespaceProbeResult::LegacyDirectCollection => r matches Err(m) && m@ == "Legacy direct Qdrant collection "@
                + alias_name@ + " blocks retired vector-space cleanup. Remove it manually."@,
        },
{
    match probe {
        ActiveNamespaceProbeResult::Ready { target_collection } => Ok(Some(target_collection)),
        ActiveNamespaceProbeResult::MissingTarget { target_collection } => Ok(Some(target_collection)),
        ActiveNamespaceProbeResult::Missing => Ok(None),
        ActiveNamespaceProbeResult::LegacyDirectCollection => {
            let mut m = chars_of("Legacy direct Qdrant collection ");
            append_str(&mut m, alias_name);
            append_str(&mut m, " blocks retired vector-space cleanup. Remove it manually.");
            Err(string_of(&m))
        },
    }
}

/// The collections to delete in a prefix cleanup: those with the prefix that are not kept,
/// in listing order.
pub open spec fn prefix_cleanup(collections: Seq<Seq<char>>, prefix: Seq<char>, keep: Set<Seq<char>>) -> Seq<Seq<char>> {
    collections.filter(|c: Seq<char>| starts_with(c, prefix) && !keep.contains(c))
}

/// The collections to delete in a prefix cleanup (see `prefix_cleanup`).
pub fn collections_to_delete(collections: &Vec<String>, prefix: &str, keep: &Vec<String>) -> (r: Vec<String>)
    ensures
        string_views(r@) == prefix_cleanup(string_views(collections@), prefix@, set_of(keep@)),
{
    let ghost cs = string_views(collections@);
    let mut out: Vec<String> = Vec::new();
    let mut i: usize = 0;
    let p = chars_of(prefix);
    assert(cs.take(0).filter(|c: Seq<char>| starts_with(c, prefix@) && !set_of(keep@).contains(c)) =~= Seq::<Seq<char>>::empty());
    while i < collections.len()
        invariant
            i <= collections.len(),
            cs == string_views(collections@),
            p@ == prefix@,
            string_views(out@) == prefix_cleanup(cs.take(i as int), prefix@, set_of(keep@)),
        decreases collections.len() - i,
    {
        let c = &collections[i];
        assert(cs[i as int] == c@);
        assert(cs.take(i + 1).drop_last() =~= cs.take(i as int));
        let keep_it = starts_with_chars(&chars_of(c.as_str()), &p) && !sorted_contains(keep, c);
        let ghost before = string_views(out@);
        if keep_it {
            out.push(c.clone());
            assert(string_views(out@) =~= before.push(c@));
        }
        proof {
            let f = |x: Seq<char>| starts_with(x, prefix@) && !set_of(keep@).contains(x);
            assert(cs.take(i + 1) =~= cs.take(i as int).push(c@));
            cs.take(i as int).lemma_filter_push(c@, f);
        }
        i = i + 1;
    }
    assert(cs.take(collections.len() as int) =~= cs);
    out
}

/// How many points a query prefetches: the larger of the active units and the cursor's
/// reach, and at least 20.
pub fn qdrant_prefetch_limit(active_unit_count: usize, cursor_limit: usize) -> (r: usize)
    ensures
        r >= active_unit_count,
        r >= cursor_limit,
        r >= 20,
        r == active_unit_count || r == cursor_limit || r == 20,
{
    let a = if active_unit_count > cursor_limit { active_unit_count } else { cursor_limit };
    if a > 20 { a } else { 20 }
}

/// A query filter that admits only the given points.
pub fn point_filter_json(point_ids: &Vec<u64>) -> (r: Json)
    ensures
        json_model(r) == JsonV::Object(pairs_insert(
            seq![],
            "must"@,
            JsonV::Array(seq![JsonV::Object(pairs_insert(
                seq![],
                "has_id"@,
                JsonV::Array(point_ids@.map_values(|n: u64| JsonV::Number(crate::text::decimal(n as nat)))),
            ))]),
        )),
{
    let mut ids: Vec<Json> = Vec::new();
    let mut i: usize = 0;
    while i < point_ids.len()
        invariant
            i <= point_ids.len(),
            crate::json::items_model(ids@) == point_ids@.take(i as int).map_values(
                |n: u64| JsonV::Number(crate::text::decimal(n as nat)),
            ),
        decreases point_ids.len() - i,
    {
        let ghost before = ids@;
        ids.push(json_u64(point_ids[i]));
        assert(crate::json::items_model(ids@) =~= crate::json::items_model(before).push(
            JsonV::Number(crate::text::decimal(point_ids@[i as int] as nat)),
        ));
        assert(point_ids@.take(i + 1) =~= point_ids@.take(i as int).push(point_ids@[i as int]));
        i = i + 1;
    }
    assert(point_ids@.take(point_ids.len() as int) =~= point_ids@);
    let mut has_id = empty_members();
    put_member(&mut has_id, "has_id", Json::Array(ids));
    let mut must: Vec<Json> = Vec::new();
    must.push(Json::Object(has_id));
    let ghost hm = crate::json::pairs_model(has_id@);
    assert(crate::json::items_model(must@) =~= seq![JsonV::Object(hm)]);
    let mut filter = empty_members();
    put_member(&mut filter, "must", Json::Array(must));
    Json::Object(filter)
}


/// A size setting read from the environment: its trimmed value when that parses as a size,
/// else the default.
pub open spec fn usize_setting(value: Option<Seq<char>>, default: usize) -> usize {
    match value {
        Some(v) => match crate::text::parse_unsigned(trim(v), usize::MAX as nat) {
            Some(n) => n as usize,
            None => default,
        },
        None => default,
    }
}

/// A size setting read from the environment (see `usize_setting`).
pub fn read_optional_usize(value: Option<&str>, default: usize) -> (r: usize)
    ensures
        r == usize_setting(crate::config::opt_str_view(value), default),
{
    match value {
        Some(v) => {
            let t = string_of(&trim_chars(&chars_of(v)));
            match crate::text::parse_usize(t.as_str()) {
                Some(n) => n,
                None => default,
            }
        },
        None => default,
    }
}

/// The limit on the size of an upsert request body: `INDEX_QDRANT_UPSERT_BODY_BYTES` when
/// it parses, else 8 MiB.
pub fn qdrant_max_upsert_body_bytes(setting: Option<&str>) -> (r: usize)
    ensures
        r == usize_setting(crate::config::opt_str_view(setting), DEFAULT_QDRANT_MAX_UPSERT_BODY_BYTES),
{
    read_optional_usize(setting, DEFAULT_QDRANT_MAX_UPSERT_BODY_BYTES)
}

/// The message of a required environment variable that is not set.
pub fn missing_env_message(name: &str) -> (r: String)
    ensures
        r@ == "Missing required environment variable "@ + name@ + "; source .env or use scripts/local/run.sh"@,
{
    let mut m = chars_of("Missing required environment variable ");
    append_str(&mut m, name);
    append_str(&mut m, "; source .env or use scripts/local/run.sh");
    string_of(&m)
}

} // verus!
