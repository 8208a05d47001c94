use vstd::prelude::*;
use crate::error::{IoError, IoErrorKind};
use crate::json::{
    clone_json, deep_merge_values, get_member_of, json_model, member, merge, merge_json, string_views, Json, JsonV,
    Pairs, pairs_model,
};
use crate::text::{
    append_chars, append_str, chars_of, find_char, first_index_of, string_of, sub_chars, trim,
    trim_chars,
};

verus! {

/// What an embedding model can take and produce.
#[derive(Debug)]
pub struct EmbeddingCapabilities {
    pub input_types: Vec<String>,
    pub vector_types: Vec<String>,
    pub supports_mixed_inputs: bool,
}

/// One model entry of a provider in the configuration file.
#[derive(Debug)]
pub struct ProviderModelConfigRecord {
    pub enabled: bool,
    pub version: String,
    pub backend: Option<String>,
    pub embedding_capabilities: EmbeddingCapabilities,
}

/// One provider entry in the configuration file.
#[derive(Debug)]
pub struct ProviderConfigFileRecord {
    pub kind: String,
    pub display_name: Option<String>,
    pub enabled: bool,
    pub active_model: Option<String>,
    pub base_url: Option<String>,
    pub models: Vec<(String, ProviderModelConfigRecord)>,
}

/// The binding of a content type to a model.
#[derive(Debug)]
pub struct ContentTypeConfigRecord {
    pub enabled: bool,
    pub model: String,
    pub vector_type: String,
}

/// A per-library override of a content-type binding.
#[derive(Debug)]
pub struct ContentTypeOverrideRecord {
    pub enabled: Option<bool>,
    pub model: Option<String>,
    pub vector_type: Option<String>,
}

/// Per-library configuration overlay.
#[derive(Debug)]
pub struct LibraryConfigOverlayRecord {
    pub display_name: Option<String>,
    pub content_types: Vec<(String, ContentTypeOverrideRecord)>,
}

/// The merged service configuration. Each map is a list of entries in key order.
#[derive(Debug)]
pub struct FauniConfig {
    pub provider: Vec<(String, ProviderConfigFileRecord)>,
    pub content_types: Vec<(String, ContentTypeConfigRecord)>,
    pub libraries: Vec<(String, LibraryConfigOverlayRecord)>,
}

/// The local sidecar model that the configuration selects.
#[derive(Debug)]
pub struct LocalSidecarActiveModel {
    pub model_id: String,
    pub version: String,
    pub backend: String,
}

/// The value of the first entry keyed `k`.
pub open spec fn lookup<T>(v: Seq<(String, T)>, k: Seq<char>) -> Option<T>
    decreases v.len(),
{
    if v.len() == 0 {
        None
    } else if v[0].0@ == k {
        Some(v[0].1)
    } else {
        lookup(v.drop_first(), k)
    }
}

proof fn lemma_lookup_at<T>(v: Seq<(String, T)>, k: Seq<char>, i: int)
    requires
        0 <= i <= v.len(),
        forall|j: int| 0 <= j < i ==> v[j].0@ != k,
    ensures
        i < v.len() && v[i].0@ == k ==> lookup(v, k) == Some(v[i].1),
        i == v.len() ==> lookup(v, k) is None,
    decreases i,
{
    if i > 0 {
        let t = v.drop_first();
        assert forall|j: int| 0 <= j < i - 1 implies t[j].0@ != k by {
            assert(t[j] == v[j + 1]);
        }
        lemma_lookup_at(t, k, i - 1);
    }
}

/// Stores `value` under `key`: the first entry keyed `key` takes the value, or a new entry
/// is added at the end.
pub fn upsert_entry<T>(v: &mut Vec<(String, T)>, key: String, value: T)
    ensures
        forall|k: Seq<char>| #[trigger]
            lookup(final(v)@, k) == if k == key@ { Some(value) } else { lookup(old(v)@, k) },
{
    let kc = chars_of(key.as_str());
    let mut i: usize = 0;
    while i < v.len()
        invariant
            i <= v.len(),
            kc@ == key@,
            v@ == old(v)@,
            forall|j: int| 0 <= j < i ==> v@[j].0@ != key@,
        decreases v.len() - i,
    {
        let here = chars_of(v[i].0.as_str());
        if crate::text::chars_eq(&here, &kc) {
            let ghost e = (key, value);
            proof {
                assert forall|k: Seq<char>| #[trigger]
                    lookup(v@.update(i as int, e), k) == if k == key@ { Some(value) } else { lookup(v@, k) } by {
                    crate::serve::lemma_lookup_replace(v@, i as int, e, k);
                }
            }
            v.set(i, (key, value));
            return;
        }
        i += 1;
    }
    proof {
        crate::serve::lemma_lookup_absent(v@, key@);
        assert forall|k: Seq<char>| #[trigger]
            lookup(v@.push((key, value)), k) == if k == key@ { Some(value) } else { lookup(v@, k) } by {
            crate::serve::lemma_lookup_push(v@, (key, value), k);
        }
    }
    v.push((key, value));
}

/// Index of the first entry keyed `k`.
pub fn find_entry<T>(v: &Vec<(String, T)>, k: &Vec<char>) -> (r: Option<usize>)
    ensures
        match r {
            Some(i) => i < v.len() && v@[i as int].0@ == k@ && lookup(v@, k@) == Some(v@[i as int].1),
            None => lookup(v@, k@) is None,
        },
{
    let mut i: usize = 0;
    while i < v.len()
        invariant
            i <= v.len(),
            forall|j: int| 0 <= j < i ==> v@[j].0@ != k@,
        decreases v.len() - i,
    {
        let key = chars_of(v[i].0.as_str());
        if crate::text::chars_eq(&key, k) {
            proof {
                lemma_lookup_at(v@, k@, i as int);
            }
            return Some(i);
        }
        i = i + 1;
    }
    proof {
        lemma_lookup_at(v@, k@, v.len() as int);
    }
    None
}


/// The view of an optional string.
pub open spec fn opt_view(o: Option<String>) -> Option<Seq<char>> {
    match o {
        Some(s) => Some(s@),
        None => None,
    }
}

/// A string member is absent or a string.
pub open spec fn str_field_ok(ps: Pairs, key: Seq<char>) -> bool {
    match crate::json::pairs_get(ps, key) {
        None => true,
        Some(JsonV::Str(_)) => true,
        _ => false,
    }
}

/// A string member's value, or `dflt` when absent.
pub open spec fn str_field(ps: Pairs, key: Seq<char>, dflt: Seq<char>) -> Seq<char> {
    match crate::json::pairs_get(ps, key) {
        Some(JsonV::Str(s)) => s,
        _ => dflt,
    }
}

/// An optional string member is absent, `null` or a string.
pub open spec fn opt_str_field_ok(ps: Pairs, key: Seq<char>) -> bool {
    match crate::json::pairs_get(ps, key) {
        None => true,
        Some(JsonV::Null) => true,
        Some(JsonV::Str(_)) => true,
        _ => false,
    }
}

/// An optional string member's value.
pub open spec fn opt_str_field(ps: Pairs, key: Seq<char>) -> Option<Seq<char>> {
    match crate::json::pairs_get(ps, key) {
        Some(JsonV::Str(s)) => Some(s),
        _ => None,
    }
}

/// A boolean member is absent or a boolean.
pub open spec fn bool_field_ok(ps: Pairs, key: Seq<char>) -> bool {
    match crate::json::pairs_get(ps, key) {
        None => true,
        Some(JsonV::Bool(_)) => true,
        _ => false,
    }
}

/// A boolean member's value, or `dflt` when absent.
pub open spec fn bool_field(ps: Pairs, key: Seq<char>, dflt: bool) -> bool {
    match crate::json::pairs_get(ps, key) {
        Some(JsonV::Bool(b)) => b,
        _ => dflt,
    }
}

/// An optional boolean member is absent, `null` or a boolean.
pub open spec fn opt_bool_field_ok(ps: Pairs, key: Seq<char>) -> bool {
    match crate::json::pairs_get(ps, key) {
        None => true,
        Some(JsonV::Null) => true,
        Some(JsonV::Bool(_)) => true,
        _ => false,
    }
}

/// An optional boolean member's value.
pub open spec fn opt_bool_field(ps: Pairs, key: Seq<char>) -> Option<bool> {
    match crate::json::pairs_get(ps, key) {
        Some(JsonV::Bool(b)) => Some(b),
        _ => None,
    }
}

/// A string-list member is absent or an array of strings.
pub open spec fn str_list_field_ok(ps: Pairs, key: Seq<char>) -> bool {
    match crate::json::pairs_get(ps, key) {
        None => true,
        Some(JsonV::Array(items)) => forall|i: int| 0 <= i < items.len() ==> items[i] is Str,
        _ => false,
    }
}

/// A string-list member's strings, or none when absent.
pub open spec fn str_list_field(ps: Pairs, key: Seq<char>) -> Seq<Seq<char>> {
    match crate::json::pairs_get(ps, key) {
        Some(JsonV::Array(items)) => items.map_values(|x: JsonV| x->Str_0),
        _ => seq![],
    }
}

fn lookup_member<'a>(obj: &'a Vec<(String, Json)>, key: &str) -> (r: Option<&'a Json>)
    ensures
        match r {
            Some(v) => crate::json::pairs_get(pairs_model(obj@), key@) == Some(json_model(*v)),
            None => crate::json::pairs_get(pairs_model(obj@), key@) is None,
        },
{
    let k = key.to_owned();
    crate::json::get_member(obj, &k)
}

fn decode_str_field(obj: &Vec<(String, Json)>, key: &str, dflt: &str) -> (r: Result<String, ()>)
    ensures
        r is Ok <==> str_field_ok(pairs_model(obj@), key@),
        r matches Ok(s) ==> s@ == str_field(pairs_model(obj@), key@, dflt@),
{
    match lookup_member(obj, key) {
        None => Ok(dflt.to_owned()),
        Some(Json::Str(s)) => Ok(s.clone()),
        Some(_) => Err(()),
    }
}

fn decode_opt_str_field(obj: &Vec<(String, Json)>, key: &str) -> (r: Result<Option<String>, ()>)
    ensures
        r is Ok <==> opt_str_field_ok(pairs_model(obj@), key@),
        r matches Ok(s) ==> opt_view(s) == opt_str_field(pairs_model(obj@), key@),
{
    match lookup_member(obj, key) {
        None => Ok(None),
        Some(Json::Null) => Ok(None),
        Some(Json::Str(s)) => Ok(Some(s.clone())),
        Some(_) => Err(()),
    }
}

fn decode_bool_field(obj: &Vec<(String, Json)>, key: &str, dflt: bool) -> (r: Result<bool, ()>)
    ensures
        r is Ok <==> bool_field_ok(pairs_model(obj@), key@),
        r matches Ok(b) ==> b == bool_field(pairs_model(obj@), key@, dflt),
{
    match lookup_member(obj, key) {
        None => Ok(dflt),
        Some(Json::Bool(b)) => Ok(*b),
        Some(_) => Err(()),
    }
}

fn decode_opt_bool_field(obj: &Vec<(String, Json)>, key: &str) -> (r: Result<Option<bool>, ()>)
    ensures
        r is Ok <==> opt_bool_field_ok(pairs_model(obj@), key@),
        r matches Ok(b) ==> b == opt_bool_field(pairs_model(obj@), key@),
{
    match lookup_member(obj, key) {
        None => Ok(None),
        Some(Json::Null) => Ok(None),
        Some(Json::Bool(b)) => Ok(Some(*b)),
        Some(_) => Err(()),
    }
}

fn decode_str_list_field(obj: &Vec<(String, Json)>, key: &str) -> (r: Result<Vec<String>, ()>)
    ensures
        r is Ok <==> str_list_field_ok(pairs_model(obj@), key@),
        r matches Ok(v) ==> string_views(v@) == str_list_field(pairs_model(obj@), key@),
{
    match lookup_member(obj, key) {
        None => {
            let v: Vec<String> = Vec::new();
            assert(string_views(v@) =~= Seq::<Seq<char>>::empty());
            Ok(v)
        },
        Some(Json::Array(items)) => {
            let ghost m = crate::json::items_model(items@);
            let mut out: Vec<String> = Vec::new();
            let mut i: usize = 0;
            while i < items.len()
                invariant
                    i <= items.len(),
                    m == crate::json::items_model(items@),
                    crate::json::pairs_get(pairs_model(obj@), key@) == Some(JsonV::Array(m)),
                    forall|k: int| 0 <= k < i ==> m[k] is Str,
                    string_views(out@) == m.take(i as int).map_values(|x: JsonV| x->Str_0),
                decreases items.len() - i,
            {
                match &items[i] {
                    Json::Str(s) => {
                        let ghost before = string_views(out@);
                        out.push(s.clone());
                        assert(string_views(out@) =~= before.push(s@));
                        assert(m.take(i + 1).map_values(|x: JsonV| x->Str_0) =~= m.take(
                            i as int,
                        ).map_values(|x: JsonV| x->Str_0).push(s@));
                    },
                    _ => {
                        assert(!(m[i as int] is Str));
                        return Err(());
                    },
                }
                i = i + 1;
            }
            assert(m.take(items.len() as int) =~= m);
            Ok(out)
        },
        Some(_) => Err(()),
    }
}

/// A JSON document that decodes to embedding capabilities.
pub open spec fn caps_ok(j: JsonV) -> bool {
    match j {
        JsonV::Object(ps) => str_list_field_ok(ps, "input_types"@) && str_list_field_ok(
            ps,
            "vector_types"@,
        ) && bool_field_ok(ps, "supports_mixed_inputs"@),
        _ => false,
    }
}

/// `c` is what `j` decodes to; absent members take their defaults.
pub open spec fn caps_is(j: JsonV, c: EmbeddingCapabilities) -> bool {
    match j {
        JsonV::Object(ps) => {
            &&& string_views(c.input_types@) == str_list_field(ps, "input_types"@)
            &&& string_views(c.vector_types@) == str_list_field(ps, "vector_types"@)
            &&& c.supports_mixed_inputs == bool_field(ps, "supports_mixed_inputs"@, false)
        },
        _ => false,
    }
}

/// Capabilities with no input or vector types.
pub open spec fn caps_empty(c: EmbeddingCapabilities) -> bool {
    c.input_types@.len() == 0 && c.vector_types@.len() == 0 && !c.supports_mixed_inputs
}

/// Decodes embedding capabilities.
pub fn decode_embedding_capabilities(j: &Json) -> (r: Result<EmbeddingCapabilities, ()>)
    ensures
        r is Ok <==> caps_ok(json_model(*j)),
        r matches Ok(c) ==> caps_is(json_model(*j), c),
{
    match j {
        Json::Object(obj) => {
            let input_types = decode_str_list_field(obj, "input_types")?;
            let vector_types = decode_str_list_field(obj, "vector_types")?;
            let supports_mixed_inputs = decode_bool_field(obj, "supports_mixed_inputs", false)?;
            Ok(EmbeddingCapabilities { input_types, vector_types, supports_mixed_inputs })
        },
        _ => Err(()),
    }
}

/// A JSON document that decodes to a provider model entry.
pub open spec fn provider_model_ok(j: JsonV) -> bool {
    match j {
        JsonV::Object(ps) => {
            &&& bool_field_ok(ps, "enabled"@)
            &&& str_field_ok(ps, "version"@)
            &&& opt_str_field_ok(ps, "backend"@)
            &&& match crate::json::pairs_get(ps, "embedding_capabilities"@) {
                None => true,
                Some(c) => caps_ok(c),
            }
        },
        _ => false,
    }
}

/// `m` is what `j` decodes to: `enabled` defaults to true, `version` to `main`.
pub open spec fn provider_model_is(j: JsonV, m: ProviderModelConfigRecord) -> bool {
    match j {
        JsonV::Object(ps) => {
            &&& m.enabled == bool_field(ps, "enabled"@, true)
            &&& m.version@ == str_field(ps, "version"@, "main"@)
            &&& opt_view(m.backend) == opt_str_field(ps, "backend"@)
            &&& match crate::json::pairs_get(ps, "embedding_capabilities"@) {
                None => caps_empty(m.embedding_capabilities),
                Some(c) => caps_is(c, m.embedding_capabilities),
            }
        },
        _ => false,
    }
}

/// Decodes a provider model entry.
pub fn decode_provider_model(j: &Json) -> (r: Result<ProviderModelConfigRecord, ()>)
    ensures
        r is Ok <==> provider_model_ok(json_model(*j)),
        r matches Ok(m) ==> provider_model_is(json_model(*j), m),
{
    match j {
        Json::Object(obj) => {
            let enabled = decode_bool_field(obj, "enabled", true)?;
            let version = decode_str_field(obj, "version", "main")?;
            let backend = decode_opt_str_field(obj, "backend")?;
            let embedding_capabilities = match lookup_member(obj, "embedding_capabilities") {
                None => {
                    let c = EmbeddingCapabilities {
                        input_types: Vec::new(),
                        vector_types: Vec::new(),
                        supports_mixed_inputs: false,
                    };
                    c
                },
                Some(c) => decode_embedding_capabilities(c)?,
            };
            Ok(ProviderModelConfigRecord { enabled, version, backend, embedding_capabilities })
        },
        _ => Err(()),
    }
}


/// Every member of `ms` decodes to a provider model entry.
pub open spec fn models_map_ok(ms: Pairs) -> bool {
    forall|i: int| 0 <= i < ms.len() ==> provider_model_ok(#[trigger] ms[i].1)
}

/// `v` holds, in order, the keys of `ms` with what each member decodes to.
pub open spec fn models_map_is(ms: Pairs, v: Seq<(String, ProviderModelConfigRecord)>) -> bool {
    &&& v.len() == ms.len()
    &&& forall|i: int| 0 <= i < ms.len() ==> v[i].0@ == ms[i].0 && provider_model_is(#[trigger] ms[i].1, v[i].1)
}

/// A member that is absent or an object of a provider model entrys.
pub open spec fn models_field_ok(ps: Pairs, key: Seq<char>) -> bool {
    match crate::json::pairs_get(ps, key) {
        None => true,
        Some(JsonV::Object(ms)) => models_map_ok(ms),
        _ => false,
    }
}

/// What such a member decodes to; absent means no entries.
pub open spec fn models_field_is(ps: Pairs, key: Seq<char>, v: Seq<(String, ProviderModelConfigRecord)>) -> bool {
    match crate::json::pairs_get(ps, key) {
        None => v.len() == 0,
        Some(JsonV::Object(ms)) => models_map_is(ms, v),
        _ => false,
    }
}

fn decode_models_field(obj: &Vec<(String, Json)>, key: &str) -> (r: Result<Vec<(String, ProviderModelConfigRecord)>, ()>)
    ensures
        r is Ok <==> models_field_ok(pairs_model(obj@), key@),
        r matches Ok(v) ==> models_field_is(pairs_model(obj@), key@, v@),
{
    match lookup_member(obj, key) {
        None => Ok(Vec::new()),
        Some(Json::Object(ms)) => {
            let ghost m = pairs_model(ms@);
            let mut out: Vec<(String, ProviderModelConfigRecord)> = Vec::new();
            let mut i: usize = 0;
            while i < ms.len()
                invariant
                    i <= ms.len(),
                    m == pairs_model(ms@),
                    crate::json::pairs_get(pairs_model(obj@), key@) == Some(JsonV::Object(m)),
                    out.len() == i,
                    forall|k: int| 0 <= k < i ==> provider_model_ok(#[trigger] m[k].1),
                    forall|k: int| 0 <= k < i ==> out@[k].0@ == m[k].0,
                    forall|k: int| 0 <= k < i ==> provider_model_is(#[trigger] m[k].1, out@[k].1),
                decreases ms.len() - i,
            {
                assert(m[i as int] == (ms@[i as int].0@, json_model(ms@[i as int].1)));
                match decode_provider_model(&ms[i].1) {
                    Ok(x) => {
                        let ghost before = out@;
                        let key = ms[i].0.clone();
                        proof {
                            assert(provider_model_is(m[i as int].1, x));
                        }
                        out.push((key, x));
                        assert(forall|k: int| 0 <= k < i ==> out@[k] == before[k]);
                        assert(out@[i as int] == (key, x));
                        assert(out@[i as int].0@ == m[i as int].0);
                    },
                    Err(()) => {
                        assert(!provider_model_ok(m[i as int].1));
                        return Err(());
                    },
                }
                i = i + 1;
            }
            Ok(out)
        },
        Some(_) => Err(()),
    }
}

/// A JSON document that decodes to a provider entry.
pub open spec fn provider_ok(j: JsonV) -> bool {
    match j {
        JsonV::Object(ps) => {
            &&& str_field_ok(ps, "kind"@)
            &&& opt_str_field_ok(ps, "display_name"@)
            &&& bool_field_ok(ps, "enabled"@)
            &&& opt_str_field_ok(ps, "active_model"@)
            &&& opt_str_field_ok(ps, "base_url"@)
            &&& models_field_ok(ps, "models"@)
        },
        _ => false,
    }
}

/// `p` is what `j` decodes to: `kind` defaults to empty, `enabled` to true.
pub open spec fn provider_is(j: JsonV, p: ProviderConfigFileRecord) -> bool {
    match j {
        JsonV::Object(ps) => {
            &&& p.kind@ == str_field(ps, "kind"@, seq![])
            &&& opt_view(p.display_name) == opt_str_field(ps, "display_name"@)
            &&& p.enabled == bool_field(ps, "enabled"@, true)
            &&& opt_view(p.active_model) == opt_str_field(ps, "active_model"@)
            &&& opt_view(p.base_url) == opt_str_field(ps, "base_url"@)
            &&& models_field_is(ps, "models"@, p.models@)
        },
        _ => false,
    }
}

/// Decodes a provider entry.
pub fn decode_provider(j: &Json) -> (r: Result<ProviderConfigFileRecord, ()>)
    ensures
        r is Ok <==> provider_ok(json_model(*j)),
        r matches Ok(p) ==> provider_is(json_model(*j), p),
{
    match j {
        Json::Object(obj) => {
            let kind = decode_str_field(obj, "kind", "")?;
            proof {
                reveal_strlit("");
                assert(""@ =~= Seq::<char>::empty());
            }
            let display_name = decode_opt_str_field(obj, "display_name")?;
            let enabled = decode_bool_field(obj, "enabled", true)?;
            let active_model = decode_opt_str_field(obj, "active_model")?;
            let base_url = decode_opt_str_field(obj, "base_url")?;
            let models = decode_models_field(obj, "models")?;
            Ok(ProviderConfigFileRecord { kind, display_name, enabled, active_model, base_url, models })
        },
        _ => Err(()),
    }
}

/// A JSON document that decodes to a content-type binding.
pub open spec fn content_type_ok(j: JsonV) -> bool {
    match j {
        JsonV::Object(ps) => bool_field_ok(ps, "enabled"@) && str_field_ok(ps, "model"@) && str_field_ok(ps, "vector_type"@),
        _ => false,
    }
}

/// `b` is what `j` decodes to: `enabled` defaults to true, the strings to empty.
pub open spec fn content_type_is(j: JsonV, b: ContentTypeConfigRecord) -> bool {
    match j {
        JsonV::Object(ps) => {
            &&& b.enabled == bool_field(ps, "enabled"@, true)
            &&& b.model@ == str_field(ps, "model"@, seq![])
            &&& b.vector_type@ == str_field(ps, "vector_type"@, seq![])
        },
        _ => false,
    }
}

/// Decodes a content-type binding.
pub fn decode_content_type(j: &Json) -> (r: Result<ContentTypeConfigRecord, ()>)
    ensures
        r is Ok <==> content_type_ok(json_model(*j)),
        r matches Ok(b) ==> content_type_is(json_model(*j), b),
{
    match j {
        Json::Object(obj) => {
            proof {
                reveal_strlit("");
                assert(""@ =~= Seq::<char>::empty());
            }
            let enabled = decode_bool_field(obj, "enabled", true)?;
            let model = decode_str_field(obj, "model", "")?;
            let vector_type = decode_str_field(obj, "vector_type", "")?;
            Ok(ContentTypeConfigRecord { enabled, model, vector_type })
        },
        _ => Err(()),
    }
}

/// A JSON document that decodes to a content-type override.
pub open spec fn content_override_ok(j: JsonV) -> bool {
    match j {
        JsonV::Object(ps) => opt_bool_field_ok(ps, "enabled"@) && opt_str_field_ok(ps, "model"@) && opt_str_field_ok(ps, "vector_type"@),
        _ => false,
    }
}

/// `o` is what `j` decodes to.
pub open spec fn content_override_is(j: JsonV, o: ContentTypeOverrideRecord) -> bool {
    match j {
        JsonV::Object(ps) => {
            &&& o.enabled == opt_bool_field(ps, "enabled"@)
            &&& opt_view(o.model) == opt_str_field(ps, "model"@)
            &&& opt_view(o.vector_type) == opt_str_field(ps, "vector_type"@)
        },
        _ => false,
    }
}

/// Decodes a content-type override.
pub fn decode_content_override(j: &Json) -> (r: Result<ContentTypeOverrideRecord, ()>)
    ensures
        r is Ok <==> content_override_ok(json_model(*j)),
        r matches Ok(o) ==> content_override_is(json_model(*j), o),
{
    match j {
        Json::Object(obj) => {
            let enabled = decode_opt_bool_field(obj, "enabled")?;
            let model = decode_opt_str_field(obj, "model")?;
            let vector_type = decode_opt_str_field(obj, "vector_type")?;
            Ok(ContentTypeOverrideRecord { enabled, model, vector_type })
        },
        _ => Err(()),
    }
}

/// Every member of `ms` decodes to a content-type override.
pub open spec fn overrides_map_ok(ms: Pairs) -> bool {
    forall|i: int| 0 <= i < ms.len() ==> content_override_ok(#[trigger] ms[i].1)
}

/// `v` holds, in order, the keys of `ms` with what each member decodes to.
pub open spec fn overrides_map_is(ms: Pairs, v: Seq<(String, ContentTypeOverrideRecord)>) -> bool {
    &&& v.len() == ms.len()
    &&& forall|i: int| 0 <= i < ms.len() ==> v[i].0@ == ms[i].0 && content_override_is(#[trigger] ms[i].1, v[i].1)
}

/// A member that is absent or an object of a content-type overrides.
pub open spec fn overrides_field_ok(ps: Pairs, key: Seq<char>) -> bool {
    match crate::json::pairs_get(ps, key) {
        None => true,
        Some(JsonV::Object(ms)) => overrides_map_ok(ms),
        _ => false,
    }
}

/// What such a member decodes to; absent means no entries.
pub open spec fn overrides_field_is(ps: Pairs, key: Seq<char>, v: Seq<(String, ContentTypeOverrideRecord)>) -> bool {
    match crate::json::pairs_get(ps, key) {
        None => v.len() == 0,
        Some(JsonV::Object(ms)) => overrides_map_is(ms, v),
        _ => false,
    }
}

fn decode_overrides_field(obj: &Vec<(String, Json)>, key: &str) -> (r: Result<Vec<(String, ContentTypeOverrideRecord)>, ()>)
    ensures
        r is Ok <==> overrides_field_ok(pairs_model(obj@), key@),
        r matches Ok(v) ==> overrides_field_is(pairs_model(obj@), key@, v@),
{
    match lookup_member(obj, key) {
        None => Ok(Vec::new()),
        Some(Json::Object(ms)) => {
            let ghost m = pairs_model(ms@);
            let mut out: Vec<(String, ContentTypeOverrideRecord)> = Vec::new();
            let mut i: usize = 0;
            while i < ms.len()
                invariant
                    i <= ms.len(),
                    m == pairs_model(ms@),
                    crate::json::pairs_get(pairs_model(obj@), key@) == Some(JsonV::Object(m)),
                    out.len() == i,
                    forall|k: int| 0 <= k < i ==> content_override_ok(#[trigger] m[k].1),
                    forall|k: int| 0 <= k < i ==> out@[k].0@ == m[k].0,
                    forall|k: int| 0 <= k < i ==> content_override_is(#[trigger] m[k].1, out@[k].1),
                decreases ms.len() - i,
            {
                assert(m[i as int] == (ms@[i as int].0@, json_model(ms@[i as int].1)));
                match decode_content_override(&ms[i].1) {
                    Ok(x) => {
                        let ghost before = out@;
                        let key = ms[i].0.clone();
                        proof {
                            assert(content_override_is(m[i as int].1, x));
                        }
                        out.push((key, x));
                        assert(forall|k: int| 0 <= k < i ==> out@[k] == before[k]);
                        assert(out@[i as int] == (key, x));
                        assert(out@[i as int].0@ == m[i as int].0);
                    },
                    Err(()) => {
                        assert(!content_override_ok(m[i as int].1));
                        return Err(());
                    },
                }
                i = i + 1;
            }
            Ok(out)
        },
        Some(_) => Err(()),
    }
}

/// A JSON document that decodes to a library overlay.
pub open spec fn library_ok(j: JsonV) -> bool {
    match j {
        JsonV::Object(ps) => opt_str_field_ok(ps, "display_name"@) && overrides_field_ok(ps, "content_types"@),
        _ => false,
    }
}

/// `l` is what `j` decodes to.
pub open spec fn library_is(j: JsonV, l: LibraryConfigOverlayRecord) -> bool {
    match j {
        JsonV::Object(ps) => {
            &&& opt_view(l.display_name) == opt_str_field(ps, "display_name"@)
            &&& overrides_field_is(ps, "content_types"@, l.content_types@)
        },
        _ => false,
    }
}

/// Decodes a library overlay.
pub fn decode_library(j: &Json) -> (r: Result<LibraryConfigOverlayRecord, ()>)
    ensures
        r is Ok <==> library_ok(json_model(*j)),
        r matches Ok(l) ==> library_is(json_model(*j), l),
{
    match j {
        Json::Object(obj) => {
            let display_name = decode_opt_str_field(obj, "display_name")?;
            let content_types = decode_overrides_field(obj, "content_types")?;
            Ok(LibraryConfigOverlayRecord { display_name, content_types })
        },
        _ => Err(()),
    }
}

/// Every member of `ms` decodes to a provider entry.
pub open spec fn providers_map_ok(ms: Pairs) -> bool {
    forall|i: int| 0 <= i < ms.len() ==> provider_ok(#[trigger] ms[i].1)
}

/// `v` holds, in order, the keys of `ms` with what each member decodes to.
pub open spec fn providers_map_is(ms: Pairs, v: Seq<(String, ProviderConfigFileRecord)>) -> bool {
    &&& v.len() == ms.len()
    &&& forall|i: int| 0 <= i < ms.len() ==> v[i].0@ == ms[i].0 && provider_is(#[trigger] ms[i].1, v[i].1)
}

/// A member that is absent or an object of a provider entrys.
pub open spec fn providers_field_ok(ps: Pairs, key: Seq<char>) -> bool {
    match crate::json::pairs_get(ps, key) {
        None => true,
        Some(JsonV::Object(ms)) => providers_map_ok(ms),
        _ => false,
    }
}

/// What such a member decodes to; absent means no entries.
pub open spec fn providers_field_is(ps: Pairs, key: Seq<char>, v: Seq<(String, ProviderConfigFileRecord)>) -> bool {
    match crate::json::pairs_get(ps, key) {
        None => v.len() == 0,
        Some(JsonV::Object(ms)) => providers_map_is(ms, v),
        _ => false,
    }
}

fn decode_providers_field(obj: &Vec<(String, Json)>, key: &str) -> (r: Result<Vec<(String, ProviderConfigFileRecord)>, ()>)
    ensures
        r is Ok <==> providers_field_ok(pairs_model(obj@), key@),
        r matches Ok(v) ==> providers_field_is(pairs_model(obj@), key@, v@),
{
    match lookup_member(obj, key) {
        None => Ok(Vec::new()),
        Some(Json::Object(ms)) => {
            let ghost m = pairs_model(ms@);
            let mut out: Vec<(String, ProviderConfigFileRecord)> = Vec::new();
            let mut i: usize = 0;
            while i < ms.len()
                invariant
                    i <= ms.len(),
                    m == pairs_model(ms@),
                    crate::json::pairs_get(pairs_model(obj@), key@) == Some(JsonV::Object(m)),
                    out.len() == i,
                    forall|k: int| 0 <= k < i ==> provider_ok(#[trigger] m[k].1),
                    forall|k: int| 0 <= k < i ==> out@[k].0@ == m[k].0,
                    forall|k: int| 0 <= k < i ==> provider_is(#[trigger] m[k].1, out@[k].1),
                decreases ms.len() - i,
            {
                assert(m[i as int] == (ms@[i as int].0@, json_model(ms@[i as int].1)));
                match decode_provider(&ms[i].1) {
                    Ok(x) => {
                        let ghost before = out@;
                        let key = ms[i].0.clone();
                        proof {
                            assert(provider_is(m[i as int].1, x));
                        }
                        out.push((key, x));
                        assert(forall|k: int| 0 <= k < i ==> out@[k] == before[k]);
                        assert(out@[i as int] == (key, x));
                        assert(out@[i as int].0@ == m[i as int].0);
                    },
                    Err(()) => {
                        assert(!provider_ok(m[i as int].1));
                        return Err(());
                    },
                }
                i = i + 1;
            }
            Ok(out)
        },
        Some(_) => Err(()),
    }
}

/// Every member of `ms` decodes to a content-type binding.
pub open spec fn content_types_map_ok(ms: Pairs) -> bool {
    forall|i: int| 0 <= i < ms.len() ==> content_type_ok(#[trigger] ms[i].1)
}

/// `v` holds, in order, the keys of `ms` with what each member decodes to.
pub open spec fn content_types_map_is(ms: Pairs, v: Seq<(String, ContentTypeConfigRecord)>) -> bool {
    &&& v.len() == ms.len()
    &&& forall|i: int| 0 <= i < ms.len() ==> v[i].0@ == ms[i].0 && content_type_is(#[trigger] ms[i].1, v[i].1)
}

/// A member that is absent or an object of a content-type bindings.
pub open spec fn content_types_field_ok(ps: Pairs, key: Seq<char>) -> bool {
    match crate::json::pairs_get(ps, key) {
        None => true,
        Some(JsonV::Object(ms)) => content_types_map_ok(ms),
        _ => false,
    }
}

/// What such a member decodes to; absent means no entries.
pub open spec fn content_types_field_is(ps: Pairs, key: Seq<char>, v: Seq<(String, ContentTypeConfigRecord)>) -> bool {
    match crate::json::pairs_get(ps, key) {
        None => v.len() == 0,
        Some(JsonV::Object(ms)) => content_types_map_is(ms, v),
        _ => false,
    }
}

fn decode_content_types_field(obj: &Vec<(String, Json)>, key: &str) -> (r: Result<Vec<(String, ContentTypeConfigRecord)>, ()>)
    ensures
        r is Ok <==> content_types_field_ok(pairs_model(obj@), key@),
        r matches Ok(v) ==> content_types_field_is(pairs_model(obj@), key@, v@),
{
    match lookup_member(obj, key) {
        None => Ok(Vec::new()),
        Some(Json::Object(ms)) => {
            let ghost m = pairs_model(ms@);
            let mut out: Vec<(String, ContentTypeConfigRecord)> = Vec::new();
            let mut i: usize = 0;
            while i < ms.len()
                invariant
                    i <= ms.len(),
                    m == pairs_model(ms@),
                    crate::json::pairs_get(pairs_model(obj@), key@) == Some(JsonV::Object(m)),
                    out.len() == i,
                    forall|k: int| 0 <= k < i ==> content_type_ok(#[trigger] m[k].1),
                    forall|k: int| 0 <= k < i ==> out@[k].0@ == m[k].0,
                    forall|k: int| 0 <= k < i ==> content_type_is(#[trigger] m[k].1, out@[k].1),
                decreases ms.len() - i,
            {
                assert(m[i as int] == (ms@[i as int].0@, json_model(ms@[i as int].1)));
                match decode_content_type(&ms[i].1) {
                    Ok(x) => {
                        let ghost before = out@;
                        let key = ms[i].0.clone();
                        proof {
                            assert(content_type_is(m[i as int].1, x));
                        }
                        out.push((key, x));
                        assert(forall|k: int| 0 <= k < i ==> out@[k] == before[k]);
                        assert(out@[i as int] == (key, x));
                        assert(out@[i as int].0@ == m[i as int].0);
                    },
                    Err(()) => {
                        assert(!content_type_ok(m[i as int].1));
                        return Err(());
                    },
                }
                i = i + 1;
            }
            Ok(out)
        },
        Some(_) => Err(()),
    }
}

/// Every member of `ms` decodes to a library overlay.
pub open spec fn libraries_map_ok(ms: Pairs) -> bool {
    forall|i: int| 0 <= i < ms.len() ==> library_ok(#[trigger] ms[i].1)
}

/// `v` holds, in order, the keys of `ms` with what each member decodes to.
pub open spec fn libraries_map_is(ms: Pairs, v: Seq<(String, LibraryConfigOverlayRecord)>) -> bool {
    &&& v.len() == ms.len()
    &&& forall|i: int| 0 <= i < ms.len() ==> v[i].0@ == ms[i].0 && library_is(#[trigger] ms[i].1, v[i].1)
}

/// A member that is absent or an object of a library overlays.
pub open spec fn libraries_field_ok(ps: Pairs, key: Seq<char>) -> bool {
    match crate::json::pairs_get(ps, key) {
        None => true,
        Some(JsonV::Object(ms)) => libraries_map_ok(ms),
        _ => false,
    }
}

/// What such a member decodes to; absent means no entries.
pub open spec fn libraries_field_is(ps: Pairs, key: Seq<char>, v: Seq<(String, LibraryConfigOverlayRecord)>) -> bool {
    match crate::json::pairs_get(ps, key) {
        None => v.len() == 0,
        Some(JsonV::Object(ms)) => libraries_map_is(ms, v),
        _ => false,
    }
}

fn decode_libraries_field(obj: &Vec<(String, Json)>, key: &str) -> (r: Result<Vec<(String, LibraryConfigOverlayRecord)>, ()>)
    ensures
        r is Ok <==> libraries_field_ok(pairs_model(obj@), key@),
        r matches Ok(v) ==> libraries_field_is(pairs_model(obj@), key@, v@),
{
    match lookup_member(obj, key) {
        None => Ok(Vec::new()),
        Some(Json::Object(ms)) => {
            let ghost m = pairs_model(ms@);
            let mut out: Vec<(String, LibraryConfigOverlayRecord)> = Vec::new();
            let mut i: usize = 0;
            while i < ms.len()
                invariant
                    i <= ms.len(),
                    m == pairs_model(ms@),
                    crate::json::pairs_get(pairs_model(obj@), key@) == Some(JsonV::Object(m)),
                    out.len() == i,
                    forall|k: int| 0 <= k < i ==> library_ok(#[trigger] m[k].1),
                    forall|k: int| 0 <= k < i ==> out@[k].0@ == m[k].0,
                    forall|k: int| 0 <= k < i ==> library_is(#[trigger] m[k].1, out@[k].1),
                decreases ms.len() - i,
            {
                assert(m[i as int] == (ms@[i as int].0@, json_model(ms@[i as int].1)));
                match decode_library(&ms[i].1) {
                    Ok(x) => {
                        let ghost before = out@;
                        let key = ms[i].0.clone();
                        proof {
                            assert(library_is(m[i as int].1, x));
                        }
                        out.push((key, x));
                        assert(forall|k: int| 0 <= k < i ==> out@[k] == before[k]);
                        assert(out@[i as int] == (key, x));
                        assert(out@[i as int].0@ == m[i as int].0);
                    },
                    Err(()) => {
                        assert(!library_ok(m[i as int].1));
                        return Err(());
                    },
                }
                i = i + 1;
            }
            Ok(out)
        },
        Some(_) => Err(()),
    }
}

/// A JSON document that decodes to a configuration.
pub open spec fn config_ok(j: JsonV) -> bool {
    match j {
        JsonV::Object(ps) => {
            &&& providers_field_ok(ps, "provider"@)
            &&& content_types_field_ok(ps, "content_types"@)
            &&& libraries_field_ok(ps, "libraries"@)
        },
        _ => false,
    }
}

/// `c` is what `j` decodes to; absent sections are empty and unknown members are ignored.
pub open spec fn config_is(j: JsonV, c: FauniConfig) -> bool {
    match j {
        JsonV::Object(ps) => {
            &&& providers_field_is(ps, "provider"@, c.provider@)
            &&& content_types_field_is(ps, "content_types"@, c.content_types@)
            &&& libraries_field_is(ps, "libraries"@, c.libraries@)
        },
        _ => false,
    }
}

/// Decodes a configuration document.
pub fn decode_fauni_config(j: &Json) -> (r: Result<FauniConfig, ()>)
    ensures
        r is Ok <==> config_ok(json_model(*j)),
        r matches Ok(c) ==> config_is(json_model(*j), c),
{
    match j {
        Json::Object(obj) => {
            let provider = decode_providers_field(obj, "provider")?;
            let content_types = decode_content_types_field(obj, "content_types")?;
            let libraries = decode_libraries_field(obj, "libraries")?;
            Ok(FauniConfig { provider, content_types, libraries })
        },
        _ => Err(()),
    }
}


/// The trimmed value of an optional string, when it is not blank.
pub open spec fn nonblank(o: Option<String>) -> Option<Seq<char>> {
    match o {
        Some(v) => if trim(v@).len() > 0 { Some(trim(v@)) } else { None },
        None => None,
    }
}

fn nonblank_exec(o: &Option<String>) -> (r: Option<Vec<char>>)
    ensures
        match r {
            Some(v) => nonblank(*o) == Some(v@),
            None => nonblank(*o) is None,
        },
{
    match o {
        Some(v) => {
            let cs = chars_of(v.as_str());
            let t = trim_chars(&cs);
            if t.len() > 0 { Some(t) } else { None }
        },
        None => None,
    }
}

/// The local sidecar backend that a model entry names; `colqwen3_5` when none is named.
pub open spec fn effective_backend(o: Option<String>) -> Seq<char> {
    match nonblank(o) {
        Some(b) => b,
        None => "colqwen3_5"@,
    }
}

/// The backends that the local sidecar supports.
pub open spec fn supported_backend(b: Seq<char>) -> bool {
    b == "colqwen3_5"@ || b == "qwen3_vl_embedding"@
}

/// The problem with one model entry of provider `pid`, if any.
pub open spec fn model_entry_error(pid: Seq<char>, mid: Seq<char>, m: ProviderModelConfigRecord) -> Option<Seq<char>> {
    if trim(m.version@).len() == 0 {
        Some("provider."@ + pid + ".models."@ + mid + ".version cannot be empty."@)
    } else if pid == "local_sidecar"@ && !supported_backend(effective_backend(m.backend)) {
        Some("provider.local_sidecar.models."@ + mid + ".backend is not supported: "@ + effective_backend(m.backend) + "."@)
    } else {
        None
    }
}

/// The first problem among the model entries of provider `pid`, in order.
pub open spec fn model_entries_error(pid: Seq<char>, ms: Seq<(String, ProviderModelConfigRecord)>) -> Option<Seq<char>>
    decreases ms.len(),
{
    if ms.len() == 0 {
        None
    } else {
        match model_entry_error(pid, ms[0].0@, ms[0].1) {
            Some(e) => Some(e),
            None => model_entries_error(pid, ms.drop_first()),
        }
    }
}

/// The problem with a provider entry: an active model that names no model entry, else the
/// first problem among its model entries.
pub open spec fn provider_entry_error(pid: Seq<char>, p: ProviderConfigFileRecord) -> Option<Seq<char>> {
    match nonblank(p.active_model) {
        Some(am) if lookup(p.models@, am) is None => Some(
            "provider."@ + pid + ".active_model points to missing model "@ + am + "."@,
        ),
        _ => model_entries_error(pid, p.models@),
    }
}

/// The first problem among provider entries, in order.
pub open spec fn providers_error(ps: Seq<(String, ProviderConfigFileRecord)>) -> Option<Seq<char>>
    decreases ps.len(),
{
    if ps.len() == 0 {
        None
    } else {
        match provider_entry_error(ps[0].0@, ps[0].1) {
            Some(e) => Some(e),
            None => providers_error(ps.drop_first()),
        }
    }
}

/// Resolution of a `provider_id/model_id` reference (split at the first `/`).
pub open spec fn resolve_model_ref(c: FauniConfig, r: Seq<char>) -> Result<(ProviderConfigFileRecord, ProviderModelConfigRecord), Seq<char>> {
    match first_index_of(r, '/') {
        None => Err("model reference must be provider_id/model_id, got "@ + r + "."@),
        Some(k) => {
            let pid = r.take(k);
            let mid = r.skip(k + 1);
            match lookup(c.provider@, pid) {
                None => Err("provider "@ + pid + " was not found for model reference "@ + r + "."@),
                Some(p) => match lookup(p.models@, mid) {
                    None => Err("model "@ + mid + " was not found for provider "@ + pid + "."@),
                    Some(m) => Ok((p, m)),
                },
            }
        },
    }
}

/// The problem with a content-type binding: an unresolvable model reference, or a vector
/// type that the model does not produce.
pub open spec fn content_type_entry_error(c: FauniConfig, ct: Seq<char>, b: ContentTypeConfigRecord) -> Option<Seq<char>> {
    match resolve_model_ref(c, b.model@) {
        Err(e) => Some("content_types."@ + ct + ".model is invalid: "@ + e),
        Ok((_, m)) => if string_views(m.embedding_capabilities.vector_types@).contains(b.vector_type@) {
            None
        } else {
            Some("content_types."@ + ct + ".vector_type="@ + b.vector_type@ + " is not supported by model "@ + b.model@ + "."@)
        },
    }
}

/// The first problem among content-type bindings, in order.
pub open spec fn content_types_error(c: FauniConfig, cts: Seq<(String, ContentTypeConfigRecord)>) -> Option<Seq<char>>
    decreases cts.len(),
{
    if cts.len() == 0 {
        None
    } else {
        match content_type_entry_error(c, cts[0].0@, cts[0].1) {
            Some(e) => Some(e),
            None => content_types_error(c, cts.drop_first()),
        }
    }
}

/// The first problem of a configuration: providers first, then content types.
pub open spec fn config_error(c: FauniConfig) -> Option<Seq<char>> {
    match providers_error(c.provider@) {
        Some(e) => Some(e),
        None => content_types_error(c, c.content_types@),
    }
}

/// Builds a string from literal and computed pieces.
fn msg3(a: &str, b: &Vec<char>, c: &str) -> (r: Vec<char>)
    ensures
        r@ == a@ + b@ + c@,
{
    let mut m: Vec<char> = Vec::new();
    append_str(&mut m, a);
    append_chars(&mut m, b);
    append_str(&mut m, c);
    assert(m@ =~= a@ + b@ + c@);
    m
}

fn msg5(a: &str, b: &Vec<char>, c: &str, d: &Vec<char>, e: &str) -> (r: Vec<char>)
    ensures
        r@ == a@ + b@ + c@ + d@ + e@,
{
    let mut m = msg3(a, b, c);
    append_chars(&mut m, d);
    append_str(&mut m, e);
    m
}

fn invalid_data(message: Vec<char>) -> (r: IoError)
    ensures
        r.kind == IoErrorKind::InvalidData,
        r.message@ == message@,
{
    IoError { kind: IoErrorKind::InvalidData, message: string_of(&message) }
}

fn literal(s: &str) -> (r: Vec<char>)
    ensures
        r@ == s@,
{
    chars_of(s)
}

fn model_entries_check(pid: &Vec<char>, ms: &Vec<(String, ProviderModelConfigRecord)>) -> (r: Result<(), Vec<char>>)
    ensures
        match model_entries_error(pid@, ms@) {
            None => r is Ok,
            Some(e) => r matches Err(m) && m@ == e,
        },
{
    let mut i: usize = 0;
    assert(ms@.skip(0) =~= ms@);
    while i < ms.len()
        invariant
            i <= ms.len(),
            model_entries_error(pid@, ms@) == model_entries_error(pid@, ms@.skip(i as int)),
        decreases ms.len() - i,
    {
        assert(ms@.skip(i as int).drop_first() =~= ms@.skip(i + 1));
        assert(ms@.skip(i as int)[0] == ms@[i as int]);
        let mid = chars_of(ms[i].0.as_str());
        let m = &ms[i].1;
        let version = chars_of(m.version.as_str());
        let tv = trim_chars(&version);
        if tv.len() == 0 {
            let e = msg5("provider.", pid, ".models.", &mid, ".version cannot be empty.");
            return Err(e);
        }
        if crate::text::chars_eq(pid, &literal("local_sidecar")) {
            let backend = match nonblank_exec(&m.backend) {
                Some(b) => b,
                None => literal("colqwen3_5"),
            };
            if !crate::text::chars_eq(&backend, &literal("colqwen3_5")) && !crate::text::chars_eq(
                &backend,
                &literal("qwen3_vl_embedding"),
            ) {
                let e = msg5("provider.local_sidecar.models.", &mid, ".backend is not supported: ", &backend, ".");
                return Err(e);
            }
        }
        i = i + 1;
    }
    Ok(())
}

fn provider_entry_check(pid: &Vec<char>, p: &ProviderConfigFileRecord) -> (r: Result<(), Vec<char>>)
    ensures
        match provider_entry_error(pid@, *p) {
            None => r is Ok,
            Some(e) => r matches Err(m) && m@ == e,
        },
{
    match nonblank_exec(&p.active_model) {
        Some(am) => {
            if find_entry(&p.models, &am).is_none() {
                let e = msg5("provider.", pid, ".active_model points to missing model ", &am, ".");
                return Err(e);
            }
        },
        None => {},
    }
    model_entries_check(pid, &p.models)
}

/// Resolves a `provider_id/model_id` reference to the indices of its provider and model
/// entries (see `resolve_model_ref`).
pub fn resolve_model_reference(config: &FauniConfig, model_ref: &str) -> (r: Result<(usize, usize), IoError>)
    ensures
        match resolve_model_ref(*config, model_ref@) {
            Ok((p, m)) => r matches Ok((i, j)) && i < config.provider.len() && config.provider@[i as int].1 == p
                && j < p.models.len() && p.models@[j as int].1 == m,
            Err(e) => r matches Err(err) && err.kind == IoErrorKind::InvalidData && err.message@ == e,
        },
{
    let rc = chars_of(model_ref);
    match find_char(&rc, '/') {
        None => Err(invalid_data(msg3("model reference must be provider_id/model_id, got ", &rc, "."))),
        Some(k) => {
            let pid = sub_chars(&rc, 0, k);
            let mid = sub_chars(&rc, k + 1, rc.len());
            assert(pid@ =~= rc@.take(k as int));
            assert(mid@ =~= rc@.skip(k + 1));
            match find_entry(&config.provider, &pid) {
                None => Err(invalid_data(msg5("provider ", &pid, " was not found for model reference ", &rc, "."))),
                Some(i) => match find_entry(&config.provider[i].1.models, &mid) {
                    None => Err(invalid_data(msg5("model ", &mid, " was not found for provider ", &pid, "."))),
                    Some(j) => Ok((i, j)),
                },
            }
        },
    }
}

fn strings_contain(v: &Vec<String>, s: &String) -> (r: bool)
    ensures
        r == string_views(v@).contains(s@),
{
    let mut i: usize = 0;
    while i < v.len()
        invariant
            i <= v.len(),
            forall|k: int| 0 <= k < i ==> v@[k]@ != s@,
        decreases v.len() - i,
    {
        if v[i] == *s {
            assert(string_views(v@)[i as int] == s@);
            return true;
        }
        i = i + 1;
    }
    assert forall|k: int| 0 <= k < string_views(v@).len() implies string_views(v@)[k] != s@ by {
        assert(string_views(v@)[k] == v@[k]@);
    }
    false
}

/// Checks a merged configuration (see `config_error`): every provider's active model names
/// one of its models, every model has a version, local sidecar models name a supported
/// backend, and every content type names a resolvable model that produces its vector type.
pub fn validate_fauni_config(config: &FauniConfig) -> (r: Result<(), IoError>)
    ensures
        match config_error(*config) {
            None => r is Ok,
            Some(e) => r matches Err(err) && err.kind == IoErrorKind::InvalidData && err.message@ == e,
        },
{
    let mut i: usize = 0;
    assert(config.provider@.skip(0) =~= config.provider@);
    while i < config.provider.len()
        invariant
            i <= config.provider.len(),
            providers_error(config.provider@) == providers_error(config.provider@.skip(i as int)),
        decreases config.provider.len() - i,
    {
        assert(config.provider@.skip(i as int).drop_first() =~= config.provider@.skip(i + 1));
        assert(config.provider@.skip(i as int)[0] == config.provider@[i as int]);
        let pid = chars_of(config.provider[i].0.as_str());
        match provider_entry_check(&pid, &config.provider[i].1) {
            Ok(()) => {},
            Err(e) => {
                return Err(invalid_data(e));
            },
        }
        i = i + 1;
    }
    let mut j: usize = 0;
    assert(config.content_types@.skip(0) =~= config.content_types@);
    while j < config.content_types.len()
        invariant
            j <= config.content_types.len(),
            providers_error(config.provider@) is None,
            content_types_error(*config, config.content_types@) == content_types_error(*config, config.content_types@.skip(j as int)),
        decreases config.content_types.len() - j,
    {
        assert(config.content_types@.skip(j as int).drop_first() =~= config.content_types@.skip(j + 1));
        assert(config.content_types@.skip(j as int)[0] == config.content_types@[j as int]);
        let ct = chars_of(config.content_types[j].0.as_str());
        let b = &config.content_types[j].1;
        match resolve_model_reference(config, b.model.as_str()) {
            Err(err) => {
                let inner = chars_of(err.message.as_str());
                let mut m = literal("content_types.");
                append_chars(&mut m, &ct);
                append_str(&mut m, ".model is invalid: ");
                append_chars(&mut m, &inner);
                return Err(invalid_data(m));
            },
            Ok((pi, mi)) => {
                let model = &config.provider[pi].1.models[mi].1;
                if !strings_contain(&model.embedding_capabilities.vector_types, &b.vector_type) {
                    let vt = chars_of(b.vector_type.as_str());
                    let mr = chars_of(b.model.as_str());
                    let mut m = msg3("content_types.", &ct, ".vector_type=");
                    append_chars(&mut m, &vt);
                    append_str(&mut m, " is not supported by model ");
                    append_chars(&mut m, &mr);
                    append_str(&mut m, ".");
                    return Err(invalid_data(m));
                }
            },
        }
        j = j + 1;
    }
    Ok(())
}


/// The view of an optional string slice.
pub open spec fn opt_str_view(o: Option<&str>) -> Option<Seq<char>> {
    match o {
        Some(s) => Some(s@),
        None => None,
    }
}

/// The local sidecar model that `c` selects: the trimmed `selected` id when one is given,
/// else the provider's non-blank active model; the model entry must exist and be enabled.
/// The result is the model id, its version and its backend (`colqwen3_5` when unnamed).
pub open spec fn local_model_resolution(c: FauniConfig, selected: Option<Seq<char>>) -> Result<
    (Seq<char>, Seq<char>, Seq<char>),
    Seq<char>,
> {
    match lookup(c.provider@, "local_sidecar"@) {
        None => Err("Fauni config must define provider.local_sidecar."@),
        Some(p) => {
            let chosen: Result<Seq<char>, Seq<char>> = match selected {
                Some(v) => Ok(trim(v)),
                None => match nonblank(p.active_model) {
                    Some(a) => Ok(a),
                    None => Err("provider.local_sidecar.active_model must be a non-empty string."@),
                },
            };
            match chosen {
                Err(e) => Err(e),
                Ok(mid) => if mid.len() == 0 {
                    Err("local_sidecar model id must be a non-empty string."@)
                } else {
                    match lookup(p.models@, mid) {
                        None => Err("provider.local_sidecar.models does not define model "@ + mid + "."@),
                        Some(m) => if !m.enabled {
                            Err("provider.local_sidecar.models."@ + mid + " is disabled."@)
                        } else {
                            Ok((mid, m.version@, match m.backend {
                                Some(b) => b@,
                                None => "colqwen3_5"@,
                            }))
                        },
                    }
                },
            }
        },
    }
}

/// Resolves the local sidecar model that the configuration activates.
pub fn resolve_local_sidecar_active_model(config: &FauniConfig) -> (r: Result<LocalSidecarActiveModel, IoError>)
    ensures
        match local_model_resolution(*config, None) {
            Ok((id, version, backend)) => r matches Ok(m) && m.model_id@ == id && m.version@ == version
                && m.backend@ == backend,
            Err(e) => r matches Err(err) && err.kind == IoErrorKind::InvalidData && err.message@ == e,
        },
{
    resolve_local_sidecar_model(config, None)
}

/// Resolves the local sidecar model named by `selected_model_id`, or the active one when
/// none is named (see `local_model_resolution`).
pub fn resolve_local_sidecar_model(config: &FauniConfig, selected_model_id: Option<&str>) -> (r: Result<
    LocalSidecarActiveModel,
    IoError,
>)
    ensures
        match local_model_resolution(*config, opt_str_view(selected_model_id)) {
            Ok((id, version, backend)) => r matches Ok(m) && m.model_id@ == id && m.version@ == version
                && m.backend@ == backend,
            Err(e) => r matches Err(err) && err.kind == IoErrorKind::InvalidData && err.message@ == e,
        },
{
    let pi = match find_entry(&config.provider, &literal("local_sidecar")) {
        None => {
            return Err(invalid_data(literal("Fauni config must define provider.local_sidecar.")));
        },
        Some(i) => i,
    };
    let provider = &config.provider[pi].1;
    let model_id = match selected_model_id {
        Some(v) => trim_chars(&chars_of(v)),
        None => match nonblank_exec(&provider.active_model) {
            Some(a) => a,
            None => {
                return Err(
                    invalid_data(literal("provider.local_sidecar.active_model must be a non-empty string.")),
                );
            },
        },
    };
    if model_id.len() == 0 {
        return Err(invalid_data(literal("local_sidecar model id must be a non-empty string.")));
    }
    let mi = match find_entry(&provider.models, &model_id) {
        None => {
            return Err(
                invalid_data(msg3("provider.local_sidecar.models does not define model ", &model_id, ".")),
            );
        },
        Some(j) => j,
    };
    let model = &provider.models[mi].1;
    if !model.enabled {
        return Err(invalid_data(msg3("provider.local_sidecar.models.", &model_id, " is disabled.")));
    }
    let backend = match &model.backend {
        Some(b) => b.clone(),
        None => "colqwen3_5".to_owned(),
    };
    Ok(LocalSidecarActiveModel { model_id: string_of(&model_id), version: model.version.clone(), backend })
}


/// What the environment holds for one configuration file path.
#[derive(Debug)]
pub enum ConfigSource {
    /// No file at that path.
    Missing,
    /// The file exists and could not be read; the reason.
    Unreadable(String),
    /// The file was read and is not JSON; the parser's message.
    Malformed(String),
    /// The parsed document. As the JSON parser gives it, each object lists its members in
    /// increasing key order, each key once (see `config_laws::env_documents_ordered`).
    Parsed(Json),
}

/// The environment variables and configuration files that the service reads its
/// configuration from.
#[derive(Debug)]
pub struct ConfigEnvironment {
    /// `FAUNI_CONFIG_PATH`, when set.
    pub fauni_config_path: Option<String>,
    /// `APP_RUNTIME_DIR`, when set.
    pub app_runtime_dir: Option<String>,
    /// The files, by path; a path with no entry holds no file.
    pub files: Vec<(String, ConfigSource)>,
}

/// The merged, validated configuration.
#[derive(Debug)]
pub struct LoadedFauniConfig {
    pub config: FauniConfig,
}

/// `name` appended to the directory `dir` (`Path::join` with a relative name).
pub open spec fn join_path(dir: Seq<char>, name: Seq<char>) -> Seq<char> {
    if dir.len() == 0 {
        name
    } else if dir.last() == '/' {
        dir + name
    } else {
        dir + "/"@ + name
    }
}

/// The repository configuration path: `FAUNI_CONFIG_PATH` unless unset or blank, else
/// `fauni.config.json`.
pub open spec fn repo_config_path(v: Option<String>) -> Seq<char> {
    match v {
        Some(p) => if trim(p@).len() > 0 { p@ } else { "fauni.config.json"@ },
        None => "fauni.config.json"@,
    }
}

/// The message of a missing `APP_RUNTIME_DIR`.
pub open spec fn missing_runtime_dir_message() -> Seq<char> {
    "Missing required environment variable APP_RUNTIME_DIR; source .env or use scripts/local/run.sh"@
}

/// The repository and runtime configuration paths of an environment.
pub open spec fn config_paths(env: ConfigEnvironment) -> Result<(Seq<char>, Seq<char>), (IoErrorKind, Seq<char>)> {
    match env.app_runtime_dir {
        None => Err((IoErrorKind::InvalidInput, missing_runtime_dir_message())),
        Some(d) => Ok((repo_config_path(env.fauni_config_path), join_path(d@, "runtime-config.json"@))),
    }
}

/// The document at `path`: a missing file is an error when `required`, else an empty object.
pub open spec fn config_value(env: ConfigEnvironment, path: Seq<char>, required: bool) -> Result<
    JsonV,
    (IoErrorKind, Seq<char>),
> {
    match lookup(env.files@, path) {
        Some(ConfigSource::Parsed(j)) => Ok(json_model(j)),
        Some(ConfigSource::Unreadable(e)) => Err(
            (IoErrorKind::Other, "Failed to read Fauni config file "@ + path + ": "@ + e@),
        ),
        Some(ConfigSource::Malformed(e)) => Err(
            (IoErrorKind::InvalidData, "Failed to parse Fauni config file "@ + path + ": "@ + e@),
        ),
        _ => if required {
            Err((IoErrorKind::NotFound, "Fauni config file was not found: "@ + path))
        } else {
            Ok(JsonV::Object(seq![]))
        },
    }
}

/// `r` is the error `e`.
pub open spec fn fails_with<T>(r: Result<T, IoError>, e: (IoErrorKind, Seq<char>)) -> bool {
    r matches Err(err) && err.kind == e.0 && err.message@ == e.1
}

/// The message of a merged document that is not a configuration.
pub open spec fn decode_failure_message(repo_path: Seq<char>, runtime_path: Seq<char>) -> Seq<char> {
    "Failed to decode merged Fauni config from "@ + repo_path + " and "@ + runtime_path
        + ": the merged document is not a valid Fauni config"@
}

/// `r` is the outcome of validating the decoded configuration `c`.
pub open spec fn validated(c: FauniConfig, r: Result<LoadedFauniConfig, IoError>) -> bool {
    match config_error(c) {
        None => r matches Ok(l) && l.config == c,
        Some(e) => fails_with(r, (IoErrorKind::InvalidData, e)),
    }
}

/// `r` is the outcome of decoding and validating the merged document `m`.
pub open spec fn decoded_outcome(m: JsonV, repo_path: Seq<char>, runtime_path: Seq<char>, r: Result<
    LoadedFauniConfig,
    IoError,
>) -> bool {
    if config_ok(m) {
        exists|c: FauniConfig| config_is(m, c) && validated(c, r)
    } else {
        fails_with(r, (IoErrorKind::InvalidData, decode_failure_message(repo_path, runtime_path)))
    }
}

fn io_error(kind: IoErrorKind, message: Vec<char>) -> (r: IoError)
    ensures
        r.kind == kind,
        r.message@ == message@,
{
    IoError { kind, message: string_of(&message) }
}

/// The repository and runtime configuration paths (see `config_paths`).
pub fn merged_config_paths_from_env(env: &ConfigEnvironment) -> (r: Result<(String, String), IoError>)
    ensures
        match config_paths(*env) {
            Ok((a, b)) => r matches Ok((x, y)) && x@ == a && y@ == b,
            Err(e) => fails_with(r, e),
        },
{
    let repo = match &env.fauni_config_path {
        Some(p) => {
            let t = trim_chars(&chars_of(p.as_str()));
            if t.len() > 0 { p.clone() } else { "fauni.config.json".to_owned() }
        },
        None => "fauni.config.json".to_owned(),
    };
    let dir = match &env.app_runtime_dir {
        None => {
            return Err(io_error(IoErrorKind::InvalidInput, literal(
                "Missing required environment variable APP_RUNTIME_DIR; source .env or use scripts/local/run.sh",
            )));
        },
        Some(d) => chars_of(d.as_str()),
    };
    let ghost d0 = dir@;
    let mut runtime = dir;
    if runtime.len() > 0 && runtime[runtime.len() - 1] != '/' {
        runtime.push('/');
    }
    append_str(&mut runtime, "runtime-config.json");
    proof {
        reveal_strlit("/");
    }
    assert(runtime@ =~= join_path(d0, "runtime-config.json"@));
    Ok((repo, string_of(&runtime)))
}

/// The document at `path` (see `config_value`).
pub fn load_config_value(env: &ConfigEnvironment, path: &String, required: bool) -> (r: Result<Json, IoError>)
    ensures
        match config_value(*env, path@, required) {
            Ok(v) => r matches Ok(j) && json_model(j) == v,
            Err(e) => fails_with(r, e),
        },
{
    proof {
        reveal_strlit("");
    }
    let p = chars_of(path.as_str());
    let source = match find_entry(&env.files, &p) {
        Some(i) => Some(&env.files[i].1),
        None => None,
    };
    assert(source matches Some(x) ==> lookup(env.files@, path@) == Some(*x));
    assert(source is None ==> lookup(env.files@, path@) is None);
    match source {
        Some(ConfigSource::Parsed(j)) => {
            Ok(clone_json(j))
        },
        Some(ConfigSource::Unreadable(e)) => {
            let ec = chars_of(e.as_str());
            Err(io_error(IoErrorKind::Other, msg5("Failed to read Fauni config file ", &p, ": ", &ec, "")))
        },
        Some(ConfigSource::Malformed(e)) => {
            let ec = chars_of(e.as_str());
            Err(io_error(IoErrorKind::InvalidData, msg5("Failed to parse Fauni config file ", &p, ": ", &ec, "")))
        },
        _ => if required {
            Err(io_error(IoErrorKind::NotFound, msg3("Fauni config file was not found: ", &p, "")))
        } else {
            let empty: Vec<(String, Json)> = Vec::new();
            let r = Json::Object(empty);
            assert(json_model(r) == JsonV::Object(seq![])) by {
                assert(pairs_model(empty@) =~= seq![]);
            }
            Ok(r)
        },
    }
}

/// Merges the runtime document into the repository document, decodes the result and
/// validates it (see `decoded_outcome`).
pub fn decode_merged_runtime_config(repo_path: &String, runtime_path: &String, repo_value: Json, runtime_value: Json) -> (r:
    Result<LoadedFauniConfig, IoError>)
    ensures
        decoded_outcome(merge(json_model(repo_value), json_model(runtime_value)), repo_path@, runtime_path@, r),
{
    let mut merged = repo_value;
    deep_merge_values(&mut merged, runtime_value);
    match decode_fauni_config(&merged) {
        Err(()) => {
            let rp = chars_of(repo_path.as_str());
            let tp = chars_of(runtime_path.as_str());
            Err(invalid_data(msg5(
                "Failed to decode merged Fauni config from ",
                &rp,
                " and ",
                &tp,
                ": the merged document is not a valid Fauni config",
            )))
        },
        Ok(config) => {
            let checked = validate_fauni_config(&config);
            let r = match checked {
                Ok(()) => Ok(LoadedFauniConfig { config }),
                Err(e) => Err(e),
            };
            proof {
                let m = merge(json_model(repo_value), json_model(runtime_value));
                assert(config_is(m, config) && validated(config, r));
            }
            r
        },
    }
}


/// `r` is the outcome of loading the configuration from `repo_path` (required) and
/// `runtime_path` (optional), merging, decoding and validating it.
pub open spec fn loaded_from_paths(env: ConfigEnvironment, repo_path: Seq<char>, runtime_path: Seq<char>, r: Result<
    LoadedFauniConfig,
    IoError,
>) -> bool {
    match config_value(env, repo_path, true) {
        Err(e) => fails_with(r, e),
        Ok(rv) => match config_value(env, runtime_path, false) {
            Err(e) => fails_with(r, e),
            Ok(tv) => decoded_outcome(merge(rv, tv), repo_path, runtime_path, r),
        },
    }
}

/// `r` is the outcome of loading the configuration at the environment's paths.
pub open spec fn loaded_from_env(env: ConfigEnvironment, r: Result<LoadedFauniConfig, IoError>) -> bool {
    match config_paths(env) {
        Err(e) => fails_with(r, e),
        Ok((a, b)) => loaded_from_paths(env, a, b, r),
    }
}

/// Loads, merges, decodes and validates the configuration at the two paths.
pub fn load_merged_runtime_config_from_paths(env: &ConfigEnvironment, repo_path: &String, runtime_path: &String) -> (r:
    Result<LoadedFauniConfig, IoError>)
    ensures
        loaded_from_paths(*env, repo_path@, runtime_path@, r),
{
    let repo_value = load_config_value(env, repo_path, true)?;
    let runtime_value = load_config_value(env, runtime_path, false)?;
    decode_merged_runtime_config(repo_path, runtime_path, repo_value, runtime_value)
}

/// Loads, merges, decodes and validates the configuration at the environment's paths.
pub fn load_merged_runtime_config(env: &ConfigEnvironment) -> (r: Result<LoadedFauniConfig, IoError>)
    ensures
        loaded_from_env(*env, r),
{
    let (repo_path, runtime_path) = merged_config_paths_from_env(env)?;
    load_merged_runtime_config_from_paths(env, &repo_path, &runtime_path)
}

/// `r` carries the same error as `e`.
pub open spec fn same_error<T, U>(r: Result<T, IoError>, e: Result<U, IoError>) -> bool {
    e matches Err(x) && r matches Err(y) && y.kind == x.kind && y.message@ == x.message@
}

/// `r` is the resolution of the local sidecar model in the configuration `c`.
pub open spec fn resolved_model(c: FauniConfig, selected: Option<Seq<char>>, r: Result<(String, String, String), IoError>) -> bool {
    match local_model_resolution(c, selected) {
        Ok((id, version, backend)) => r matches Ok((a, b, d)) && a@ == id && b@ == version && d@ == backend,
        Err(e) => fails_with(r, (IoErrorKind::InvalidData, e)),
    }
}

/// `r` is the local sidecar model that the configuration of `env` selects: the outcome of
/// loading it, then of resolving the model in it.
pub open spec fn resolved_model_from_env(env: ConfigEnvironment, selected: Option<Seq<char>>, r: Result<
    (String, String, String),
    IoError,
>) -> bool {
    exists|loaded: Result<LoadedFauniConfig, IoError>|
        loaded_from_env(env, loaded) && match loaded {
            Ok(l) => resolved_model(l.config, selected, r),
            Err(_) => same_error(r, loaded),
        }
}

/// The active local sidecar model (id, version, backend) of the environment's configuration.
pub fn resolve_local_sidecar_active_model_from_env(env: &ConfigEnvironment) -> (r: Result<(String, String, String), IoError>)
    ensures
        resolved_model_from_env(*env, None, r),
{
    resolve_local_sidecar_model_from_env(env, None)
}

/// The local sidecar model (id, version, backend) named by `selected_model_id`, or the
/// active one, in the environment's configuration.
pub fn resolve_local_sidecar_model_from_env(env: &ConfigEnvironment, selected_model_id: Option<&str>) -> (r: Result<
    (String, String, String),
    IoError,
>)
    ensures
        resolved_model_from_env(*env, opt_str_view(selected_model_id), r),
{
    let loaded = load_merged_runtime_config(env);
    match loaded {
        Err(e) => {
            let r = Err(IoError { kind: e.kind, message: e.message.clone() });
            assert(loaded_from_env(*env, loaded) && same_error(r, loaded));
            r
        },
        Ok(l) => {
            let r = match resolve_local_sidecar_model(&l.config, selected_model_id) {
                Ok(m) => Ok((m.model_id, m.version, m.backend)),
                Err(e) => Err(e),
            };
            assert(loaded_from_env(*env, Ok::<LoadedFauniConfig, IoError>(l)) && resolved_model(
                l.config,
                opt_str_view(selected_model_id),
                r,
            ));
            r
        },
    }
}

/// The model version assumed when a model entry names none.
pub fn default_model_version() -> (r: String)
    ensures
        r@ == "main"@,
{
    "main".to_owned()
}

/// The value assumed for a flag that a configuration entry leaves out.
pub fn default_true() -> (r: bool)
    ensures
        r,
{
    true
}

/// Checks that `model_ref` names a configured model; the error names the field.
pub fn validate_model_reference(config: &FauniConfig, model_ref: &str, field: &str) -> (r: Result<(), IoError>)
    ensures
        match resolve_model_ref(*config, model_ref@) {
            Ok(_) => r is Ok,
            Err(e) => r matches Err(err) && err.kind == IoErrorKind::InvalidData && err.message@ == field@
                + " is invalid: "@ + e,
        },
{
    match resolve_model_reference(config, model_ref) {
        Ok(_) => Ok(()),
        Err(e) => {
            let mut m = chars_of(field);
            append_str(&mut m, " is invalid: ");
            append_str(&mut m, e.message.as_str());
            Err(IoError { kind: e.kind, message: string_of(&m) })
        },
    }
}

/// Which providers, models, content types and library content types each configuration
/// file declares. Sets are sorted without repeats; the keyed lists follow the file's order
/// and leave out entries with nothing under them.
#[derive(Debug)]
pub struct ConfigOriginSnapshot {
    pub repo_providers: Vec<String>,
    pub runtime_providers: Vec<String>,
    pub repo_provider_models: Vec<(String, Vec<String>)>,
    pub runtime_provider_models: Vec<(String, Vec<String>)>,
    pub repo_content_types: Vec<String>,
    pub runtime_content_types: Vec<String>,
    pub repo_library_content_types: Vec<(String, Vec<String>)>,
    pub runtime_library_content_types: Vec<(String, Vec<String>)>,
}

/// The keys of the object member `key`, as a set.
pub open spec fn key_set(v: JsonV, key: Seq<char>) -> Set<Seq<char>> {
    crate::json::object_keys(match member(v, key) {
        Some(c) => c,
        None => JsonV::Null,
    }).to_set()
}

fn sorted_keys(v: &Json, key: &str) -> (r: Vec<String>)
    ensures
        crate::sorted::is_sorted_set(r@),
        crate::sorted::set_of(r@) == key_set(json_model(*v), key@),
{
    let keys = match get_member_of(v, key) {
        Some(c) => crate::json::object_keys_of(c),
        None => Vec::new(),
    };
    let ghost ks = string_views(keys@);
    assert(ks.to_set() =~= key_set(json_model(*v), key@)) by {
        assert(ks == crate::json::object_keys(match member(json_model(*v), key@) {
            Some(c) => c,
            None => JsonV::Null,
        }));
    }
    let mut out: Vec<String> = Vec::new();
    assert(crate::sorted::set_of(out@) =~= Set::<Seq<char>>::empty());
    let mut i: usize = 0;
    while i < keys.len()
        invariant
            i <= keys.len(),
            ks == string_views(keys@),
            crate::sorted::is_sorted_set(out@),
            crate::sorted::set_of(out@) == ks.take(i as int).to_set(),
        decreases keys.len() - i,
    {
        crate::sorted::insert_sorted(&mut out, keys[i].clone());
        assert(ks.take(i + 1) =~= ks.take(i as int).push(ks[i as int]));
        proof {
            ks.take(i as int).lemma_push_to_set_commute(ks[i as int]);
        }
        i += 1;
    }
    assert(ks.take(keys.len() as int) =~= ks);
    out
}

/// The origin snapshot of the two documents (see `ConfigOriginSnapshot`).
pub open spec fn origin_snapshot_is(repo: JsonV, runtime: JsonV, s: ConfigOriginSnapshot) -> bool {
    &&& crate::sorted::is_sorted_set(s.repo_providers@)
    &&& crate::sorted::set_of(s.repo_providers@) == key_set(repo, "provider"@)
    &&& crate::sorted::is_sorted_set(s.runtime_providers@)
    &&& crate::sorted::set_of(s.runtime_providers@) == key_set(runtime, "provider"@)
    &&& crate::sorted::is_sorted_set(s.repo_content_types@)
    &&& crate::sorted::set_of(s.repo_content_types@) == key_set(repo, "content_types"@)
    &&& crate::sorted::is_sorted_set(s.runtime_content_types@)
    &&& crate::sorted::set_of(s.runtime_content_types@) == key_set(runtime, "content_types"@)
    &&& crate::json::keyed_views(s.repo_provider_models@) == crate::json::grouped_child_keys(repo, "provider"@, "models"@)
    &&& crate::json::keyed_views(s.runtime_provider_models@) == crate::json::grouped_child_keys(
        runtime,
        "provider"@,
        "models"@,
    )
    &&& crate::json::keyed_views(s.repo_library_content_types@) == crate::json::grouped_child_keys(
        repo,
        "libraries"@,
        "content_types"@,
    )
    &&& crate::json::keyed_views(s.runtime_library_content_types@) == crate::json::grouped_child_keys(
        runtime,
        "libraries"@,
        "content_types"@,
    )
}

/// The origin snapshot of two loaded documents (see `origin_snapshot_is`).
pub fn config_origin_snapshot(repo: &Json, runtime: &Json) -> (r: ConfigOriginSnapshot)
    ensures
        origin_snapshot_is(json_model(*repo), json_model(*runtime), r),
{
    ConfigOriginSnapshot {
        repo_providers: sorted_keys(repo, "provider"),
        runtime_providers: sorted_keys(runtime, "provider"),
        repo_provider_models: crate::json::grouped_child_keys_of(repo, "provider", "models"),
        runtime_provider_models: crate::json::grouped_child_keys_of(runtime, "provider", "models"),
        repo_content_types: sorted_keys(repo, "content_types"),
        runtime_content_types: sorted_keys(runtime, "content_types"),
        repo_library_content_types: crate::json::grouped_child_keys_of(repo, "libraries", "content_types"),
        runtime_library_content_types: crate::json::grouped_child_keys_of(runtime, "libraries", "content_types"),
    }
}

/// Loads both configuration documents of the environment and takes their origin snapshot;
/// the loading errors are those of `config_paths` and `config_value`.
pub fn load_config_origin_snapshot(env: &ConfigEnvironment) -> (r: Result<ConfigOriginSnapshot, IoError>)
    ensures
        match config_paths(*env) {
            Err(e) => fails_with(r, e),
            Ok((a, b)) => match (config_value(*env, a, true), config_value(*env, b, false)) {
                (Err(e), _) => fails_with(r, e),
                (Ok(_), Err(e)) => fails_with(r, e),
                (Ok(x), Ok(y)) => r matches Ok(s) && origin_snapshot_is(x, y, s),
            },
        },
{
    let (repo_path, runtime_path) = merged_config_paths_from_env(env)?;
    let repo_value = load_config_value(env, &repo_path, true)?;
    let runtime_value = load_config_value(env, &runtime_path, false)?;
    Ok(config_origin_snapshot(&repo_value, &runtime_value))
}

} // verus!
