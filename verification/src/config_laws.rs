use vstd::prelude::*;
use crate::config::{
    ConfigSource,
    caps_is, config_error, libraries_field_is, library_is, LibraryConfigOverlayRecord, config_is, content_type_is, provider_is,
    provider_model_is, config_paths, config_value, content_type_entry_error, content_types_error, decoded_outcome,
    effective_backend, loaded_from_env, local_model_resolution, lookup,
    model_entries_error, model_entry_error, nonblank, opt_view, provider_entry_error, providers_error,
    resolve_model_ref, resolved_model, resolved_model_from_env, same_error, validated, ConfigEnvironment,
    ContentTypeConfigRecord, FauniConfig, LoadedFauniConfig, ProviderConfigFileRecord, ProviderModelConfigRecord,
};
use crate::error::IoError;
use crate::json::{
    json_model, lemma_get_at, lemma_merge_by_key, lex_lt, merge, merge_pairs, merged_value, pairs_get, pairs_keys, pairs_put, pairs_replace,
    string_views, JsonV, Pairs,
};
use crate::sorted::{lemma_lex_lt_asymmetric, lemma_lex_lt_irreflexive, lemma_lex_lt_total, lemma_lex_lt_transitive};
use crate::sorted::strictly_sorted;

verus! {

/// Two entry lists with the same keys, in order, whose values agree pairwise.
pub open spec fn keyed_agree<T>(v1: Seq<(String, T)>, v2: Seq<(String, T)>, agree: spec_fn(T, T) -> bool) -> bool {
    &&& v1.len() == v2.len()
    &&& forall|i: int| 0 <= i < v1.len() ==> #[trigger] v1[i].0@ == v2[i].0@ && agree(v1[i].1, v2[i].1)
}

/// Two model entries that agree on all that validation and model resolution read.
pub open spec fn model_agree(a: ProviderModelConfigRecord, b: ProviderModelConfigRecord) -> bool {
    &&& a.enabled == b.enabled
    &&& a.version@ == b.version@
    &&& opt_view(a.backend) == opt_view(b.backend)
    &&& string_views(a.embedding_capabilities.vector_types@) == string_views(b.embedding_capabilities.vector_types@)
}

/// Two provider entries that agree on their active model and their model entries.
pub open spec fn provider_agree(a: ProviderConfigFileRecord, b: ProviderConfigFileRecord) -> bool {
    &&& opt_view(a.active_model) == opt_view(b.active_model)
    &&& keyed_agree(a.models@, b.models@, |x: ProviderModelConfigRecord, y: ProviderModelConfigRecord| model_agree(x, y))
}

/// Two content-type bindings with the same fields.
pub open spec fn binding_agree(a: ContentTypeConfigRecord, b: ContentTypeConfigRecord) -> bool {
    &&& a.enabled == b.enabled
    &&& a.model@ == b.model@
    &&& a.vector_type@ == b.vector_type@
}

/// Two configurations that agree on their providers and content-type bindings.
pub open spec fn config_agree(a: FauniConfig, b: FauniConfig) -> bool {
    &&& keyed_agree(a.provider@, b.provider@, |x: ProviderConfigFileRecord, y: ProviderConfigFileRecord| provider_agree(x, y))
    &&& keyed_agree(
        a.content_types@,
        b.content_types@,
        |x: ContentTypeConfigRecord, y: ContentTypeConfigRecord| binding_agree(x, y),
    )
}

proof fn lemma_lookup_agree<T>(v1: Seq<(String, T)>, v2: Seq<(String, T)>, agree: spec_fn(T, T) -> bool, k: Seq<char>)
    requires
        keyed_agree(v1, v2, agree),
    ensures
        match (lookup(v1, k), lookup(v2, k)) {
            (None, None) => true,
            (Some(a), Some(b)) => agree(a, b),
            _ => false,
        },
    decreases v1.len(),
{
    if v1.len() > 0 {
        assert(v1[0].0@ == v2[0].0@ && agree(v1[0].1, v2[0].1));
        let (t1, t2) = (v1.drop_first(), v2.drop_first());
        assert forall|i: int| 0 <= i < t1.len() implies #[trigger] t1[i].0@ == t2[i].0@ && agree(t1[i].1, t2[i].1) by {
            assert(t1[i] == v1[i + 1] && t2[i] == v2[i + 1]);
            assert(v1[i + 1].0@ == v2[i + 1].0@);
        }
        lemma_lookup_agree(t1, t2, agree, k);
    }
}

proof fn lemma_drop_agree<T>(v1: Seq<(String, T)>, v2: Seq<(String, T)>, agree: spec_fn(T, T) -> bool)
    requires
        keyed_agree(v1, v2, agree),
        v1.len() > 0,
    ensures
        keyed_agree(v1.drop_first(), v2.drop_first(), agree),
        v1[0].0@ == v2[0].0@,
        agree(v1[0].1, v2[0].1),
{
    assert(v1[0].0@ == v2[0].0@);
    let (t1, t2) = (v1.drop_first(), v2.drop_first());
    assert forall|i: int| 0 <= i < t1.len() implies #[trigger] t1[i].0@ == t2[i].0@ && agree(t1[i].1, t2[i].1) by {
        assert(t1[i] == v1[i + 1] && t2[i] == v2[i + 1]);
        assert(v1[i + 1].0@ == v2[i + 1].0@);
    }
}

proof fn lemma_nonblank_agree(a: Option<String>, b: Option<String>)
    requires
        opt_view(a) == opt_view(b),
    ensures
        nonblank(a) == nonblank(b),
        effective_backend(a) == effective_backend(b),
{
}

proof fn lemma_model_entries_agree(pid: Seq<char>, v1: Seq<(String, ProviderModelConfigRecord)>, v2: Seq<(String, ProviderModelConfigRecord)>)
    requires
        keyed_agree(v1, v2, |x: ProviderModelConfigRecord, y: ProviderModelConfigRecord| model_agree(x, y)),
    ensures
        model_entries_error(pid, v1) == model_entries_error(pid, v2),
    decreases v1.len(),
{
    if v1.len() > 0 {
        let f = |x: ProviderModelConfigRecord, y: ProviderModelConfigRecord| model_agree(x, y);
        lemma_drop_agree(v1, v2, f);
        lemma_nonblank_agree(v1[0].1.backend, v2[0].1.backend);
        assert(model_entry_error(pid, v1[0].0@, v1[0].1) == model_entry_error(pid, v2[0].0@, v2[0].1));
        lemma_model_entries_agree(pid, v1.drop_first(), v2.drop_first());
    }
}

proof fn lemma_providers_error_agree(v1: Seq<(String, ProviderConfigFileRecord)>, v2: Seq<(String, ProviderConfigFileRecord)>)
    requires
        keyed_agree(v1, v2, |x: ProviderConfigFileRecord, y: ProviderConfigFileRecord| provider_agree(x, y)),
    ensures
        providers_error(v1) == providers_error(v2),
    decreases v1.len(),
{
    if v1.len() > 0 {
        let f = |x: ProviderConfigFileRecord, y: ProviderConfigFileRecord| provider_agree(x, y);
        lemma_drop_agree(v1, v2, f);
        let (p1, p2) = (v1[0].1, v2[0].1);
        let pid = v1[0].0@;
        lemma_nonblank_agree(p1.active_model, p2.active_model);
        let g = |x: ProviderModelConfigRecord, y: ProviderModelConfigRecord| model_agree(x, y);
        match nonblank(p1.active_model) {
            Some(am) => lemma_lookup_agree(p1.models@, p2.models@, g, am),
            None => {},
        }
        lemma_model_entries_agree(pid, p1.models@, p2.models@);
        assert(provider_entry_error(pid, p1) == provider_entry_error(v2[0].0@, p2));
        lemma_providers_error_agree(v1.drop_first(), v2.drop_first());
    }
}

proof fn lemma_model_ref_agree(c1: FauniConfig, c2: FauniConfig, r: Seq<char>)
    requires
        config_agree(c1, c2),
    ensures
        match (resolve_model_ref(c1, r), resolve_model_ref(c2, r)) {
            (Err(e1), Err(e2)) => e1 == e2,
            (Ok((_, m1)), Ok((_, m2))) => model_agree(m1, m2),
            _ => false,
        },
{
    let f = |x: ProviderConfigFileRecord, y: ProviderConfigFileRecord| provider_agree(x, y);
    let g = |x: ProviderModelConfigRecord, y: ProviderModelConfigRecord| model_agree(x, y);
    match crate::text::first_index_of(r, '/') {
        None => {},
        Some(k) => {
            let pid = r.take(k);
            let mid = r.skip(k + 1);
            lemma_lookup_agree(c1.provider@, c2.provider@, f, pid);
            match (lookup(c1.provider@, pid), lookup(c2.provider@, pid)) {
                (Some(p1), Some(p2)) => {
                    assert(provider_agree(p1, p2));
                    lemma_lookup_agree(p1.models@, p2.models@, g, mid);
                },
                _ => {},
            }
        },
    }
}

proof fn lemma_content_types_error_agree(
    c1: FauniConfig,
    c2: FauniConfig,
    v1: Seq<(String, ContentTypeConfigRecord)>,
    v2: Seq<(String, ContentTypeConfigRecord)>,
)
    requires
        config_agree(c1, c2),
        keyed_agree(v1, v2, |x: ContentTypeConfigRecord, y: ContentTypeConfigRecord| binding_agree(x, y)),
    ensures
        content_types_error(c1, v1) == content_types_error(c2, v2),
    decreases v1.len(),
{
    if v1.len() > 0 {
        let f = |x: ContentTypeConfigRecord, y: ContentTypeConfigRecord| binding_agree(x, y);
        lemma_drop_agree(v1, v2, f);
        let (b1, b2) = (v1[0].1, v2[0].1);
        lemma_model_ref_agree(c1, c2, b1.model@);
        assert(content_type_entry_error(c1, v1[0].0@, b1) == content_type_entry_error(c2, v2[0].0@, b2));
        lemma_content_types_error_agree(c1, c2, v1.drop_first(), v2.drop_first());
    }
}

/// Configurations that agree are validated alike.
proof fn lemma_config_error_agree(c1: FauniConfig, c2: FauniConfig)
    requires
        config_agree(c1, c2),
    ensures
        config_error(c1) == config_error(c2),
{
    lemma_providers_error_agree(c1.provider@, c2.provider@);
    lemma_content_types_error_agree(c1, c2, c1.content_types@, c2.content_types@);
}

/// Configurations that agree resolve the local sidecar model alike.
proof fn lemma_resolution_agree(c1: FauniConfig, c2: FauniConfig, selected: Option<Seq<char>>)
    requires
        config_agree(c1, c2),
    ensures
        local_model_resolution(c1, selected) == local_model_resolution(c2, selected),
{
    let f = |x: ProviderConfigFileRecord, y: ProviderConfigFileRecord| provider_agree(x, y);
    let g = |x: ProviderModelConfigRecord, y: ProviderModelConfigRecord| model_agree(x, y);
    lemma_lookup_agree(c1.provider@, c2.provider@, f, "local_sidecar"@);
    match (lookup(c1.provider@, "local_sidecar"@), lookup(c2.provider@, "local_sidecar"@)) {
        (Some(p1), Some(p2)) => {
            assert(provider_agree(p1, p2));
            lemma_nonblank_agree(p1.active_model, p2.active_model);
            let chosen = match selected {
                Some(v) => Some(crate::text::trim(v)),
                None => nonblank(p1.active_model),
            };
            match chosen {
                Some(mid) => {
                    lemma_lookup_agree(p1.models@, p2.models@, g, mid);
                },
                None => {},
            }
        },
        _ => {},
    }
}

proof fn lemma_model_decode_agree(j: JsonV, a: ProviderModelConfigRecord, b: ProviderModelConfigRecord)
    requires
        provider_model_is(j, a),
        provider_model_is(j, b),
    ensures
        model_agree(a, b),
{
    let ps = j->Object_0;
    match pairs_get(ps, "embedding_capabilities"@) {
        None => {
            assert(string_views(a.embedding_capabilities.vector_types@) =~= string_views(b.embedding_capabilities.vector_types@));
        },
        Some(c) => {
            assert(caps_is(c, a.embedding_capabilities) && caps_is(c, b.embedding_capabilities));
        },
    }
}

proof fn lemma_provider_decode_agree(j: JsonV, a: ProviderConfigFileRecord, b: ProviderConfigFileRecord)
    requires
        provider_is(j, a),
        provider_is(j, b),
    ensures
        provider_agree(a, b),
{
    let ps = j->Object_0;
    let g = |x: ProviderModelConfigRecord, y: ProviderModelConfigRecord| model_agree(x, y);
    match pairs_get(ps, "models"@) {
        Some(JsonV::Object(ms)) => {
            assert forall|i: int| 0 <= i < a.models@.len() implies #[trigger] a.models@[i].0@ == b.models@[i].0@ && g(
                a.models@[i].1,
                b.models@[i].1,
            ) by {
                lemma_model_decode_agree(ms[i].1, a.models@[i].1, b.models@[i].1);
            }
        },
        _ => {},
    }
}

/// What a document decodes to is determined, as far as validation and model resolution read
/// it: two configurations that the same document decodes to agree.
proof fn lemma_decode_agree(m: JsonV, c1: FauniConfig, c2: FauniConfig)
    requires
        config_is(m, c1),
        config_is(m, c2),
    ensures
        config_agree(c1, c2),
{
    let ps = m->Object_0;
    let f = |x: ProviderConfigFileRecord, y: ProviderConfigFileRecord| provider_agree(x, y);
    let h = |x: ContentTypeConfigRecord, y: ContentTypeConfigRecord| binding_agree(x, y);
    match pairs_get(ps, "provider"@) {
        Some(JsonV::Object(ms)) => {
            assert forall|i: int| 0 <= i < c1.provider@.len() implies #[trigger] c1.provider@[i].0@ == c2.provider@[i].0@
                && f(c1.provider@[i].1, c2.provider@[i].1) by {
                lemma_provider_decode_agree(ms[i].1, c1.provider@[i].1, c2.provider@[i].1);
            }
        },
        _ => {},
    }
    match pairs_get(ps, "content_types"@) {
        Some(JsonV::Object(ms)) => {
            assert forall|i: int| 0 <= i < c1.content_types@.len() implies #[trigger] c1.content_types@[i].0@
                == c2.content_types@[i].0@ && h(c1.content_types@[i].1, c2.content_types@[i].1) by {
                assert(content_type_is(ms[i].1, c1.content_types@[i].1));
                assert(content_type_is(ms[i].1, c2.content_types@[i].1));
            }
        },
        _ => {},
    }
}

/// Two outcomes of loading the configuration that cannot be told apart by what is read
/// of them: the same error, or configurations that agree.
pub open spec fn loads_agree(l1: Result<LoadedFauniConfig, IoError>, l2: Result<LoadedFauniConfig, IoError>) -> bool {
    match l1 {
        Ok(a) => l2 matches Ok(b) && config_agree(a.config, b.config),
        Err(e) => l2 matches Err(f) && e.kind == f.kind && e.message@ == f.message@,
    }
}

proof fn lemma_decoded_agree(
    m: JsonV,
    a: Seq<char>,
    b: Seq<char>,
    l1: Result<LoadedFauniConfig, IoError>,
    l2: Result<LoadedFauniConfig, IoError>,
)
    requires
        decoded_outcome(m, a, b, l1),
        decoded_outcome(m, a, b, l2),
    ensures
        loads_agree(l1, l2),
{
    if crate::config::config_ok(m) {
        let c1 = choose|c: FauniConfig| config_is(m, c) && validated(c, l1);
        let c2 = choose|c: FauniConfig| config_is(m, c) && validated(c, l2);
        lemma_decode_agree(m, c1, c2);
        lemma_config_error_agree(c1, c2);
    }
}

proof fn lemma_loaded_agree(env: ConfigEnvironment, l1: Result<LoadedFauniConfig, IoError>, l2: Result<LoadedFauniConfig, IoError>)
    requires
        loaded_from_env(env, l1),
        loaded_from_env(env, l2),
    ensures
        loads_agree(l1, l2),
{
    match config_paths(env) {
        Err(_) => {},
        Ok((a, b)) => match config_value(env, a, true) {
            Err(_) => {},
            Ok(rv) => match config_value(env, b, false) {
                Err(_) => {},
                Ok(tv) => lemma_decoded_agree(crate::json::merge(rv, tv), a, b, l1, l2),
            },
        },
    }
}

/// Resolving the local sidecar model from the environment is resolving it in whatever
/// loading the environment's configuration gives: where loading fails, with that error;
/// else the model that the loaded configuration selects, or its resolution error.
pub proof fn lemma_model_from_env_composes(
    env: ConfigEnvironment,
    selected: Option<Seq<char>>,
    r: Result<(String, String, String), IoError>,
    loaded: Result<LoadedFauniConfig, IoError>,
)
    requires
        resolved_model_from_env(env, selected, r),
        loaded_from_env(env, loaded),
    ensures
        match loaded {
            Ok(l) => resolved_model(l.config, selected, r),
            Err(_) => same_error(r, loaded),
        },
{
    let l0 = choose|l: Result<LoadedFauniConfig, IoError>|
        loaded_from_env(env, l) && match l {
            Ok(x) => resolved_model(x.config, selected, r),
            Err(_) => same_error(r, l),
        };
    lemma_loaded_agree(env, l0, loaded);
    match (l0, loaded) {
        (Ok(x), Ok(y)) => lemma_resolution_agree(x.config, y.config, selected),
        _ => {},
    }
}

/// Two resolutions of the local sidecar model from the same environment and selection give
/// the same model, or errors of the same kind and message: in particular the active model
/// and the model with no selection.
pub proof fn lemma_model_from_env_agrees(
    env: ConfigEnvironment,
    selected: Option<Seq<char>>,
    r1: Result<(String, String, String), IoError>,
    r2: Result<(String, String, String), IoError>,
)
    requires
        resolved_model_from_env(env, selected, r1),
        resolved_model_from_env(env, selected, r2),
    ensures
        match r1 {
            Ok((a, b, c)) => r2 matches Ok((x, y, z)) && a@ == x@ && b@ == y@ && c@ == z@,
            Err(e) => r2 matches Err(f) && e.kind == f.kind && e.message@ == f.message@,
        },
{
    let l1 = choose|l: Result<LoadedFauniConfig, IoError>|
        loaded_from_env(env, l) && match l {
            Ok(x) => resolved_model(x.config, selected, r1),
            Err(_) => same_error(r1, l),
        };
    lemma_model_from_env_composes(env, selected, r2, l1);
    match l1 {
        Ok(x) => {},
        Err(_) => {},
    }
}

/// Object members in increasing key order, each key once, as the JSON parser gives them.
pub open spec fn members_ascending(ps: Pairs) -> bool {
    strictly_sorted(pairs_keys(ps))
}

/// An optional document that, where it is an object, lists its members in key order.
pub open spec fn object_ordered(v: Option<JsonV>) -> bool {
    match v {
        Some(JsonV::Object(ms)) => members_ascending(ms),
        _ => true,
    }
}

/// An optional object whose members are in key order, each member an object in key order
/// whose `inner` member is too.
pub open spec fn nested_ordered(v: Option<JsonV>, inner: Seq<char>) -> bool {
    match v {
        Some(JsonV::Object(ms)) => members_ascending(ms) && forall|i: int|
            0 <= i < ms.len() ==> match #[trigger] ms[i].1 {
                JsonV::Object(pp) => members_ascending(pp) && object_ordered(pairs_get(pp, inner)),
                _ => true,
            },
        _ => true,
    }
}

/// The objects of a configuration document that decoding reads as maps (the document, the
/// providers and each provider's models, the content types, the libraries and each
/// library's content types) list their members in key order, as every document that the
/// JSON parser produces does.
pub open spec fn config_doc_ordered(j: JsonV) -> bool {
    match j {
        JsonV::Object(ps) => {
            &&& members_ascending(ps)
            &&& nested_ordered(pairs_get(ps, "provider"@), "models"@)
            &&& object_ordered(pairs_get(ps, "content_types"@))
            &&& nested_ordered(pairs_get(ps, "libraries"@), "content_types"@)
        },
        _ => true,
    }
}

/// The keys of entries, in order.
pub open spec fn entry_keys<T>(v: Seq<(String, T)>) -> Seq<Seq<char>> {
    v.map_values(|e: (String, T)| e.0@)
}

/// Every map of a configuration lists its entries in increasing key order, each key once,
/// as the original's sorted maps hold them; so its validation meets the problems in key
/// order.
pub open spec fn config_ordered(c: FauniConfig) -> bool {
    &&& strictly_sorted(entry_keys(c.provider@))
    &&& forall|i: int| 0 <= i < c.provider@.len() ==> strictly_sorted(entry_keys(#[trigger] c.provider@[i].1.models@))
    &&& strictly_sorted(entry_keys(c.content_types@))
    &&& strictly_sorted(entry_keys(c.libraries@))
    &&& forall|i: int| 0 <= i < c.libraries@.len() ==> strictly_sorted(entry_keys(#[trigger] c.libraries@[i].1.content_types@))
}

proof fn lemma_keys_follow<T>(v: Seq<(String, T)>, ms: Pairs)
    requires
        v.len() == ms.len(),
        forall|i: int| 0 <= i < ms.len() ==> #[trigger] v[i].0@ == ms[i].0,
    ensures
        entry_keys(v) == pairs_keys(ms),
{
    assert(entry_keys(v) =~= pairs_keys(ms));
}

/// A configuration document whose maps list their members in key order (as every document
/// the JSON parser produces does) decodes to a configuration whose maps are in key order.
pub proof fn lemma_decoded_config_ordered(j: JsonV, c: FauniConfig)
    requires
        config_is(j, c),
        config_doc_ordered(j),
    ensures
        config_ordered(c),
{
    let ps = j->Object_0;
    match pairs_get(ps, "provider"@) {
        Some(JsonV::Object(ms)) => {
            assert forall|i: int| 0 <= i < ms.len() implies #[trigger] c.provider@[i].0@ == ms[i].0 by {
                assert(provider_is(ms[i].1, c.provider@[i].1));
            }
            lemma_keys_follow(c.provider@, ms);
            assert forall|i: int| 0 <= i < c.provider@.len() implies strictly_sorted(entry_keys(#[trigger] c.provider@[i].1.models@)) by {
                assert(provider_is(ms[i].1, c.provider@[i].1));
                let pp = ms[i].1->Object_0;
                assert(object_ordered(pairs_get(pp, "models"@)));
                match pairs_get(pp, "models"@) {
                    Some(JsonV::Object(mm)) => {
                        assert forall|k: int| 0 <= k < mm.len() implies #[trigger] c.provider@[i].1.models@[k].0@ == mm[k].0 by {
                            assert(provider_model_is(mm[k].1, c.provider@[i].1.models@[k].1));
                        }
                        lemma_keys_follow(c.provider@[i].1.models@, mm);
                    },
                    _ => {
                        assert(entry_keys(c.provider@[i].1.models@) =~= Seq::<Seq<char>>::empty());
                    },
                }
            }
        },
        _ => {
            assert(entry_keys(c.provider@) =~= Seq::<Seq<char>>::empty());
        },
    }
    match pairs_get(ps, "content_types"@) {
        Some(JsonV::Object(ms)) => {
            assert forall|i: int| 0 <= i < ms.len() implies #[trigger] c.content_types@[i].0@ == ms[i].0 by {
                assert(content_type_is(ms[i].1, c.content_types@[i].1));
            }
            lemma_keys_follow(c.content_types@, ms);
        },
        _ => {
            assert(entry_keys(c.content_types@) =~= Seq::<Seq<char>>::empty());
        },
    }
    match pairs_get(ps, "libraries"@) {
        Some(JsonV::Object(ms)) => {
            assert forall|i: int| 0 <= i < ms.len() implies #[trigger] c.libraries@[i].0@ == ms[i].0 by {
                assert(library_is(ms[i].1, c.libraries@[i].1));
            }
            lemma_keys_follow(c.libraries@, ms);
            assert forall|i: int| 0 <= i < c.libraries@.len() implies strictly_sorted(entry_keys(#[trigger] c.libraries@[i].1.content_types@)) by {
                assert(library_is(ms[i].1, c.libraries@[i].1));
                let lp = ms[i].1->Object_0;
                assert(object_ordered(pairs_get(lp, "content_types"@)));
                match pairs_get(lp, "content_types"@) {
                    Some(JsonV::Object(mm)) => {
                        assert forall|k: int| 0 <= k < mm.len() implies #[trigger] c.libraries@[i].1.content_types@[k].0@ == mm[k].0 by {
                            assert(crate::config::content_override_is(mm[k].1, c.libraries@[i].1.content_types@[k].1));
                        }
                        lemma_keys_follow(c.libraries@[i].1.content_types@, mm);
                    },
                    _ => {
                        assert(entry_keys(c.libraries@[i].1.content_types@) =~= Seq::<Seq<char>>::empty());
                    },
                }
            }
        },
        _ => {
            assert(entry_keys(c.libraries@) =~= Seq::<Seq<char>>::empty());
        },
    }
}

/// A merged document whose maps list their members in key order decodes, where it loads, to
/// a configuration whose maps are in key order.
pub proof fn lemma_loaded_config_ordered(m: JsonV, a: Seq<char>, b: Seq<char>, r: Result<LoadedFauniConfig, IoError>)
    requires
        decoded_outcome(m, a, b, r),
        config_doc_ordered(m),
    ensures
        r matches Ok(l) ==> config_ordered(l.config),
{
    if crate::config::config_ok(m) {
        let c = choose|c: FauniConfig| config_is(m, c) && validated(c, r);
        lemma_decoded_config_ordered(m, c);
    }
}

proof fn lemma_replace_keys(ps: Pairs, k: Seq<char>, v: JsonV)
    ensures
        pairs_keys(pairs_replace(ps, k, v)) == pairs_keys(ps),
    decreases ps.len(),
{
    if ps.len() > 0 {
        let t = ps.drop_first();
        assert(pairs_keys(ps) =~= seq![ps[0].0] + pairs_keys(t));
        if ps[0].0 == k {
            assert(pairs_keys(seq![(k, v)] + t) =~= seq![k] + pairs_keys(t));
        } else {
            lemma_replace_keys(t, k, v);
            assert(pairs_keys(seq![ps[0]] + pairs_replace(t, k, v)) =~= seq![ps[0].0] + pairs_keys(pairs_replace(t, k, v)));
        }
    }
}

proof fn lemma_prepend_sorted(a: Seq<char>, s: Seq<Seq<char>>)
    requires
        strictly_sorted(s),
        forall|j: int| 0 <= j < s.len() ==> lex_lt(a, #[trigger] s[j]),
    ensures
        strictly_sorted(seq![a] + s),
{
    let r = seq![a] + s;
    assert forall|i: int, j: int| 0 <= i < j < r.len() implies lex_lt(#[trigger] r[i], #[trigger] r[j]) by {
        assert(r[j] == s[j - 1]);
        if i > 0 {
            assert(r[i] == s[i - 1]);
        }
    }
}

proof fn lemma_put_ascending(ps: Pairs, k: Seq<char>, v: JsonV)
    ensures
        forall|x: Seq<char>| #[trigger] pairs_keys(pairs_put(ps, k, v)).contains(x) ==> x == k || pairs_keys(ps).contains(x),
        members_ascending(ps) ==> members_ascending(pairs_put(ps, k, v)),
    decreases ps.len(),
{
    let r = pairs_put(ps, k, v);
    if ps.len() == 0 {
        assert(pairs_keys(r) =~= seq![k]);
    } else {
        let t = ps.drop_first();
        let kt = pairs_keys(t);
        assert(pairs_keys(ps) =~= seq![ps[0].0] + kt);
        if ps[0].0 == k {
            assert(pairs_keys(r) =~= seq![k] + kt);
        } else if lex_lt(k, ps[0].0) {
            assert(pairs_keys(r) =~= seq![k] + pairs_keys(ps));
            if members_ascending(ps) {
                assert forall|j: int| 0 <= j < pairs_keys(ps).len() implies lex_lt(k, #[trigger] pairs_keys(ps)[j]) by {
                    assert(pairs_keys(ps)[0] == ps[0].0);
                    if j > 0 {
                        assert(lex_lt(pairs_keys(ps)[0], pairs_keys(ps)[j]));
                        lemma_lex_lt_transitive(k, ps[0].0, pairs_keys(ps)[j]);
                    }
                }
                lemma_prepend_sorted(k, pairs_keys(ps));
            }
        } else {
            lemma_put_ascending(t, k, v);
            let kr = pairs_keys(pairs_put(t, k, v));
            assert(pairs_keys(r) =~= seq![ps[0].0] + kr);
            assert forall|x: Seq<char>| pairs_keys(r).contains(x) implies x == k || pairs_keys(ps).contains(x) by {
                if x != ps[0].0 {
                    let j = choose|j: int| 0 <= j < pairs_keys(r).len() && pairs_keys(r)[j] == x;
                    assert(kr[j - 1] == x);
                    assert(kr.contains(x));
                    assert(x == k || kt.contains(x));
                    if x != k {
                        let m = choose|m: int| 0 <= m < kt.len() && kt[m] == x;
                        assert(pairs_keys(ps)[m + 1] == x);
                    }
                } else {
                    assert(pairs_keys(ps)[0] == x);
                }
            }
            if members_ascending(ps) {
                assert(strictly_sorted(kt)) by {
                    assert forall|i: int, j: int| 0 <= i < j < kt.len() implies lex_lt(#[trigger] kt[i], #[trigger] kt[j]) by {
                        assert(kt[i] == pairs_keys(ps)[i + 1] && kt[j] == pairs_keys(ps)[j + 1]);
                    }
                }
                lemma_lex_lt_total(k, ps[0].0);
                assert forall|j: int| 0 <= j < kr.len() implies lex_lt(ps[0].0, #[trigger] kr[j]) by {
                    assert(kr.contains(kr[j]));
                    if kr[j] != k {
                        let m = choose|m: int| 0 <= m < kt.len() && kt[m] == kr[j];
                        assert(pairs_keys(ps)[m + 1] == kr[j]);
                        assert(pairs_keys(ps)[0] == ps[0].0);
                    }
                }
                lemma_prepend_sorted(ps[0].0, kr);
            }
        }
    }
}

proof fn lemma_merge_pairs_ascending(bp: Pairs, op: Pairs)
    requires
        members_ascending(bp),
    ensures
        members_ascending(merge_pairs(bp, op)),
    decreases op.len(),
{
    if op.len() > 0 {
        let acc = merge_pairs(bp, op.drop_last());
        lemma_merge_pairs_ascending(bp, op.drop_last());
        let k = op.last().0;
        match pairs_get(acc, k) {
            Some(bv) => lemma_replace_keys(acc, k, merge(bv, op.last().1)),
            None => lemma_put_ascending(acc, k, op.last().1),
        }
    }
}

proof fn lemma_get_drop_last(ps: Pairs, k: Seq<char>)
    requires
        ps.len() > 0,
    ensures
        pairs_get(ps, k) == match pairs_get(ps.drop_last(), k) {
            Some(x) => Some(x),
            None => if ps.last().0 == k {
                Some(ps.last().1)
            } else {
                None
            },
        },
    decreases ps.len(),
{
    if ps.len() == 1 {
        assert(ps.drop_last().len() == 0);
        assert(ps.drop_first().len() == 0);
    } else {
        let t = ps.drop_first();
        let d = ps.drop_last();
        assert(d[0] == ps[0]);
        if ps[0].0 != k {
            lemma_get_drop_last(t, k);
            assert(t.drop_last() =~= d.drop_first());
            assert(t.last() == ps.last());
        }
    }
}

proof fn lemma_get_some_contains(ps: Pairs, k: Seq<char>)
    ensures
        pairs_get(ps, k) is Some ==> pairs_keys(ps).contains(k),
    decreases ps.len(),
{
    if ps.len() > 0 {
        let t = ps.drop_first();
        lemma_get_some_contains(t, k);
        if ps[0].0 == k {
            assert(pairs_keys(ps)[0] == k);
        } else if pairs_get(t, k) is Some {
            let j = choose|j: int| 0 <= j < pairs_keys(t).len() && pairs_keys(t)[j] == k;
            assert(pairs_keys(ps)[j + 1] == k);
        }
    }
}

proof fn lemma_ascending_prefix(ps: Pairs)
    requires
        members_ascending(ps),
        ps.len() > 0,
    ensures
        members_ascending(ps.drop_last()),
        !pairs_keys(ps.drop_last()).contains(ps.last().0),
{
    let d = ps.drop_last();
    let kd = pairs_keys(d);
    let kp = pairs_keys(ps);
    assert forall|i: int, j: int| 0 <= i < j < kd.len() implies lex_lt(#[trigger] kd[i], #[trigger] kd[j]) by {
        assert(kd[i] == kp[i] && kd[j] == kp[j]);
    }
    if kd.contains(ps.last().0) {
        let j = choose|j: int| 0 <= j < kd.len() && kd[j] == ps.last().0;
        assert(kp[j] == kd[j] && kp[ps.len() - 1] == ps.last().0);
        assert(lex_lt(kp[j], kp[ps.len() - 1]));
        lemma_lex_lt_irreflexive(ps.last().0);
    }
}

/// What a key holds after an overlay object whose keys are distinct is merged in: its base
/// value, the overlay's value merged into it, or the overlay's value where the base had none.
proof fn lemma_merged_value_unique(base: Option<JsonV>, op: Pairs, k: Seq<char>)
    requires
        members_ascending(op),
    ensures
        merged_value(base, op, k) == match pairs_get(op, k) {
            None => base,
            Some(ov) => Some(
                match base {
                    Some(bv) => merge(bv, ov),
                    None => ov,
                },
            ),
        },
    decreases op.len(),
{
    if op.len() > 0 {
        lemma_ascending_prefix(op);
        lemma_merged_value_unique(base, op.drop_last(), k);
        lemma_get_drop_last(op, k);
        if op.last().0 == k {
            lemma_get_some_contains(op.drop_last(), k);
        }
    }
}

/// What a key holds after merging, from what the base and the overlay hold under it.
pub open spec fn combined(b: Option<JsonV>, o: Option<JsonV>) -> Option<JsonV> {
    match o {
        None => b,
        Some(ov) => Some(
            match b {
                Some(bv) => merge(bv, ov),
                None => ov,
            },
        ),
    }
}

proof fn lemma_merged_member(bp: Pairs, op: Pairs, k: Seq<char>)
    requires
        members_ascending(op),
    ensures
        pairs_get(merge_pairs(bp, op), k) == combined(pairs_get(bp, k), pairs_get(op, k)),
{
    lemma_merge_by_key(bp, op, k);
    lemma_merged_value_unique(pairs_get(bp, k), op, k);
}

proof fn lemma_own_key(ps: Pairs, i: int)
    requires
        members_ascending(ps),
        0 <= i < ps.len(),
    ensures
        pairs_get(ps, ps[i].0) == Some(ps[i].1),
{
    let ks = pairs_keys(ps);
    assert forall|j: int| 0 <= j < i implies ps[j].0 != ps[i].0 by {
        assert(ks[j] == ps[j].0 && ks[i] == ps[i].0);
        assert(lex_lt(ks[j], ks[i]));
        lemma_lex_lt_irreflexive(ps[i].0);
    }
    lemma_get_at(ps, ps[i].0, i);
}

proof fn lemma_get_is_member(ps: Pairs, k: Seq<char>)
    ensures
        pairs_get(ps, k) matches Some(v) ==> exists|j: int| 0 <= j < ps.len() && #[trigger] ps[j] == (k, v),
    decreases ps.len(),
{
    if ps.len() > 0 {
        let t = ps.drop_first();
        lemma_get_is_member(t, k);
        if ps[0].0 == k {
            assert(ps[0] == (k, ps[0].1));
        } else if pairs_get(t, k) is Some {
            let v = pairs_get(t, k)->0;
            let j = choose|j: int| 0 <= j < t.len() && #[trigger] t[j] == (k, v);
            assert(ps[j + 1] == (k, v));
        }
    }
}

proof fn lemma_combined_object_ordered(b: Option<JsonV>, o: Option<JsonV>)
    requires
        object_ordered(b),
        object_ordered(o),
    ensures
        object_ordered(combined(b, o)),
{
    match (b, o) {
        (Some(JsonV::Object(bm)), Some(JsonV::Object(om))) => lemma_merge_pairs_ascending(bm, om),
        _ => {},
    }
}

/// An entry of an object is an object in key order whose `inner` member is too.
pub open spec fn entry_ordered(v: JsonV, inner: Seq<char>) -> bool {
    match v {
        JsonV::Object(pp) => members_ascending(pp) && object_ordered(pairs_get(pp, inner)),
        _ => true,
    }
}

proof fn lemma_nested_entry(ms: Pairs, inner: Seq<char>, k: Seq<char>)
    requires
        nested_ordered(Some(JsonV::Object(ms)), inner),
    ensures
        pairs_get(ms, k) matches Some(v) ==> entry_ordered(v, inner),
{
    lemma_get_is_member(ms, k);
    if pairs_get(ms, k) is Some {
        let v = pairs_get(ms, k)->0;
        let j = choose|j: int| 0 <= j < ms.len() && #[trigger] ms[j] == (k, v);
        assert(ms[j].1 == v);
    }
}

proof fn lemma_combined_entry(b: Option<JsonV>, o: Option<JsonV>, inner: Seq<char>)
    requires
        b matches Some(v) ==> entry_ordered(v, inner),
        o matches Some(v) ==> entry_ordered(v, inner),
    ensures
        combined(b, o) matches Some(v) ==> entry_ordered(v, inner),
{
    match (b, o) {
        (Some(JsonV::Object(bp)), Some(JsonV::Object(op))) => {
            lemma_merge_pairs_ascending(bp, op);
            lemma_merged_member(bp, op, inner);
            lemma_combined_object_ordered(pairs_get(bp, inner), pairs_get(op, inner));
        },
        _ => {},
    }
}

proof fn lemma_combined_nested(b: Option<JsonV>, o: Option<JsonV>, inner: Seq<char>)
    requires
        nested_ordered(b, inner),
        nested_ordered(o, inner),
    ensures
        nested_ordered(combined(b, o), inner),
{
    match (b, o) {
        (Some(JsonV::Object(bm)), Some(JsonV::Object(om))) => {
            let mp = merge_pairs(bm, om);
            lemma_merge_pairs_ascending(bm, om);
            assert forall|i: int| 0 <= i < mp.len() implies entry_ordered(#[trigger] mp[i].1, inner) by {
                let k = mp[i].0;
                lemma_own_key(mp, i);
                lemma_merged_member(bm, om, k);
                lemma_nested_entry(bm, inner, k);
                lemma_nested_entry(om, inner, k);
                lemma_combined_entry(pairs_get(bm, k), pairs_get(om, k), inner);
            }
        },
        _ => {},
    }
}

/// Merging an overlay document into a repository document keeps the maps of both in key
/// order.
pub proof fn lemma_merge_keeps_order(rv: JsonV, tv: JsonV)
    requires
        config_doc_ordered(rv),
        config_doc_ordered(tv),
    ensures
        config_doc_ordered(merge(rv, tv)),
{
    match (rv, tv) {
        (JsonV::Object(bp), JsonV::Object(op)) => {
            lemma_merge_pairs_ascending(bp, op);
            lemma_merged_member(bp, op, "provider"@);
            lemma_merged_member(bp, op, "content_types"@);
            lemma_merged_member(bp, op, "libraries"@);
            lemma_combined_nested(pairs_get(bp, "provider"@), pairs_get(op, "provider"@), "models"@);
            lemma_combined_object_ordered(pairs_get(bp, "content_types"@), pairs_get(op, "content_types"@));
            lemma_combined_nested(pairs_get(bp, "libraries"@), pairs_get(op, "libraries"@), "content_types"@);
        },
        _ => {},
    }
}

/// Every document parsed from the environment's files lists its maps in key order (see
/// `config_doc_ordered`).
pub open spec fn env_documents_ordered(env: ConfigEnvironment) -> bool {
    forall|i: int| 0 <= i < env.files@.len() ==> match #[trigger] env.files@[i].1 {
        ConfigSource::Parsed(j) => config_doc_ordered(json_model(j)),
        _ => true,
    }
}

proof fn lemma_lookup_is_entry<T>(v: Seq<(String, T)>, k: Seq<char>)
    ensures
        lookup(v, k) matches Some(x) ==> exists|i: int| 0 <= i < v.len() && #[trigger] v[i].1 == x,
    decreases v.len(),
{
    if v.len() > 0 {
        lemma_lookup_is_entry(v.drop_first(), k);
        if v[0].0@ != k && lookup(v.drop_first(), k) is Some {
            let x = lookup(v.drop_first(), k)->0;
            let i = choose|i: int| 0 <= i < v.drop_first().len() && #[trigger] v.drop_first()[i].1 == x;
            assert(v[i + 1].1 == x);
        }
    }
}

proof fn lemma_value_ordered(env: ConfigEnvironment, p: Seq<char>, required: bool)
    requires
        env_documents_ordered(env),
    ensures
        config_value(env, p, required) matches Ok(v) ==> config_doc_ordered(v),
{
    lemma_lookup_is_entry(env.files@, p);
    match lookup(env.files@, p) {
        Some(ConfigSource::Parsed(j)) => {
            let i = choose|i: int| 0 <= i < env.files@.len() && #[trigger] env.files@[i].1 == ConfigSource::Parsed(j);
            assert(config_doc_ordered(json_model(j)));
        },
        _ => {
            let e: Pairs = seq![];
            assert(pairs_keys(e) =~= Seq::<Seq<char>>::empty());
        },
    }
}

/// Where the environment's documents list their maps in key order, as the JSON parser gives
/// them, the configuration it loads lists every map in key order, so validation meets the
/// problems in key order.
pub proof fn lemma_loaded_config_ordered_from_env(env: ConfigEnvironment, l: Result<LoadedFauniConfig, IoError>)
    requires
        loaded_from_env(env, l),
        env_documents_ordered(env),
    ensures
        l matches Ok(x) ==> config_ordered(x.config),
{
    match config_paths(env) {
        Err(_) => {},
        Ok((a, b)) => {
            lemma_value_ordered(env, a, true);
            lemma_value_ordered(env, b, false);
            match (config_value(env, a, true), config_value(env, b, false)) {
                (Ok(rv), Ok(tv)) => {
                    lemma_merge_keeps_order(rv, tv);
                    lemma_loaded_config_ordered(crate::json::merge(rv, tv), a, b, l);
                },
                _ => {},
            }
        },
    }
}

} // verus!
