use vstd::prelude::*;
use crate::api_error::{api_error_is, ApiError};
use crate::config::{
    join_path, load_merged_runtime_config, load_merged_runtime_config_from_paths, loaded_from_env, loaded_from_paths,
    local_model_resolution, opt_str_view, opt_view, repo_config_path, resolve_local_sidecar_active_model,
    ConfigEnvironment, EmbeddingCapabilities, LoadedFauniConfig,
};
use crate::error::IoError;
use crate::json::{empty_members, json_model, json_string, pairs_insert, put_member, string_views, Json, JsonV};
use crate::text::{append_str, chars_eq, chars_of, string_of, trim, trim_chars};

verus! {

/// A list of strings with the given views.
pub open spec fn strings_are(v: Vec<String>, s: Seq<Seq<char>>) -> bool {
    string_views(v@) == s
}

fn strings_of2(a: &str, b: &str) -> (r: Vec<String>)
    ensures
        strings_are(r, seq![a@, b@]),
{
    let mut v: Vec<String> = Vec::new();
    v.push(a.to_owned());
    v.push(b.to_owned());
    assert(string_views(v@) =~= seq![a@, b@]);
    v
}

fn push_str(v: &mut Vec<String>, s: &str)
    ensures
        string_views(final(v)@) == string_views(old(v)@).push(s@),
{
    v.push(s.to_owned());
    assert(string_views(v@) =~= string_views(old(v)@).push(s@));
}

fn strings_of1(a: &str) -> (r: Vec<String>)
    ensures
        strings_are(r, seq![a@]),
{
    let mut v: Vec<String> = Vec::new();
    v.push(a.to_owned());
    assert(string_views(v@) =~= seq![a@]);
    v
}

/// Capabilities of a model about which nothing is known: no inputs, no vectors.
pub fn empty_embedding_capabilities() -> (r: EmbeddingCapabilities)
    ensures
        r.input_types@.len() == 0,
        r.vector_types@.len() == 0,
        !r.supports_mixed_inputs,
{
    EmbeddingCapabilities { input_types: Vec::new(), vector_types: Vec::new(), supports_mixed_inputs: false }
}

/// The capabilities of the local sidecar: text and image inputs, late-interaction
/// multivectors, no mixed inputs.
pub fn local_sidecar_embedding_capabilities() -> (r: EmbeddingCapabilities)
    ensures
        strings_are(r.input_types, seq!["text"@, "image"@]),
        strings_are(r.vector_types, seq!["multi_vector_late_interaction"@]),
        !r.supports_mixed_inputs,
{
    EmbeddingCapabilities {
        input_types: strings_of2("text", "image"),
        vector_types: strings_of1("multi_vector_late_interaction"),
        supports_mixed_inputs: false,
    }
}

/// The inputs that the local sidecar can execute: text, image, document and video.
pub fn local_sidecar_execution_input_types() -> (r: Vec<String>)
    ensures
        strings_are(r, seq!["text"@, "image"@, "document"@, "video"@]),
{
    let mut v = strings_of2("text", "image");
    push_str(&mut v, "document");
    push_str(&mut v, "video");
    assert(string_views(v@) =~= seq!["text"@, "image"@, "document"@, "video"@]);
    v
}

/// The DashScope models that content types may use.
pub open spec fn dashscope_content_model(m: Seq<char>) -> bool {
    m == "multimodal-embedding-v1"@ || m == "qwen2.5-vl-embedding"@ || m == "qwen3-vl-embedding"@
        || m == "tongyi-embedding-vision-flash"@ || m == "tongyi-embedding-vision-flash-2026-03-06"@
        || m == "tongyi-embedding-vision-plus"@ || m == "tongyi-embedding-vision-plus-2026-03-06"@
}

/// The vector types of a DashScope model: independent vectors for the first multimodal
/// model, single vectors and independent vectors for the newer ones, single vectors
/// otherwise.
pub open spec fn dashscope_vector_types(m: Seq<char>) -> Seq<Seq<char>> {
    if m == "multimodal-embedding-v1"@ {
        seq!["independent_vectors"@]
    } else if dashscope_content_model(m) && m != "qwen2.5-vl-embedding"@ {
        seq!["single_vector"@, "independent_vectors"@]
    } else {
        seq!["single_vector"@]
    }
}

/// Whether a DashScope model may serve content types.
pub fn is_supported_dashscope_content_model(model_id: &str) -> (r: bool)
    ensures
        r == dashscope_content_model(model_id@),
{
    let m = chars_of(model_id);
    chars_eq(&m, &chars_of("multimodal-embedding-v1")) || chars_eq(&m, &chars_of("qwen2.5-vl-embedding")) || chars_eq(
        &m,
        &chars_of("qwen3-vl-embedding"),
    ) || chars_eq(&m, &chars_of("tongyi-embedding-vision-flash")) || chars_eq(
        &m,
        &chars_of("tongyi-embedding-vision-flash-2026-03-06"),
    ) || chars_eq(&m, &chars_of("tongyi-embedding-vision-plus")) || chars_eq(
        &m,
        &chars_of("tongyi-embedding-vision-plus-2026-03-06"),
    )
}

/// The DashScope models that content types may use, in order.
pub fn dashscope_supported_content_model_ids() -> (r: Vec<String>)
    ensures
        strings_are(
            r,
            seq![
                "multimodal-embedding-v1"@,
                "qwen2.5-vl-embedding"@,
                "qwen3-vl-embedding"@,
                "tongyi-embedding-vision-flash"@,
                "tongyi-embedding-vision-flash-2026-03-06"@,
                "tongyi-embedding-vision-plus"@,
                "tongyi-embedding-vision-plus-2026-03-06"@,
            ],
        ),
{
    let mut v = strings_of2("multimodal-embedding-v1", "qwen2.5-vl-embedding");
    push_str(&mut v, "qwen3-vl-embedding");
    push_str(&mut v, "tongyi-embedding-vision-flash");
    push_str(&mut v, "tongyi-embedding-vision-flash-2026-03-06");
    push_str(&mut v, "tongyi-embedding-vision-plus");
    push_str(&mut v, "tongyi-embedding-vision-plus-2026-03-06");
    assert(string_views(v@) =~= seq![
        "multimodal-embedding-v1"@,
        "qwen2.5-vl-embedding"@,
        "qwen3-vl-embedding"@,
        "tongyi-embedding-vision-flash"@,
        "tongyi-embedding-vision-flash-2026-03-06"@,
        "tongyi-embedding-vision-plus"@,
        "tongyi-embedding-vision-plus-2026-03-06"@,
    ]);
    v
}

/// The capabilities of a DashScope model: text and image inputs, mixed inputs, and the
/// model's vector types (see `dashscope_vector_types`).
pub fn dashscope_embedding_capabilities(model_id: &str) -> (r: EmbeddingCapabilities)
    ensures
        strings_are(r.input_types, seq!["text"@, "image"@]),
        strings_are(r.vector_types, dashscope_vector_types(model_id@)),
        r.supports_mixed_inputs,
{
    let m = chars_of(model_id);
    let vector_types = if chars_eq(&m, &chars_of("multimodal-embedding-v1")) {
        strings_of1("independent_vectors")
    } else if is_supported_dashscope_content_model(model_id) && !chars_eq(&m, &chars_of("qwen2.5-vl-embedding")) {
        strings_of2("single_vector", "independent_vectors")
    } else {
        strings_of1("single_vector")
    };
    EmbeddingCapabilities { input_types: strings_of2("text", "image"), vector_types, supports_mixed_inputs: true }
}

fn strings_contain_str(v: &Vec<String>, s: &str) -> (r: bool)
    ensures
        r == string_views(v@).contains(s@),
{
    let cs = chars_of(s);
    let mut i: usize = 0;
    while i < v.len()
        invariant
            i <= v.len(),
            cs@ == s@,
            forall|k: int| 0 <= k < i ==> v@[k]@ != s@,
        decreases v.len() - i,
    {
        if chars_eq(&chars_of(v[i].as_str()), &cs) {
            assert(string_views(v@)[i as int] == s@);
            return true;
        }
        i = i + 1;
    }
    assert forall|k: int| 0 <= k < string_views(v@).len() implies string_views(v@)[k] != s@ by {
        assert(string_views(v@)[k] == v@[k]@);
    }
    false
}

/// Whether a model takes this kind of input.
pub fn embedding_capabilities_supports_input_type(capabilities: &EmbeddingCapabilities, input_type: &str) -> (r: bool)
    ensures
        r == string_views(capabilities.input_types@).contains(input_type@),
{
    strings_contain_str(&capabilities.input_types, input_type)
}

/// Whether a runtime can execute this kind of input.
pub fn execution_input_types_support_input_type(execution_input_types: &Vec<String>, input_type: &str) -> (r: bool)
    ensures
        r == string_views(execution_input_types@).contains(input_type@),
{
    strings_contain_str(execution_input_types, input_type)
}

/// A built-in provider as the service knows it.
#[derive(Debug)]
pub struct ProviderConfigRecord {
    pub provider_id: String,
    pub display_name: String,
    pub provider_kind: String,
    pub enabled: bool,
    pub base_url: Option<String>,
    pub readonly_reason: Option<String>,
}

/// `p` is the built-in provider with these names and read-only reason, enabled and with no
/// base URL.
pub open spec fn builtin_provider(p: ProviderConfigRecord, id: Seq<char>, name: Seq<char>, reason: Seq<char>) -> bool {
    &&& p.provider_id@ == id
    &&& p.display_name@ == name
    &&& p.provider_kind@ == id
    &&& p.enabled
    &&& p.base_url is None
    &&& opt_view(p.readonly_reason) == Some(reason)
}

/// The built-in providers, by id in key order: DashScope, then the local sidecar.
pub fn default_provider_configs() -> (r: Vec<(String, ProviderConfigRecord)>)
    ensures
        r@.len() == 2,
        r@[0].0@ == "dashscope"@,
        builtin_provider(r@[0].1, "dashscope"@, "DashScope"@, "DashScope is configurable in this slice but not yet executable."@),
        r@[1].0@ == "local_sidecar"@,
        builtin_provider(
            r@[1].1,
            "local_sidecar"@,
            "Local Sidecar"@,
            "Connection and model are derived from the local runtime environment."@,
        ),
{
    let mut configs: Vec<(String, ProviderConfigRecord)> = Vec::new();
    configs.push(
        (
            "dashscope".to_owned(),
            ProviderConfigRecord {
                provider_id: "dashscope".to_owned(),
                display_name: "DashScope".to_owned(),
                provider_kind: "dashscope".to_owned(),
                enabled: true,
                base_url: None,
                readonly_reason: Some("DashScope is configurable in this slice but not yet executable.".to_owned()),
            },
        ),
    );
    configs.push(
        (
            "local_sidecar".to_owned(),
            ProviderConfigRecord {
                provider_id: "local_sidecar".to_owned(),
                display_name: "Local Sidecar".to_owned(),
                provider_kind: "local_sidecar".to_owned(),
                enabled: true,
                base_url: None,
                readonly_reason: Some("Connection and model are derived from the local runtime environment.".to_owned()),
            },
        ),
    );
    configs
}

/// An optional string, trimmed, and none when blank.
pub open spec fn normalized_optional(v: Option<Seq<char>>) -> Option<Seq<char>> {
    match v {
        Some(s) => if trim(s).len() > 0 { Some(trim(s)) } else { None },
        None => None,
    }
}

/// Trims an optional string and drops it when blank.
pub fn normalize_optional_string(value: Option<String>) -> (r: Option<String>)
    ensures
        opt_view(r) == normalized_optional(opt_view(value)),
{
    match value {
        Some(v) => {
            let t = trim_chars(&chars_of(v.as_str()));
            if t.len() > 0 { Some(string_of(&t)) } else { None }
        },
        None => None,
    }
}

/// A required string field, trimmed; an error when it is blank.
pub fn normalize_required_string(value: &str, field: &str) -> (r: Result<String, ApiError>)
    ensures
        trim(value@).len() > 0 ==> (r matches Ok(s) && s@ == trim(value@)),
        trim(value@).len() == 0 ==> (r matches Err(e) && api_error_is(
            e,
            422,
            "validation_failed"@,
            "field must not be empty."@,
            Some(JsonV::Object(pairs_insert(seq![], "field"@, JsonV::Str(field@)))),
            false,
        )),
{
    let t = trim_chars(&chars_of(value));
    if t.len() == 0 {
        return Err(ApiError::validation_failed("field must not be empty.", Some(crate::api_error::field_details(field))));
    }
    Ok(string_of(&t))
}

/// Details that name a field under a prefix, the supported values and the value received.
pub open spec fn choice_details(field: Seq<char>, supported: Seq<Seq<char>>, received: Seq<char>) -> JsonV {
    JsonV::Object(pairs_insert(
        pairs_insert(
            pairs_insert(seq![], "field"@, JsonV::Str(field)),
            "supported"@,
            JsonV::Array(supported.map_values(|s: Seq<char>| JsonV::Str(s))),
        ),
        "received"@,
        JsonV::Str(received),
    ))
}

fn choice_details_json(field: &Vec<char>, supported: &Vec<String>, received: &str) -> (r: Json)
    ensures
        json_model(r) == choice_details(field@, string_views(supported@), received@),
{
    let mut d = empty_members();
    put_member(&mut d, "field", Json::Str(string_of(field)));
    put_member(&mut d, "supported", crate::json::json_strings(supported));
    put_member(&mut d, "received", json_string(received));
    Json::Object(d)
}

/// A provider id, trimmed, that must name a built-in provider.
pub fn normalize_provider_id(value: &str, field_prefix: &str) -> (r: Result<String, ApiError>)
    ensures
        trim(value@).len() == 0 ==> (r matches Err(e) && api_error_is(
            e,
            422,
            "validation_failed"@,
            "provider_id must not be empty."@,
            Some(JsonV::Object(pairs_insert(seq![], "field"@, JsonV::Str(field_prefix@ + ".provider_id"@)))),
            false,
        )),
        trim(value@).len() > 0 && trim(value@) != "local_sidecar"@ && trim(value@) != "dashscope"@ ==> (r matches Err(e)
            && api_error_is(
            e,
            422,
            "validation_failed"@,
            "provider_id must be one of the supported built-in providers."@,
            Some(choice_details(field_prefix@ + ".provider_id"@, seq!["local_sidecar"@, "dashscope"@], trim(value@))),
            false,
        )),
        (trim(value@) == "local_sidecar"@ || trim(value@) == "dashscope"@) ==> (r matches Ok(s) && s@ == trim(value@)),
{
    proof {
        reveal_strlit("local_sidecar");
        reveal_strlit("dashscope");
    }
    let t = trim_chars(&chars_of(value));
    let mut field = chars_of(field_prefix);
    append_str(&mut field, ".provider_id");
    if t.len() == 0 {
        return Err(ApiError::validation_failed(
            "provider_id must not be empty.",
            Some(crate::api_error::field_details(string_of(&field).as_str())),
        ));
    }
    if !chars_eq(&t, &chars_of("local_sidecar")) && !chars_eq(&t, &chars_of("dashscope")) {
        let supported = strings_of2("local_sidecar", "dashscope");
        let received = string_of(&t);
        return Err(ApiError::validation_failed(
            "provider_id must be one of the supported built-in providers.",
            Some(choice_details_json(&field, &supported, received.as_str())),
        ));
    }
    Ok(string_of(&t))
}

/// Checks that a DashScope content-type binding names a model that content types may use.
pub fn validate_provider_selection_shape(provider_id: &str, model_id: &str, field_prefix: &str) -> (r: Result<(), ApiError>)
    ensures
        (provider_id@ == "dashscope"@ && !dashscope_content_model(model_id@)) ==> (r matches Err(e) && api_error_is(
            e,
            422,
            "validation_failed"@,
            "model_id is not supported for the current DashScope content-type execution slice."@,
            Some(choice_details(
                field_prefix@ + ".model_id"@,
                seq![
                    "multimodal-embedding-v1"@,
                    "qwen2.5-vl-embedding"@,
                    "qwen3-vl-embedding"@,
                    "tongyi-embedding-vision-flash"@,
                    "tongyi-embedding-vision-flash-2026-03-06"@,
                    "tongyi-embedding-vision-plus"@,
                    "tongyi-embedding-vision-plus-2026-03-06"@,
                ],
                model_id@,
            )),
            false,
        )),
        !(provider_id@ == "dashscope"@ && !dashscope_content_model(model_id@)) ==> r is Ok,
{
    if chars_eq(&chars_of(provider_id), &chars_of("dashscope")) && !is_supported_dashscope_content_model(model_id) {
        let mut field = chars_of(field_prefix);
        append_str(&mut field, ".model_id");
        let supported = dashscope_supported_content_model_ids();
        return Err(ApiError::validation_failed(
            "model_id is not supported for the current DashScope content-type execution slice.",
            Some(choice_details_json(&field, &supported, model_id)),
        ));
    }
    Ok(())
}


/// The local sidecar model that the runtime reports.
#[derive(Debug)]
pub struct ProviderRuntimeModelSnapshot {
    pub model_id: String,
    pub model_revision: Option<String>,
}

/// The active local sidecar model (id and version) of a loaded configuration, if it has one.
pub open spec fn active_model_of(l: Result<LoadedFauniConfig, IoError>) -> Option<(Seq<char>, Seq<char>)> {
    match l {
        Ok(x) => match local_model_resolution(x.config, None) {
            Ok((id, version, _)) => Some((id, version)),
            Err(_) => None,
        },
        Err(_) => None,
    }
}

/// The runtime configuration path of the fallback lookup: under `APP_RUNTIME_DIR` unless it
/// is unset or blank, else a path that holds no file.
pub open spec fn fallback_runtime_path(app_runtime_dir: Option<String>) -> Seq<char> {
    match app_runtime_dir {
        Some(d) => if trim(d@).len() > 0 {
            join_path(d@, "runtime-config.json"@)
        } else {
            ".fauni-missing-runtime-config.json"@
        },
        None => ".fauni-missing-runtime-config.json"@,
    }
}

/// `r` reports this model id and revision.
pub open spec fn reports(r: ProviderRuntimeModelSnapshot, id: Seq<char>, revision: Option<Seq<char>>) -> bool {
    r.model_id@ == id && opt_view(r.model_revision) == revision
}

/// `r` is the local sidecar model that the runtime reports: the active model of the
/// configuration at the environment's paths; failing that, of the configuration at the
/// repository path and the fallback runtime path; failing that, the model named by
/// `EMBEDDING_MODEL_ID` (or `runtime-bound-local-sidecar`) with the revision named by
/// `EMBEDDING_MODEL_REVISION`, both trimmed and dropped when blank.
pub open spec fn fallback_model_is(
    env: ConfigEnvironment,
    model_id: Option<Seq<char>>,
    model_revision: Option<Seq<char>>,
    r: ProviderRuntimeModelSnapshot,
) -> bool {
    exists|l1: Result<LoadedFauniConfig, IoError>|
        loaded_from_env(env, l1) && match active_model_of(l1) {
            Some((id, version)) => reports(r, id, Some(version)),
            None => exists|l2: Result<LoadedFauniConfig, IoError>|
                loaded_from_paths(
                    env,
                    repo_config_path(env.fauni_config_path),
                    fallback_runtime_path(env.app_runtime_dir),
                    l2,
                ) && match active_model_of(l2) {
                    Some((id, version)) => reports(r, id, Some(version)),
                    None => reports(
                        r,
                        match normalized_optional(model_id) {
                            Some(m) => m,
                            None => "runtime-bound-local-sidecar"@,
                        },
                        normalized_optional(model_revision),
                    ),
                },
        }
}

fn active_model_from(loaded: &Result<LoadedFauniConfig, IoError>) -> (r: Option<ProviderRuntimeModelSnapshot>)
    ensures
        match active_model_of(*loaded) {
            Some((id, version)) => r matches Some(s) && reports(s, id, Some(version)),
            None => r is None,
        },
{
    match loaded {
        Ok(l) => match resolve_local_sidecar_active_model(&l.config) {
            Ok(m) => Some(ProviderRuntimeModelSnapshot { model_id: m.model_id, model_revision: Some(m.version) }),
            Err(_) => None,
        },
        Err(_) => None,
    }
}

/// The local sidecar model that the runtime reports (see `fallback_model_is`); the two
/// optional values are `EMBEDDING_MODEL_ID` and `EMBEDDING_MODEL_REVISION`.
pub fn fallback_local_sidecar_runtime_model(
    env: &ConfigEnvironment,
    embedding_model_id: Option<&str>,
    embedding_model_revision: Option<&str>,
) -> (r: ProviderRuntimeModelSnapshot)
    ensures
        fallback_model_is(*env, opt_str_view(embedding_model_id), opt_str_view(embedding_model_revision), r),
{
    let first = load_merged_runtime_config(env);
    match active_model_from(&first) {
        Some(s) => {
            assert(loaded_from_env(*env, first));
            return s;
        },
        None => {},
    }
    let repo_path = match &env.fauni_config_path {
        Some(p) => {
            if trim_chars(&chars_of(p.as_str())).len() > 0 { p.clone() } else { "fauni.config.json".to_owned() }
        },
        None => "fauni.config.json".to_owned(),
    };
    let runtime_path = match &env.app_runtime_dir {
        Some(d) => {
            if trim_chars(&chars_of(d.as_str())).len() > 0 {
                let mut p = chars_of(d.as_str());
                let ghost d0 = p@;
                if p.len() > 0 && p[p.len() - 1] != '/' {
                    p.push('/');
                }
                append_str(&mut p, "runtime-config.json");
                proof {
                    reveal_strlit("/");
                }
                assert(p@ =~= join_path(d0, "runtime-config.json"@));
                string_of(&p)
            } else {
                ".fauni-missing-runtime-config.json".to_owned()
            }
        },
        None => ".fauni-missing-runtime-config.json".to_owned(),
    };
    let second = load_merged_runtime_config_from_paths(env, &repo_path, &runtime_path);
    let result = match active_model_from(&second) {
        Some(s) => s,
        None => {
            let model_id = match normalize_optional_string(
                match embedding_model_id {
                    Some(v) => Some(v.to_owned()),
                    None => None,
                },
            ) {
                Some(m) => m,
                None => "runtime-bound-local-sidecar".to_owned(),
            };
            let model_revision = normalize_optional_string(
                match embedding_model_revision {
                    Some(v) => Some(v.to_owned()),
                    None => None,
                },
            );
            ProviderRuntimeModelSnapshot { model_id, model_revision }
        },
    };
    assert(loaded_from_paths(*env, repo_config_path(env.fauni_config_path), fallback_runtime_path(env.app_runtime_dir), second));
    assert(loaded_from_env(*env, first));
    result
}

/// Which model a request resolved to, and where the binding came from.
#[derive(Debug)]
pub struct ResolvedModelSelectionPayload {
    pub provider_id: String,
    pub provider_kind: String,
    pub model_id: String,
    pub model_version: String,
    pub model_revision: Option<String>,
    pub binding_source: String,
    pub status: String,
}

/// A resolved model with the vector space it embeds into.
#[derive(Debug)]
pub struct ResolvedExecutionModelSelection {
    pub summary: ResolvedModelSelectionPayload,
    pub vector_type: String,
    pub vector_space_id: String,
    pub execution_input_types: Vec<String>,
}

/// An optional string as JSON: the string, or `null`.
pub open spec fn opt_string_json(o: Option<String>) -> JsonV {
    match o {
        Some(s) => JsonV::Str(s@),
        None => JsonV::Null,
    }
}

/// The provider context sent along with an embedding request.
pub open spec fn provider_context_json(s: ResolvedExecutionModelSelection) -> JsonV {
    JsonV::Object(
        pairs_insert(
            pairs_insert(
                pairs_insert(
                    pairs_insert(
                        pairs_insert(
                            pairs_insert(
                                pairs_insert(
                                    pairs_insert(seq![], "provider_id"@, JsonV::Str(s.summary.provider_id@)),
                                    "provider_kind"@,
                                    JsonV::Str(s.summary.provider_kind@),
                                ),
                                "model_id"@,
                                JsonV::Str(s.summary.model_id@),
                            ),
                            "model_version"@,
                            JsonV::Str(s.summary.model_version@),
                        ),
                        "model_revision"@,
                        opt_string_json(s.summary.model_revision),
                    ),
                    "vector_type"@,
                    JsonV::Str(s.vector_type@),
                ),
                "vector_space_id"@,
                JsonV::Str(s.vector_space_id@),
            ),
            "binding_source"@,
            JsonV::Str(s.summary.binding_source@),
        ),
    )
}

/// See `provider_context_json`.
pub fn provider_context_payload(selection: &ResolvedExecutionModelSelection) -> (r: Json)
    ensures
        json_model(r) == provider_context_json(*selection),
{
    let mut o = empty_members();
    put_member(&mut o, "provider_id", Json::Str(selection.summary.provider_id.clone()));
    put_member(&mut o, "provider_kind", Json::Str(selection.summary.provider_kind.clone()));
    put_member(&mut o, "model_id", Json::Str(selection.summary.model_id.clone()));
    put_member(&mut o, "model_version", Json::Str(selection.summary.model_version.clone()));
    let revision = match &selection.summary.model_revision {
        Some(r) => Json::Str(r.clone()),
        None => Json::Null,
    };
    put_member(&mut o, "model_revision", revision);
    put_member(&mut o, "vector_type", Json::Str(selection.vector_type.clone()));
    put_member(&mut o, "vector_space_id", Json::Str(selection.vector_space_id.clone()));
    put_member(&mut o, "binding_source", Json::Str(selection.summary.binding_source.clone()));
    Json::Object(o)
}

/// The probe of a provider that cannot be probed, taken at `now`.
pub fn static_not_supported_probe(message: &str, now: &str) -> (r: crate::sidecar::ProviderProbeSnapshot)
    ensures
        crate::sidecar::probe_is(r, "not_supported"@, message@, now@),
{
    crate::sidecar::ProviderProbeSnapshot {
        status: "not_supported".to_owned(),
        message: message.to_owned(),
        last_probed_at: Some(now.to_owned()),
    }
}

/// What the service reports of a provider. The entries of `models` are documents, as the
/// service's model listing shape is not fixed here.
#[derive(Debug)]
pub struct ProviderConfigSnapshot {
    pub provider_id: String,
    pub display_name: String,
    pub provider_kind: String,
    pub enabled: bool,
    pub active_model: Option<ResolvedModelSelectionPayload>,
    pub base_url: Option<String>,
    pub readonly_reason: Option<String>,
    pub probe: Option<crate::sidecar::ProviderProbeSnapshot>,
    pub origin: String,
    pub models: Vec<Json>,
}

impl ProviderConfigRecord {
    /// The baseline report of a provider: its own fields, no active model, probe or models,
    /// origin `baseline`.
    pub fn snapshot(&self) -> (r: ProviderConfigSnapshot)
        ensures
            r.provider_id == self.provider_id,
            r.display_name == self.display_name,
            r.provider_kind == self.provider_kind,
            r.enabled == self.enabled,
            r.active_model is None,
            opt_view(r.base_url) == opt_view(self.base_url),
            opt_view(r.readonly_reason) == opt_view(self.readonly_reason),
            r.probe is None,
            r.origin@ == "baseline"@,
            r.models@.len() == 0,
    {
        ProviderConfigSnapshot {
            provider_id: self.provider_id.clone(),
            display_name: self.display_name.clone(),
            provider_kind: self.provider_kind.clone(),
            enabled: self.enabled,
            active_model: None,
            base_url: self.base_url.clone(),
            readonly_reason: self.readonly_reason.clone(),
            probe: None,
            origin: "baseline".to_owned(),
            models: Vec::new(),
        }
    }
}

} // verus!
